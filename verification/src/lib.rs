//! A cooperative task-scheduling runtime for a single-core controller,
//! together with the plain-value device logic that surrounds it: an
//! executor that drives deferred computations, a reactor that wakes
//! time-based suspensions, and a mutual-exclusion primitive that fits
//! the suspension model.

pub mod adi;
pub mod color;
pub mod competition;
pub mod controller;
pub mod display;
pub mod distance;
pub mod errors;
pub mod executor;
pub mod futures;
pub mod lcd;
pub mod logger;
pub mod queue;
pub mod serial;
pub mod reactor;
pub mod sync;
pub mod vision;
pub mod table;
