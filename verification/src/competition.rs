//! Competition state checks.
//!
//! The robot's competition status arrives from the hardware as one word
//! with a bit per state; reading that word is the platform's business.
//! Decoding the bits is pure and lives here: once a `CompetitionStatus`
//! is made it is a snapshot and never updated again.

use vstd::prelude::*;

verus! {

pub const COMPETITION_AUTONOMOUS: u8 = 1;
pub const COMPETITION_DISABLED: u8 = 2;
pub const COMPETITION_CONNECTED: u8 = 4;

/// A snapshot of the robot's competition control word, allowing checks
/// for the autonomous, disabled and connected states.
#[derive(Debug, Clone, Copy, PartialEq, Eq, Structural)]
pub struct CompetitionStatus(pub u8);

impl CompetitionStatus {
    pub open spec fn autonomous_set(&self) -> bool {
        self.0 & COMPETITION_AUTONOMOUS != 0
    }

    pub open spec fn disabled_set(&self) -> bool {
        self.0 & COMPETITION_DISABLED != 0
    }

    pub open spec fn connected_set(&self) -> bool {
        self.0 & COMPETITION_CONNECTED != 0
    }

    /// Whether the robot is in autonomous mode.
    pub fn autonomous(&self) -> (r: bool)
        ensures
            r == self.autonomous_set(),
    {
        self.0 & COMPETITION_AUTONOMOUS != 0
    }

    /// Whether the robot is disabled.
    pub fn disabled(&self) -> (r: bool)
        ensures
            r == self.disabled_set(),
    {
        self.0 & COMPETITION_DISABLED != 0
    }

    /// Whether the robot is connected to a field or competition switch.
    pub fn connected(&self) -> (r: bool)
        ensures
            r == self.connected_set(),
    {
        self.0 & COMPETITION_CONNECTED != 0
    }
}

/// Check a status word for autonomous mode.
pub fn is_autonomous(status: CompetitionStatus) -> (r: bool)
    ensures
        r == status.autonomous_set(),
{
    status.autonomous()
}

/// Check a status word for the disabled state.
pub fn is_disabled(status: CompetitionStatus) -> (r: bool)
    ensures
        r == status.disabled_set(),
{
    status.disabled()
}

/// Check a status word for a field or competition switch connection.
pub fn is_connected(status: CompetitionStatus) -> (r: bool)
    ensures
        r == status.connected_set(),
{
    status.connected()
}

} // verus!
