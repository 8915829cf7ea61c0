//! The hand controller's errors.
//!
//! Reading sticks and buttons is the platform's business; what its
//! error numbers mean lives here.

use vstd::prelude::*;

use crate::errors::{EACCES, EINVAL, FromErrno};

verus! {

/// Errors the controller can report.
#[derive(Clone, Copy, Debug, PartialEq, Eq, Structural)]
pub enum ControllerError {
    /// The controller identifier given was invalid.
    InvalidControllerId,
    /// Another resource is already using the controller.
    ConcurrentAccess,
    /// The text for the controller's screen held a byte its wire format
    /// cannot carry.
    NonTerminatingNul,
}

impl FromErrno for ControllerError {
    open spec fn errno_spec(num: i32) -> Option<ControllerError> {
        if num == EACCES {
            Some(ControllerError::ConcurrentAccess)
        } else if num == EINVAL {
            Some(ControllerError::InvalidControllerId)
        } else {
            None
        }
    }

    open spec fn unknown_spec(num: i32) -> Option<ControllerError> {
        None
    }

    fn try_from_errno(num: i32) -> (r: Option<ControllerError>) {
        if num == EACCES {
            Some(ControllerError::ConcurrentAccess)
        } else if num == EINVAL {
            Some(ControllerError::InvalidControllerId)
        } else {
            None
        }
    }

    fn unknown_variant(num: i32) -> (r: Option<ControllerError>) {
        None
    }

    fn from_errno(num: i32) -> (r: ControllerError) {
        match Self::try_from_errno(num) {
            Some(e) => e,
            None => vstd::pervasive::unreached(),
        }
    }
}

} // verus!
