//! The vision sensor's configuration vocabulary and errors.
//!
//! Talking to the camera is the platform's business; the pure part —
//! the white balance and LED modes a caller can ask for, and what the
//! sensor's error numbers mean — lives here.

use vstd::prelude::*;

use crate::color::Rgb;
use crate::errors::{EACCES, EAGAIN, EDOM, EHOSTDOWN, EINVAL, ErrnoError, FromErrno, PortError};

verus! {

/// The camera's white balance mode.
#[derive(Default, Debug, Clone, Copy, PartialEq, Eq, Structural)]
pub enum WhiteBalance {
    /// The sensor adjusts the white balance itself, using the brightest
    /// part of the image as a white point.
    #[default]
    Auto,
    /// Manual control over the white balance with an RGB color.
    Manual(Rgb),
}

/// The sensor's integrated LED mode.
#[derive(Default, Debug, Clone, Copy, PartialEq, Eq, Structural)]
pub enum LedMode {
    /// The LED shows the color of the most prominent detected object's
    /// signature.
    #[default]
    Auto,
    /// The LED shows a caller-set RGB color.
    Manual(Rgb),
}

/// Errors a vision sensor can report.
#[derive(Clone, Copy, Debug, PartialEq, Eq, Structural)]
pub enum VisionError {
    /// The index was higher than the number of objects the camera sees.
    IndexTooHigh,
    /// The signature identifier or argument is out of range.
    InvalidIdentifier,
    /// The camera could not be read.
    ReadingFailed,
    /// Another resource is currently trying to access the port.
    ConcurrentAccess,
    /// A generic port error.
    Port(PortError),
}

impl FromErrno for VisionError {
    open spec fn errno_spec(num: i32) -> Option<VisionError> {
        if PortError::errno_spec(num) is Some {
            Some(VisionError::Port(PortError::errno_spec(num).unwrap()))
        } else if num == EHOSTDOWN || num == EAGAIN {
            Some(VisionError::ReadingFailed)
        } else if num == EDOM {
            Some(VisionError::IndexTooHigh)
        } else if num == EINVAL {
            Some(VisionError::InvalidIdentifier)
        } else if num == EACCES {
            Some(VisionError::ConcurrentAccess)
        } else {
            None
        }
    }

    open spec fn unknown_spec(num: i32) -> Option<VisionError> {
        Some(VisionError::Port(PortError::Unknown(ErrnoError { errno: num })))
    }

    fn try_from_errno(num: i32) -> (r: Option<VisionError>) {
        match PortError::try_from_errno(num) {
            Some(e) => Some(VisionError::Port(e)),
            None => if num == EHOSTDOWN || num == EAGAIN {
                Some(VisionError::ReadingFailed)
            } else if num == EDOM {
                Some(VisionError::IndexTooHigh)
            } else if num == EINVAL {
                Some(VisionError::InvalidIdentifier)
            } else if num == EACCES {
                Some(VisionError::ConcurrentAccess)
            } else {
                None
            },
        }
    }

    fn unknown_variant(num: i32) -> (r: Option<VisionError>) {
        Some(VisionError::Port(PortError::Unknown(ErrnoError { errno: num })))
    }

    fn from_errno(num: i32) -> (r: VisionError) {
        match Self::try_from_errno(num) {
            Some(e) => e,
            None => VisionError::Port(PortError::Unknown(ErrnoError { errno: num })),
        }
    }
}

} // verus!
