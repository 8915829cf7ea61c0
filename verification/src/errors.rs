//! Errors read back from the platform's `errno` convention.
//!
//! Hardware calls report failure through an error number; each device
//! error type knows which numbers it stands for. Reading and clearing
//! the live `errno` cell is the platform's business; the mapping from a
//! number to an error is pure and lives here.

use vstd::prelude::*;

verus! {

pub const EIO: i32 = 5;
pub const ENXIO: i32 = 6;
pub const EAGAIN: i32 = 11;
pub const EACCES: i32 = 13;
pub const ENODEV: i32 = 19;
pub const EINVAL: i32 = 22;
pub const EDOM: i32 = 33;
pub const EADDRINUSE: i32 = 98;
pub const EHOSTDOWN: i32 = 112;

/// Builds an error of the implementing type out of an `errno` value.
/// An error number of zero means "no error" and is never mapped.
pub trait FromErrno: Sized {
    /// The known mapping: which error, if any, this number stands for.
    spec fn errno_spec(num: i32) -> Option<Self>;

    /// The fallback for numbers outside the known mapping, if the type
    /// has one.
    spec fn unknown_spec(num: i32) -> Option<Self>;

    /// Map a known error number, `None` for an unknown one.
    fn try_from_errno(num: i32) -> (r: Option<Self>)
        requires
            num != 0,
        ensures
            r == Self::errno_spec(num),
    ;

    /// The variant to return for an unknown error number.
    fn unknown_variant(num: i32) -> (r: Option<Self>)
        ensures
            r == Self::unknown_spec(num),
    ;

    /// Map an error number, falling back on the unknown variant; callers
    /// must stay within the numbers the type can express.
    fn from_errno(num: i32) -> (r: Self)
        requires
            num != 0,
            Self::errno_spec(num) is Some || Self::unknown_spec(num) is Some,
        ensures
            Some(r) == (if Self::errno_spec(num) is Some {
                Self::errno_spec(num)
            } else {
                Self::unknown_spec(num)
            }),
    ;
}

/// An error number with no more specific meaning.
#[derive(Clone, Copy, Debug, PartialEq, Eq, Structural)]
pub struct ErrnoError {
    pub errno: i32,
}

impl FromErrno for ErrnoError {
    open spec fn errno_spec(num: i32) -> Option<ErrnoError> {
        None
    }

    open spec fn unknown_spec(num: i32) -> Option<ErrnoError> {
        Some(ErrnoError { errno: num })
    }

    fn try_from_errno(num: i32) -> (r: Option<ErrnoError>) {
        None
    }

    fn unknown_variant(num: i32) -> (r: Option<ErrnoError>) {
        Some(ErrnoError { errno: num })
    }

    fn from_errno(num: i32) -> (r: ErrnoError) {
        ErrnoError { errno: num }
    }
}

/// Errors shared by most hardware that plugs into a port.
#[derive(Clone, Copy, Debug, PartialEq, Eq, Structural)]
pub enum PortError {
    /// The port is outside of the allowed range.
    PortOutOfRange,
    /// The port cannot be configured as the requested device type.
    PortCannotBeConfigured,
    /// Some other error number came back.
    Unknown(ErrnoError),
}

impl FromErrno for PortError {
    open spec fn errno_spec(num: i32) -> Option<PortError> {
        if num == ENXIO {
            Some(PortError::PortOutOfRange)
        } else if num == ENODEV {
            Some(PortError::PortCannotBeConfigured)
        } else {
            None
        }
    }

    open spec fn unknown_spec(num: i32) -> Option<PortError> {
        Some(PortError::Unknown(ErrnoError { errno: num }))
    }

    fn try_from_errno(num: i32) -> (r: Option<PortError>) {
        if num == ENXIO {
            Some(PortError::PortOutOfRange)
        } else if num == ENODEV {
            Some(PortError::PortCannotBeConfigured)
        } else {
            None
        }
    }

    fn unknown_variant(num: i32) -> (r: Option<PortError>) {
        Some(PortError::Unknown(ErrnoError { errno: num }))
    }

    fn from_errno(num: i32) -> (r: PortError) {
        match Self::try_from_errno(num) {
            Some(e) => e,
            None => PortError::Unknown(ErrnoError { errno: num }),
        }
    }
}

} // verus!
