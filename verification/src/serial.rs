//! Generic serial ports: the port identity and the errors they report.
//!
//! Moving bytes through a port is the platform's business; the pure
//! part — which smart port a handle stands for, and what its error
//! numbers mean — lives here.

use vstd::prelude::*;

use crate::errors::{EIO, ErrnoError, FromErrno, PortError};

verus! {

/// A smart port configured as a generic serial controller.
pub struct SerialPort {
    port: u8,
}

impl SerialPort {
    pub closed spec fn number(&self) -> u8 {
        self.port
    }

    /// Wrap a smart port number. Configuring the hardware port for
    /// generic serial happens at the platform edge.
    pub fn new(port: u8) -> (p: SerialPort)
        ensures
            p.number() == port,
    {
        SerialPort { port }
    }

    /// The wrapped smart port number.
    pub fn port_index(&self) -> (n: u8)
        ensures
            n == self.number(),
    {
        self.port
    }
}

/// Errors a serial port can report.
#[derive(Clone, Copy, Debug, PartialEq, Eq, Structural)]
pub enum SerialError {
    /// A serious internal write error occurred.
    InternalWriteError,
    /// A generic port error.
    Port(PortError),
}

impl FromErrno for SerialError {
    open spec fn errno_spec(num: i32) -> Option<SerialError> {
        if PortError::errno_spec(num) is Some {
            Some(SerialError::Port(PortError::errno_spec(num).unwrap()))
        } else if num == EIO {
            Some(SerialError::InternalWriteError)
        } else {
            None
        }
    }

    open spec fn unknown_spec(num: i32) -> Option<SerialError> {
        Some(SerialError::Port(PortError::Unknown(ErrnoError { errno: num })))
    }

    fn try_from_errno(num: i32) -> (r: Option<SerialError>) {
        match PortError::try_from_errno(num) {
            Some(e) => Some(SerialError::Port(e)),
            None => if num == EIO {
                Some(SerialError::InternalWriteError)
            } else {
                None
            },
        }
    }

    fn unknown_variant(num: i32) -> (r: Option<SerialError>) {
        Some(SerialError::Port(PortError::Unknown(ErrnoError { errno: num })))
    }

    fn from_errno(num: i32) -> (r: SerialError) {
        match Self::try_from_errno(num) {
            Some(e) => e,
            None => SerialError::Port(PortError::Unknown(ErrnoError { errno: num })),
        }
    }
}

} // verus!
