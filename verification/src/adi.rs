//! ADI (three-wire) ports and the devices that plug into them.
//!
//! Talking to the hardware behind a port is the platform's business;
//! what lives here is the pure part: which port numbers are valid, and
//! the errors the ports can report.

use vstd::prelude::*;

use crate::errors::{EACCES, EADDRINUSE, ErrnoError, FromErrno, PortError};

verus! {

pub const NUM_ADI_PORTS: u8 = 8;

/// Errors an ADI port or device can report.
#[derive(Clone, Copy, Debug, PartialEq, Eq, Structural)]
pub enum AdiError {
    /// Another resource is currently trying to access the ADI.
    AlreadyInUse,
    /// The port has been reconfigured or is not set up for digital input.
    DigitalInputNotConfigured,
    /// The port cannot be configured: the configuration type is invalid.
    InvalidConfigType,
    /// The port has already been configured.
    AlreadyConfigured,
    /// The port number is outside the valid range.
    InvalidPort,
    /// A generic port error.
    Port(PortError),
}

impl FromErrno for AdiError {
    open spec fn errno_spec(num: i32) -> Option<AdiError> {
        if PortError::errno_spec(num) is Some {
            Some(AdiError::Port(PortError::errno_spec(num).unwrap()))
        } else if num == EACCES {
            Some(AdiError::AlreadyInUse)
        } else if num == EADDRINUSE {
            Some(AdiError::DigitalInputNotConfigured)
        } else {
            None
        }
    }

    open spec fn unknown_spec(num: i32) -> Option<AdiError> {
        Some(AdiError::Port(PortError::Unknown(ErrnoError { errno: num })))
    }

    fn try_from_errno(num: i32) -> (r: Option<AdiError>) {
        match PortError::try_from_errno(num) {
            Some(e) => Some(AdiError::Port(e)),
            None => if num == EACCES {
                Some(AdiError::AlreadyInUse)
            } else if num == EADDRINUSE {
                Some(AdiError::DigitalInputNotConfigured)
            } else {
                None
            },
        }
    }

    fn unknown_variant(num: i32) -> (r: Option<AdiError>) {
        Some(AdiError::Port(PortError::Unknown(ErrnoError { errno: num })))
    }

    fn from_errno(num: i32) -> (r: AdiError) {
        match Self::try_from_errno(num) {
            Some(e) => e,
            None => AdiError::Port(PortError::Unknown(ErrnoError { errno: num })),
        }
    }
}

/// One of the brain's ADI ports, identified by number.
pub struct AdiPort(u8);

impl AdiPort {
    pub closed spec fn number(&self) -> u8 {
        self.0
    }

    /// True of the numbers this port type accepts.
    pub open spec fn valid(port: u8) -> bool {
        0 < port < NUM_ADI_PORTS
    }

    /// Wrap a port number without checking it.
    pub fn new_unchecked(port: u8) -> (p: AdiPort)
        ensures
            p.number() == port,
    {
        AdiPort(port)
    }

    /// Wrap a port number, `None` if it is out of range.
    pub fn try_new(port: u8) -> (r: Option<AdiPort>)
        ensures
            AdiPort::valid(port) <==> r is Some,
            r matches Some(p) ==> p.number() == port,
    {
        if 0 < port && port < NUM_ADI_PORTS {
            Some(AdiPort(port))
        } else {
            None
        }
    }

    /// Wrap a port number known to be in range.
    pub fn new(port: u8) -> (p: AdiPort)
        requires
            AdiPort::valid(port),
        ensures
            p.number() == port,
    {
        AdiPort(port)
    }

    /// The wrapped port number.
    pub fn port_number(&self) -> (n: u8)
        ensures
            n == self.number(),
    {
        self.0
    }
}

/// A digital input pin on an ADI port.
pub struct AdiDigitalIn {
    port: u8,
}

/// True of the numbers the digital pins accept.
pub open spec fn digital_port_valid(port: u8) -> bool {
    1 <= port <= NUM_ADI_PORTS
}

impl AdiDigitalIn {
    pub closed spec fn number(&self) -> u8 {
        self.port
    }

    /// Wrap a port number without checking it.
    pub fn new_unchecked(port: u8) -> (d: AdiDigitalIn)
        ensures
            d.number() == port,
    {
        AdiDigitalIn { port }
    }

    /// Wrap a port number known to be in range.
    pub fn new(port: u8) -> (d: AdiDigitalIn)
        requires
            digital_port_valid(port),
        ensures
            d.number() == port,
    {
        AdiDigitalIn { port }
    }

    /// Wrap a port number, `InvalidPort` if it is out of range.
    pub fn try_new(port: u8) -> (r: Result<AdiDigitalIn, AdiError>)
        ensures
            digital_port_valid(port) <==> r is Ok,
            r matches Ok(d) ==> d.number() == port,
            !digital_port_valid(port) ==> r == Err::<AdiDigitalIn, AdiError>(AdiError::InvalidPort),
    {
        if port < 1 || port > NUM_ADI_PORTS {
            Err(AdiError::InvalidPort)
        } else {
            Ok(AdiDigitalIn { port })
        }
    }
}

/// A digital output pin on an ADI port.
pub struct AdiDigitalOut {
    port: u8,
}

impl AdiDigitalOut {
    pub closed spec fn number(&self) -> u8 {
        self.port
    }

    /// Wrap a port number without checking it.
    pub fn new_unchecked(port: u8) -> (d: AdiDigitalOut)
        ensures
            d.number() == port,
    {
        AdiDigitalOut { port }
    }

    /// Wrap a port number known to be in range.
    pub fn new_raw(port: u8) -> (d: AdiDigitalOut)
        requires
            digital_port_valid(port),
        ensures
            d.number() == port,
    {
        AdiDigitalOut { port }
    }

    /// Wrap a port number, `InvalidPort` if it is out of range.
    pub fn new(port: u8) -> (r: Result<AdiDigitalOut, AdiError>)
        ensures
            digital_port_valid(port) <==> r is Ok,
            r matches Ok(d) ==> d.number() == port,
            !digital_port_valid(port) ==> r == Err::<AdiDigitalOut, AdiError>(AdiError::InvalidPort),
    {
        if port < 1 || port > NUM_ADI_PORTS {
            Err(AdiError::InvalidPort)
        } else {
            Ok(AdiDigitalOut { port })
        }
    }
}

/// A motor on an ADI port.
pub struct AdiMotor {
    port: u8,
}

impl AdiMotor {
    pub closed spec fn number(&self) -> u8 {
        self.port
    }

    /// Wrap a port number without checking it.
    pub fn new_unchecked(port: u8) -> (m: AdiMotor)
        ensures
            m.number() == port,
    {
        AdiMotor { port }
    }

    /// Wrap a port number known to be in range.
    pub fn new_raw(port: u8) -> (m: AdiMotor)
        requires
            digital_port_valid(port),
        ensures
            m.number() == port,
    {
        AdiMotor { port }
    }

    /// Wrap a port number, `InvalidPort` if it is out of range.
    pub fn new(port: u8) -> (r: Result<AdiMotor, AdiError>)
        ensures
            digital_port_valid(port) <==> r is Ok,
            r matches Ok(m) ==> m.number() == port,
            !digital_port_valid(port) ==> r == Err::<AdiMotor, AdiError>(AdiError::InvalidPort),
    {
        if port < 1 || port > NUM_ADI_PORTS {
            Err(AdiError::InvalidPort)
        } else {
            Ok(AdiMotor { port })
        }
    }
}

/// An analog input pin on an ADI port.
pub struct AdiAnalogIn {
    port: u8,
}

impl AdiAnalogIn {
    pub closed spec fn number(&self) -> u8 {
        self.port
    }

    /// Wrap a port number; calibration and reads go through the
    /// platform.
    pub fn new(port: u8) -> (a: AdiAnalogIn)
        ensures
            a.number() == port,
    {
        AdiAnalogIn { port }
    }

    /// The wrapped port number.
    pub fn port_number(&self) -> (n: u8)
        ensures
            n == self.number(),
    {
        self.port
    }
}

/// An analog output pin on an ADI port.
pub struct AdiAnalogOut {
    port: u8,
}

impl AdiAnalogOut {
    pub closed spec fn number(&self) -> u8 {
        self.port
    }

    /// Wrap a port number; writes go through the platform.
    pub fn new(port: u8) -> (a: AdiAnalogOut)
        ensures
            a.number() == port,
    {
        AdiAnalogOut { port }
    }

    /// The wrapped port number.
    pub fn port_number(&self) -> (n: u8)
        ensures
            n == self.number(),
    {
        self.port
    }
}

/// A gyroscope on an ADI port. The hardware handle comes from the
/// platform's device setup.
pub struct AdiGyro {
    port: u8,
    reference: i32,
}

impl AdiGyro {
    pub closed spec fn number(&self) -> u8 {
        self.port
    }

    pub closed spec fn handle(&self) -> i32 {
        self.reference
    }

    /// Wrap a port number known to be in range, together with the
    /// device handle the platform's setup returned for it.
    pub fn new(port: u8, reference: i32) -> (g: AdiGyro)
        requires
            digital_port_valid(port),
        ensures
            g.number() == port,
            g.handle() == reference,
    {
        AdiGyro { port, reference }
    }

    /// The device handle reads and resets go through.
    pub fn device_handle(&self) -> (h: i32)
        ensures
            h == self.handle(),
    {
        self.reference
    }
}

/// A potentiometer on an ADI port. The hardware handle comes from the
/// platform's device setup.
pub struct AdiPotentiometer {
    port: u8,
    reference: i32,
}

impl AdiPotentiometer {
    pub closed spec fn number(&self) -> u8 {
        self.port
    }

    pub closed spec fn handle(&self) -> i32 {
        self.reference
    }

    /// Wrap a port number without checking it, together with the device
    /// handle the platform's setup returned for it.
    pub fn new_unchecked(port: u8, reference: i32) -> (p: AdiPotentiometer)
        ensures
            p.number() == port,
            p.handle() == reference,
    {
        AdiPotentiometer { port, reference }
    }

    /// Wrap a port number, `InvalidPort` if it is out of range.
    pub fn new(port: u8, reference: i32) -> (r: Result<AdiPotentiometer, AdiError>)
        ensures
            digital_port_valid(port) <==> r is Ok,
            r matches Ok(p) ==> p.number() == port && p.handle() == reference,
            !digital_port_valid(port) ==> r == Err::<AdiPotentiometer, AdiError>(
                AdiError::InvalidPort,
            ),
    {
        if port < 1 || port > NUM_ADI_PORTS {
            Err(AdiError::InvalidPort)
        } else {
            Ok(AdiPotentiometer { port, reference })
        }
    }

    /// The device handle angle reads go through.
    pub fn device_handle(&self) -> (h: i32)
        ensures
            h == self.handle(),
    {
        self.reference
    }
}

} // verus!
