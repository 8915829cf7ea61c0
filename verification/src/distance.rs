//! The distance sensor's port identity.
//!
//! Reading distances, velocities and confidences goes through the
//! platform; what lives here is which smart port the sensor sits on and
//! the check that the port exists at all.

use vstd::prelude::*;

use crate::errors::PortError;

verus! {

pub const NUM_V5_PORTS: u8 = 21;

/// True of the smart port numbers the brain has.
pub open spec fn smart_port_valid(port: u8) -> bool {
    1 <= port <= NUM_V5_PORTS
}

/// A distance sensor plugged into a smart port. It keeps track of one
/// object at a time.
pub struct DistanceSensor {
    port: u8,
}

impl DistanceSensor {
    pub closed spec fn number(&self) -> u8 {
        self.port
    }

    /// Wrap a smart port number, out-of-range for a port the brain does
    /// not have. Probing the device itself happens at the platform
    /// edge.
    pub fn new(port: u8) -> (r: Result<DistanceSensor, PortError>)
        ensures
            smart_port_valid(port) <==> r is Ok,
            r matches Ok(s) ==> s.number() == port,
            !smart_port_valid(port) ==> r == Err::<DistanceSensor, PortError>(
                PortError::PortOutOfRange,
            ),
    {
        if 1 <= port && port <= NUM_V5_PORTS {
            Ok(DistanceSensor { port })
        } else {
            Err(PortError::PortOutOfRange)
        }
    }

    /// The wrapped smart port number.
    pub fn port_number(&self) -> (n: u8)
        ensures
            n == self.number(),
    {
        self.port
    }
}

} // verus!
