//! Core of a one-wire-bus drink vending machine.
//!
//! A machine owns an ordered list of dispensing slots and one temperature
//! sensor, each bound to a device on a one-wire bus. Every device is reached
//! through a filesystem-style interface: a device is a directory under a
//! common mount point, and each readable or writable property of the device
//! is a named attribute file in that directory.
//!
//! All device traffic goes through the [`bus::Bus`] trait, whose contract
//! records every read, write and wait in a ghost log; the machine's
//! operations are specified exactly by the shape of that log.

use vstd::prelude::*;

pub mod bus;
pub mod config;
pub mod device;
pub mod machine;
pub mod memory_bus;
pub mod temperature;

verus! {

/// A failure surfaced by the machine core.
#[derive(Clone, Copy, Debug, PartialEq, Eq, Structural)]
pub enum MachineError {
    /// A device attribute could not be read or written.
    Io,
    /// The temperature probe returned text that is not a decimal number
    /// (or one too large to represent).
    Parse,
    /// A slot index past the end of the configured slots was given;
    /// callers are expected to validate external slot numbers first.
    SlotOutOfRange,
}

} // verus!
