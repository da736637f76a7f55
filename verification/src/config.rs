//! The values the machine core needs at construction.

use vstd::prelude::*;

verus! {

/// Configuration for one machine: a display name (unused by the core
/// logic), the bus identifier of each slot in slot order, the bus
/// identifier of the temperature probe, the time in milliseconds a
/// slot's actuation pin stays energized during a dispense, and the
/// filesystem mount point under which every bus device appears.
#[derive(Clone, Debug)]
pub struct MachineConfig {
    pub name: String,
    pub slot_addresses: Vec<String>,
    pub temp_address: String,
    pub drop_timing: u64,
    pub owfs_mountpoint: String,
}

} // verus!
