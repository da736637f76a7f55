use irn_bru::bus::Attribute;
use irn_bru::config::MachineConfig;
use irn_bru::device::{join_path_exec, OnewireDevice};
use irn_bru::machine::{Machine, Slot};
use irn_bru::memory_bus::{MemoryBus, RecordedOp};
use irn_bru::MachineError;

fn test_config(slot_addresses: Vec<&str>) -> MachineConfig {
    MachineConfig {
        name: "irn-bru".to_string(),
        slot_addresses: slot_addresses.iter().map(|s| s.to_string()).collect(),
        temp_address: "10.999999".to_string(),
        drop_timing: 50,
        owfs_mountpoint: "/tmp/fakebus".to_string(),
    }
}

fn write_ops(bus: &MemoryBus) -> Vec<(String, Attribute, String, bool)> {
    bus.ops
        .iter()
        .filter_map(|op| match op {
            RecordedOp::Write { path, attr, value, ok } => {
                Some((path.clone(), *attr, value.clone(), *ok))
            }
            _ => None,
        })
        .collect()
}

#[test]
fn join_path_inserts_one_separator() {
    assert_eq!(join_path_exec("/mnt/onewire", "10.1"), "/mnt/onewire/10.1");
    assert_eq!(join_path_exec("/mnt/onewire/", "10.1"), "/mnt/onewire/10.1");
    assert_eq!(join_path_exec("", "10.1"), "10.1");
}

#[test]
fn device_location_derived_from_mount_and_bus_id() {
    let dev = OnewireDevice::from_components("/tmp/fakebus".to_string(), "10.111111".to_string());
    assert_eq!(dev.fs_path, "/tmp/fakebus/10.111111");
    assert_eq!(dev.owfs_mountpoint, "/tmp/fakebus");
    assert_eq!(dev.bus_id, "10.111111");
}

#[test]
fn bus_ids_match_configuration_in_order() {
    let machine = Machine::from_components(test_config(vec!["10.a", "10.b", "10.c"]));
    assert_eq!(machine.slots(), 3);
    let ids = machine.get_bus_ids();
    assert_eq!(ids, vec!["10.a", "10.b", "10.c"]);
    // Pure and deterministic: a repeated call reports the same order.
    assert_eq!(machine.get_bus_ids(), ids);
}

#[test]
fn presence_follows_id_text() {
    let slot = Slot::from_components("/tmp/fakebus".to_string(), "10.1".to_string(), 50);
    let mut bus = MemoryBus::new();
    bus.set_file(&slot.device, Attribute::Id, b"".to_vec());
    assert_eq!(slot.get_active(&mut bus), Ok(false));

    let mut bus = MemoryBus::new();
    bus.set_file(&slot.device, Attribute::Id, b"10.1ABCDEF".to_vec());
    assert_eq!(slot.get_active(&mut bus), Ok(true));
}

#[test]
fn presence_read_failure_is_an_error_not_absent() {
    let slot = Slot::from_components("/tmp/fakebus".to_string(), "10.1".to_string(), 50);
    let mut bus = MemoryBus::new();
    // No `id` file at all: the read fails, and that is an error.
    assert_eq!(slot.get_active(&mut bus), Err(MachineError::Io));
}

#[test]
fn dispense_from_absent_slot_writes_nothing() {
    let machine = Machine::from_components(test_config(vec!["10.a", "10.b"]));
    let mut bus = MemoryBus::new();
    bus.set_file(&machine.slots[1].device, Attribute::Id, b"".to_vec());
    assert_eq!(machine.drop(1, &mut bus), Ok(false));
    assert_eq!(write_ops(&bus).len(), 0);
    // The only traffic is the single presence read.
    assert_eq!(bus.ops.len(), 1);
    assert!(matches!(&bus.ops[0], RecordedOp::Read { .. }));
}

#[test]
fn dispense_from_present_slot_writes_one_then_zero() {
    let machine = Machine::from_components(test_config(vec!["10.a", "10.b"]));
    let mut bus = MemoryBus::new();
    bus.set_file(&machine.slots[0].device, Attribute::Id, b"10.aXYZ".to_vec());
    assert_eq!(machine.drop(0, &mut bus), Ok(true));

    let path = machine.slots[0].device.fs_path.clone();
    let writes = write_ops(&bus);
    assert_eq!(
        writes,
        vec![
            (path.clone(), Attribute::Pio, "1".to_string(), true),
            (path.clone(), Attribute::Pio, "0".to_string(), true),
        ]
    );
    // The wait separates the two writes and lasts the configured time.
    assert_eq!(bus.ops.len(), 4);
    assert!(matches!(&bus.ops[0], RecordedOp::Read { .. }));
    assert!(matches!(&bus.ops[1], RecordedOp::Write { .. }));
    assert!(matches!(&bus.ops[2], RecordedOp::Sleep { ms: 50 }));
    assert!(matches!(&bus.ops[3], RecordedOp::Write { .. }));
}

#[test]
fn dispense_write_failure_surfaces_as_error() {
    let machine = Machine::from_components(test_config(vec!["10.a"]));
    let mut bus = MemoryBus::new();
    bus.set_file(&machine.slots[0].device, Attribute::Id, b"10.a".to_vec());
    bus.set_accept_writes(false);
    assert_eq!(machine.drop(0, &mut bus), Err(MachineError::Io));
    let writes = write_ops(&bus);
    assert_eq!(writes.len(), 1);
    assert_eq!(writes[0].2, "1");
    assert!(!writes[0].3);
}

#[test]
fn dispense_rejects_out_of_range_index() {
    let machine = Machine::from_components(test_config(vec!["10.a", "10.b"]));
    let mut bus = MemoryBus::new();
    assert_eq!(machine.drop(2, &mut bus), Err(MachineError::SlotOutOfRange));
    assert_eq!(bus.ops.len(), 0);
}

#[test]
fn presence_scan_reports_each_slot_in_order() {
    let machine = Machine::from_components(test_config(vec!["10.a", "10.b", "10.c"]));
    let mut bus = MemoryBus::new();
    bus.set_file(&machine.slots[0].device, Attribute::Id, b"10.a".to_vec());
    bus.set_file(&machine.slots[1].device, Attribute::Id, b"".to_vec());
    bus.set_file(&machine.slots[2].device, Attribute::Id, b"10.c".to_vec());
    assert_eq!(machine.get_active(&mut bus), Ok(vec![true, false, true]));
}

#[test]
fn presence_scan_fails_whole_call_on_one_bad_slot() {
    let machine = Machine::from_components(test_config(vec!["10.a", "10.b", "10.c"]));
    let mut bus = MemoryBus::new();
    bus.set_file(&machine.slots[0].device, Attribute::Id, b"10.a".to_vec());
    // Slot 2 (the middle one) has no readable `id`: no partial result.
    bus.set_file(&machine.slots[2].device, Attribute::Id, b"10.c".to_vec());
    assert_eq!(machine.get_active(&mut bus), Err(MachineError::Io));
    // The scan stopped at the failing slot.
    assert_eq!(bus.ops.len(), 2);
}

#[test]
fn machine_scenario_two_slots() {
    let config = MachineConfig {
        name: "irn-bru".to_string(),
        slot_addresses: vec!["10.111111".to_string(), "10.222222".to_string()],
        temp_address: "10.999999".to_string(),
        drop_timing: 50,
        owfs_mountpoint: "/tmp/fakebus".to_string(),
    };
    let machine = Machine::from_components(config);
    let mut bus = MemoryBus::new();
    bus.set_file(&machine.slots[0].device, Attribute::Id, b"10.111111".to_vec());
    bus.set_file(&machine.slots[1].device, Attribute::Id, b"10.222222".to_vec());

    assert_eq!(
        machine.get_bus_ids(),
        vec!["10.111111".to_string(), "10.222222".to_string()]
    );
    assert_eq!(machine.drop(0, &mut bus), Ok(true));
    assert!(bus
        .ops
        .iter()
        .any(|op| matches!(op, RecordedOp::Sleep { ms: 50 })));
    // External slot number 3 is out of range for two slots; a caller
    // that forwards it anyway (as internal index 2) gets the hard error.
    assert_eq!(machine.drop(2, &mut bus), Err(MachineError::SlotOutOfRange));
}
