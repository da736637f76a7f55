//! Dispensing slots and the machine that owns them.

use vstd::prelude::*;

use crate::bus::{Attribute, Bus, BusEvent};
use crate::bus::{event_at, grew_by};
use crate::config::MachineConfig;
use crate::device::OnewireDevice;
use crate::temperature::{temperature_read_log, Fahrenheit, TemperatureSensor};
use crate::MachineError;

verus! {

/// `e` is a read of the `id` attribute of the device at `path`.
pub open spec fn is_id_read(e: BusEvent, path: Seq<char>) -> bool {
    e matches BusEvent::Read { path: p, attr, result: _ } && p == path && attr == Attribute::Id
}

/// `e` is a read that succeeded.
pub open spec fn read_found(e: BusEvent) -> bool {
    e matches BusEvent::Read { result: Some(_), .. }
}

/// `e` is a read that succeeded and returned at least one byte.
pub open spec fn read_nonempty(e: BusEvent) -> bool {
    e matches BusEvent::Read { result, .. } && result matches Some(v) && v.len() > 0
}

/// `e` is a write of `value` to the `PIO` attribute of the device at
/// `path` that succeeded iff `ok`.
pub open spec fn pio_write(e: BusEvent, path: Seq<char>, value: Seq<char>, ok: bool) -> bool {
    e == (BusEvent::Write { path, attr: Attribute::Pio, value, ok })
}

/// The log shape and result of one presence check on the device at
/// `path`: exactly one read of `id`, and `Ok(present)` where `present`
/// says the returned text was non-empty. A failed read is `Err(Io)`,
/// never a silent "absent".
pub open spec fn presence_check_log(
    l0: Seq<BusEvent>,
    l1: Seq<BusEvent>,
    path: Seq<char>,
    r: Result<bool, MachineError>,
) -> bool {
    &&& grew_by(l0, l1, 1)
    &&& is_id_read(event_at(l0, l1, 0), path)
    &&& match r {
        Ok(b) => read_found(event_at(l0, l1, 0)) && b == read_nonempty(event_at(l0, l1, 0)),
        Err(e) => e == MachineError::Io && !read_found(event_at(l0, l1, 0)),
    }
}

/// The log shape and result of one dispense attempt on the device at
/// `path` with actuation time `timing`:
/// - `Ok(false)`: the presence check read empty text; nothing else was
///   done — in particular, nothing was written.
/// - `Ok(true)`: the device was present, and exactly `PIO` := `"1"`,
///   a wait of `timing` milliseconds, then `PIO` := `"0"` followed.
/// - `Err(Io)`: the presence read failed and nothing was written; or
///   the energize write failed and nothing else was written; or the
///   energize write and the wait happened and the de-energize write
///   failed (the pin is then left energized: there is no rollback).
pub open spec fn dispense_log(
    l0: Seq<BusEvent>,
    l1: Seq<BusEvent>,
    path: Seq<char>,
    timing: u64,
    r: Result<bool, MachineError>,
) -> bool {
    match r {
        Ok(b) => if !b {
            &&& grew_by(l0, l1, 1)
            &&& is_id_read(event_at(l0, l1, 0), path)
            &&& read_found(event_at(l0, l1, 0))
            &&& !read_nonempty(event_at(l0, l1, 0))
        } else {
            &&& grew_by(l0, l1, 4)
            &&& is_id_read(event_at(l0, l1, 0), path)
            &&& read_nonempty(event_at(l0, l1, 0))
            &&& pio_write(event_at(l0, l1, 1), path, "1"@, true)
            &&& event_at(l0, l1, 2) == (BusEvent::Sleep { ms: timing })
            &&& pio_write(event_at(l0, l1, 3), path, "0"@, true)
        },
        Err(e) => {
            &&& e == MachineError::Io
            &&& {
                ||| {
                    &&& grew_by(l0, l1, 1)
                    &&& is_id_read(event_at(l0, l1, 0), path)
                    &&& !read_found(event_at(l0, l1, 0))
                }
                ||| {
                    &&& grew_by(l0, l1, 2)
                    &&& is_id_read(event_at(l0, l1, 0), path)
                    &&& read_nonempty(event_at(l0, l1, 0))
                    &&& pio_write(event_at(l0, l1, 1), path, "1"@, false)
                }
                ||| {
                    &&& grew_by(l0, l1, 4)
                    &&& is_id_read(event_at(l0, l1, 0), path)
                    &&& read_nonempty(event_at(l0, l1, 0))
                    &&& pio_write(event_at(l0, l1, 1), path, "1"@, true)
                    &&& event_at(l0, l1, 2) == (BusEvent::Sleep { ms: timing })
                    &&& pio_write(event_at(l0, l1, 3), path, "0"@, false)
                }
            }
        },
    }
}

/// A dispense that reports an absent slot touches nothing: the only
/// bus traffic is the single presence read — no write and no wait.
pub proof fn lemma_absent_dispense_no_write(
    l0: Seq<BusEvent>,
    l1: Seq<BusEvent>,
    path: Seq<char>,
    timing: u64,
)
    requires
        dispense_log(l0, l1, path, timing, Ok(false)),
    ensures
        l1.len() == l0.len() + 1,
        forall|i: int|
            l0.len() <= i < l1.len() ==> !((#[trigger] l1[i]) matches BusEvent::Write { .. })
                && !(l1[i] matches BusEvent::Sleep { .. }),
{
}

/// A dispense that reports success writes exactly twice, `"1"` then
/// `"0"` to `PIO`, with the whole actuation wait between the two.
pub proof fn lemma_present_dispense_write_order(
    l0: Seq<BusEvent>,
    l1: Seq<BusEvent>,
    path: Seq<char>,
    timing: u64,
)
    requires
        dispense_log(l0, l1, path, timing, Ok(true)),
    ensures
        l1.len() == l0.len() + 4,
        pio_write(event_at(l0, l1, 1), path, "1"@, true),
        event_at(l0, l1, 2) == (BusEvent::Sleep { ms: timing }),
        pio_write(event_at(l0, l1, 3), path, "0"@, true),
        forall|i: int|
            (l0.len() <= i < l1.len() && ((#[trigger] l1[i]) matches BusEvent::Write { .. })) ==> (i
                == l0.len() + 1 || i == l0.len() + 3),
{
}

/// One dispensing channel: a device on the bus and the time its
/// actuation pin stays energized for one dispense.
#[derive(Clone, Debug)]
pub struct Slot {
    pub device: OnewireDevice,
    pub timing_ms: u64,
}

impl Slot {
    pub fn from_components(owfs_mountpoint: String, bus_id: String, timing_ms: u64) -> (r: Slot)
        ensures
            r.device.owfs_mountpoint@ == owfs_mountpoint@,
            r.device.bus_id@ == bus_id@,
            r.device.wf(),
            r.timing_ms == timing_ms,
    {
        Slot { device: OnewireDevice::from_components(owfs_mountpoint, bus_id), timing_ms }
    }

    /// Whether a device currently answers at this slot's bus address:
    /// reads `id` and reports whether the text is non-empty. A read
    /// failure is an error, not "absent".
    pub fn get_active<B: Bus>(&self, bus: &mut B) -> (r: Result<bool, MachineError>)
        ensures
            presence_check_log(old(bus).log(), final(bus).log(), self.device.fs_path@, r),
    {
        match self.device.read_property(bus, Attribute::Id) {
            Ok(id) => Ok(id.len() > 0),
            Err(e) => Err(e),
        }
    }

    /// Dispenses one item: checks presence, and if the device is
    /// present energizes `PIO` for `timing_ms` milliseconds. Returns
    /// `Ok(false)` without touching anything when the device is absent.
    pub fn drop<B: Bus>(&self, bus: &mut B) -> (r: Result<bool, MachineError>)
        ensures
            dispense_log(old(bus).log(), final(bus).log(), self.device.fs_path@, self.timing_ms, r),
    {
        let active = match self.get_active(bus) {
            Ok(b) => b,
            Err(e) => {
                return Err(e);
            },
        };
        if !active {
            return Ok(false);
        }
        let ghost l1 = bus.log();
        let on = self.device.write_property(bus, Attribute::Pio, "1");
        proof {
            lemma_scan_step(old(bus).log(), l1, bus.log());
        }
        if let Err(e) = on {
            return Err(e);
        }
        let ghost l2 = bus.log();
        bus.wait_ms(self.timing_ms);
        proof {
            lemma_one_more(l2, bus.log());
            lemma_scan_step(old(bus).log(), l2, bus.log());
        }
        let ghost l3 = bus.log();
        let off = self.device.write_property(bus, Attribute::Pio, "0");
        proof {
            lemma_scan_step(old(bus).log(), l3, bus.log());
        }
        if let Err(e) = off {
            return Err(e);
        }
        Ok(true)
    }
}

/// After a push, the log is the old one with one more event at the end.
proof fn lemma_one_more(l0: Seq<BusEvent>, l1: Seq<BusEvent>)
    requires
        exists|e: BusEvent| l1 == l0.push(e),
    ensures
        grew_by(l0, l1, 1),
        event_at(l0, l1, 0) == l1.last(),
        forall|i: int| 0 <= i < l0.len() ==> l1[i] == l0[i],
{
    let e = choose|e: BusEvent| l1 == l0.push(e);
    assert(l1.take(l0.len() as int) =~= l0);
}

/// The vending machine: its slots in configuration order, and its one
/// temperature sensor.
#[derive(Clone, Debug)]
pub struct Machine {
    pub slots: Vec<Slot>,
    pub sensor: TemperatureSensor,
}

impl Machine {
    /// The configured bus identifier of each slot, in slot order.
    pub open spec fn spec_bus_ids(&self) -> Seq<Seq<char>> {
        Seq::new(self.slots@.len(), |i: int| self.slots@[i].device.bus_id@)
    }

    /// The device directory of each slot, in slot order.
    pub open spec fn spec_slot_paths(&self) -> Seq<Seq<char>> {
        Seq::new(self.slots@.len(), |i: int| self.slots@[i].device.fs_path@)
    }

    /// Every device location is the one derived from the mount point
    /// and its bus identifier.
    pub open spec fn wf(&self) -> bool {
        &&& forall|i: int| 0 <= i < self.slots@.len() ==> (#[trigger] self.slots@[i].device).wf()
        &&& self.sensor.device.wf()
    }

    /// Builds a machine from its configuration: one slot per configured
    /// bus address, in order, all sharing the mount point and the
    /// actuation timing, plus the temperature probe.
    pub fn from_components(config: MachineConfig) -> (r: Machine)
        ensures
            r.slots@.len() == config.slot_addresses@.len(),
            forall|i: int|
                0 <= i < r.slots@.len() ==> {
                    &&& (#[trigger] r.slots@[i]).device.bus_id@ == config.slot_addresses@[i]@
                    &&& r.slots@[i].device.owfs_mountpoint@ == config.owfs_mountpoint@
                    &&& r.slots@[i].timing_ms == config.drop_timing
                },
            r.spec_bus_ids() == config.slot_addresses.deep_view(),
            r.sensor.device.bus_id@ == config.temp_address@,
            r.sensor.device.owfs_mountpoint@ == config.owfs_mountpoint@,
            r.wf(),
    {
        let MachineConfig { name: _, slot_addresses, temp_address, drop_timing, owfs_mountpoint } =
            config;
        let mut slots: Vec<Slot> = Vec::new();
        let n = slot_addresses.len();
        let mut i: usize = 0;
        while i < n
            invariant
                i <= n,
                n == slot_addresses@.len(),
                slots@.len() == i,
                forall|j: int|
                    0 <= j < i as int ==> {
                        &&& (#[trigger] slots@[j]).device.bus_id@ == slot_addresses@[j]@
                        &&& slots@[j].device.owfs_mountpoint@ == owfs_mountpoint@
                        &&& slots@[j].device.wf()
                        &&& slots@[j].timing_ms == drop_timing
                    },
            decreases n - i,
        {
            let id = slot_addresses[i].clone();
            slots.push(Slot::from_components(owfs_mountpoint.clone(), id, drop_timing));
            i += 1;
        }
        let sensor = TemperatureSensor {
            device: OnewireDevice::from_components(owfs_mountpoint, temp_address),
        };
        let r = Machine { slots, sensor };
        proof {
            assert(r.spec_bus_ids() =~= config.slot_addresses.deep_view());
        }
        r
    }

    /// The number of configured slots.
    pub fn slots(&self) -> (r: usize)
        ensures
            r == self.slots@.len(),
    {
        self.slots.len()
    }

    /// The configured bus identifier of each slot, in slot order; pure,
    /// no bus traffic.
    pub fn get_bus_ids(&self) -> (r: Vec<String>)
        ensures
            r.deep_view() == self.spec_bus_ids(),
    {
        let mut out: Vec<String> = Vec::new();
        let n = self.slots.len();
        let mut i: usize = 0;
        while i < n
            invariant
                i <= n,
                n == self.slots@.len(),
                out@.len() == i,
                forall|j: int| 0 <= j < i as int ==> (#[trigger] out@[j])@ == self.slots@[j].device.bus_id@,
            decreases n - i,
        {
            out.push(self.slots[i].device.bus_id.clone());
            i += 1;
        }
        proof {
            assert(out.deep_view() =~= self.spec_bus_ids());
        }
        out
    }

    /// Dispenses from the slot at (0-based) index `slot_idx`. An index
    /// past the configured slots is a contract violation answered with
    /// `Err(SlotOutOfRange)` and no bus traffic; callers are expected
    /// to validate external slot numbers before calling.
    pub fn drop<B: Bus>(&self, slot_idx: usize, bus: &mut B) -> (r: Result<bool, MachineError>)
        ensures
            slot_idx < self.slots@.len() ==> dispense_log(
                old(bus).log(),
                final(bus).log(),
                self.slots@[slot_idx as int].device.fs_path@,
                self.slots@[slot_idx as int].timing_ms,
                r,
            ),
            slot_idx >= self.slots@.len() ==> r == Err::<bool, MachineError>(
                MachineError::SlotOutOfRange,
            ) && final(bus).log() == old(bus).log(),
    {
        if slot_idx >= self.slots.len() {
            return Err(MachineError::SlotOutOfRange);
        }
        self.slots[slot_idx].drop(bus)
    }

    /// The presence of every slot, in slot order, each freshly read
    /// from the bus. Fails with the first failing read: a single bad
    /// slot read fails the whole call, with no partial result.
    pub fn get_active<B: Bus>(&self, bus: &mut B) -> (r: Result<Vec<bool>, MachineError>)
        ensures
            presence_scan_log(old(bus).log(), final(bus).log(), self.spec_slot_paths(), r),
    {
        let mut out: Vec<bool> = Vec::new();
        let n = self.slots.len();
        let mut i: usize = 0;
        proof {
            assert(bus.log().take(bus.log().len() as int) =~= bus.log());
        }
        while i < n
            invariant
                i <= n,
                n == self.slots@.len(),
                out@.len() == i,
                grew_by(old(bus).log(), bus.log(), i as int),
                forall|j: int|
                    0 <= j < i as int ==> {
                        &&& is_id_read(
                            #[trigger] event_at(old(bus).log(), bus.log(), j),
                            self.spec_slot_paths()[j],
                        )
                        &&& read_found(event_at(old(bus).log(), bus.log(), j))
                        &&& out@[j] == read_nonempty(event_at(old(bus).log(), bus.log(), j))
                    },
            decreases n - i,
        {
            let ghost li = bus.log();
            let res = self.slots[i].get_active(bus);
            proof {
                lemma_scan_step(old(bus).log(), li, bus.log());
            }
            match res {
                Ok(b) => out.push(b),
                Err(e) => {
                    proof {
                        assert(failed_scan_at(
                            old(bus).log(),
                            bus.log(),
                            self.spec_slot_paths(),
                            i as int,
                        ));
                    }
                    return Err(e);
                },
            }
            i += 1;
        }
        Ok(out)
    }

    /// The machine's temperature in degrees Fahrenheit, freshly read
    /// from the probe.
    pub fn get_temperature<B: Bus>(&self, bus: &mut B) -> (r: Result<Fahrenheit, MachineError>)
        ensures
            temperature_read_log(old(bus).log(), final(bus).log(), self.sensor.device.fs_path@, r),
    {
        self.sensor.get_temperature(bus)
    }
}

/// The log shape and result of reading every slot's presence in slot
/// order: on `Ok`, one successful `id` read per slot and one boolean
/// per slot saying the text read was non-empty; on `Err(Io)`, the reads
/// up to and including the first failing one, and nothing after it.
pub open spec fn presence_scan_log(
    l0: Seq<BusEvent>,
    l1: Seq<BusEvent>,
    paths: Seq<Seq<char>>,
    r: Result<Vec<bool>, MachineError>,
) -> bool {
    match r {
        Ok(v) => {
            &&& grew_by(l0, l1, paths.len() as int)
            &&& v@.len() == paths.len()
            &&& forall|i: int|
                0 <= i < paths.len() ==> {
                    &&& is_id_read(#[trigger] event_at(l0, l1, i), paths[i])
                    &&& read_found(event_at(l0, l1, i))
                    &&& v@[i] == read_nonempty(event_at(l0, l1, i))
                }
        },
        Err(e) => {
            &&& e == MachineError::Io
            &&& exists|k: int| 0 <= k < paths.len() && #[trigger] failed_scan_at(l0, l1, paths, k)
        },
    }
}

/// The scan got through the first `k` slots and the read of slot `k`
/// itself failed.
pub open spec fn failed_scan_at(
    l0: Seq<BusEvent>,
    l1: Seq<BusEvent>,
    paths: Seq<Seq<char>>,
    k: int,
) -> bool {
    &&& grew_by(l0, l1, k + 1)
    &&& forall|i: int|
        0 <= i < k ==> {
            &&& is_id_read(#[trigger] event_at(l0, l1, i), paths[i])
            &&& read_found(event_at(l0, l1, i))
        }
    &&& is_id_read(event_at(l0, l1, k), paths[k])
    &&& !read_found(event_at(l0, l1, k))
}

/// Growing the log by one more event keeps the earlier events where
/// they were.
proof fn lemma_scan_step(l0: Seq<BusEvent>, li: Seq<BusEvent>, l1: Seq<BusEvent>)
    requires
        grew_by(l0, li, li.len() - l0.len()),
        grew_by(li, l1, 1),
        l0.len() <= li.len(),
    ensures
        grew_by(l0, l1, li.len() - l0.len() + 1),
        forall|j: int| 0 <= j < li.len() - l0.len() ==> event_at(l0, l1, j) == event_at(l0, li, j),
        event_at(l0, l1, li.len() - l0.len()) == event_at(li, l1, 0),
{
    assert(l1.take(l0.len() as int) =~= l0);
    assert forall|j: int| 0 <= j < li.len() - l0.len() implies event_at(l0, l1, j) == event_at(
        l0,
        li,
        j,
    ) by {
        assert(l1.take(li.len() as int)[l0.len() + j] == l1[l0.len() + j]);
    }
}

} // verus!
