//! Access to device attributes, specified through a ghost event log.

use vstd::prelude::*;

use crate::device::OnewireDevice;

verus! {

/// The device attributes the machine core touches: `id` (presence),
/// `PIO` (the actuation pin) and `temperature12` (the thermal probe's
/// 12-bit reading).
#[derive(Clone, Copy, Debug, PartialEq, Eq, Structural)]
pub enum Attribute {
    Id,
    Pio,
    Temperature12,
}

impl Attribute {
    /// The name of the attribute file under a device's directory.
    pub open spec fn spec_file_name(&self) -> Seq<char> {
        match self {
            Attribute::Id => "id"@,
            Attribute::Pio => "PIO"@,
            Attribute::Temperature12 => "temperature12"@,
        }
    }

    pub fn file_name(&self) -> (r: &'static str)
        ensures
            r@ == self.spec_file_name(),
    {
        match self {
            Attribute::Id => "id",
            Attribute::Pio => "PIO",
            Attribute::Temperature12 => "temperature12",
        }
    }
}

/// One completed bus operation, as it appears in a bus's ghost log:
/// a read of an attribute (with the bytes it returned, or `None` on
/// failure), a write of a text value (with whether it succeeded), or a
/// wait of a number of milliseconds.
pub enum BusEvent {
    Read { path: Seq<char>, attr: Attribute, result: Option<Seq<u8>> },
    Write { path: Seq<char>, attr: Attribute, value: Seq<char>, ok: bool },
    Sleep { ms: u64 },
}

/// An attribute file could not be read or written.
#[derive(Clone, Copy, Debug, PartialEq, Eq, Structural)]
pub struct IoError;

/// A transport that carries attribute reads and writes to the devices
/// on the bus, and performs the actuation waits.
///
/// Every implementation keeps a ghost log of the operations performed
/// on it, in order; each method appends exactly one event. What a read
/// returns or whether a write succeeds is up to the implementation (for
/// the real bus, up to the filesystem): the contracts promise only that
/// the log records faithfully what happened.
pub trait Bus: Sized {
    /// All operations performed on this bus so far, oldest first.
    /// Every implementation the verifier sees gives its own meaning;
    /// an implementation outside its view (the real filesystem bus)
    /// leaves the default, and nothing is claimed of its log.
    open spec fn log(&self) -> Seq<BusEvent> {
        Seq::empty()
    }

    /// Reads the named attribute file of `dev`, returning its bytes.
    fn read_attribute(&mut self, dev: &OnewireDevice, attr: Attribute) -> (r: Result<
        Vec<u8>,
        IoError,
    >)
        ensures
            final(self).log() == old(self).log().push(
                BusEvent::Read {
                    path: dev.fs_path@,
                    attr: attr,
                    result: (match r {
                        Ok(v) => Some(v@),
                        Err(_) => None,
                    }),
                },
            ),
    ;

    /// Replaces the content of the named attribute file of `dev` with
    /// `value`.
    fn write_attribute(&mut self, dev: &OnewireDevice, attr: Attribute, value: &str) -> (r: Result<
        (),
        IoError,
    >)
        ensures
            final(self).log() == old(self).log().push(
                BusEvent::Write { path: dev.fs_path@, attr: attr, value: value@, ok: r is Ok },
            ),
    ;

    /// Blocks for `ms` milliseconds.
    fn wait_ms(&mut self, ms: u64)
        ensures
            final(self).log() == old(self).log().push(BusEvent::Sleep { ms }),
    ;
}

/// Holds of logs `l0` and `l1` when `l1` is `l0` with exactly `n` more
/// events at the end.
pub open spec fn grew_by(l0: Seq<BusEvent>, l1: Seq<BusEvent>, n: int) -> bool {
    &&& l1.len() == l0.len() + n
    &&& l1.take(l0.len() as int) == l0
}

/// The `i`-th event (counting from 0) that `l1` has beyond `l0`.
pub open spec fn event_at(l0: Seq<BusEvent>, l1: Seq<BusEvent>, i: int) -> BusEvent {
    l1[l0.len() + i]
}

} // verus!
