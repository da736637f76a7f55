//! An in-memory bus: a fake filesystem of attribute files plus a
//! record of every operation, for exercising the machine without
//! hardware.

use vstd::prelude::*;

use crate::bus::{Attribute, Bus, BusEvent, IoError};
use crate::device::OnewireDevice;

verus! {

/// One attribute file of the fake filesystem: the directory of the
/// device it belongs to, the attribute it is, and its content.
#[derive(Clone, Debug)]
pub struct MemoryFile {
    pub path: String,
    pub attr: Attribute,
    pub data: Vec<u8>,
}

/// One operation performed on a [`MemoryBus`], as plain values that a
/// test can inspect; its view is the [`BusEvent`] it stands for.
#[derive(Clone, Debug)]
pub enum RecordedOp {
    Read { path: String, attr: Attribute, result: Option<Vec<u8>> },
    Write { path: String, attr: Attribute, value: String, ok: bool },
    Sleep { ms: u64 },
}

impl View for RecordedOp {
    type V = BusEvent;

    open spec fn view(&self) -> BusEvent {
        match self {
            RecordedOp::Read { path, attr, result } => BusEvent::Read {
                path: path@,
                attr: *attr,
                result: match result {
                    Some(v) => Some(v@),
                    None => None,
                },
            },
            RecordedOp::Write { path, attr, value, ok } => BusEvent::Write {
                path: path@,
                attr: *attr,
                value: value@,
                ok: *ok,
            },
            RecordedOp::Sleep { ms } => BusEvent::Sleep { ms: *ms },
        }
    }
}

/// The events a sequence of recorded operations stands for, in order.
pub open spec fn events_of(ops: Seq<RecordedOp>) -> Seq<BusEvent> {
    Seq::new(ops.len(), |i: int| ops[i]@)
}

fn copy_bytes(v: &Vec<u8>) -> (r: Vec<u8>)
    ensures
        r@ == v@,
{
    let mut r: Vec<u8> = Vec::new();
    let n = v.len();
    let mut i: usize = 0;
    while i < n
        invariant
            i <= n,
            n == v@.len(),
            r@ == v@.take(i as int),
        decreases n - i,
    {
        r.push(v[i]);
        proof {
            assert(r@ =~= v@.take(i + 1));
        }
        i += 1;
    }
    proof {
        assert(v@.take(n as int) =~= v@);
    }
    r
}

/// Recording an operation appends its event to the log and nothing
/// else.
proof fn lemma_push_op(pre: Seq<RecordedOp>, post: Seq<RecordedOp>, ev: BusEvent)
    requires
        exists|op: RecordedOp| post == pre.push(op) && (#[trigger] op@) == ev,
    ensures
        events_of(post) == events_of(pre).push(ev),
{
    let op = choose|op: RecordedOp| post == pre.push(op) && (#[trigger] op@) == ev;
    assert(events_of(post) =~= events_of(pre).push(ev));
}

/// A bus backed by an in-memory list of attribute files. Reads return
/// the content of the first matching file, or fail when there is none;
/// writes succeed iff `accept_writes` holds and change no file; waits
/// return at once. Every operation is appended to `ops`.
#[derive(Clone, Debug)]
pub struct MemoryBus {
    pub files: Vec<MemoryFile>,
    pub accept_writes: bool,
    pub ops: Vec<RecordedOp>,
}

impl MemoryBus {
    /// An empty fake filesystem that accepts writes, with nothing
    /// recorded yet.
    pub fn new() -> (r: MemoryBus)
        ensures
            r.log() == Seq::<BusEvent>::empty(),
            r.files@.len() == 0,
            r.accept_writes,
    {
        let r = MemoryBus { files: Vec::new(), accept_writes: true, ops: Vec::new() };
        proof {
            assert(events_of(r.ops@) =~= Seq::<BusEvent>::empty());
        }
        r
    }

    /// Gives `dev`'s attribute `attr` the content `data`. Configuring
    /// the fake filesystem is not bus traffic: the log is untouched.
    pub fn set_file(&mut self, dev: &OnewireDevice, attr: Attribute, data: Vec<u8>)
        ensures
            final(self).log() == old(self).log(),
            final(self).accept_writes == old(self).accept_writes,
    {
        self.files.push(MemoryFile { path: dev.fs_path.clone(), attr, data });
    }

    /// Makes every following write succeed or fail.
    pub fn set_accept_writes(&mut self, accept: bool)
        ensures
            final(self).log() == old(self).log(),
            final(self).accept_writes == accept,
    {
        self.accept_writes = accept;
    }
}

impl Bus for MemoryBus {
    open spec fn log(&self) -> Seq<BusEvent> {
        events_of(self.ops@)
    }

    fn read_attribute(&mut self, dev: &OnewireDevice, attr: Attribute) -> (r: Result<
        Vec<u8>,
        IoError,
    >) {
        let mut found: Option<Vec<u8>> = None;
        let n = self.files.len();
        let mut i: usize = 0;
        while i < n && found.is_none()
            invariant
                i <= n,
                n == self.files@.len(),
            decreases n - i,
        {
            if self.files[i].path == dev.fs_path && self.files[i].attr == attr {
                found = Some(copy_bytes(&self.files[i].data));
            }
            i += 1;
        }
        let ghost pre = self.ops@;
        match found {
            Some(data) => {
                let recorded = copy_bytes(&data);
                let op = RecordedOp::Read {
                    path: dev.fs_path.clone(),
                    attr,
                    result: Some(recorded),
                };
                let ghost opv = op@;
                self.ops.push(op);
                proof {
                    lemma_push_op(pre, self.ops@, opv);
                }
                Ok(data)
            },
            None => {
                let op = RecordedOp::Read { path: dev.fs_path.clone(), attr, result: None };
                let ghost opv = op@;
                self.ops.push(op);
                proof {
                    lemma_push_op(pre, self.ops@, opv);
                }
                Err(IoError)
            },
        }
    }

    fn write_attribute(&mut self, dev: &OnewireDevice, attr: Attribute, value: &str) -> (r: Result<
        (),
        IoError,
    >) {
        let ok = self.accept_writes;
        let op = RecordedOp::Write { path: dev.fs_path.clone(), attr, value: value.to_owned(), ok };
        let ghost pre = self.ops@;
        let ghost opv = op@;
        self.ops.push(op);
        proof {
            lemma_push_op(pre, self.ops@, opv);
        }
        if ok {
            Ok(())
        } else {
            Err(IoError)
        }
    }

    fn wait_ms(&mut self, ms: u64) {
        let op = RecordedOp::Sleep { ms };
        let ghost pre = self.ops@;
        let ghost opv = op@;
        self.ops.push(op);
        proof {
            lemma_push_op(pre, self.ops@, opv);
        }
    }
}

} // verus!
