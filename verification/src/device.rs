//! One addressable device on the one-wire bus.

use vstd::prelude::*;

use crate::bus::{grew_by, Attribute, Bus, BusEvent};
use crate::MachineError;

verus! {

/// Where a device's attribute files live: the bus mount point joined
/// with the device's bus identifier, with exactly one `/` between them.
/// An empty mount point adds no separator.
pub open spec fn join_path(mount: Seq<char>, name: Seq<char>) -> Seq<char> {
    if mount.len() == 0 {
        name
    } else if mount.last() == '/' {
        mount + name
    } else {
        mount + seq!['/'] + name
    }
}

/// One node on the one-wire bus, named by the mount point it appears
/// under and its bus identifier; `fs_path` is the derived directory the
/// device's attribute files live in.
#[derive(Clone, Debug)]
pub struct OnewireDevice {
    pub owfs_mountpoint: String,
    pub bus_id: String,
    pub fs_path: String,
}

impl OnewireDevice {
    /// The device location is always the one derived from the mount
    /// point and the bus identifier.
    pub open spec fn wf(&self) -> bool {
        self.fs_path@ == join_path(self.owfs_mountpoint@, self.bus_id@)
    }

    pub fn from_components(owfs_mountpoint: String, bus_id: String) -> (r: OnewireDevice)
        ensures
            r.owfs_mountpoint@ == owfs_mountpoint@,
            r.bus_id@ == bus_id@,
            r.wf(),
    {
        let fs_path = join_path_exec(owfs_mountpoint.as_str(), bus_id.as_str());
        OnewireDevice { owfs_mountpoint, bus_id, fs_path }
    }

    /// Reads the named attribute file under this device's location:
    /// its bytes on success, `Err(Io)` when the file cannot be read
    /// (including when no device currently answers at this bus
    /// address). No caching and no retry: one fresh bus operation.
    pub fn read_property<B: Bus>(&self, bus: &mut B, attr: Attribute) -> (r: Result<
        Vec<u8>,
        MachineError,
    >)
        ensures
            grew_by(old(bus).log(), final(bus).log(), 1),
            (final(bus).log().last() matches BusEvent::Read { path, attr: a, result }
                && path == self.fs_path@ && a == attr && match r {
                Ok(v) => result == Some(v@),
                Err(e) => e == MachineError::Io && result is None,
            }),
    {
        let res = bus.read_attribute(self, attr);
        proof {
            lemma_after_push(old(bus).log(), bus.log());
        }
        match res {
            Ok(v) => Ok(v),
            Err(_) => Err(MachineError::Io),
        }
    }

    /// Replaces the content of the named attribute file under this
    /// device's location with `value`; `Err(Io)` on any failure. No
    /// caching and no retry: one fresh bus operation.
    pub fn write_property<B: Bus>(&self, bus: &mut B, attr: Attribute, value: &str) -> (r: Result<
        (),
        MachineError,
    >)
        ensures
            grew_by(old(bus).log(), final(bus).log(), 1),
            final(bus).log().last() == (BusEvent::Write {
                path: self.fs_path@,
                attr,
                value: value@,
                ok: r is Ok,
            }),
            r is Err ==> r == Err::<(), MachineError>(MachineError::Io),
    {
        let res = bus.write_attribute(self, attr, value);
        proof {
            lemma_after_push(old(bus).log(), bus.log());
        }
        match res {
            Ok(()) => Ok(()),
            Err(_) => Err(MachineError::Io),
        }
    }
}

/// After one push, the log is one longer and unchanged below.
proof fn lemma_after_push(l0: Seq<BusEvent>, l1: Seq<BusEvent>)
    requires
        exists|e: BusEvent| l1 == l0.push(e),
    ensures
        grew_by(l0, l1, 1),
        l1.last() == l1[l0.len() as int],
{
    let e = choose|e: BusEvent| l1 == l0.push(e);
    assert(l1.take(l0.len() as int) =~= l0);
}

/// Joins a mount point and a name as [`join_path`] describes.
pub fn join_path_exec(mount: &str, name: &str) -> (r: String)
    ensures
        r@ == join_path(mount@, name@),
{
    let n = mount.unicode_len();
    if n == 0 {
        return name.to_owned();
    }
    let mut out = mount.to_owned();
    if mount.get_char(n - 1) != '/' {
        out.append("/");
        proof {
            reveal_strlit("/");
            assert(out@ =~= mount@ + seq!['/']);
        }
    }
    out.append(name);
    proof {
        assert(out@ =~= join_path(mount@, name@));
    }
    out
}

} // verus!
