//! Selection of exactly one attached USB device by vendor, product and serial number.
use vstd::prelude::*;
use crate::error::TransportError;

verus! {

/// An attached USB device as enumeration reports it.
#[derive(Debug)]
pub struct UsbDevice {
    pub vid: u16,
    pub pid: u16,
    pub serial: String,
    /// The path by which the device is opened.
    pub path: String,
}

/// The view of an optional string.
pub open spec fn opt_view(o: Option<String>) -> Option<Seq<char>> {
    match o {
        Some(s) => Some(s@),
        None => None,
    }
}

/// Whether `d` passes the filters; an absent filter passes every device.
pub open spec fn device_matches(
    d: UsbDevice,
    vid: Option<u16>,
    pid: Option<u16>,
    serial: Option<Seq<char>>,
) -> bool {
    (vid is None || vid == Some(d.vid)) && (pid is None || pid == Some(d.pid)) && (
    serial is None || serial == Some(d.serial@))
}

/// The positions, in order, of the devices among the first `n` of `devs` that pass
/// the filters.
pub open spec fn matching_upto(
    devs: Seq<UsbDevice>,
    vid: Option<u16>,
    pid: Option<u16>,
    serial: Option<Seq<char>>,
    n: int,
) -> Seq<usize>
    decreases n,
{
    if n <= 0 {
        Seq::empty()
    } else {
        let prev = matching_upto(devs, vid, pid, serial, n - 1);
        if device_matches(devs[n - 1], vid, pid, serial) {
            prev.push((n - 1) as usize)
        } else {
            prev
        }
    }
}

/// The positions, in order, of the devices of `devs` that pass the filters.
pub open spec fn matching(
    devs: Seq<UsbDevice>,
    vid: Option<u16>,
    pid: Option<u16>,
    serial: Option<Seq<char>>,
) -> Seq<usize> {
    matching_upto(devs, vid, pid, serial, devs.len() as int)
}

/// Every position that `matching_upto` lists is below `n` and names a passing device.
proof fn lemma_matching_upto_bounds(
    devs: Seq<UsbDevice>,
    vid: Option<u16>,
    pid: Option<u16>,
    serial: Option<Seq<char>>,
    n: int,
)
    requires
        0 <= n <= devs.len(),
        devs.len() <= usize::MAX,
    ensures
        forall|k: int|
            0 <= k < matching_upto(devs, vid, pid, serial, n).len() ==> {
                let i = #[trigger] matching_upto(devs, vid, pid, serial, n)[k];
                i < n && device_matches(devs[i as int], vid, pid, serial)
            },
    decreases n,
{
    if n > 0 {
        lemma_matching_upto_bounds(devs, vid, pid, serial, n - 1);
        let prev = matching_upto(devs, vid, pid, serial, n - 1);
        let cur = matching_upto(devs, vid, pid, serial, n);
        assert forall|k: int| 0 <= k < cur.len() implies {
            let i = #[trigger] cur[k];
            i < n && device_matches(devs[i as int], vid, pid, serial)
        } by {
            if k < prev.len() {
                assert(cur[k] == prev[k]);
            }
        }
    }
}

/// The position of the one device that passes the filters: `DeviceNotFound` when
/// none does, `AmbiguousDevice` with all their positions when several do.
pub fn select_device(
    devices: &Vec<UsbDevice>,
    vid: Option<u16>,
    pid: Option<u16>,
    serial: &Option<String>,
) -> (r: Result<usize, TransportError>)
    ensures
        ({
            let m = matching(devices@, vid, pid, opt_view(*serial));
            &&& m.len() == 0 ==> (r matches Err(TransportError::DeviceNotFound))
            &&& m.len() == 1 ==> r == Ok::<usize, TransportError>(m[0]) && m[0] < devices@.len()
            &&& m.len() > 1 ==> (r matches Err(TransportError::AmbiguousDevice(c)) && c@ == m)
        }),
{
    let n = devices.len();
    let mut found: Vec<usize> = Vec::new();
    let mut i: usize = 0;
    while i < n
        invariant
            n == devices@.len(),
            i <= n,
            found@ == matching_upto(devices@, vid, pid, opt_view(*serial), i as int),
        decreases n - i,
    {
        let d = &devices[i];
        let vid_ok = match vid {
            Some(v) => v == d.vid,
            None => true,
        };
        let pid_ok = match pid {
            Some(p) => p == d.pid,
            None => true,
        };
        let serial_ok = match serial {
            Some(s) => *s == d.serial,
            None => true,
        };
        if vid_ok && pid_ok && serial_ok {
            found.push(i);
        }
        i = i + 1;
    }
    proof {
        lemma_matching_upto_bounds(devices@, vid, pid, opt_view(*serial), n as int);
    }
    if found.len() == 0 {
        Err(TransportError::DeviceNotFound)
    } else if found.len() == 1 {
        Ok(found[0])
    } else {
        Err(TransportError::AmbiguousDevice(found))
    }
}

} // verus!
