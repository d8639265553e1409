//! Matching what is plugged in now against what was identified before.
//!
//! The routes are a serial number when there is one, the port position when
//! there is not, and the outcome carries a confidence level so the UI can say
//! how sure it is.
//!
//! A guess is never presented as a fact. Where the evidence does not single out
//! one device, the answer is [`Confidence::Ambiguous`] and nothing is claimed.
use vstd::prelude::*;

use crate::snapshot::DeviceRow;
use crate::text::{chars_of, same_chars, same_str};

verus! {

/// How much a match is worth.
#[derive(Debug, Clone, Copy, PartialEq, Eq, Structural)]
pub enum Confidence {
    /// The device reports a serial number and it matches what was stored.
    /// Safe to act on automatically.
    Confirmed,
    /// No serial number, but the port and the VID/PID match a single stored
    /// device.
    Probable,
    /// More than one stored device fits, or more than one connected device
    /// fits the same record. Never act on this automatically.
    Ambiguous,
}

/// Where a stored device was last seen.
#[derive(Debug, Clone)]
pub struct Hints {
    pub last_location_path: Option<String>,
}

impl Default for Hints {
    fn default() -> (r: Self)
        ensures
            r.last_location_path.is_none(),
    {
        Hints { last_location_path: None }
    }
}

/// A device identified before.
#[derive(Debug, Clone)]
pub struct StoredDevice {
    pub identity_key: String,
    pub device_type: String,
    pub device_id: String,
    pub hardware_revision: Option<String>,
    pub usb_serial: Option<String>,
    pub vid: u16,
    pub pid: u16,
    pub hints: Hints,
}

/// One connected device matched to a stored one.
#[derive(Debug, Clone)]
pub struct Recalled<'a> {
    pub device: &'a StoredDevice,
    pub confidence: Confidence,
}

pub open spec fn opt_view(o: Option<String>) -> Option<Seq<char>> {
    match o {
        Some(s) => Some(s@),
        None => None,
    }
}

/// Route one: the stored device with this model and serial.
pub open spec fn serial_fits(d: StoredDevice, vid: u16, pid: u16, serial: Seq<char>) -> bool {
    d.vid == vid && d.pid == pid && opt_view(d.usb_serial) == Some(serial)
}

/// Route two: a stored device of this model with no serial, last seen here.
pub open spec fn port_fits(d: StoredDevice, vid: u16, pid: u16, location: Seq<char>) -> bool {
    d.vid == vid && d.pid == pid && d.usb_serial.is_none() && opt_view(d.hints.last_location_path)
        == Some(location)
}

/// The first stored device at or after `i` matching the serial.
pub open spec fn first_serial_fit(devices: Seq<StoredDevice>, vid: u16, pid: u16, serial: Seq<char>, i: int) -> Option<int>
    decreases devices.len() - i,
{
    if 0 <= i < devices.len() {
        if serial_fits(devices[i], vid, pid, serial) {
            Some(i)
        } else {
            first_serial_fit(devices, vid, pid, serial, i + 1)
        }
    } else {
        None
    }
}

/// The stored devices the port route offers, in order.
pub open spec fn port_fits_in(devices: Seq<StoredDevice>, vid: u16, pid: u16, location: Seq<char>) -> Seq<int>
    decreases devices.len(),
{
    if devices.len() == 0 {
        Seq::empty()
    } else {
        let init = port_fits_in(devices.drop_last(), vid, pid, location);
        if port_fits(devices.last(), vid, pid, location) {
            init.push(devices.len() - 1)
        } else {
            init
        }
    }
}

/// What one row claims, before rows are weighed against each other: the index
/// of the stored device and the confidence.
pub open spec fn route(row: DeviceRow, devices: Seq<StoredDevice>) -> Option<(int, Confidence)> {
    match row.instance_id.vid_pid_spec() {
        None => None,
        Some((vid, pid)) => match row.instance_id.unit@.serial() {
            Some(serial) => match first_serial_fit(devices, vid, pid, serial, 0) {
                Some(d) => Some((d, Confidence::Confirmed)),
                None => None,
            },
            None => match row.location_spec() {
                None => None,
                Some(location) => {
                    let c = port_fits_in(devices, vid, pid, location);
                    if c.len() == 0 {
                        None
                    } else if c.len() == 1 {
                        Some((c[0], Confidence::Probable))
                    } else {
                        Some((c[0], Confidence::Ambiguous))
                    }
                },
            },
        },
    }
}

/// Whether the `i`-th row claims a stored device whose key is `key`.
pub open spec fn claims_key(rows: Seq<DeviceRow>, devices: Seq<StoredDevice>, i: int, key: Seq<char>) -> bool {
    match route(rows[i], devices) {
        Some((d, _)) => devices[d].identity_key@ == key,
        None => false,
    }
}

/// How many of the first `n` rows claim a device with this key.
pub open spec fn claims_on(rows: Seq<DeviceRow>, devices: Seq<StoredDevice>, key: Seq<char>, n: int) -> nat
    decreases n,
{
    if n <= 0 {
        0
    } else {
        claims_on(rows, devices, key, n - 1) + if claims_key(rows, devices, n - 1, key) {
            1nat
        } else {
            0nat
        }
    }
}

/// Whether the `i`-th row claims a record some other row claims too.
pub open spec fn contested_row(rows: Seq<DeviceRow>, devices: Seq<StoredDevice>, i: int) -> bool {
    match route(rows[i], devices) {
        Some((d, _)) => claims_on(rows, devices, devices[d].identity_key@, rows.len() as int) > 1,
        None => false,
    }
}

/// The last of the first `n` rows on `raw` that matched anything.
pub open spec fn last_match(rows: Seq<DeviceRow>, devices: Seq<StoredDevice>, raw: Seq<char>, n: int) -> Option<int>
    decreases n,
{
    if n <= 0 {
        None
    } else if rows[n - 1].instance_id.raw@ == raw && route(rows[n - 1], devices).is_some() {
        Some(n - 1)
    } else {
        last_match(rows, devices, raw, n - 1)
    }
}

/// Whether a matched id is marked ambiguous: a row on it claimed a record
/// another row claimed too. Two devices cannot be the same board.
pub open spec fn contested(rows: Seq<DeviceRow>, devices: Seq<StoredDevice>, raw: Seq<char>) -> bool {
    exists|i: int|
        0 <= i < rows.len() && #[trigger] rows[i].instance_id.raw@ == raw && contested_row(rows, devices, i)
}

/// What is recalled for an instance id: the stored device of the last row on
/// it that matched, ambiguous where contested.
pub open spec fn recalled_for(rows: Seq<DeviceRow>, devices: Seq<StoredDevice>, raw: Seq<char>) -> Option<(int, Confidence)> {
    match last_match(rows, devices, raw, rows.len() as int) {
        None => None,
        Some(i) => {
            let r = route(rows[i], devices).unwrap();
            if contested(rows, devices, raw) {
                Some((r.0, Confidence::Ambiguous))
            } else {
                Some(r)
            }
        },
    }
}

/// `out` lists each matched instance id once, with what was recalled for it.
pub open spec fn recall_result(out: Seq<(String, Recalled)>, rows: Seq<DeviceRow>, devices: Seq<StoredDevice>) -> bool {
    &&& forall|a: int, b: int| 0 <= a < b < out.len() ==> (#[trigger] out[a]).0@ != (#[trigger] out[b]).0@
    &&& forall|a: int|
        0 <= a < out.len() ==> {
            let f = recalled_for(rows, devices, (#[trigger] out[a]).0@);
            &&& f.is_some()
            &&& *out[a].1.device == devices[f.unwrap().0]
            &&& out[a].1.confidence == f.unwrap().1
        }
    &&& forall|i: int|
        0 <= i < rows.len() && route(#[trigger] rows[i], devices).is_some() ==> exists|a: int|
            0 <= a < out.len() && (#[trigger] out[a]).0@ == rows[i].instance_id.raw@
}

proof fn lemma_first_serial_fit(devices: Seq<StoredDevice>, vid: u16, pid: u16, serial: Seq<char>, i: int)
    requires
        0 <= i,
    ensures
        first_serial_fit(devices, vid, pid, serial, i) matches Some(d) ==> i <= d < devices.len() && serial_fits(
            devices[d],
            vid,
            pid,
            serial,
        ),
    decreases devices.len() - i,
{
    if 0 <= i < devices.len() {
        lemma_first_serial_fit(devices, vid, pid, serial, i + 1);
    }
}

proof fn lemma_port_fits_in(devices: Seq<StoredDevice>, vid: u16, pid: u16, location: Seq<char>)
    ensures
        forall|k: int|
            0 <= k < port_fits_in(devices, vid, pid, location).len() ==> 0 <= #[trigger] port_fits_in(
                devices,
                vid,
                pid,
                location,
            )[k] < devices.len() && port_fits(devices[port_fits_in(devices, vid, pid, location)[k]], vid, pid, location),
    decreases devices.len(),
{
    if devices.len() > 0 {
        lemma_port_fits_in(devices.drop_last(), vid, pid, location);
        let init = port_fits_in(devices.drop_last(), vid, pid, location);
        let all = port_fits_in(devices, vid, pid, location);
        assert forall|k: int| 0 <= k < all.len() implies 0 <= #[trigger] all[k] < devices.len() && port_fits(
            devices[all[k]],
            vid,
            pid,
            location,
        ) by {
            if k < init.len() {
                assert(all[k] == init[k]);
                assert(devices[init[k]] == devices.drop_last()[init[k]]);
            }
        }
    }
}

proof fn lemma_route_in_range(row: DeviceRow, devices: Seq<StoredDevice>)
    ensures
        route(row, devices) matches Some((d, _)) ==> 0 <= d < devices.len(),
{
    if let Some((vid, pid)) = row.instance_id.vid_pid_spec() {
        if let Some(serial) = row.instance_id.unit@.serial() {
            lemma_first_serial_fit(devices, vid, pid, serial, 0);
        } else if let Some(location) = row.location_spec() {
            lemma_port_fits_in(devices, vid, pid, location);
        }
    }
}

/// A row is only ever matched to a stored device of its own model. Through
/// its serial, the stored device has that serial and the match is confirmed;
/// without one, the stored device has no serial either, was last seen at the
/// row's port, and the match is at best probable.
pub proof fn a_row_is_matched_only_to_a_device_of_its_model(row: DeviceRow, devices: Seq<StoredDevice>)
    ensures
        route(row, devices) matches Some((d, c)) ==> {
            &&& 0 <= d < devices.len()
            &&& row.instance_id.vid_pid_spec() == Some((devices[d].vid, devices[d].pid))
            &&& match row.instance_id.unit@.serial() {
                Some(serial) => devices[d].usb_serial matches Some(s) && s@ == serial && c == Confidence::Confirmed,
                None => {
                    &&& devices[d].usb_serial is None
                    &&& devices[d].hints.last_location_path matches Some(l) && row.location_spec() == Some(l@)
                    &&& c != Confidence::Confirmed
                },
            }
        },
{
    if let Some((vid, pid)) = row.instance_id.vid_pid_spec() {
        if let Some(serial) = row.instance_id.unit@.serial() {
            lemma_first_serial_fit(devices, vid, pid, serial, 0);
        } else if let Some(location) = row.location_spec() {
            lemma_port_fits_in(devices, vid, pid, location);
            let c = port_fits_in(devices, vid, pid, location);
            if c.len() > 0 {
                assert(0 <= c[0] < devices.len() && port_fits(devices[c[0]], vid, pid, location));
            }
        }
    }
}

fn opt_chars(o: &Option<String>) -> (r: Option<Vec<char>>)
    ensures
        r.is_some() == o.is_some(),
        r.is_some() ==> r.unwrap()@ == o.unwrap()@,
{
    match o {
        Some(s) => Some(chars_of(s.as_str())),
        None => None,
    }
}

/// What one row claims.
fn route_of(row: &DeviceRow, devices: &[StoredDevice]) -> (r: Option<(usize, Confidence)>)
    ensures
        match r {
            Some((d, c)) => route(*row, devices@) == Some((d as int, c)),
            None => route(*row, devices@).is_none(),
        },
{
    proof {
        lemma_route_in_range(*row, devices@);
    }
    let (vid, pid) = match row.instance_id.vid_pid() {
        Some(vp) => vp,
        None => return None,
    };
    let n = devices.len();
    match row.instance_id.unit.serial() {
        Some(serial) => {
            // Route 1: the device says who it is.
            let mut i: usize = 0;
            while i < n
                invariant
                    n == devices@.len(),
                    i <= n,
                    first_serial_fit(devices@, vid, pid, serial@, 0) == first_serial_fit(devices@, vid, pid, serial@, i as int),
                    row.instance_id.unit@.serial() == Some(serial@),
                    row.instance_id.vid_pid_spec() == Some((vid, pid)),
                decreases n - i,
            {
                let d = &devices[i];
                let fits = d.vid == vid && d.pid == pid && match &d.usb_serial {
                    Some(s) => same_str(s.as_str(), serial),
                    None => false,
                };
                if fits {
                    assert(first_serial_fit(devices@, vid, pid, serial@, i as int) == Some(i as int));
                    assert(row.instance_id.unit@.serial() == Some(serial@));
                    assert(row.instance_id.vid_pid_spec() == Some((vid, pid)));
                    assert(route(*row, devices@) == Some((i as int, Confidence::Confirmed)));
                    return Some((i, Confidence::Confirmed));
                }
                i = i + 1;
            }
            None
        },
        None => {
            // Route 2: no serial, so the port is the only handle. It has to
            // single out exactly one stored device to be worth anything.
            let location = match row.location_path() {
                Some(l) => l,
                None => return None,
            };
            let mut first: usize = 0;
            let mut count: usize = 0;
            let mut i: usize = 0;
            while i < n
                invariant
                    n == devices@.len(),
                    i <= n,
                    count == port_fits_in(devices@.take(i as int), vid, pid, location@).len(),
                    count <= i,
                    count > 0 ==> first == port_fits_in(devices@.take(i as int), vid, pid, location@)[0],
                decreases n - i,
            {
                let d = &devices[i];
                let fits = d.vid == vid && d.pid == pid && d.usb_serial.is_none() && match &d.hints.last_location_path {
                    Some(l) => same_str(l.as_str(), location),
                    None => false,
                };
                proof {
                    assert(devices@.take(i as int + 1).drop_last() == devices@.take(i as int));
                }
                if fits {
                    if count == 0 {
                        first = i;
                    }
                    count = count + 1;
                }
                i = i + 1;
            }
            assert(devices@.take(n as int) == devices@);
            if count == 0 {
                None
            } else if count == 1 {
                Some((first, Confidence::Probable))
            } else {
                // The store disagrees with itself about this port; say so
                // rather than picking one.
                Some((first, Confidence::Ambiguous))
            }
        },
    }
}

/// Matches every row against the stored devices, keyed by instance id.
///
/// Rows with no match are simply absent from the result: an unknown device is
/// not a failure, it is a device that has not been identified yet.
pub fn recall<'a>(devices: &'a [StoredDevice], rows: &[DeviceRow]) -> (r: Vec<(String, Recalled<'a>)>)
    ensures
        recall_result(r@, rows@, devices@),
{
    let n = rows.len();
    // What each row claims.
    let mut routes: Vec<Option<(usize, Confidence)>> = Vec::new();
    let mut i: usize = 0;
    while i < n
        invariant
            n == rows@.len(),
            i <= n,
            routes@.len() == i,
            forall|t: int| 0 <= t < i ==> (match #[trigger] routes@[t] {
                Some((d, c)) => route(rows@[t], devices@) == Some((d as int, c)),
                None => route(rows@[t], devices@).is_none(),
            }),
        decreases n - i,
    {
        routes.push(route_of(&rows[i], devices));
        i = i + 1;
    }
    // Which rows claim a record some other row claims too.
    let mut hot: Vec<bool> = Vec::new();
    i = 0;
    while i < n
        invariant
            n == rows@.len(),
            i <= n,
            routes@.len() == n,
            forall|t: int| 0 <= t < n ==> (match #[trigger] routes@[t] {
                Some((d, c)) => route(rows@[t], devices@) == Some((d as int, c)),
                None => route(rows@[t], devices@).is_none(),
            }),
            hot@.len() == i,
            forall|t: int| 0 <= t < i ==> #[trigger] hot@[t] == contested_row(rows@, devices@, t),
        decreases n - i,
    {
        let flag = match routes[i] {
            Some((d, _)) => {
                proof {
                    lemma_route_in_range(rows@[i as int], devices@);
                }
                let key = &devices[d].identity_key;
                let mut count: usize = 0;
                let mut j: usize = 0;
                while j < n
                    invariant
                        n == rows@.len(),
                        j <= n,
                        routes@.len() == n,
                        forall|t: int| 0 <= t < n ==> (match #[trigger] routes@[t] {
                            Some((d, c)) => route(rows@[t], devices@) == Some((d as int, c)),
                            None => route(rows@[t], devices@).is_none(),
                        }),
                        count == claims_on(rows@, devices@, key@, j as int),
                        count <= j,
                    decreases n - j,
                {
                    let claims = match routes[j] {
                        Some((e, _)) => {
                            proof {
                                lemma_route_in_range(rows@[j as int], devices@);
                            }
                            same_str(devices[e].identity_key.as_str(), key.as_str())
                        },
                        None => false,
                    };
                    if claims {
                        count = count + 1;
                    }
                    j = j + 1;
                }
                count > 1
            },
            None => false,
        };
        hot.push(flag);
        i = i + 1;
    }
    // One entry per instance id, the last match on it winning.
    let mut out: Vec<(String, Recalled<'a>)> = Vec::new();
    i = 0;
    while i < n
        invariant
            n == rows@.len(),
            i <= n,
            routes@.len() == n,
            hot@.len() == n,
            forall|t: int| 0 <= t < n ==> (match #[trigger] routes@[t] {
                Some((d, c)) => route(rows@[t], devices@) == Some((d as int, c)),
                None => route(rows@[t], devices@).is_none(),
            }),
            forall|t: int| 0 <= t < n ==> #[trigger] hot@[t] == contested_row(rows@, devices@, t),
            forall|a: int, b: int| 0 <= a < b < out@.len() ==> (#[trigger] out@[a]).0@ != (#[trigger] out@[b]).0@,
            forall|a: int|
                0 <= a < out@.len() ==> {
                    let m = last_match(rows@, devices@, (#[trigger] out@[a]).0@, i as int);
                    &&& m.is_some()
                    &&& *out@[a].1.device == devices@[route(rows@[m.unwrap()], devices@).unwrap().0]
                    &&& out@[a].1.confidence == route(rows@[m.unwrap()], devices@).unwrap().1
                },
            forall|t: int|
                0 <= t < i && route(#[trigger] rows@[t], devices@).is_some() ==> exists|a: int|
                    0 <= a < out@.len() && (#[trigger] out@[a]).0@ == rows@[t].instance_id.raw@,
        decreases n - i,
    {
        match routes[i] {
            Some((d, c)) => {
                proof {
                    lemma_route_in_range(rows@[i as int], devices@);
                }
                let raw = &rows[i].instance_id.raw;
                let len = out.len();
                let mut j: usize = 0;
                let mut at: Option<usize> = None;
                while j < len
                    invariant
                        j <= len,
                        len == out@.len(),
                        match at {
                            Some(a) => a < len && out@[a as int].0@ == raw@,
                            None => forall|a: int| 0 <= a < j ==> (#[trigger] out@[a]).0@ != raw@,
                        },
                    decreases len - j,
                {
                    if at.is_none() && same_str(out[j].0.as_str(), raw.as_str()) {
                        at = Some(j);
                    }
                    j = j + 1;
                }
                let entry = (raw.clone(), Recalled { device: &devices[d], confidence: c });
                let ghost before = out@;
                match at {
                    Some(a) => {
                        out.set(a, entry);
                        proof {
                            assert forall|b: int| 0 <= b < out@.len() && b != a implies #[trigger] out@[b] == before[b] by {}
                        }
                    },
                    None => {
                        out.push(entry);
                    },
                }
                proof {
                    assert forall|t: int|
                        0 <= t < i + 1 && route(#[trigger] rows@[t], devices@).is_some() implies exists|a: int|
                            0 <= a < out@.len() && (#[trigger] out@[a]).0@ == rows@[t].instance_id.raw@ by {
                        if t == i {
                            if let Some(a) = at {
                                assert(out@[a as int].0@ == raw@);
                            } else {
                                assert(out@[len as int].0@ == raw@);
                            }
                        } else {
                            let a0 = choose|a: int| 0 <= a < before.len() && (#[trigger] before[a]).0@ == rows@[t].instance_id.raw@;
                            if at == Some(a0 as usize) {
                                assert(out@[a0].0@ == raw@);
                            } else {
                                assert(out@[a0] == before[a0]);
                            }
                        }
                    }
                }
            },
            None => {},
        }
        i = i + 1;
    }
    // Two devices cannot be the same board: a record claimed twice makes
    // every id that claimed it ambiguous.
    let m = out.len();
    let mut a: usize = 0;
    while a < m
        invariant
            n == rows@.len(),
            m == out@.len(),
            a <= m,
            hot@.len() == n,
            forall|t: int| 0 <= t < n ==> #[trigger] hot@[t] == contested_row(rows@, devices@, t),
            forall|x: int, y: int| 0 <= x < y < out@.len() ==> (#[trigger] out@[x]).0@ != (#[trigger] out@[y]).0@,
            forall|b: int|
                0 <= b < out@.len() ==> {
                    let f = recalled_for(rows@, devices@, (#[trigger] out@[b]).0@);
                    let lm = last_match(rows@, devices@, out@[b].0@, n as int);
                    &&& lm.is_some()
                    &&& f.is_some()
                    &&& *out@[b].1.device == devices@[f.unwrap().0]
                    &&& (b < a ==> out@[b].1.confidence == f.unwrap().1)
                    &&& (b >= a ==> out@[b].1.confidence == route(rows@[lm.unwrap()], devices@).unwrap().1)
                },
            forall|t: int|
                0 <= t < n && route(#[trigger] rows@[t], devices@).is_some() ==> exists|x: int|
                    0 <= x < out@.len() && (#[trigger] out@[x]).0@ == rows@[t].instance_id.raw@,
        decreases m - a,
    {
        let key = chars_of(out[a].0.as_str());
        let mut forced = false;
        let mut t: usize = 0;
        while t < n
            invariant
                n == rows@.len(),
                t <= n,
                hot@.len() == n,
                forall|s: int| 0 <= s < n ==> #[trigger] hot@[s] == contested_row(rows@, devices@, s),
                forced == exists|s: int| 0 <= s < t && #[trigger] rows@[s].instance_id.raw@ == key@ && contested_row(rows@, devices@, s),
            decreases n - t,
        {
            if hot[t] && same_chars(&chars_of(rows[t].instance_id.raw.as_str()), &key) {
                forced = true;
            }
            t = t + 1;
        }
        if forced {
            let ghost before = out@;
            let mut entry = out.remove(a);
            entry.1.confidence = Confidence::Ambiguous;
            out.insert(a, entry);
            proof {
                assert forall|b: int| 0 <= b < out@.len() && b != a implies #[trigger] out@[b] == before[b] by {
                    if b < a {
                    } else {
                    }
                }
                assert(out@[a as int].0 == before[a as int].0);
                assert forall|t: int|
                    0 <= t < n && route(#[trigger] rows@[t], devices@).is_some() implies exists|x: int|
                        0 <= x < out@.len() && (#[trigger] out@[x]).0@ == rows@[t].instance_id.raw@ by {
                    let x0 = choose|x: int| 0 <= x < before.len() && (#[trigger] before[x]).0@ == rows@[t].instance_id.raw@;
                    if x0 == a {
                        assert(out@[x0].0@ == rows@[t].instance_id.raw@);
                    } else {
                        assert(out@[x0] == before[x0]);
                    }
                }
            }
        }
        a = a + 1;
    }
    out
}

} // verus!
