//! USB devices as Windows sees them.
//!
//! Reading them is CfgMgr32's job and the caller's; what is decided here is
//! what the values read mean: the name to show, whether a node is a hub,
//! whether a container id identifies the device or only its port, and how the
//! raw property bytes decode.
use vstd::prelude::*;

use crate::instance_id::InstanceId;
use crate::text::{
    all_digits, all_digits_vec, chars_of, ci_eq, copy_opt_string, dec_text, eq_ignore_case, hex2, push_hex2, push_str,
    rfind, rfind_vec, split_seq, split_vec, str_string, string_of, sub_vec, trim_end, trim_vec, u32_string,
};

verus! {

/// One USB device as Windows sees it.
#[derive(Debug, Clone)]
pub struct WinUsbDevice {
    pub instance_id: InstanceId,
    /// `DEVPKEY_Device_DeviceDesc`: the generic name the driver supplies.
    pub device_desc: Option<String>,
    /// `DEVPKEY_Device_FriendlyName`: usually includes the COM number.
    pub friendly_name: Option<String>,
    /// `DEVPKEY_Device_BusReportedDeviceDesc`: the USB iProduct string.
    pub bus_reported_device_desc: Option<String>,
    pub manufacturer: Option<String>,
    /// The bound driver.
    pub service: Option<String>,
    pub container_id: Option<ContainerId>,
    /// `DEVPKEY_Device_LocationPaths`: the stable identifier of the physical
    /// port. Never persisted as a device identifier.
    pub location_paths: Vec<String>,
    /// The node this one hangs off.
    pub parent_instance_id: Option<String>,
    /// The port number on that parent.
    pub address: Option<u32>,
    /// COM number, for display only.
    pub com_port: Option<String>,
    /// Device revision from the descriptor.
    pub revision: Option<String>,
    pub driver_version: Option<String>,
    /// Windows' problem code, when there is one.
    pub problem_code: Option<u32>,
}

/// A ContainerId together with its UUID version.
///
/// Devices with a serial get a v5 UUID (a deterministic hash of
/// VID/PID/serial); devices without one get a v1 UUID minted on first
/// connection, which makes it a port identifier in disguise.
#[derive(Debug, Clone, PartialEq, Eq)]
pub struct ContainerId {
    pub uuid: String,
    pub version: u8,
}

impl ContainerId {
    /// v5 means the value derives from the device and survives a port change.
    pub fn is_stable(&self) -> (r: bool)
        ensures
            r == (self.version == 5),
    {
        self.version == 5
    }

    pub fn duplicate(&self) -> (r: Self)
        ensures
            r.uuid@ == self.uuid@,
            r.version == self.version,
    {
        ContainerId { uuid: self.uuid.clone(), version: self.version }
    }
}

/// ` (COM`.
pub open spec fn com_marker() -> Seq<char> {
    seq![' ', '(', 'C', 'O', 'M']
}

/// A name with a trailing ` (COM<digits>)` removed, and the whitespace before
/// it. Only the last ` (COM` counts, and only when what follows it is one or
/// more digits and a closing parenthesis that ends the name.
pub open spec fn strip_com_suffix_spec(name: Seq<char>) -> Seq<char> {
    match rfind(name, com_marker()) {
        None => name,
        Some(open) => {
            let tail = name.skip(open + 5);
            if tail.len() > 0 && tail.last() == ')' && tail.drop_last().len() > 0 && all_digits(
                tail.drop_last(),
            ) {
                trim_end(name.take(open))
            } else {
                name
            }
        },
    }
}

/// Strips a trailing ` (COM12)` from a device name.
///
/// Windows puts the COM number inside the friendly name, and usbipd caches
/// that whole string when the device is bound, so the number in it can name a
/// port the device no longer has.
pub fn strip_com_suffix(name: &str) -> (r: String)
    ensures
        r@ == strip_com_suffix_spec(name@),
{
    let chars = chars_of(name);
    let mut marker: Vec<char> = Vec::new();
    marker.push(' ');
    marker.push('(');
    marker.push('C');
    marker.push('O');
    marker.push('M');
    assert(marker@ =~= com_marker());
    let open = match rfind_vec(&chars, &marker) {
        Some(i) => i,
        None => {
            return string_of(&chars);
        },
    };
    assert(chars@.len() == chars.len());
    assert(open + 5 <= chars@.len()) by {
        crate::text::lemma_rfind_occurs(chars@, marker@);
    }
    let tail = sub_vec(&chars, open + 5, chars.len());
    assert(tail@ == chars@.skip(open + 5));
    if tail.len() == 0 || tail[tail.len() - 1] != ')' {
        return string_of(&chars);
    }
    let digits = sub_vec(&tail, 0, tail.len() - 1);
    assert(digits@ == tail@.drop_last());
    if digits.len() == 0 || !all_digits_vec(&digits) {
        return string_of(&chars);
    }
    let head = sub_vec(&chars, 0, open);
    let trimmed = trim_end_vec(&head);
    string_of(&trimmed)
}

fn trim_end_vec(v: &Vec<char>) -> (r: Vec<char>)
    ensures
        r@ == trim_end(v@),
{
    let m = v.len();
    let mut j: usize = m;
    assert(v@.take(m as int) == v@);
    while j > 0 && crate::text::is_ws_char(v[j - 1])
        invariant
            m == v.len(),
            j <= m,
            trim_end(v@) == trim_end(v@.take(j as int)),
        decreases j,
    {
        assert(v@.take(j as int).drop_last() == v@.take(j as int - 1));
        j = j - 1;
    }
    sub_vec(v, 0, j)
}

/// The name shown for a node: the friendly name without its COM suffix,
/// else the USB product string, else the driver's description, else the
/// instance id itself.
pub open spec fn display_name_spec(d: WinUsbDevice) -> Seq<char> {
    match d.friendly_name {
        Some(f) => strip_com_suffix_spec(f@),
        None => match d.bus_reported_device_desc {
            Some(b) => b@,
            None => match d.device_desc {
                Some(dd) => dd@,
                None => d.instance_id.raw@,
            },
        },
    }
}

/// Without a friendly name, the USB product string the device reports comes
/// before the driver's description, and the instance id is the last resort;
/// a friendly name, when there is one, is what is shown.
pub proof fn the_product_string_comes_before_the_driver_description(d: WinUsbDevice)
    ensures
        d.friendly_name matches Some(f) ==> display_name_spec(d) == strip_com_suffix_spec(f@),
        d.friendly_name is None ==> (d.bus_reported_device_desc matches Some(b) ==> display_name_spec(d) == b@),
        d.friendly_name is None && d.bus_reported_device_desc is None ==> (d.device_desc matches Some(x)
            ==> display_name_spec(d) == x@),
        d.friendly_name is None && d.bus_reported_device_desc is None && d.device_desc is None
            ==> display_name_spec(d) == d.instance_id.raw@,
{
}

/// An optional text by its characters.
pub open spec fn opt_text(o: Option<String>) -> Option<Seq<char>> {
    match o {
        Some(s) => Some(s@),
        None => None,
    }
}

/// Whether two nodes hold the same values in every field.
pub open spec fn same_node(a: WinUsbDevice, b: WinUsbDevice) -> bool {
    &&& a.instance_id.raw@ == b.instance_id.raw@
    &&& a.instance_id.enumerator@ == b.instance_id.enumerator@
    &&& a.instance_id.vid == b.instance_id.vid
    &&& a.instance_id.pid == b.instance_id.pid
    &&& a.instance_id.unit@ == b.instance_id.unit@
    &&& opt_text(a.device_desc) == opt_text(b.device_desc)
    &&& opt_text(a.friendly_name) == opt_text(b.friendly_name)
    &&& opt_text(a.bus_reported_device_desc) == opt_text(b.bus_reported_device_desc)
    &&& opt_text(a.manufacturer) == opt_text(b.manufacturer)
    &&& opt_text(a.service) == opt_text(b.service)
    &&& a.container_id.is_some() == b.container_id.is_some()
    &&& a.container_id.is_some() ==> (a.container_id.unwrap().uuid@ == b.container_id.unwrap().uuid@
        && a.container_id.unwrap().version == b.container_id.unwrap().version)
    &&& a.location_paths@.len() == b.location_paths@.len()
    &&& forall|i: int|
        0 <= i < a.location_paths@.len() ==> #[trigger] a.location_paths@[i]@ == b.location_paths@[i]@
    &&& opt_text(a.parent_instance_id) == opt_text(b.parent_instance_id)
    &&& a.address == b.address
    &&& opt_text(a.com_port) == opt_text(b.com_port)
    &&& opt_text(a.revision) == opt_text(b.revision)
    &&& opt_text(a.driver_version) == opt_text(b.driver_version)
    &&& a.problem_code == b.problem_code
}

/// How a container id is shown: `-` when there is none, else the UUID with
/// its version and whether it names the device (version 5) or the port.
pub open spec fn container_label_spec(c: Option<ContainerId>) -> Seq<char> {
    match c {
        None => "-"@,
        Some(c) => c.uuid@ + " (v"@ + dec_text(c.version as nat) + (if c.version == 5 {
            ", device)"@
        } else {
            ", port)"@
        }),
    }
}

/// How a container id is shown in a device listing.
pub fn container_label(c: Option<&ContainerId>) -> (r: String)
    ensures
        r@ == container_label_spec(match c {
            Some(x) => Some(*x),
            None => None,
        }),
{
    match c {
        None => str_string("-"),
        Some(c) => {
            let mut t = str_string(c.uuid.as_str());
            push_str(&mut t, " (v");
            push_str(&mut t, u32_string(c.version as u32).as_str());
            if c.is_stable() {
                push_str(&mut t, ", device)");
            } else {
                push_str(&mut t, ", port)");
            }
            t
        },
    }
}

impl WinUsbDevice {
    /// Whether this is a hub or root hub, i.e. a node with no VID/PID.
    pub fn is_hub_like(&self) -> (r: bool)
        ensures
            r == self.instance_id.vid_pid_spec().is_none(),
    {
        self.instance_id.vid_pid().is_none()
    }

    /// The best name available for display.
    ///
    /// `FriendlyName` first: it is what Device Manager shows. The USB
    /// `iProduct` string is the fallback because it is often generic.
    pub fn display_name(&self) -> (r: String)
        ensures
            r@ == display_name_spec(*self),
    {
        match &self.friendly_name {
            Some(f) => strip_com_suffix(f.as_str()),
            None => match &self.bus_reported_device_desc {
                Some(b) => b.clone(),
                None => match &self.device_desc {
                    Some(d) => d.clone(),
                    None => self.instance_id.raw.clone(),
                },
            },
        }
    }

    /// Whether the bound driver is WinUSB, a precondition for the WCH-Link
    /// probe.
    pub fn is_winusb(&self) -> (r: bool)
        ensures
            r == (self.service.is_some() && ci_eq(self.service.unwrap()@, "WinUSB"@)),
    {
        match &self.service {
            Some(s) => eq_ignore_case(s.as_str(), "WinUSB"),
            None => false,
        }
    }

    /// The first location path, when there is one.
    pub fn first_location_path(&self) -> (r: Option<String>)
        ensures
            r.is_some() == (self.location_paths@.len() > 0),
            r.is_some() ==> r.unwrap()@ == self.location_paths@[0]@,
    {
        if self.location_paths.len() > 0 {
            Some(self.location_paths[0].clone())
        } else {
            None
        }
    }

    /// A copy of this node.
    pub fn duplicate(&self) -> (r: Self)
        ensures
            same_node(r, *self),
            display_name_spec(r) == display_name_spec(*self),
    {
        let mut paths: Vec<String> = Vec::new();
        let n = self.location_paths.len();
        let mut i: usize = 0;
        while i < n
            invariant
                n == self.location_paths@.len(),
                i <= n,
                paths@.len() == i,
                forall|k: int| 0 <= k < i ==> #[trigger] paths@[k]@ == self.location_paths@[k]@,
            decreases n - i,
        {
            paths.push(self.location_paths[i].clone());
            i = i + 1;
        }
        let container_id = match &self.container_id {
            Some(c) => Some(c.duplicate()),
            None => None,
        };
        WinUsbDevice {
            instance_id: self.instance_id.duplicate(),
            device_desc: copy_opt_string(&self.device_desc),
            friendly_name: copy_opt_string(&self.friendly_name),
            bus_reported_device_desc: copy_opt_string(&self.bus_reported_device_desc),
            manufacturer: copy_opt_string(&self.manufacturer),
            service: copy_opt_string(&self.service),
            container_id,
            location_paths: paths,
            parent_instance_id: copy_opt_string(&self.parent_instance_id),
            address: self.address,
            com_port: copy_opt_string(&self.com_port),
            revision: copy_opt_string(&self.revision),
            driver_version: copy_opt_string(&self.driver_version),
            problem_code: self.problem_code,
        }
    }
}

/// The UUID text a GUID's sixteen bytes spell: `Data1`, `Data2` and `Data3`
/// are little-endian, `Data4` is bytes in order.
pub open spec fn guid_text(b: Seq<u8>) -> Seq<char> {
    hex2(b[3]) + hex2(b[2]) + hex2(b[1]) + hex2(b[0]) + seq!['-'] + hex2(b[5]) + hex2(b[4]) + seq![
        '-',
    ] + hex2(b[7]) + hex2(b[6]) + seq!['-'] + hex2(b[8]) + hex2(b[9]) + seq!['-'] + hex2(b[10])
        + hex2(b[11]) + hex2(b[12]) + hex2(b[13]) + hex2(b[14]) + hex2(b[15])
}

/// Whether the bytes are `00000000-0000-0000-ffff-ffffffffffff`, the "this
/// device belongs to no container" sentinel.
pub open spec fn is_null_container(b: Seq<u8>) -> bool {
    (forall|i: int| 0 <= i < 8 ==> b[i] == 0u8) && (forall|i: int| 8 <= i < 16 ==> b[i] == 0xffu8)
}

/// The container id a `DEVPKEY_Device_ContainerId` GUID value gives: none
/// for fewer than sixteen bytes or for the null sentinel; otherwise its UUID
/// text and the version held in the top four bits of `time_hi_and_version`.
pub fn container_id_from_guid(buf: &[u8]) -> (r: Option<ContainerId>)
    ensures
        match r {
            Some(c) => buf@.len() >= 16 && !is_null_container(buf@) && c.uuid@ == guid_text(buf@)
                && c.version == buf@[7] / 16,
            None => buf@.len() < 16 || is_null_container(buf@),
        },
{
    if buf.len() < 16 {
        return None;
    }
    let mut null = true;
    let mut i: usize = 0;
    while i < 16
        invariant
            buf@.len() >= 16,
            i <= 16,
            null == ((forall|j: int| 0 <= j < i && j < 8 ==> buf@[j] == 0u8) && (forall|j: int|
                8 <= j < i ==> buf@[j] == 0xffu8)),
        decreases 16 - i,
    {
        let want: u8 = if i < 8 {
            0
        } else {
            0xff
        };
        if buf[i] != want {
            null = false;
        }
        i = i + 1;
    }
    if null {
        return None;
    }
    let mut t: Vec<char> = Vec::new();
    push_hex2(&mut t, buf[3]);
    push_hex2(&mut t, buf[2]);
    push_hex2(&mut t, buf[1]);
    push_hex2(&mut t, buf[0]);
    t.push('-');
    push_hex2(&mut t, buf[5]);
    push_hex2(&mut t, buf[4]);
    t.push('-');
    push_hex2(&mut t, buf[7]);
    push_hex2(&mut t, buf[6]);
    t.push('-');
    push_hex2(&mut t, buf[8]);
    push_hex2(&mut t, buf[9]);
    t.push('-');
    push_hex2(&mut t, buf[10]);
    push_hex2(&mut t, buf[11]);
    push_hex2(&mut t, buf[12]);
    push_hex2(&mut t, buf[13]);
    push_hex2(&mut t, buf[14]);
    push_hex2(&mut t, buf[15]);
    assert(t@ =~= guid_text(buf@));
    Some(ContainerId { uuid: string_of(&t), version: buf[7] / 16 })
}

/// The UTF-16 code units little-endian bytes spell; an odd last byte is
/// dropped.
pub open spec fn units_of(bytes: Seq<u8>) -> Seq<u16> {
    Seq::new(bytes.len() / 2, |i: int| (bytes[2 * i] as int + 256 * bytes[2 * i + 1] as int) as u16)
}

/// Reads little-endian UTF-16 code units out of bytes.
pub fn units_from_le_bytes(bytes: &[u8]) -> (r: Vec<u16>)
    ensures
        r@ == units_of(bytes@),
{
    let mut r: Vec<u16> = Vec::new();
    let n = bytes.len() / 2;
    let mut i: usize = 0;
    while i < n
        invariant
            n == bytes@.len() / 2,
            bytes@.len() <= usize::MAX,
            i <= n,
            r@ == units_of(bytes@).take(i as int),
        decreases n - i,
    {
        let k: usize = i + i;
        let lo = bytes[k] as u16;
        let hi = bytes[k + 1] as u16;
        r.push(lo + 256 * hi);
        assert(r@ =~= units_of(bytes@).take(i as int + 1));
        i = i + 1;
    }
    assert(units_of(bytes@).take(n as int) =~= units_of(bytes@));
    r
}

/// Whether a code unit is a high (leading) surrogate.
pub open spec fn is_high_surrogate(u: u16) -> bool {
    0xD800 <= u <= 0xDBFF
}

/// Whether a code unit is a low (trailing) surrogate.
pub open spec fn is_low_surrogate(u: u16) -> bool {
    0xDC00 <= u <= 0xDFFF
}

/// UTF-16 decoded as `String::from_utf16_lossy` decodes it: a unit outside
/// the surrogate range is its own character, a high surrogate followed by a
/// low one is the character they encode together, and any other surrogate is
/// unpaired and becomes U+FFFD, the unit after it being read afresh.
pub open spec fn utf16_lossy(units: Seq<u16>) -> Seq<char>
    decreases units.len(),
{
    if units.len() == 0 {
        Seq::empty()
    } else if !is_high_surrogate(units[0]) && !is_low_surrogate(units[0]) {
        seq![(units[0] as int) as char] + utf16_lossy(units.drop_first())
    } else if is_high_surrogate(units[0]) && units.len() >= 2 && is_low_surrogate(units[1]) {
        seq![(0x10000 + (units[0] - 0xD800) * 0x400 + (units[1] - 0xDC00)) as char] + utf16_lossy(
            units.subrange(2, units.len() as int),
        )
    } else {
        seq!['\u{FFFD}'] + utf16_lossy(units.drop_first())
    }
}

/// `String::from_utf16_lossy`: decodes UTF-16, surrogate pairs into the
/// characters they encode and each unpaired surrogate into U+FFFD, as
/// [`utf16_lossy`] states.
#[verifier::external_body]
fn from_utf16_lossy(units: &[u16]) -> (r: String)
    ensures
        r@ == utf16_lossy(units@),
{
    String::from_utf16_lossy(units)
}

/// The pieces of `s` between zero units, empty ones included.
pub open spec fn split_units(s: Seq<u16>) -> Seq<Seq<u16>>
    decreases s.len(),
{
    if s.len() == 0 {
        seq![Seq::<u16>::empty()]
    } else {
        let rest = split_units(s.drop_last());
        if s.last() == 0 {
            rest.push(Seq::<u16>::empty())
        } else {
            rest.update(rest.len() - 1, rest.last().push(s.last()))
        }
    }
}

proof fn lemma_split_units_nonempty(s: Seq<u16>)
    ensures
        split_units(s).len() >= 1,
    decreases s.len(),
{
    if s.len() > 0 {
        lemma_split_units_nonempty(s.drop_last());
    }
}

/// The non-empty pieces of a NUL-separated list, each decoded.
pub open spec fn multi_sz(units: Seq<u16>) -> Seq<Seq<char>> {
    split_units(units).filter(nonempty_piece()).map_values(|p: Seq<u16>| utf16_lossy(p))
}

pub open spec fn nonempty_piece() -> spec_fn(Seq<u16>) -> bool {
    |p: Seq<u16>| p.len() > 0
}

/// Splits a NUL-separated, double-NUL-terminated string list.
pub fn split_multi_sz(units: &[u16]) -> (r: Vec<String>)
    ensures
        r@.len() == multi_sz(units@).len(),
        forall|i: int| 0 <= i < r@.len() ==> #[trigger] r@[i]@ == multi_sz(units@)[i],
{
    let ghost s = units@;
    let mut pieces: Vec<Vec<u16>> = Vec::new();
    let mut cur: Vec<u16> = Vec::new();
    let n = units.len();
    let mut i: usize = 0;
    assert(s.take(0) =~= Seq::<u16>::empty());
    while i < n
        invariant
            n == s.len(),
            s == units@,
            i <= n,
            pieces@.len() + 1 == split_units(s.take(i as int)).len(),
            forall|k: int| 0 <= k < pieces@.len() ==> #[trigger] pieces@[k]@ == split_units(s.take(i as int))[k],
            cur@ == split_units(s.take(i as int)).last(),
        decreases n - i,
    {
        let ghost before = split_units(s.take(i as int));
        proof {
            lemma_split_units_nonempty(s.take(i as int));
            assert(s.take(i as int + 1).drop_last() == s.take(i as int));
            assert(s.take(i as int + 1).last() == s[i as int]);
        }
        let u = units[i];
        if u == 0 {
            pieces.push(cur);
            cur = Vec::new();
            proof {
                let after = split_units(s.take(i as int + 1));
                assert(after == before.push(Seq::<u16>::empty()));
                assert forall|k: int| 0 <= k < pieces@.len() implies #[trigger] pieces@[k]@ == after[k] by {
                    if k < pieces@.len() - 1 {
                        assert(after[k] == before[k]);
                    } else {
                        assert(after[k] == before[before.len() - 1]);
                    }
                }
            }
        } else {
            cur.push(u);
            proof {
                let after = split_units(s.take(i as int + 1));
                assert(after == before.update(before.len() - 1, before.last().push(u)));
                assert forall|k: int| 0 <= k < pieces@.len() implies #[trigger] pieces@[k]@ == after[k] by {
                    assert(after[k] == before[k]);
                }
            }
        }
        i = i + 1;
    }
    assert(s.take(n as int) == s);
    proof {
        lemma_split_units_nonempty(s);
    }
    let ghost all = split_units(s);
    pieces.push(cur);
    assert forall|k: int| 0 <= k < pieces@.len() implies #[trigger] pieces@[k]@ == all[k] by {
        if k == pieces@.len() - 1 {
            assert(all.last() == all[all.len() - 1]);
        }
    }
    let mut out: Vec<String> = Vec::new();
    let m = pieces.len();
    let mut j: usize = 0;
    let ghost pred = nonempty_piece();
    assert(all.take(0).filter(pred) =~= Seq::<Seq<u16>>::empty());
    while j < m
        invariant
            m == pieces@.len(),
            m == all.len(),
            pred == nonempty_piece(),
            j <= m,
            forall|k: int| 0 <= k < m ==> #[trigger] pieces@[k]@ == all[k],
            out@.len() == all.take(j as int).filter(pred).len(),
            forall|k: int|
                0 <= k < out@.len() ==> #[trigger] out@[k]@ == utf16_lossy(
                    all.take(j as int).filter(pred)[k],
                ),
        decreases m - j,
    {
        proof {
            assert(all.take(j as int + 1).drop_last() == all.take(j as int));
            assert(all.take(j as int + 1).last() == all[j as int]);
        }
        assert(pieces@[j as int]@ == all[j as int]);
        if pieces[j].len() > 0 {
            out.push(from_utf16_lossy(pieces[j].as_slice()));
            assert(all.take(j as int + 1).filter(pred) == all.take(j as int).filter(pred).push(
                all[j as int],
            )) by {
                reveal(Seq::filter);
                assert(all.take(j as int + 1).drop_last() == all.take(j as int));
                assert(pred(all.take(j as int + 1).last()));
            }
        } else {
            assert(all.take(j as int + 1).filter(pred) == all.take(j as int).filter(pred)) by {
                reveal(Seq::filter);
                assert(all.take(j as int + 1).drop_last() == all.take(j as int));
                assert(!pred(all.take(j as int + 1).last()));
            }
        }
        j = j + 1;
    }
    assert(all.take(m as int) == all);
    out
}

/// The text of a `REG_SZ` or string property: little-endian UTF-16,
/// decoded, with trailing NULs removed.
pub open spec fn utf16_bytes_text(bytes: Seq<u8>) -> Seq<char> {
    trim_trailing_nuls(utf16_lossy(units_of(bytes)))
}

pub open spec fn trim_trailing_nuls(s: Seq<char>) -> Seq<char>
    decreases s.len(),
{
    if s.len() > 0 && s.last() == '\0' {
        trim_trailing_nuls(s.drop_last())
    } else {
        s
    }
}

/// Decodes a `REG_SZ` value's bytes: UTF-16 with a terminating NUL.
pub fn from_utf16_bytes(bytes: &[u8]) -> (r: String)
    ensures
        r@ == utf16_bytes_text(bytes@),
{
    let units = units_from_le_bytes(bytes);
    let decoded = from_utf16_lossy(units.as_slice());
    let v = chars_of(decoded.as_str());
    let m = v.len();
    let mut j: usize = m;
    assert(v@.take(m as int) == v@);
    while j > 0 && v[j - 1] == '\0'
        invariant
            m == v.len(),
            j <= m,
            trim_trailing_nuls(v@) == trim_trailing_nuls(v@.take(j as int)),
        decreases j,
    {
        assert(v@.take(j as int).drop_last() == v@.take(j as int - 1));
        j = j - 1;
    }
    let t = sub_vec(&v, 0, j);
    string_of(&t)
}

/// The text of a string property as it is kept: decoded, trailing NULs
/// removed, trimmed, and absent when nothing is left.
pub open spec fn property_text(bytes: Seq<u8>) -> Option<Seq<char>> {
    let t = crate::text::trim(utf16_bytes_text(bytes));
    if t.len() == 0 {
        None
    } else {
        Some(t)
    }
}

/// Decodes a `DEVPROP_TYPE_STRING` property value.
pub fn property_string(bytes: &[u8]) -> (r: Option<String>)
    ensures
        match r {
            Some(s) => property_text(bytes@) == Some(s@),
            None => property_text(bytes@) is None,
        },
{
    let decoded = from_utf16_bytes(bytes);
    let t = trim_vec(&chars_of(decoded.as_str()));
    if t.len() == 0 {
        None
    } else {
        Some(string_of(&t))
    }
}

/// The port numbers in a location path, in order: the `n` of each `USB(n)`
/// segment.
pub open spec fn usb_ports(segments: Seq<Seq<char>>) -> Seq<Seq<char>>
    decreases segments.len(),
{
    if segments.len() == 0 {
        Seq::empty()
    } else {
        let s = segments.last();
        let init = usb_ports(segments.drop_last());
        if s.len() >= 5 && s.take(4) == seq!['U', 'S', 'B', '('] && s.last() == ')' {
            init.push(s.subrange(4, s.len() - 1))
        } else {
            init
        }
    }
}

/// `a-b-c`.
pub open spec fn dash_joined(parts: Seq<Seq<char>>) -> Seq<char>
    decreases parts.len(),
{
    if parts.len() == 0 {
        Seq::empty()
    } else if parts.len() == 1 {
        parts[0]
    } else {
        dash_joined(parts.drop_last()) + seq!['-'] + parts.last()
    }
}

/// A location path as a short hub-port chain: `…#USB(1)#USB(3)#USB(3)` is
/// `1-3-3`. Nothing when the path names no USB port.
pub open spec fn port_chain_of(path: Seq<char>) -> Option<Seq<char>> {
    let ports = usb_ports(split_seq(path, '#'));
    if ports.len() == 0 {
        None
    } else {
        Some(dash_joined(ports))
    }
}

impl WinUsbDevice {
    /// The first location path as a short hub-port chain, `1-3-3`.
    pub fn port_chain(&self) -> (r: Option<String>)
        ensures
            self.location_paths@.len() == 0 ==> r.is_none(),
            self.location_paths@.len() > 0 ==> match port_chain_of(self.location_paths@[0]@) {
                Some(c) => r matches Some(t) && t@ == c,
                None => r.is_none(),
            },
    {
        if self.location_paths.len() == 0 {
            return None;
        }
        let path = chars_of(self.location_paths[0].as_str());
        let segments = split_vec(&path, '#');
        let ghost segs = split_seq(path@, '#');
        let mut chain: Vec<char> = Vec::new();
        let mut count: usize = 0;
        let n = segments.len();
        let mut i: usize = 0;
        while i < n
            invariant
                n == segments@.len(),
                n == segs.len(),
                forall|k: int| 0 <= k < n ==> (#[trigger] segments@[k])@ == segs[k],
                i <= n,
                count == usb_ports(segs.take(i as int)).len(),
                count <= i,
                chain@ == dash_joined(usb_ports(segs.take(i as int))),
            decreases n - i,
        {
            assert(segs.take(i as int + 1).drop_last() == segs.take(i as int));
            let s = &segments[i];
            let len = s.len();
            let is_port = len >= 5 && s[0] == 'U' && s[1] == 'S' && s[2] == 'B' && s[3] == '(' && s[len - 1] == ')';
            proof {
                if s@.len() >= 5 {
                    if is_port {
                        assert(s@.take(4) =~= seq!['U', 'S', 'B', '(']);
                    } else {
                        assert(s@.take(4)[0] == s@[0]);
                        assert(s@.take(4)[1] == s@[1]);
                        assert(s@.take(4)[2] == s@[2]);
                        assert(s@.take(4)[3] == s@[3]);
                    }
                }
            }
            if is_port {
                let ghost before = chain@;
                if count > 0 {
                    chain.push('-');
                }
                let mut k: usize = 4;
                let ghost mid = chain@;
                while k < len - 1
                    invariant
                        len == s@.len(),
                        len >= 5,
                        4 <= k <= len - 1,
                        chain@ == mid + s@.subrange(4, k as int),
                    decreases len - 1 - k,
                {
                    chain.push(s[k]);
                    assert(s@.subrange(4, k as int + 1) == s@.subrange(4, k as int).push(s@[k as int]));
                    k = k + 1;
                }
                proof {
                    let inner = s@.subrange(4, len as int - 1);
                    let ports = usb_ports(segs.take(i as int));
                    assert(segs.take(i as int + 1).last() == s@);
                    assert(usb_ports(segs.take(i as int + 1)) == ports.push(inner));
                    assert(ports.push(inner).drop_last() == ports);
                    if count > 0 {
                        assert(dash_joined(ports.push(inner)) == dash_joined(ports) + seq!['-'] + inner);
                        assert(chain@ == before + seq!['-'] + inner);
                    } else {
                        assert(ports.len() == 0);
                        assert(ports.push(inner).len() == 1);
                        assert(ports.push(inner)[0] == inner);
                        assert(chain@ =~= inner);
                    }
                }
                count = count + 1;
            }
            i = i + 1;
        }
        assert(segs.take(n as int) == segs);
        if count == 0 {
            None
        } else {
            Some(string_of(&chain))
        }
    }
}

/// `REV_`.
pub open spec fn rev_marker() -> Seq<char> {
    seq!['R', 'E', 'V', '_']
}

/// The device revision a hardware id carries, `USB\VID_1A86&PID_7523&REV_0264`
/// reading as `2.64`: the four BCD digits after the last `REV_`, the major
/// part without a leading zero. Nothing when they are not four digits.
pub open spec fn revision_spec(id: Seq<char>) -> Option<Seq<char>> {
    match rfind(id, rev_marker()) {
        Some(i) => if i + 8 <= id.len() && all_digits(id.subrange(i + 4, i + 8)) {
            let d = id.subrange(i + 4, i + 8);
            Some(
                (if d[0] == '0' {
                    seq![d[1]]
                } else {
                    seq![d[0], d[1]]
                }) + seq!['.', d[2], d[3]],
            )
        } else {
            None
        },
        None => None,
    }
}

/// The device revision a hardware id carries.
pub fn revision_from_hardware_id(id: &str) -> (r: Option<String>)
    ensures
        match revision_spec(id@) {
            Some(t) => r matches Some(s) && s@ == t,
            None => r.is_none(),
        },
{
    let chars = chars_of(id);
    let mut marker: Vec<char> = Vec::new();
    marker.push('R');
    marker.push('E');
    marker.push('V');
    marker.push('_');
    assert(marker@ =~= rev_marker());
    let i = match rfind_vec(&chars, &marker) {
        Some(i) => i,
        None => return None,
    };
    assert(chars@.len() == chars.len());
    assert(i + 4 <= chars@.len()) by {
        crate::text::lemma_rfind_occurs(chars@, marker@);
    }
    if chars.len() - i < 8 {
        return None;
    }
    let digits = sub_vec(&chars, i + 4, i + 8);
    if !all_digits_vec(&digits) {
        return None;
    }
    let mut out: Vec<char> = Vec::new();
    if digits[0] != '0' {
        out.push(digits[0]);
    }
    out.push(digits[1]);
    out.push('.');
    out.push(digits[2]);
    out.push(digits[3]);
    proof {
        let d = chars@.subrange(i + 4, i + 8);
        assert(digits@ == d);
        if d[0] == '0' {
            assert(out@ =~= seq![d[1]] + seq!['.', d[2], d[3]]);
        } else {
            assert(out@ =~= seq![d[0], d[1]] + seq!['.', d[2], d[3]]);
        }
    }
    Some(string_of(&out))
}

} // verus!
