//! Parsing of Windows Device Instance IDs.
//!
//! Splits `USB\VID_1A86&PID_7523\8&7CC2A31&0&1` into VID, PID and a third
//! element.
//!
//! The third element is the serial number when the device reports one, and a
//! Windows-generated `<parent hub hash>&0&<port>` otherwise. The latter
//! identifies *the port*, not *the device*, so the two are kept apart by the
//! type system rather than by convention.
use vstd::prelude::*;

use crate::text::{
    chars_of, ci_eq, contains_char, eq_ignore_case, hex4, hex4_vec, parse_hex_u16, parse_hex_u16_vec,
    split_once, split_once_vec, split_seq, split_vec, starts_with, starts_with_vec, str_string,
    string_of, sub_vec, upper_seq, upper_vec,
};

verus! {

/// What the third element of an instance ID actually is.
#[derive(Debug, Clone, PartialEq, Eq)]
pub enum UnitId {
    /// A serial number reported by the device. Usable to identify the unit.
    Serial(String),
    /// An ID Windows derived from the port. Not usable to identify the unit.
    PortGenerated(String),
}

/// [`UnitId`] with its text as characters.
pub enum UnitIdView {
    Serial(Seq<char>),
    PortGenerated(Seq<char>),
}

impl UnitIdView {
    pub open spec fn text(self) -> Seq<char> {
        match self {
            UnitIdView::Serial(s) => s,
            UnitIdView::PortGenerated(s) => s,
        }
    }

    pub open spec fn serial(self) -> Option<Seq<char>> {
        match self {
            UnitIdView::Serial(s) => Some(s),
            UnitIdView::PortGenerated(_) => None,
        }
    }
}

impl View for UnitId {
    type V = UnitIdView;

    open spec fn view(&self) -> UnitIdView {
        match self {
            UnitId::Serial(s) => UnitIdView::Serial(s@),
            UnitId::PortGenerated(s) => UnitIdView::PortGenerated(s@),
        }
    }
}

/// How a third element is classified: Windows always puts `&` in the IDs it
/// generates, and USB serial strings never contain one.
pub open spec fn classify_spec(raw: Seq<char>) -> UnitIdView {
    if raw.contains('&') {
        UnitIdView::PortGenerated(raw)
    } else {
        UnitIdView::Serial(raw)
    }
}

impl UnitId {
    /// Classifies the third element of an instance ID.
    pub fn classify(raw: &str) -> (r: Self)
        ensures
            r@ == classify_spec(raw@),
    {
        let chars = chars_of(raw);
        if contains_char(&chars, '&') {
            UnitId::PortGenerated(str_string(raw))
        } else {
            UnitId::Serial(str_string(raw))
        }
    }

    pub fn as_str(&self) -> (r: &str)
        ensures
            r@ == self@.text(),
    {
        match self {
            UnitId::Serial(s) => s.as_str(),
            UnitId::PortGenerated(s) => s.as_str(),
        }
    }

    /// Returns the serial number, if this is one.
    pub fn serial(&self) -> (r: Option<&str>)
        ensures
            r.is_some() == self@.serial().is_some(),
            r.is_some() ==> r.unwrap()@ == self@.serial().unwrap(),
    {
        match self {
            UnitId::Serial(s) => Some(s.as_str()),
            UnitId::PortGenerated(_) => None,
        }
    }

    pub fn has_serial(&self) -> (r: bool)
        ensures
            r == self@ is Serial,
    {
        match self {
            UnitId::Serial(_) => true,
            UnitId::PortGenerated(_) => false,
        }
    }

    /// A copy of this unit id.
    pub fn duplicate(&self) -> (r: Self)
        ensures
            r@ == self@,
    {
        match self {
            UnitId::Serial(s) => UnitId::Serial(s.clone()),
            UnitId::PortGenerated(s) => UnitId::PortGenerated(s.clone()),
        }
    }
}

/// A parsed Device Instance ID.
///
/// `raw` is the only correct key for joining the device model with `usbipd`.
#[derive(Debug, Clone, PartialEq, Eq)]
pub struct InstanceId {
    /// The original string. Casing differs between Windows and usbipd, so
    /// compare with [`InstanceId::matches`] rather than `==`.
    pub raw: String,
    /// First element. `USB` for USB devices.
    pub enumerator: String,
    /// Parsed from `VID_xxxx`. `None` for root hubs and similar nodes.
    pub vid: Option<u16>,
    /// Parsed from `PID_xxxx`.
    pub pid: Option<u16>,
    /// Third element.
    pub unit: UnitId,
}

/// `VID_`.
pub open spec fn vid_prefix() -> Seq<char> {
    seq!['V', 'I', 'D', '_']
}

/// `PID_`.
pub open spec fn pid_prefix() -> Seq<char> {
    seq!['P', 'I', 'D', '_']
}

/// The first element of `raw.splitn(3, '\\')`.
pub open spec fn first_part(raw: Seq<char>) -> Seq<char> {
    match split_once(raw, '\\') {
        Some((a, _)) => a,
        None => raw,
    }
}

/// The second element of `raw.splitn(3, '\\')`, empty when there is none.
pub open spec fn second_part(raw: Seq<char>) -> Seq<char> {
    match split_once(raw, '\\') {
        Some((_, rest)) => match split_once(rest, '\\') {
            Some((d, _)) => d,
            None => rest,
        },
        None => Seq::<char>::empty(),
    }
}

/// The third element of `raw.splitn(3, '\\')`, empty when there is none. It
/// keeps any further backslashes.
pub open spec fn third_part(raw: Seq<char>) -> Seq<char> {
    match split_once(raw, '\\') {
        Some((_, rest)) => match split_once(rest, '\\') {
            Some((_, u)) => u,
            None => Seq::<char>::empty(),
        },
        None => Seq::<char>::empty(),
    }
}

/// The value the last field starting (in any case) with `prefix` gives, read
/// as hexadecimal: fields are scanned in order and each later match replaces
/// the earlier answer, a malformed one included.
pub open spec fn field_value(fields: Seq<Seq<char>>, prefix: Seq<char>) -> Option<u16>
    decreases fields.len(),
{
    if fields.len() == 0 {
        None
    } else {
        let up = upper_seq(fields.last());
        if starts_with(up, prefix) {
            parse_hex_u16(up.skip(prefix.len() as int))
        } else {
            field_value(fields.drop_last(), prefix)
        }
    }
}

pub open spec fn vid_of(raw: Seq<char>) -> Option<u16> {
    field_value(split_seq(second_part(raw), '&'), vid_prefix())
}

pub open spec fn pid_of(raw: Seq<char>) -> Option<u16> {
    field_value(split_seq(second_part(raw), '&'), pid_prefix())
}

/// `1a86:7523`.
pub open spec fn vid_pid_text(vid: u16, pid: u16) -> Seq<char> {
    hex4(vid) + seq![':'] + hex4(pid)
}

impl InstanceId {
    /// Whether `self` is what parsing `raw` gives.
    pub open spec fn parsed_from(&self, raw: Seq<char>) -> bool {
        &&& self.raw@ == raw
        &&& self.enumerator@ == first_part(raw)
        &&& self.vid == vid_of(raw)
        &&& self.pid == pid_of(raw)
        &&& self.unit@ == classify_spec(third_part(raw))
    }

    pub open spec fn vid_pid_spec(&self) -> Option<(u16, u16)> {
        match (self.vid, self.pid) {
            (Some(v), Some(p)) => Some((v, p)),
            _ => None,
        }
    }

    pub open spec fn vid_pid_text_spec(&self) -> Option<Seq<char>> {
        match self.vid_pid_spec() {
            Some((v, p)) => Some(vid_pid_text(v, p)),
            None => None,
        }
    }

    /// Parses an instance id. Never fails: a string without the expected
    /// shape gives empty elements and no VID/PID.
    pub fn parse(raw: &str) -> (r: Self)
        ensures
            r.parsed_from(raw@),
    {
        let chars = chars_of(raw);
        let (enumerator, device, unit_raw) = match split_once_vec(&chars, '\\') {
            Some((a, rest)) => match split_once_vec(&rest, '\\') {
                Some((d, u)) => (a, d, u),
                None => (a, rest, Vec::new()),
            },
            None => (chars.clone(), Vec::new(), Vec::new()),
        };
        assert(enumerator@ == first_part(raw@));
        assert(device@ == second_part(raw@));
        assert(unit_raw@ == third_part(raw@));

        let fields = split_vec(&device, '&');
        let mut vid_prefix_v: Vec<char> = Vec::new();
        vid_prefix_v.push('V');
        vid_prefix_v.push('I');
        vid_prefix_v.push('D');
        vid_prefix_v.push('_');
        let mut pid_prefix_v: Vec<char> = Vec::new();
        pid_prefix_v.push('P');
        pid_prefix_v.push('I');
        pid_prefix_v.push('D');
        pid_prefix_v.push('_');
        assert(vid_prefix_v@ == vid_prefix());
        assert(pid_prefix_v@ == pid_prefix());

        let ghost all = split_seq(device@, '&');
        let mut vid: Option<u16> = None;
        let mut pid: Option<u16> = None;
        let n = fields.len();
        let mut k: usize = 0;
        assert(all.take(0) =~= Seq::<Seq<char>>::empty());
        while k < n
            invariant
                n == fields@.len(),
                n == all.len(),
                k <= n,
                forall|j: int| 0 <= j < n ==> #[trigger] fields@[j]@ == all[j],
                vid_prefix_v@ == vid_prefix(),
                pid_prefix_v@ == pid_prefix(),
                vid == field_value(all.take(k as int), vid_prefix()),
                pid == field_value(all.take(k as int), pid_prefix()),
            decreases n - k,
        {
            let upper = upper_vec(&fields[k]);
            assert(all.take(k as int + 1).drop_last() == all.take(k as int));
            assert(all.take(k as int + 1).last() == all[k as int]);
            assert(upper@ == upper_seq(all[k as int]));
            if starts_with_vec(&upper, &vid_prefix_v) {
                let hex = sub_vec(&upper, 4, upper.len());
                vid = parse_hex_u16_vec(&hex);
                assert(!starts_with(upper@, pid_prefix())) by {
                    assert(upper@.take(4)[0] == 'V');
                    if starts_with(upper@, pid_prefix()) {
                        assert(upper@.take(4)[0] == 'P');
                    }
                }
            } else if starts_with_vec(&upper, &pid_prefix_v) {
                let hex = sub_vec(&upper, 4, upper.len());
                pid = parse_hex_u16_vec(&hex);
            }
            k = k + 1;
        }
        assert(all.take(n as int) == all);
        let unit_text = string_of(&unit_raw);
        InstanceId {
            raw: str_string(raw),
            enumerator: string_of(&enumerator),
            vid,
            pid,
            unit: UnitId::classify(unit_text.as_str()),
        }
    }

    /// Case-insensitive comparison against an instance ID from usbipd.
    pub fn matches(&self, other: &str) -> (r: bool)
        ensures
            r == ci_eq(self.raw@, other@),
    {
        eq_ignore_case(self.raw.as_str(), other)
    }

    pub fn vid_pid(&self) -> (r: Option<(u16, u16)>)
        ensures
            r == self.vid_pid_spec(),
    {
        match (self.vid, self.pid) {
            (Some(v), Some(p)) => Some((v, p)),
            _ => None,
        }
    }

    /// `1a86:7523` form, or `None` when there is no VID/PID.
    pub fn vid_pid_string(&self) -> (r: Option<String>)
        ensures
            r.is_some() == self.vid_pid_text_spec().is_some(),
            r.is_some() ==> r.unwrap()@ == self.vid_pid_text_spec().unwrap(),
    {
        match self.vid_pid() {
            Some((v, p)) => {
                let mut text = hex4_vec(v);
                text.push(':');
                let tail = hex4_vec(p);
                let mut i: usize = 0;
                let ghost head = text@;
                while i < tail.len()
                    invariant
                        i <= tail@.len(),
                        tail@ == hex4(p),
                        head == hex4(v) + seq![':'],
                        text@ == head + tail@.take(i as int),
                    decreases tail@.len() - i,
                {
                    text.push(tail[i]);
                    assert(tail@.take(i as int + 1) == tail@.take(i as int).push(tail@[i as int]));
                    i = i + 1;
                }
                assert(tail@.take(tail@.len() as int) == tail@);
                assert(text@ == vid_pid_text(v, p));
                Some(string_of(&text))
            },
            None => None,
        }
    }

    /// A copy of this instance id.
    pub fn duplicate(&self) -> (r: Self)
        ensures
            r.raw@ == self.raw@,
            r.enumerator@ == self.enumerator@,
            r.vid == self.vid,
            r.pid == self.pid,
            r.unit@ == self.unit@,
    {
        InstanceId {
            raw: self.raw.clone(),
            enumerator: self.enumerator.clone(),
            vid: self.vid,
            pid: self.pid,
            unit: self.unit.duplicate(),
        }
    }
}

} // verus!
