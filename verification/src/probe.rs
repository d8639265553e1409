//! Target identification.
//!
//! A transport identifies itself, never the board behind it. Reaching the board
//! means asking it, and asking it has a cost: an ESP32 restarts, a WCH-Link
//! halts the target core. Which probe may ask, and what an answer means, is
//! decided here; the asking itself is the caller's business.
//!
//! Probes are ordered by how surely they recognise a device. One that knows
//! the hardware from its VID/PID goes first and, if it claims the device,
//! stops the generic ones being offered at all.
use vstd::prelude::*;

pub mod board_ids;
pub mod ch32;
pub mod esp32;


pub mod id_sources;
pub mod identity;
pub mod notes;
pub mod usb_descriptor;

use crate::probe::ch32::{ch32_verdict, Ch32Probe};
use crate::probe::esp32::{esp32_verdict, Esp32Probe};
use crate::probe::notes::{claimed_by_another, known_family as known_family_note};
use crate::probe::usb_descriptor::{board_for, board_for_usb_id};
use crate::text::{
    chars_of, compare_chars, lemma_seq_lt_total, lemma_seq_lt_transitive, same_str, seq_lt,
};
use crate::windevice::WinUsbDevice;

verus! {

/// A message for a person to read: a stable translation key, and the same
/// message in English for logs and the command line.
#[derive(Debug, Clone, Copy, PartialEq, Eq)]
pub struct Note {
    /// Translation key, e.g. `probe.blocked.no_com_port`.
    pub code: &'static str,
    pub en: &'static str,
}

/// What a probe can say about a device *before* touching it.
#[derive(Debug, Clone, Copy, PartialEq, Eq)]
pub enum Applicability {
    /// This probe recognises the device and can attempt it.
    Supported,
    /// Another family's business, or not a board at all.
    NotApplicable(Note),
    /// The right family, but something has to be resolved first.
    Blocked(Note),
}

impl Applicability {
    pub fn is_supported(&self) -> (r: bool)
        ensures
            r == (*self is Supported),
    {
        match self {
            Applicability::Supported => true,
            _ => false,
        }
    }

    /// The message behind a negative verdict, if there is one.
    pub fn note(&self) -> (r: Option<Note>)
        ensures
            r == (match *self {
                Applicability::Supported => None,
                Applicability::NotApplicable(n) => Some(n),
                Applicability::Blocked(n) => Some(n),
            }),
    {
        match self {
            Applicability::Supported => None,
            Applicability::NotApplicable(note) => Some(*note),
            Applicability::Blocked(note) => Some(*note),
        }
    }
}

/// How a probe decides a device is its business.
#[derive(Debug, Clone, Copy, PartialEq, Eq, Structural)]
pub enum Recognition {
    /// The device's own identifiers say so: a VID/PID this probe owns.
    ByIdentifier,
    /// Anything of the right shape, such as a serial port. Only offered when
    /// nothing more specific claimed the device.
    Fallback,
}

/// What a successful probe learned about the target.
#[derive(Debug, Clone, PartialEq, Eq)]
pub struct TargetIdentity {
    /// The family that produced this, e.g. `esp32`.
    pub family: String,
    /// The persisted key, `<variant>-<unique-id>`.
    pub identity_key: String,
    /// The unique id as the chip reports it, e.g. a MAC address.
    pub device_id: String,
    /// The chip variant, e.g. `esp32-s3`.
    pub device_type: String,
    pub hardware_revision: Option<String>,
    /// Where the device id came from; one of [`id_sources`].
    pub id_source: &'static str,
    /// Anything else worth showing in a detail pane, ordered by name. Not part
    /// of the identity.
    pub details: Vec<(String, String)>,
}


/// One identifiable family of targets: what it is called, how surely it
/// knows a device is its own, what it does to the device, and whether it may
/// be attempted. Asking the target itself is the caller's business.
pub trait TargetProbe {
    /// Stable family name. Appears in stored data, so treat it as an
    /// identifier.
    fn family(&self) -> &'static str;

    /// How surely this probe knows a device is its own.
    fn recognition(&self) -> Recognition;

    /// What this probe does to the device, in one sentence, shown before it
    /// runs.
    fn side_effect(&self) -> Note;

    /// Decides whether the probe can be attempted. Must not touch the device.
    fn applicability(&self, device: &WinUsbDevice) -> Applicability;
}

/// Every probe that ships.
#[derive(Debug, Clone, Copy, PartialEq, Eq, Structural)]
pub enum Probe {
    Ch32,
    Esp32,
}

pub open spec fn recognition_of(p: Probe) -> Recognition {
    match p {
        Probe::Ch32 => Recognition::ByIdentifier,
        Probe::Esp32 => Recognition::Fallback,
    }
}

pub open spec fn family_text(p: Probe) -> Seq<char> {
    match p {
        Probe::Ch32 => "ch32"@,
        Probe::Esp32 => "esp32"@,
    }
}

/// The translation key of what a probe does to a device.
pub open spec fn side_effect_code(p: Probe) -> Seq<char> {
    match p {
        Probe::Ch32 => "probe.ch32.side_effect"@,
        Probe::Esp32 => "probe.esp32.side_effect"@,
    }
}

/// The translation key behind a negative verdict.
pub open spec fn reason_code(v: Applicability) -> Option<Seq<char>> {
    match v {
        Applicability::Supported => None,
        Applicability::NotApplicable(n) => Some(n.code@),
        Applicability::Blocked(n) => Some(n.code@),
    }
}

pub open spec fn verdict_of(p: Probe, device: WinUsbDevice) -> Applicability {
    match p {
        Probe::Ch32 => ch32_verdict(device),
        Probe::Esp32 => esp32_verdict(device),
    }
}

/// Where a detail goes among details ordered by name: before the first
/// whose name sorts after it.
pub open spec fn detail_position(details: Seq<(String, String)>, key: Seq<char>) -> int
    decreases details.len(),
{
    if details.len() == 0 {
        0
    } else if seq_lt(key, details[0].0@) {
        0
    } else {
        1 + detail_position(details.drop_first(), key)
    }
}

/// The index of the first detail named `key`, or the number of details when
/// none is.
pub open spec fn name_index(details: Seq<(String, String)>, key: Seq<char>) -> int
    decreases details.len(),
{
    if details.len() == 0 {
        0
    } else if details[0].0@ == key {
        0
    } else {
        1 + name_index(details.drop_first(), key)
    }
}

/// Whether the details are ordered by name, each name sorting strictly after
/// the one before it, so that no name occurs twice.
pub open spec fn details_in_order(details: Seq<(String, String)>) -> bool {
    forall|a: int, b: int|
        0 <= a < b < details.len() ==> seq_lt(#[trigger] details[a].0@, #[trigger] details[b].0@)
}

proof fn lemma_name_index(d: Seq<(String, String)>, key: Seq<char>)
    ensures
        0 <= name_index(d, key) <= d.len(),
        forall|k: int| 0 <= k < name_index(d, key) ==> #[trigger] d[k].0@ != key,
        name_index(d, key) < d.len() ==> d[name_index(d, key)].0@ == key,
    decreases d.len(),
{
    if d.len() > 0 && d[0].0@ != key {
        let t = d.drop_first();
        lemma_name_index(t, key);
        assert forall|k: int| 0 <= k < name_index(d, key) implies #[trigger] d[k].0@ != key by {
            if k > 0 {
                assert(d[k] == t[k - 1]);
            }
        }
    }
}

proof fn lemma_detail_position(d: Seq<(String, String)>, key: Seq<char>)
    requires
        details_in_order(d),
        forall|k: int| 0 <= k < d.len() ==> #[trigger] d[k].0@ != key,
    ensures
        0 <= detail_position(d, key) <= d.len(),
        forall|a: int| 0 <= a < detail_position(d, key) ==> seq_lt(#[trigger] d[a].0@, key),
        forall|a: int| detail_position(d, key) <= a < d.len() ==> seq_lt(key, #[trigger] d[a].0@),
    decreases d.len(),
{
    if d.len() > 0 {
        let t = d.drop_first();
        assert forall|a: int, b: int| 0 <= a < b < t.len() implies seq_lt(
            #[trigger] t[a].0@,
            #[trigger] t[b].0@,
        ) by {
            assert(t[a] == d[a + 1] && t[b] == d[b + 1]);
        }
        assert forall|k: int| 0 <= k < t.len() implies #[trigger] t[k].0@ != key by {
            assert(t[k] == d[k + 1]);
        }
        lemma_detail_position(t, key);
        lemma_seq_lt_total(key, d[0].0@);
        if seq_lt(key, d[0].0@) {
            assert forall|a: int| 0 <= a < d.len() implies seq_lt(key, #[trigger] d[a].0@) by {
                if a > 0 {
                    lemma_seq_lt_transitive(key, d[0].0@, d[a].0@);
                }
            }
        } else {
            assert forall|a: int| 0 < a < d.len() implies #[trigger] d[a] == t[a - 1] by {}
        }
    }
}

impl TargetIdentity {
    /// Adds a detail, as a map ordered by name does: a detail already under
    /// that name gets the new value; otherwise the detail goes before the
    /// first one whose name sorts after it.
    pub fn add_detail(&mut self, key: String, value: String)
        ensures
            if name_index(old(self).details@, key@) < old(self).details@.len() {
                final(self).details@ == old(self).details@.update(name_index(old(self).details@, key@), (key, value))
            } else {
                final(self).details@ == old(self).details@.insert(detail_position(old(self).details@, key@), (key, value))
            },
            details_in_order(old(self).details@) ==> details_in_order(final(self).details@),
            final(self).family == old(self).family,
            final(self).identity_key == old(self).identity_key,
            final(self).device_id == old(self).device_id,
            final(self).device_type == old(self).device_type,
            final(self).hardware_revision == old(self).hardware_revision,
            final(self).id_source == old(self).id_source,
    {
        let ghost d = self.details@;
        let n = self.details.len();
        proof {
            lemma_name_index(d, key@);
        }
        assert(d.skip(0) == d);
        let mut j: usize = 0;
        while j < n && !same_str(self.details[j].0.as_str(), key.as_str())
            invariant
                n == d.len(),
                d == self.details@,
                j <= n,
                name_index(d, key@) == j + name_index(d.skip(j as int), key@),
            decreases n - j,
        {
            assert(d.skip(j as int)[0] == d[j as int]);
            assert(d.skip(j as int).drop_first() == d.skip(j as int + 1));
            j = j + 1;
        }
        if j < n {
            assert(d.skip(j as int)[0] == d[j as int]);
            self.details.set(j, (key, value));
            proof {
                let f = self.details@;
                assert forall|a: int| 0 <= a < f.len() implies #[trigger] f[a].0@ == d[a].0@ by {}
            }
            return;
        }
        assert(d.skip(j as int).len() == 0);
        let k = chars_of(key.as_str());
        let mut i: usize = 0;
        while i < n && compare_chars(&k, &chars_of(self.details[i].0.as_str())) != -1
            invariant
                n == d.len(),
                d == self.details@,
                k@ == key@,
                i <= n,
                detail_position(d, key@) == i + detail_position(d.skip(i as int), key@),
            decreases n - i,
        {
            assert(d.skip(i as int)[0] == d[i as int]);
            assert(d.skip(i as int).drop_first() == d.skip(i as int + 1));
            i = i + 1;
        }
        proof {
            if i < n {
                assert(d.skip(i as int)[0] == d[i as int]);
            } else {
                assert(d.skip(i as int).len() == 0);
            }
        }
        self.details.insert(i, (key, value));
        proof {
            if details_in_order(d) {
                lemma_detail_position(d, key@);
                let f = self.details@;
                let p = i as int;
                assert forall|a: int, b: int| 0 <= a < b < f.len() implies seq_lt(
                    #[trigger] f[a].0@,
                    #[trigger] f[b].0@,
                ) by {
                    if b < p {
                        assert(f[a] == d[a] && f[b] == d[b]);
                    } else if b == p {
                        assert(f[a] == d[a]);
                    } else if a < p {
                        assert(f[a] == d[a] && f[b] == d[b - 1]);
                    } else if a == p {
                        assert(f[b] == d[b - 1]);
                    } else {
                        assert(f[a] == d[a - 1] && f[b] == d[b - 1]);
                    }
                }
            }
        }
    }
}

impl TargetProbe for Probe {
    fn family(&self) -> (r: &'static str)
        ensures
            r@ == family_text(*self),
    {
        match self {
            Probe::Ch32 => Ch32Probe.family(),
            Probe::Esp32 => Esp32Probe.family(),
        }
    }

    fn recognition(&self) -> (r: Recognition)
        ensures
            r == recognition_of(*self),
    {
        match self {
            Probe::Ch32 => Ch32Probe.recognition(),
            Probe::Esp32 => Esp32Probe.recognition(),
        }
    }

    fn side_effect(&self) -> (r: Note)
        ensures
            r.code@ == side_effect_code(*self),
    {
        match self {
            Probe::Ch32 => Ch32Probe.side_effect(),
            Probe::Esp32 => Esp32Probe.side_effect(),
        }
    }

    fn applicability(&self, device: &WinUsbDevice) -> (r: Applicability)
        ensures
            r == verdict_of(*self, *device),
    {
        match self {
            Probe::Ch32 => Ch32Probe.applicability(device),
            Probe::Esp32 => Esp32Probe.applicability(device),
        }
    }
}

/// The probes, most specific first.
pub open spec fn probe_list() -> Seq<Probe> {
    seq![Probe::Ch32, Probe::Esp32]
}

/// Every probe that ships, most specific first: the probes that recognise a
/// device by its identifiers come before the fallbacks.
pub fn probes() -> (r: Vec<Probe>)
    ensures
        r@ == probe_list(),
{
    let r = vec![Probe::Ch32, Probe::Esp32];
    assert(r@ =~= probe_list());
    r
}

/// Probes that recognise by identifier never come after a fallback.
pub proof fn specific_probes_come_first()
    ensures
        forall|a: int, b: int|
            0 <= a < b < probe_list().len() && recognition_of(probe_list()[a]) == Recognition::Fallback
                ==> recognition_of(probe_list()[b]) == Recognition::Fallback,
{
}

/// Whether a probe that knows the hardware by its identifiers recognised the
/// device: "recognised" includes being blocked.
pub open spec fn claimed(device: WinUsbDevice) -> bool {
    exists|k: int|
        0 <= k < probe_list().len() && recognition_of(probe_list()[k]) == Recognition::ByIdentifier
            && !(verdict_of(#[trigger] probe_list()[k], device) is NotApplicable)
}

/// Whether the board table settles the device's family.
pub open spec fn known_family(device: WinUsbDevice) -> bool {
    match device.instance_id.vid_pid_spec() {
        Some((vid, pid)) => board_for(vid, pid).is_some(),
        None => false,
    }
}

/// A probe's verdict once the others have had their say: a fallback is not
/// offered a device a specific probe claimed, nor one of a family the board
/// table knows.
pub open spec fn weighed(p: Probe, device: WinUsbDevice) -> Applicability {
    if recognition_of(p) != Recognition::Fallback {
        verdict_of(p, device)
    } else if claimed(device) {
        Applicability::NotApplicable(Note {
            code: "probe.blocked.claimed_by_another",
            en: "another probe recognises this hardware",
        })
    } else if known_family(device) {
        Applicability::NotApplicable(Note {
            code: "probe.blocked.known_family",
            en: "the USB ID names a board family no probe here reads",
        })
    } else {
        verdict_of(p, device)
    }
}

/// What each probe makes of a device, most specific first.
pub fn applicable(device: &WinUsbDevice) -> (r: Vec<(Probe, Applicability)>)
    ensures
        r@.len() == probe_list().len(),
        forall|k: int| 0 <= k < r@.len() ==> (#[trigger] r@[k]).0 == probe_list()[k] && r@[k].1 == weighed(
            probe_list()[k],
            *device,
        ),
{
    let list = probes();
    let n = list.len();
    let mut verdicts: Vec<(Probe, Applicability)> = Vec::new();
    let mut i: usize = 0;
    while i < n
        invariant
            n == list@.len(),
            list@ == probe_list(),
            i <= n,
            verdicts@.len() == i,
            forall|k: int| 0 <= k < i ==> (#[trigger] verdicts@[k]).0 == list@[k] && verdicts@[k].1 == verdict_of(list@[k], *device),
        decreases n - i,
    {
        let p = list[i];
        let v = p.applicability(device);
        verdicts.push((p, v));
        i = i + 1;
    }
    let mut claimed_by_one = false;
    i = 0;
    while i < n
        invariant
            n == list@.len(),
            list@ == probe_list(),
            n == verdicts@.len(),
            i <= n,
            forall|k: int| 0 <= k < n ==> (#[trigger] verdicts@[k]).0 == list@[k] && verdicts@[k].1 == verdict_of(list@[k], *device),
            claimed_by_one == exists|k: int|
                0 <= k < i && recognition_of(probe_list()[k]) == Recognition::ByIdentifier
                    && !(verdict_of(#[trigger] probe_list()[k], *device) is NotApplicable),
        decreases n - i,
    {
        let (p, v) = verdicts[i];
        let not_applicable = match v {
            Applicability::NotApplicable(_) => true,
            _ => false,
        };
        if p.recognition() == Recognition::ByIdentifier && !not_applicable {
            claimed_by_one = true;
        }
        i = i + 1;
    }
    // The board table settles the family even where no probe here reads it.
    let known = match device.instance_id.vid_pid() {
        Some((vid, pid)) => board_for_usb_id(vid, pid).is_some(),
        None => false,
    };
    let mut out: Vec<(Probe, Applicability)> = Vec::new();
    i = 0;
    while i < n
        invariant
            n == list@.len(),
            list@ == probe_list(),
            n == verdicts@.len(),
            i <= n,
            forall|k: int| 0 <= k < n ==> (#[trigger] verdicts@[k]).0 == list@[k] && verdicts@[k].1 == verdict_of(list@[k], *device),
            claimed_by_one == claimed(*device),
            known == known_family(*device),
            out@.len() == i,
            forall|k: int| 0 <= k < i ==> (#[trigger] out@[k]).0 == probe_list()[k] && out@[k].1 == weighed(probe_list()[k], *device),
        decreases n - i,
    {
        let (p, v) = verdicts[i];
        let weighed_verdict = if p.recognition() != Recognition::Fallback {
            v
        } else if claimed_by_one {
            Applicability::NotApplicable(claimed_by_another())
        } else if known {
            Applicability::NotApplicable(known_family_note())
        } else {
            v
        };
        out.push((p, weighed_verdict));
        i = i + 1;
    }
    out
}

} // verus!
