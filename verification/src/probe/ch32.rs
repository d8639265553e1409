//! CH32 RISC-V family, identified through a WCH-Link.
//!
//! The factory UUID is burned into the part and is what tells two boards on
//! identical probes apart. The probe's own serial number identifies the probe,
//! not the board wired to its debug pins, so it is the UUID that matters.
//!
//! Talking to the probe is `ch32rv`'s work and the caller's business. Which
//! probe to talk to, and what the chip's answer identifies, is decided here;
//! naming the part is the `ch32rv` database's.
use vstd::prelude::*;

use crate::probe::id_sources::TARGET_CPU_ID;
use crate::probe::identity::{identity_key, key_possible, key_text, IdentityKeyError};
use crate::probe::{details_in_order, Applicability, Note, Recognition, TargetIdentity, TargetProbe};
use crate::text::{
    dec_text, hex_digit, hex2, push_hex2, push_str, same_str, str_string, string_of, to_lowercase,
    u32_string, unicode_lowercase,
};
use crate::windevice::WinUsbDevice;

verus! {

/// WCH's vendor id.
pub const VID_WCH: u16 = 0x1a86;

/// The product id a WCH-Link reports in RISC-V mode.
pub const PID_LINK_RISCV: u16 = 0x8010;

/// The product id a WCH-Link reports in ARM mode.
pub const PID_LINK_ARM: u16 = 0x8012;

/// The probe that reads a CH32's UUID through a WCH-Link.
pub struct Ch32Probe;

/// What the chip reported, as plain values.
pub struct Ch32Chip {
    /// Flash size in bytes.
    pub flash_bytes: u32,
    pub uuid: [u8; 8],
}

/// What the `ch32rv` database makes of a chip id.
pub enum Ch32Part {
    /// Exactly one part has this id.
    Sku(String),
    /// Several parts share it, all of one family.
    Family(String),
    /// No part, or parts of several families.
    Unknown,
}

impl Ch32Part {
    /// `Some((true, sku))`, `Some((false, family))`, or `None`.
    pub open spec fn as_spec(&self) -> Option<(bool, Seq<char>)> {
        match self {
            Ch32Part::Sku(s) => Some((true, s@)),
            Ch32Part::Family(f) => Some((false, f@)),
            Ch32Part::Unknown => None,
        }
    }
}

/// Names what `ch32rv_target::Db::builtin().resolve_by_chip_id` makes of a
/// chip id: its SKU name, its family name, or nothing.
pub uninterp spec fn ch32_part(chip_id: u32) -> Option<(bool, Seq<char>)>;

/// `Db::builtin().resolve_by_chip_id`: the built-in database's answer, a
/// function of the chip id alone. The database masks bits 4 to 7 off before
/// matching, so they never change the answer. Nothing is claimed of which
/// part a given id names.
#[verifier::external_body]
fn resolve_part(chip_id: u32) -> (r: Ch32Part)
    ensures
        r.as_spec() == ch32_part(chip_id),
        r.as_spec() == ch32_part(chip_id & 0xFFFF_FF0Fu32),
{
    match ch32rv_target::Db::builtin().resolve_by_chip_id(chip_id) {
        ch32rv_target::Resolution::Sku(sku) => Ch32Part::Sku(sku.sku.clone()),
        ch32rv_target::Resolution::Family(name, _) => Ch32Part::Family(name),
        ch32rv_target::Resolution::Unknown => Ch32Part::Unknown,
    }
}

/// Why a chip's answer identifies nothing.
#[derive(Debug, Clone, PartialEq, Eq)]
pub enum Ch32Error {
    /// No identity key could be built from the part name and the UUID.
    Key { device_type: String, uuid: String, error: IdentityKeyError },
}

/// Why no probe could be picked.
#[derive(Debug, Clone, PartialEq, Eq)]
pub enum SelectError {
    /// No WCH-Link with this serial is connected.
    NoSuchSerial(String),
    /// No WCH-Link is connected.
    NoneConnected,
    /// Several are, and the device reports no serial to tell them apart.
    Several(usize),
}

/// What the CH32 probe makes of a device before touching it.
pub open spec fn ch32_verdict(device: WinUsbDevice) -> Applicability {
    match device.instance_id.vid_pid_spec() {
        Some((vid, pid)) => if vid == VID_WCH && pid == PID_LINK_RISCV {
            Applicability::Supported
        } else if vid == VID_WCH && pid == PID_LINK_ARM {
            // The user's to switch back: this application does not reconfigure
            // their probe.
            Applicability::Blocked(Note {
                code: "probe.blocked.wchlink_arm_mode",
                en: "the WCH-Link is in ARM mode; switch it to RISC-V mode to identify CH32 parts",
            })
        } else {
            Applicability::NotApplicable(Note { code: "probe.blocked.not_a_wchlink", en: "not a WCH-Link" })
        },
        None => Applicability::NotApplicable(Note { code: "probe.blocked.not_a_wchlink", en: "not a WCH-Link" }),
    }
}

impl TargetProbe for Ch32Probe {
    fn family(&self) -> (r: &'static str)
        ensures
            r@ == "ch32"@,
    {
        "ch32"
    }

    /// A WCH-Link announces itself with WCH's vendor id and a product id that
    /// also says which mode it is in.
    fn recognition(&self) -> (r: Recognition)
        ensures
            r == Recognition::ByIdentifier,
    {
        Recognition::ByIdentifier
    }

    fn side_effect(&self) -> (r: Note)
        ensures
            r.code@ == "probe.ch32.side_effect"@,
    {
        Note {
            code: "probe.ch32.side_effect",
            en: "Halts the target core while the probe reads its UUID, then releases it. A program already running on the board is interrupted.",
        }
    }

    /// Supported for a WCH-Link in RISC-V mode; blocked in ARM mode; another
    /// family's business otherwise.
    fn applicability(&self, device: &WinUsbDevice) -> (r: Applicability)
        ensures
            r == ch32_verdict(*device),
    {
        match device.instance_id.vid_pid() {
            Some((vid, pid)) => if vid == VID_WCH && pid == PID_LINK_RISCV {
                Applicability::Supported
            } else if vid == VID_WCH && pid == PID_LINK_ARM {
                Applicability::Blocked(
                    Note {
                        code: "probe.blocked.wchlink_arm_mode",
                        en: "the WCH-Link is in ARM mode; switch it to RISC-V mode to identify CH32 parts",
                    },
                )
            } else {
                Applicability::NotApplicable(Note { code: "probe.blocked.not_a_wchlink", en: "not a WCH-Link" })
            },
            None => Applicability::NotApplicable(Note { code: "probe.blocked.not_a_wchlink", en: "not a WCH-Link" }),
        }
    }
}

/// Whether an enumerated device is a WCH-Link in RISC-V mode.
pub open spec fn is_link(d: (u16, u16, Option<String>)) -> bool {
    d.0 == VID_WCH && d.1 == PID_LINK_RISCV
}

pub open spec fn serial_of(d: (u16, u16, Option<String>)) -> Option<Seq<char>> {
    match d.2 {
        Some(s) => Some(s@),
        None => None,
    }
}

/// The links among `devices`, as indices, in order.
pub open spec fn links(devices: Seq<(u16, u16, Option<String>)>) -> Seq<int>
    decreases devices.len(),
{
    if devices.len() == 0 {
        Seq::empty()
    } else if is_link(devices.last()) {
        links(devices.drop_last()).push(devices.len() - 1)
    } else {
        links(devices.drop_last())
    }
}

/// The first link with this serial.
pub open spec fn link_with_serial(devices: Seq<(u16, u16, Option<String>)>, serial: Seq<char>) -> Option<int>
    decreases devices.len(),
{
    if devices.len() == 0 {
        None
    } else {
        match link_with_serial(devices.drop_last(), serial) {
            Some(i) => Some(i),
            None => if is_link(devices.last()) && serial_of(devices.last()) == Some(serial) {
                Some(devices.len() - 1)
            } else {
                None
            },
        }
    }
}

/// Picks the WCH-Link to talk to among the USB devices plugged in, given as
/// VID, PID and serial.
///
/// Matched on the serial number when Windows gave one, so the right probe is
/// used when several are connected. Without a serial there is nothing to
/// match on, so this is only safe when exactly one probe is present.
pub fn select_probe(devices: &[(u16, u16, Option<String>)], serial: Option<&str>) -> (r: Result<usize, SelectError>)
    ensures
        match serial {
            Some(s) => match link_with_serial(devices@, s@) {
                Some(i) => r == Ok::<usize, SelectError>(i as usize),
                None => r matches Err(SelectError::NoSuchSerial(t)) && t@ == s@,
            },
            None => {
                let ls = links(devices@);
                &&& ls.len() == 0 ==> r == Err::<usize, SelectError>(SelectError::NoneConnected)
                &&& ls.len() == 1 ==> r == Ok::<usize, SelectError>(ls[0] as usize)
                &&& ls.len() > 1 ==> r == Err::<usize, SelectError>(SelectError::Several(ls.len() as usize))
            },
        },
{
    let n = devices.len();
    match serial {
        Some(s) => {
            let mut i: usize = 0;
            while i < n
                invariant
                    n == devices@.len(),
                    i <= n,
                    serial == Some(s),
                    link_with_serial(devices@.take(i as int), s@).is_none(),
                decreases n - i,
            {
                assert(devices@.take(i as int + 1).drop_last() == devices@.take(i as int));
                let d = &devices[i];
                let hit = d.0 == VID_WCH && d.1 == PID_LINK_RISCV && match &d.2 {
                    Some(t) => same_str(t.as_str(), s),
                    None => false,
                };
                if hit {
                    proof {
                        assert(serial_of(devices@[i as int]) == Some(s@));
                        assert(is_link(devices@[i as int]));
                        assert(devices@.take(i as int + 1 - 1) == devices@.take(i as int));
                        lemma_link_with_serial_prefix(devices@, s@, i as int + 1);
                        assert(link_with_serial(devices@, s@) == Some(i as int));
                    }
                    return Ok(i);
                }
                i = i + 1;
            }
            assert(devices@.take(n as int) == devices@);
            Err(SelectError::NoSuchSerial(str_string(s)))
        },
        None => {
            let mut count: usize = 0;
            let mut first: usize = 0;
            let mut i: usize = 0;
            while i < n
                invariant
                    n == devices@.len(),
                    i <= n,
                    count == links(devices@.take(i as int)).len(),
                    count <= i,
                    count > 0 ==> first == links(devices@.take(i as int))[0],
                decreases n - i,
            {
                assert(devices@.take(i as int + 1).drop_last() == devices@.take(i as int));
                let d = &devices[i];
                if d.0 == VID_WCH && d.1 == PID_LINK_RISCV {
                    if count == 0 {
                        first = i;
                    }
                    count = count + 1;
                }
                i = i + 1;
            }
            assert(devices@.take(n as int) == devices@);
            if count == 0 {
                Err(SelectError::NoneConnected)
            } else if count == 1 {
                Ok(first)
            } else {
                Err(SelectError::Several(count))
            }
        },
    }
}

proof fn lemma_link_with_serial_prefix(devices: Seq<(u16, u16, Option<String>)>, serial: Seq<char>, k: int)
    requires
        0 < k <= devices.len(),
        link_with_serial(devices.take(k - 1), serial).is_none(),
        is_link(devices[k - 1]) && serial_of(devices[k - 1]) == Some(serial),
    ensures
        link_with_serial(devices, serial) == Some(k - 1),
    decreases devices.len(),
{
    assert(devices.take(k).drop_last() == devices.take(k - 1));
    assert(link_with_serial(devices.take(k), serial) == Some(k - 1));
    if k < devices.len() {
        assert(devices.drop_last().take(k) == devices.take(k));
        assert(devices.drop_last().take(k - 1) == devices.take(k - 1));
        lemma_link_with_serial_prefix(devices.drop_last(), serial, k);
    } else {
        assert(devices.take(k) == devices);
    }
}

/// Eight lower-case hexadecimal digits, most significant first.
pub open spec fn hex8(v: u32) -> Seq<char> {
    Seq::new(8, |i: int| hex_digit((v as int / pow16(7 - i)) % 16))
}

pub open spec fn pow16(n: int) -> int
    decreases n,
{
    if n <= 0 {
        1
    } else {
        16 * pow16(n - 1)
    }
}

/// The UUID as sixteen lower-case hexadecimal digits.
pub open spec fn uuid_text(uuid: Seq<u8>) -> Seq<char>
    decreases uuid.len(),
{
    if uuid.len() == 0 {
        Seq::empty()
    } else {
        uuid_text(uuid.drop_last()) + hex2(uuid.last())
    }
}

/// The part name: the SKU or family the database gives, lower-cased, or
/// `ch32-<chip id>` for a part it does not know.
pub open spec fn device_type_of(chip_id: u32) -> Seq<char> {
    match ch32_part(chip_id) {
        Some((_, name)) => unicode_lowercase(name),
        None => "ch32-"@ + hex8(chip_id),
    }
}

/// The silicon revision: bits 4 to 7 of the chip id, the nibble the database
/// ignores.
pub open spec fn revision_of(chip_id: u32) -> u32 {
    (chip_id >> 4u32) & 0xfu32
}

fn hex_char(v: u32) -> (c: char)
    requires
        v < 16,
    ensures
        c == hex_digit(v as int),
{
    if v < 10 {
        ((('0' as u8) + (v as u8)) as char)
    } else {
        ((('a' as u8) + (v as u8) - 10) as char)
    }
}

fn hex8_text(v: u32) -> (r: Vec<char>)
    ensures
        r@ == hex8(v),
{
    let mut out: Vec<char> = Vec::new();
    let mut i: usize = 0;
    let mut div: u32 = 0x1000_0000;
    proof {
        reveal_with_fuel(pow16, 8);
        assert(pow16(7) == 0x1000_0000);
    }
    while i < 8
        invariant
            i <= 8,
            out@.len() == i,
            div as int == pow16(7 - i as int),
            i < 8 ==> div >= 1,
            forall|k: int| 0 <= k < i ==> #[trigger] out@[k] == hex_digit((v as int / pow16(7 - k)) % 16),
        decreases 8 - i,
    {
        proof {
            reveal_with_fuel(pow16, 8);
        }
        let d = (v / div) % 16;
        out.push(hex_char(d));
        if i < 7 {
            div = div / 16;
        }
        i = i + 1;
    }
    assert(out@ =~= hex8(v));
    out
}

/// What a chip's answer identifies: the family, the UUID as the unique id,
/// the part from the database, and the revision from the nibble it ignores.
pub fn build_identity(family: &'static str, probe_summary: &str, chip_id: u32, chip: &Ch32Chip) -> (r: Result<TargetIdentity, Ch32Error>)
    ensures
        !key_possible(device_type_of(chip_id), uuid_text(chip.uuid@)) ==> (r matches Err(Ch32Error::Key { device_type: d, uuid: u, error: _ })
            && d@ == device_type_of(chip_id) && u@ == uuid_text(chip.uuid@)),
        key_possible(device_type_of(chip_id), uuid_text(chip.uuid@)) ==> (r matches Ok(t) && {
            &&& t.family@ == family@
            &&& t.identity_key@ == key_text(device_type_of(chip_id), uuid_text(chip.uuid@))
            &&& t.device_id@ == uuid_text(chip.uuid@)
            &&& t.device_type@ == device_type_of(chip_id)
            &&& t.id_source@ == TARGET_CPU_ID@
            &&& t.hardware_revision matches Some(h) && h@ == "rev "@ + dec_text(revision_of(chip_id) as nat)
            &&& t.details@.len() == 3
            &&& t.details@[0].0@ == "chip_id"@ && t.details@[0].1@ == "0x"@ + hex8(chip_id)
            &&& t.details@[1].0@ == "flash"@ && t.details@[1].1@ == dec_text((chip.flash_bytes / 1024) as nat) + " KiB"@
            &&& t.details@[2].0@ == "probe"@ && t.details@[2].1@ == probe_summary@
            &&& details_in_order(t.details@)
        }),
{
    let mut uuid: Vec<char> = Vec::new();
    let mut i: usize = 0;
    while i < 8
        invariant
            i <= 8,
            chip.uuid@.len() == 8,
            uuid@ == uuid_text(chip.uuid@.take(i as int)),
        decreases 8 - i,
    {
        assert(chip.uuid@.take(i as int + 1).drop_last() == chip.uuid@.take(i as int));
        push_hex2(&mut uuid, chip.uuid[i]);
        i = i + 1;
    }
    assert(chip.uuid@.take(8) == chip.uuid@);
    let uuid = string_of(&uuid);
    let device_type = match resolve_part(chip_id) {
        Ch32Part::Sku(sku) => to_lowercase(sku.as_str()),
        Ch32Part::Family(name) => to_lowercase(name.as_str()),
        Ch32Part::Unknown => {
            let mut text = str_string("ch32-");
            push_str(&mut text, string_of(&hex8_text(chip_id)).as_str());
            text
        },
    };
    let key = match identity_key(device_type.as_str(), uuid.as_str()) {
        Ok(k) => k,
        Err(error) => return Err(Ch32Error::Key { device_type, uuid, error }),
    };
    let mut details: Vec<(String, String)> = Vec::new();
    let mut id_text = str_string("0x");
    push_str(&mut id_text, string_of(&hex8_text(chip_id)).as_str());
    details.push((str_string("chip_id"), id_text));
    let mut flash = u32_string(chip.flash_bytes / 1024);
    push_str(&mut flash, " KiB");
    details.push((str_string("flash"), flash));
    details.push((str_string("probe"), str_string(probe_summary)));
    proof {
        reveal_strlit("chip_id");
        reveal_strlit("flash");
        reveal_strlit("probe");
        assert(crate::text::seq_lt("chip_id"@, "flash"@));
        assert(crate::text::seq_lt("chip_id"@, "probe"@));
        assert(crate::text::seq_lt("flash"@, "probe"@));
    }
    let mut revision = str_string("rev ");
    push_str(&mut revision, u32_string((chip_id >> 4u32) & 0xfu32).as_str());
    Ok(TargetIdentity {
        family: str_string(family),
        identity_key: key,
        device_id: uuid,
        device_type,
        hardware_revision: Some(revision),
        id_source: TARGET_CPU_ID,
        details,
    })
}

} // verus!
