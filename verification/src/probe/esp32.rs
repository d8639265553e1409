//! ESP32 family, identified through its ROM bootloader.
//!
//! The eFuse MAC is burned at the factory and is unique per chip, which makes
//! it the one thing that tells two boards behind identical CH340s apart.
//!
//! Talking to the ROM loader is espflash's work and the caller's business;
//! what is read is handed here as an [`Esp32Reading`], and what it identifies
//! is decided here.
use vstd::prelude::*;

use crate::probe::id_sources::TARGET_MAC;
use crate::probe::identity::{esp_variant, esp_variant_spec, identity_key, key_possible, key_text, IdentityKeyError};
use crate::probe::{details_in_order, Applicability, Note, Recognition, TargetIdentity, TargetProbe};
use crate::text::{dec_text, push_str, str_string, u32_string};
use crate::windevice::WinUsbDevice;

verus! {

/// The ROM loader answers at 115200 baud.
pub const PROBE_BAUD: u32 = 115_200;

/// How long to wait for a board, in milliseconds: long enough for one that
/// resets slowly, short enough that a device which is not an ESP32 does not
/// hold the UI.
pub const PROBE_TIMEOUT_MS: u64 = 3000;

/// Word 3 of the original ESP32's eFuse read window, which carries the
/// package code and the single-core bit.
pub const ESP32_EFUSE_WORD3: u32 = 0x3FF5_A00C;

/// The probe that asks an ESP32's ROM loader for its eFuse MAC.
pub struct Esp32Probe;

/// What one probe read off the chip, as plain values.
pub struct Esp32Reading {
    /// The chip series as espflash names it, e.g. `esp32s3`.
    pub chip: String,
    pub mac_address: Option<String>,
    /// Major and minor silicon revision.
    pub revision: Option<(u32, u32)>,
    /// The crystal frequency and flash size, as espflash writes them.
    pub crystal: String,
    pub flash_size: String,
    pub features: Vec<String>,
    /// eFuse word 3, read only for the original ESP32 and only to name the
    /// part.
    pub package_word: Option<u32>,
}

/// Why a reading identifies nothing.
#[derive(Debug, Clone, PartialEq, Eq)]
pub enum Esp32Error {
    /// The chip did not report a MAC address.
    NoMac,
    /// No identity key could be built from the variant and the MAC.
    Key { variant: String, mac: String, error: IdentityKeyError },
}

/// What the ESP32 probe makes of a device before touching it: supported
/// wherever there is a COM port to talk over.
pub open spec fn esp32_verdict(device: WinUsbDevice) -> Applicability {
    if device.com_port.is_none() {
        // Either the board is behind something that is not a serial port, or
        // its driver is not loaded. Either way there is nothing to talk to.
        Applicability::NotApplicable(Note {
            code: "probe.blocked.no_com_port",
            en: "no COM port, so there is no serial line to talk over",
        })
    } else {
        Applicability::Supported
    }
}

impl TargetProbe for Esp32Probe {
    fn family(&self) -> (r: &'static str)
        ensures
            r@ == "esp32"@,
    {
        "esp32"
    }

    /// A COM port is all there is to go on, so this probe cannot know a device
    /// is its own until it has asked.
    fn recognition(&self) -> (r: Recognition)
        ensures
            r == Recognition::Fallback,
    {
        Recognition::Fallback
    }

    fn side_effect(&self) -> (r: Note)
        ensures
            r.code@ == "probe.esp32.side_effect"@,
    {
        Note {
            code: "probe.esp32.side_effect",
            en: "Resets the board into its ROM bootloader and then back, so the running firmware restarts.",
        }
    }

    fn applicability(&self, device: &WinUsbDevice) -> (r: Applicability)
        ensures
            r == esp32_verdict(*device),
    {
        if device.com_port.is_none() {
            return Applicability::NotApplicable(
                Note {
                    code: "probe.blocked.no_com_port",
                    en: "no COM port, so there is no serial line to talk over",
                },
            );
        }
        Applicability::Supported
    }
}

/// The package code: bits 9 to 11 of word 3, with bit 2 as its fourth bit.
pub open spec fn package_code(word3: u32) -> u32 {
    (((word3 >> 9u32) & 7u32) + (((word3 >> 2u32) & 1u32) << 3u32)) as u32
}

/// The part name esptool gives the original ESP32, from its package eFuse.
/// A package it does not name falls back to the series.
pub open spec fn part_name_spec(word3: u32, major_revision: u32) -> Seq<char> {
    let package = package_code(word3);
    let single_core = word3 & 1 != 0;
    let rev3 = major_revision == 3;
    if package == 0 && single_core {
        "ESP32-S0WDQ6"@
    } else if package == 0 && rev3 {
        "ESP32-D0WDQ6-V3"@
    } else if package == 0 {
        "ESP32-D0WDQ6"@
    } else if package == 1 && single_core {
        "ESP32-S0WD"@
    } else if package == 1 && rev3 {
        "ESP32-D0WD-V3"@
    } else if package == 1 {
        "ESP32-D0WD"@
    } else if package == 2 {
        "ESP32-D2WD"@
    } else if package == 4 {
        "ESP32-U4WDH"@
    } else if package == 5 && rev3 {
        "ESP32-PICO-V3"@
    } else if package == 5 {
        "ESP32-PICO-D4"@
    } else if package == 6 {
        "ESP32-PICO-V3-02"@
    } else if package == 7 {
        "ESP32-D0WDR2-V3"@
    } else {
        "ESP32"@
    }
}

/// The part name esptool gives the original ESP32, from its package eFuse.
pub fn esp32_part_name(word3: u32, major_revision: u32) -> (r: &'static str)
    ensures
        r@ == part_name_spec(word3, major_revision),
{
    assert(((word3 >> 9u32) & 7u32) <= 7u32 && (((word3 >> 2u32) & 1u32) << 3u32) <= 8u32) by (bit_vector);
    let package = ((word3 >> 9u32) & 7u32) + (((word3 >> 2u32) & 1u32) << 3u32);
    let single_core = word3 & 1 != 0;
    let rev3 = major_revision == 3;
    if package == 0 && single_core {
        "ESP32-S0WDQ6"
    } else if package == 0 && rev3 {
        "ESP32-D0WDQ6-V3"
    } else if package == 0 {
        "ESP32-D0WDQ6"
    } else if package == 1 && single_core {
        "ESP32-S0WD"
    } else if package == 1 && rev3 {
        "ESP32-D0WD-V3"
    } else if package == 1 {
        "ESP32-D0WD"
    } else if package == 2 {
        "ESP32-D2WD"
    } else if package == 4 {
        "ESP32-U4WDH"
    } else if package == 5 && rev3 {
        "ESP32-PICO-V3"
    } else if package == 5 {
        "ESP32-PICO-D4"
    } else if package == 6 {
        "ESP32-PICO-V3-02"
    } else if package == 7 {
        "ESP32-D0WDR2-V3"
    } else {
        "ESP32"
    }
}

/// The names esptool gives the original ESP32, by the package eFuse bits
/// (bits 9 to 11 of word 3, and bit 2 above them), the single-core bit (bit
/// 0) and the major chip revision. A package that esptool does not name is
/// the series, `ESP32`.
pub proof fn esptool_names_the_original_esp32_parts(word3: u32, major_revision: u32)
    ensures
        ({
            let low = (word3 >> 9u32) & 7u32;
            let high = (word3 >> 2u32) & 1u32;
            let single_core = word3 & 1u32 != 0u32;
            let rev3 = major_revision == 3;
            let name = part_name_spec(word3, major_revision);
            &&& high == 0 && low == 0 && single_core ==> name == "ESP32-S0WDQ6"@
            &&& high == 0 && low == 0 && !single_core && rev3 ==> name == "ESP32-D0WDQ6-V3"@
            &&& high == 0 && low == 0 && !single_core && !rev3 ==> name == "ESP32-D0WDQ6"@
            &&& high == 0 && low == 1 && single_core ==> name == "ESP32-S0WD"@
            &&& high == 0 && low == 1 && !single_core && rev3 ==> name == "ESP32-D0WD-V3"@
            &&& high == 0 && low == 1 && !single_core && !rev3 ==> name == "ESP32-D0WD"@
            &&& high == 0 && low == 2 ==> name == "ESP32-D2WD"@
            &&& high == 0 && low == 3 ==> name == "ESP32"@
            &&& high == 0 && low == 4 ==> name == "ESP32-U4WDH"@
            &&& high == 0 && low == 5 && rev3 ==> name == "ESP32-PICO-V3"@
            &&& high == 0 && low == 5 && !rev3 ==> name == "ESP32-PICO-D4"@
            &&& high == 0 && low == 6 ==> name == "ESP32-PICO-V3-02"@
            &&& high == 0 && low == 7 ==> name == "ESP32-D0WDR2-V3"@
            &&& high == 1 ==> name == "ESP32"@
        }),
{
    let low = (word3 >> 9u32) & 7u32;
    let high = (word3 >> 2u32) & 1u32;
    assert(((word3 >> 9u32) & 7u32) <= 7u32 && ((word3 >> 2u32) & 1u32) <= 1u32) by (bit_vector);
    assert((((word3 >> 2u32) & 1u32) << 3u32) == (if (word3 >> 2u32) & 1u32 == 0u32 { 0u32 } else { 8u32 }))
        by (bit_vector);
    assert(package_code(word3) == low + 8 * high);
}

/// The variant a reading names: the part name for the original ESP32 when
/// its package word was read, the series otherwise.
pub open spec fn reading_variant(chip: Seq<char>, revision: Option<(u32, u32)>, package_word: Option<u32>) -> Seq<char> {
    match package_word {
        Some(word3) => esp_variant_spec(part_name_spec(word3, match revision {
            Some((major, _)) => major,
            None => 0,
        })),
        None => esp_variant_spec(chip),
    }
}

/// `a, b, c`.
pub open spec fn joined(items: Seq<Seq<char>>) -> Seq<char>
    decreases items.len(),
{
    if items.len() == 0 {
        Seq::empty()
    } else if items.len() == 1 {
        items[0]
    } else {
        joined(items.drop_last()) + ", "@ + items.last()
    }
}

/// `v<major>.<minor>`.
pub open spec fn revision_text(major: u32, minor: u32) -> Seq<char> {
    seq!['v'] + dec_text(major as nat) + seq!['.'] + dec_text(minor as nat)
}

fn join_features(items: &Vec<String>) -> (r: String)
    ensures
        r@ == joined(items@.map_values(|s: String| s@)),
{
    let ghost vs = items@.map_values(|s: String| s@);
    let mut out = String::new();
    let n = items.len();
    let mut i: usize = 0;
    while i < n
        invariant
            n == items@.len(),
            vs == items@.map_values(|s: String| s@),
            i <= n,
            out@ == joined(vs.take(i as int)),
        decreases n - i,
    {
        assert(vs.take(i as int + 1).drop_last() == vs.take(i as int));
        if i > 0 {
            push_str(&mut out, ", ");
        } else {
            assert(vs.take(1)[0] == vs[0]);
        }
        push_str(&mut out, items[i].as_str());
        i = i + 1;
    }
    assert(vs.take(n as int) == vs);
    out
}

/// What a reading identifies: the family `esp32`, the MAC as the unique id,
/// and the details worth showing, ordered by name.
pub fn identity_from_reading(reading: &Esp32Reading, port_name: &str) -> (r: Result<TargetIdentity, Esp32Error>)
    ensures
        reading.mac_address.is_none() ==> r == Err::<TargetIdentity, Esp32Error>(Esp32Error::NoMac),
        reading.mac_address matches Some(mac) ==> {
            let variant = reading_variant(reading.chip@, reading.revision, reading.package_word);
            &&& !key_possible(variant, mac@) ==> (r matches Err(Esp32Error::Key { variant: v, mac: m, error: _ })
                && v@ == variant && m@ == mac@)
            &&& key_possible(variant, mac@) ==> (r matches Ok(t) && {
                &&& t.family@ == "esp32"@
                &&& t.identity_key@ == key_text(variant, mac@)
                &&& t.device_id@ == mac@
                &&& t.device_type@ == variant
                &&& match reading.revision {
                    Some((major, minor)) => t.hardware_revision matches Some(h) && h@ == revision_text(major, minor),
                    None => t.hardware_revision.is_none(),
                }
                &&& t.id_source@ == TARGET_MAC@
                &&& t.details@.len() == (if reading.features@.len() == 0 { 3int } else { 4int })
                &&& t.details@[0].0@ == "crystal"@ && t.details@[0].1@ == reading.crystal@
                &&& reading.features@.len() > 0 ==> (t.details@[1].0@ == "features"@
                    && t.details@[1].1@ == joined(reading.features@.map_values(|s: String| s@)))
                &&& t.details@[t.details@.len() - 2].0@ == "flash_size"@
                &&& t.details@[t.details@.len() - 2].1@ == reading.flash_size@
                &&& t.details@[t.details@.len() - 1].0@ == "probed_via"@
                &&& t.details@[t.details@.len() - 1].1@ == port_name@
                &&& details_in_order(t.details@)
            })
        },
{
    let mac = match &reading.mac_address {
        Some(m) => m,
        None => return Err(Esp32Error::NoMac),
    };
    let variant = match reading.package_word {
        Some(word3) => {
            let major = match reading.revision {
                Some((major, _)) => major,
                None => 0,
            };
            esp_variant(esp32_part_name(word3, major))
        },
        None => esp_variant(reading.chip.as_str()),
    };
    let key = match identity_key(variant.as_str(), mac.as_str()) {
        Ok(k) => k,
        Err(error) => return Err(Esp32Error::Key { variant, mac: mac.clone(), error }),
    };
    let mut details: Vec<(String, String)> = Vec::new();
    details.push((str_string("crystal"), reading.crystal.clone()));
    if reading.features.len() > 0 {
        details.push((str_string("features"), join_features(&reading.features)));
    }
    details.push((str_string("flash_size"), reading.flash_size.clone()));
    details.push((str_string("probed_via"), str_string(port_name)));
    proof {
        reveal_strlit("crystal");
        reveal_strlit("features");
        reveal_strlit("flash_size");
        reveal_strlit("probed_via");
        assert(crate::text::seq_lt("crystal"@, "features"@));
        assert(crate::text::seq_lt("crystal"@, "flash_size"@));
        assert(crate::text::seq_lt("crystal"@, "probed_via"@));
        assert(crate::text::seq_lt("features"@, "flash_size"@)) by {
            reveal_with_fuel(crate::text::seq_lt, 2);
        }
        assert(crate::text::seq_lt("features"@, "probed_via"@));
        assert(crate::text::seq_lt("flash_size"@, "probed_via"@));
    }
    let hardware_revision = match reading.revision {
        Some((major, minor)) => {
            let mut text = str_string("v");
            push_str(&mut text, u32_string(major).as_str());
            push_str(&mut text, ".");
            push_str(&mut text, u32_string(minor).as_str());
            proof {
                reveal_strlit("v");
                reveal_strlit(".");
            }
            assert(text@ =~= revision_text(major, minor));
            Some(text)
        },
        None => None,
    };
    Ok(TargetIdentity {
        family: str_string("esp32"),
        identity_key: key,
        device_id: mac.clone(),
        device_type: variant,
        hardware_revision,
        id_source: TARGET_MAC,
        details,
    })
}

} // verus!
