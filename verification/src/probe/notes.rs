//! Reasons shared by every probe, so the UI only has to translate them once.
use vstd::prelude::*;

use crate::probe::Note;

verus! {

/// Another probe recognised the hardware from its identifiers.
pub fn claimed_by_another() -> (r: Note)
    ensures
        r == (Note { code: "probe.blocked.claimed_by_another", en: "another probe recognises this hardware" }),
{
    Note { code: "probe.blocked.claimed_by_another", en: "another probe recognises this hardware" }
}

/// The board table names a family no probe here reads.
pub fn known_family() -> (r: Note)
    ensures
        r == (Note {
            code: "probe.blocked.known_family",
            en: "the USB ID names a board family no probe here reads",
        }),
{
    Note {
        code: "probe.blocked.known_family",
        en: "the USB ID names a board family no probe here reads",
    }
}

pub fn not_connected() -> (r: Note)
    ensures
        r == (Note { code: "probe.blocked.not_connected", en: "the device is not connected" }),
{
    Note { code: "probe.blocked.not_connected", en: "the device is not connected" }
}

pub fn attached() -> (r: Note)
    ensures
        r == (Note { code: "probe.blocked.attached", en: "attached to WSL, so Windows cannot reach the device" }),
{
    Note { code: "probe.blocked.attached", en: "attached to WSL, so Windows cannot reach the device" }
}

} // verus!
