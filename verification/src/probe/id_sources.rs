//! Where a unique id came from. Shown, not acted on.
use vstd::prelude::*;

verus! {

/// Read from the silicon: an ESP32's eFuse MAC. Survives a reflash, and a
/// bridge in front of it being swapped.
pub const TARGET_MAC: &'static str = "target-mac";

/// Read from the silicon: a CH32's factory UUID, through a debug probe.
pub const TARGET_CPU_ID: &'static str = "target-cpu-id";

/// The serial number in the board's own USB descriptors. Identifies the unit
/// only because the pair it comes with identifies the board.
pub const USB_SERIAL: &'static str = "usb-serial";

} // verus!
