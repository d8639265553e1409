//! What a USB hub says about its own ports.
//!
//! Asking is an IOCTL and the caller's business. What a hub's answer means is
//! decided here. **What the hub does not say is whether a port has power**:
//! per-port power is tracked by remembering what was switched, never by
//! observation (see [`crate::ppps`]).
use vstd::prelude::*;

use crate::instance_id::vid_pid_text;
use crate::text::{hex4_vec, string_of};

verus! {

/// What a hub says about one of its ports.
#[derive(Debug, Clone)]
pub struct HubPort {
    /// 1-based, and the same number `vhfilter --switch-port` takes.
    pub port: u32,
    /// The raw `ConnectionStatus`: 0 is nothing connected, 1 is connected,
    /// and the rest are failure states such as over-current.
    pub status: u32,
    pub status_name: &'static str,
    /// True when the hub reports a device on the port.
    pub connected: bool,
    /// `idVendor:idProduct` of whatever is on the port, when there is one.
    pub vid_pid: Option<String>,
}

/// The name of a `USB_CONNECTION_STATUS` value.
pub open spec fn status_name_spec(status: u32) -> Seq<char> {
    if status == 0 {
        "NoDeviceConnected"@
    } else if status == 1 {
        "DeviceConnected"@
    } else if status == 2 {
        "DeviceFailedEnumeration"@
    } else if status == 3 {
        "DeviceGeneralFailure"@
    } else if status == 4 {
        "DeviceCausedOvercurrent"@
    } else if status == 5 {
        "DeviceNotEnoughPower"@
    } else if status == 6 {
        "DeviceNotEnoughBandwidth"@
    } else if status == 7 {
        "DeviceHubNestedTooDeeply"@
    } else if status == 8 {
        "DeviceInLegacyHub"@
    } else if status == 9 {
        "DeviceEnumerating"@
    } else if status == 10 {
        "DeviceReset"@
    } else {
        "unknown"@
    }
}

/// `USB_CONNECTION_STATUS`, which the Windows bindings expose as a bare
/// integer.
pub fn status_name(status: u32) -> (r: &'static str)
    ensures
        r@ == status_name_spec(status),
{
    match status {
        0 => "NoDeviceConnected",
        1 => "DeviceConnected",
        2 => "DeviceFailedEnumeration",
        3 => "DeviceGeneralFailure",
        4 => "DeviceCausedOvercurrent",
        5 => "DeviceNotEnoughPower",
        6 => "DeviceNotEnoughBandwidth",
        7 => "DeviceHubNestedTooDeeply",
        8 => "DeviceInLegacyHub",
        9 => "DeviceEnumerating",
        10 => "DeviceReset",
        _ => "unknown",
    }
}

/// What a port's connection information says: connected only for status 1,
/// and the VID/PID of the device descriptor only then.
pub fn port_from_connection(port: u32, status: u32, vid: u16, pid: u16) -> (r: HubPort)
    ensures
        r.port == port,
        r.status == status,
        r.status_name@ == status_name_spec(status),
        r.connected == (status == 1),
        r.vid_pid.is_some() == (status == 1),
        r.vid_pid.is_some() ==> r.vid_pid.unwrap()@ == vid_pid_text(vid, pid),
{
    let connected = status == 1;
    let vid_pid = if connected {
        let mut text = hex4_vec(vid);
        text.push(':');
        let tail = hex4_vec(pid);
        text.push(tail[0]);
        text.push(tail[1]);
        text.push(tail[2]);
        text.push(tail[3]);
        assert(text@ =~= vid_pid_text(vid, pid));
        Some(string_of(&text))
    } else {
        None
    };
    HubPort { port, status, status_name: status_name(status), connected, vid_pid }
}

} // verus!
