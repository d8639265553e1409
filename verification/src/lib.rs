use vstd::prelude::*;

pub mod autoattach;
pub mod autostart;
pub mod cli;
pub mod commands;
mod disk;
pub mod hub;
pub mod instance_id;
pub mod keyed;
pub mod logging;
pub mod ppps;
pub mod probe;
pub mod recall;
pub mod session;
pub mod shell_open;
pub mod snapshot;
pub mod store;
pub mod text;
pub mod tray;
pub mod usb_ids;
pub mod usbipd;
pub mod view;
pub mod webview2;
pub mod windevice;

verus! {
} // verus!
