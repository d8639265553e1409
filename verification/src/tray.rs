//! What the tray menu shows.
//!
//! Every label comes from the frontend, already translated; building the
//! menu from it is the caller's business.
use vstd::prelude::*;

verus! {

/// What the frontend puts in the menu, already translated.
#[derive(Debug, Clone)]
pub struct TrayView {
    /// Hover text: what the application is, and what it currently sees.
    pub tooltip: String,
    /// One line of counts, shown as a disabled item at the top of the menu.
    pub status: String,
    pub auto_attach_label: String,
    pub auto_attach_on: bool,
    /// Carries the count, so the menu says how many boards would restart.
    pub identify_all_label: String,
    /// False when there is nothing left to identify.
    pub identify_all_enabled: bool,
    pub open_label: String,
    pub quit_label: String,
}

/// `on` or `off`, for the log.
pub fn on_off(value: bool) -> (r: &'static str)
    ensures
        r@ == (if value { "on"@ } else { "off"@ }),
{
    if value {
        "on"
    } else {
        "off"
    }
}

} // verus!
