//! Whether the WebView2 runtime is installed.
//!
//! The runtime records its version under one of three `Clients` keys, one per
//! kind of installation. Reading them is the caller's business; what the
//! values mean is decided here.
use vstd::prelude::*;

use crate::text::{push_str, str_string, trim, trim_str, same_str};

verus! {

/// The runtime's client id under `EdgeUpdate\Clients`.
pub const CLIENT: &'static str = "{F3017226-FE2A-4295-8BDF-00C3A9A7E4C5}";

/// Where the runtime can be downloaded.
pub const DOWNLOAD_URL: &'static str = "https://developer.microsoft.com/microsoft-edge/webview2/";

/// The registry root a location is under.
#[derive(Debug, Clone, Copy, PartialEq, Eq, Structural)]
pub enum Root {
    LocalMachine,
    CurrentUser,
}

/// The keys the runtime records its version under: per machine on 64-bit and
/// 32-bit Windows, and per user.
pub fn locations() -> (r: Vec<(Root, String)>)
    ensures
        r@.len() == 3,
        r@[0].0 == Root::LocalMachine,
        r@[0].1@ == "SOFTWARE\\WOW6432Node\\Microsoft\\EdgeUpdate\\Clients\\"@ + CLIENT@,
        r@[1].0 == Root::LocalMachine,
        r@[1].1@ == "SOFTWARE\\Microsoft\\EdgeUpdate\\Clients\\"@ + CLIENT@,
        r@[2].0 == Root::CurrentUser,
        r@[2].1@ == "Software\\Microsoft\\EdgeUpdate\\Clients\\"@ + CLIENT@,
{
    let mut a = str_string("SOFTWARE\\WOW6432Node\\Microsoft\\EdgeUpdate\\Clients\\");
    push_str(&mut a, CLIENT);
    let mut b = str_string("SOFTWARE\\Microsoft\\EdgeUpdate\\Clients\\");
    push_str(&mut b, CLIENT);
    let mut c = str_string("Software\\Microsoft\\EdgeUpdate\\Clients\\");
    push_str(&mut c, CLIENT);
    let mut r: Vec<(Root, String)> = Vec::new();
    r.push((Root::LocalMachine, a));
    r.push((Root::LocalMachine, b));
    r.push((Root::CurrentUser, c));
    r
}

/// Whether a recorded version says the runtime is there: a blank or all-zero
/// version is what an uninstall leaves behind.
pub open spec fn real_version(v: Seq<char>) -> bool {
    trim(v).len() > 0 && trim(v) != "0.0.0.0"@
}

/// Whether a location held a version that says the runtime is there.
pub open spec fn version_counts(v: Option<String>) -> bool {
    match v {
        Some(s) => real_version(s@),
        None => false,
    }
}

/// Whether the runtime is installed, from the `pv` value read at each
/// location, where there was one.
pub fn is_installed(versions: &[Option<String>]) -> (r: bool)
    ensures
        r == exists|k: int| 0 <= k < versions@.len() && version_counts(#[trigger] versions@[k]),
{
    let n = versions.len();
    let mut i: usize = 0;
    while i < n
        invariant
            n == versions@.len(),
            i <= n,
            forall|k: int| 0 <= k < i ==> !version_counts(#[trigger] versions@[k]),
        decreases n - i,
    {
        match &versions[i] {
            Some(v) => {
                let t = trim_str(v.as_str());
                if !t.as_str().is_empty() && !same_str(t.as_str(), "0.0.0.0") {
                    return true;
                }
            },
            None => {},
        }
        i = i + 1;
    }
    false
}

} // verus!
