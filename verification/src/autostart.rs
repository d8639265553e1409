//! Starting with Windows, through the per-user `Run` key.
//!
//! The registry is what Windows acts on, so it is the authority: whether
//! starting with Windows is on is read from there, and what the settings file
//! says is only what the user asked for. Reading and writing the key is the
//! caller's business; what the entry says is decided here.
use vstd::prelude::*;

use crate::text::{chars_of, ci_eq, eq_ignore_case, push_str, str_string, trim, trim_str};

verus! {

/// The per-user key Windows reads at sign-in.
pub const RUN_KEY: &'static str = "Software\\Microsoft\\Windows\\CurrentVersion\\Run";

/// The value this application writes under it.
pub const VALUE_NAME: &'static str = "WSL USB Identity Manager";

/// The argument the entry starts the application with, so signing in does
/// not put a window in front of the user.
pub const HIDDEN_ARG: &'static str = "--hidden";

/// What to do to the `Run` key.
#[derive(Debug, Clone, PartialEq, Eq)]
pub enum RunEntry {
    /// Write this command line.
    Write(String),
    /// Remove the value; a missing one is already the answer.
    Delete,
}

/// The executable path in quotes, as the entry holds it.
pub open spec fn quoted_spec(exe: Seq<char>) -> Seq<char> {
    seq!['"'] + exe + seq!['"']
}

/// The command line the entry holds: the quoted executable and
/// [`HIDDEN_ARG`].
pub open spec fn command_line_spec(exe: Seq<char>) -> Seq<char> {
    quoted_spec(exe) + seq![' '] + HIDDEN_ARG@
}

pub fn quoted_exe(exe: &str) -> (r: String)
    ensures
        r@ == quoted_spec(exe@),
{
    let mut r = String::new();
    push_str(&mut r, "\"");
    push_str(&mut r, exe);
    push_str(&mut r, "\"");
    proof {
        reveal_strlit("\"");
    }
    assert(r@ =~= quoted_spec(exe@));
    r
}

/// The command line the entry is written with.
pub fn command_line(exe: &str) -> (r: String)
    ensures
        r@ == command_line_spec(exe@),
{
    let mut r = quoted_exe(exe);
    push_str(&mut r, " ");
    push_str(&mut r, HIDDEN_ARG);
    proof {
        reveal_strlit(" ");
    }
    assert(r@ =~= command_line_spec(exe@));
    r
}

/// Whether the entry found starts this executable: the quoted path, with or
/// without [`HIDDEN_ARG`], ignoring ASCII case and surrounding whitespace.
/// An entry left behind by a copy that has since moved is not ours.
pub open spec fn is_enabled_spec(exe: Option<Seq<char>>, found: Option<Seq<char>>) -> bool {
    match (exe, found) {
        (Some(e), Some(f)) => ci_eq(trim(f), quoted_spec(e)) || ci_eq(trim(f), command_line_spec(e)),
        _ => false,
    }
}

/// Whether starting with Windows is on, from this executable's path and the
/// value the key holds, when either could be read.
pub fn is_enabled(exe: Option<&str>, found: Option<&str>) -> (r: bool)
    ensures
        r == is_enabled_spec(
            match exe {
                Some(e) => Some(e@),
                None => None,
            },
            match found {
                Some(f) => Some(f@),
                None => None,
            },
        ),
{
    match (exe, found) {
        (Some(e), Some(f)) => {
            let f = trim_str(f);
            let quoted = quoted_exe(e);
            let full = command_line(e);
            eq_ignore_case(f.as_str(), quoted.as_str()) || eq_ignore_case(f.as_str(), full.as_str())
        },
        _ => false,
    }
}

/// What turning starting with Windows on or off does to the key.
pub fn set(enabled: bool, exe: &str) -> (r: RunEntry)
    ensures
        enabled ==> (r matches RunEntry::Write(c) && c@ == command_line_spec(exe@)),
        !enabled ==> r == RunEntry::Delete,
{
    if enabled {
        RunEntry::Write(command_line(exe))
    } else {
        RunEntry::Delete
    }
}

} // verus!
