//! The log file's lines.
//!
//! Everything that touches a device or shells out to usbipd is recorded with
//! the exact command line and what came back. Writing the file is the
//! caller's business; what a line says is decided here.
use vstd::prelude::*;

use crate::text::{push_str, str_string};

verus! {

/// `level` left-aligned in five columns, as `{:<5}` writes it.
pub open spec fn padded(level: Seq<char>) -> Seq<char> {
    if level.len() >= 5 {
        level
    } else {
        level + Seq::new((5 - level.len()) as nat, |i: int| ' ')
    }
}

/// One line: the time, the level in five columns, the message.
pub open spec fn line_spec(stamp: Seq<char>, level: Seq<char>, message: Seq<char>) -> Seq<char> {
    stamp + seq![' '] + padded(level) + seq![' '] + message + seq!['\n']
}

/// One line of the log.
pub fn line(stamp: &str, level: &str, message: &str) -> (r: String)
    ensures
        r@ == line_spec(stamp@, level@, message@),
{
    let mut r = str_string(stamp);
    push_str(&mut r, " ");
    push_str(&mut r, level);
    let n = level.unicode_len();
    let mut k: usize = n;
    let ghost head = r@;
    while k < 5
        invariant
            n == level@.len(),
            n <= k <= 5 || (n > 5 && k == n),
            r@ == head + Seq::new((k - n) as nat, |i: int| ' '),
        decreases 5 - k,
    {
        push_str(&mut r, " ");
        proof {
            reveal_strlit(" ");
        }
        assert(head + Seq::new((k + 1 - n) as nat, |i: int| ' ') =~= head + Seq::new((k - n) as nat, |i: int| ' ') + " "@);
        k = k + 1;
    }
    push_str(&mut r, " ");
    push_str(&mut r, message);
    push_str(&mut r, "\n");
    proof {
        reveal_strlit(" ");
        reveal_strlit("\n");
        if n >= 5 {
            assert(Seq::new((k - n) as nat, |i: int| ' ') =~= Seq::<char>::empty());
        }
    }
    assert(r@ =~= line_spec(stamp@, level@, message@));
    r
}

/// The line an informational message is written as.
pub fn info(stamp: &str, message: &str) -> (r: String)
    ensures
        r@ == line_spec(stamp@, "info"@, message@),
{
    line(stamp, "info", message)
}

/// The line an error is written as.
pub fn error(stamp: &str, message: &str) -> (r: String)
    ensures
        r@ == line_spec(stamp@, "error"@, message@),
{
    line(stamp, "error", message)
}

/// The level a message from the frontend is written at: `error` when it says
/// so, `info` for anything else.
pub fn level_of(level: &str) -> (r: &'static str)
    ensures
        r@ == (if level@ == "error"@ { "error"@ } else { "info"@ }),
{
    if crate::text::same_str(level, "error") {
        "error"
    } else {
        "info"
    }
}

} // verus!
