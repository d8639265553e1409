//! What the command line asks for.
//!
//! ```text
//! wuim list             devices currently connected
//! wuim list --all       include devices that only have a bind record
//! wuim list --nodes     also list nodes usbipd does not track
//! wuim list --json      dump the whole snapshot as JSON
//! wuim probe <target>   ask a board what it is (COM port or bus id)
//! wuim probe <target> --yes   skip the confirmation
//! ```
//!
//! Reading the arguments and picking the device are decided here; printing,
//! asking and probing are the caller's business.
use vstd::prelude::*;

use crate::snapshot::{DeviceRow, Snapshot};
use crate::text::{ci_eq, chars_of, eq_ignore_case, same_str, str_string, trim, trim_str};

verus! {

/// What `wuim list` was asked to show.
#[derive(Debug, Clone, Copy, PartialEq, Eq, Structural)]
pub struct ListOptions {
    /// Include devices that only have a bind record.
    pub all: bool,
    /// Also list nodes usbipd does not track.
    pub nodes: bool,
    /// Dump the whole snapshot as JSON.
    pub json: bool,
}

/// What `wuim probe` was asked to do.
#[derive(Debug, Clone, PartialEq, Eq)]
pub struct ProbeOptions {
    /// A COM port or a bus id; the last one given.
    pub target: Option<String>,
    /// Skip the confirmation.
    pub assume_yes: bool,
}

/// What the command line asks for.
#[derive(Debug, Clone, PartialEq, Eq)]
pub enum CliCommand {
    Help,
    List(ListOptions),
    Probe(ProbeOptions),
}

/// Why the command line was not understood.
#[derive(Debug, Clone, PartialEq, Eq)]
pub enum ArgError {
    UnknownCommand(String),
    UnknownArgument(String),
}

pub open spec fn arg_views(args: Seq<String>) -> Seq<Seq<char>> {
    args.map_values(|a: String| a@)
}

pub open spec fn is_help(a: Seq<char>) -> bool {
    a == "--help"@ || a == "-h"@ || a == "help"@
}

pub open spec fn is_flag(a: Seq<char>) -> bool {
    a.len() > 0 && a[0] == '-'
}

/// The flags of `wuim list`, read in order; the first one not understood
/// stops the reading.
pub open spec fn list_flags(args: Seq<Seq<char>>) -> Result<(bool, bool, bool), Seq<char>>
    decreases args.len(),
{
    if args.len() == 0 {
        Ok((false, false, false))
    } else {
        match list_flags(args.drop_last()) {
            Err(e) => Err(e),
            Ok((all, nodes, json)) => {
                let a = args.last();
                if a == "--all"@ || a == "-a"@ {
                    Ok((true, nodes, json))
                } else if a == "--nodes"@ {
                    Ok((all, true, json))
                } else if a == "--json"@ {
                    Ok((all, nodes, true))
                } else {
                    Err(a)
                }
            },
        }
    }
}

/// The arguments of `wuim probe`, read in order: the last target named wins,
/// and the first flag not understood stops the reading.
pub open spec fn probe_args(args: Seq<Seq<char>>) -> Result<(Option<Seq<char>>, bool), Seq<char>>
    decreases args.len(),
{
    if args.len() == 0 {
        Ok((None, false))
    } else {
        match probe_args(args.drop_last()) {
            Err(e) => Err(e),
            Ok((target, yes)) => {
                let a = args.last();
                if a == "--yes"@ || a == "-y"@ {
                    Ok((target, true))
                } else if is_flag(a) {
                    Err(a)
                } else {
                    Ok((Some(a), yes))
                }
            },
        }
    }
}

/// The command and the arguments it gets: no arguments, or a flag first,
/// mean `list`, so `wuim --json` works.
pub open spec fn split_command(args: Seq<Seq<char>>) -> (Seq<char>, Seq<Seq<char>>) {
    if args.len() == 0 {
        ("list"@, args)
    } else if is_flag(args[0]) {
        ("list"@, args)
    } else {
        (args[0], args.drop_first())
    }
}

/// Whether `r` is what the command line `args` asks for.
pub open spec fn reads_as(args: Seq<Seq<char>>, r: Result<CliCommand, ArgError>) -> bool {
    if exists|k: int| 0 <= k < args.len() && is_help(#[trigger] args[k]) {
        r == Ok::<CliCommand, ArgError>(CliCommand::Help)
    } else {
        let (command, rest) = split_command(args);
        if command == "list"@ {
            match list_flags(rest) {
                Ok((all, nodes, json)) => r == Ok::<CliCommand, ArgError>(
                    CliCommand::List(ListOptions { all, nodes, json }),
                ),
                Err(a) => r matches Err(ArgError::UnknownArgument(b)) && b@ == a,
            }
        } else if command == "probe"@ {
            match probe_args(rest) {
                Ok((target, yes)) => r matches Ok(CliCommand::Probe(p)) && p.assume_yes == yes && match target {
                    Some(t) => p.target matches Some(s) && s@ == t,
                    None => p.target.is_none(),
                },
                Err(a) => r matches Err(ArgError::UnknownArgument(b)) && b@ == a,
            }
        } else {
            r matches Err(ArgError::UnknownCommand(c)) && c@ == command
        }
    }
}

fn starts_with_dash(a: &str) -> (r: bool)
    ensures
        r == is_flag(a@),
{
    let chars = chars_of(a);
    chars.len() > 0 && chars[0] == '-'
}

fn read_list(args: &[String], from: usize) -> (r: Result<ListOptions, ArgError>)
    requires
        from <= args@.len(),
    ensures
        match list_flags(arg_views(args@).skip(from as int)) {
            Ok((all, nodes, json)) => r == Ok::<ListOptions, ArgError>(ListOptions { all, nodes, json }),
            Err(a) => r matches Err(ArgError::UnknownArgument(b)) && b@ == a,
        },
{
    let ghost rest = arg_views(args@).skip(from as int);
    let mut opts = ListOptions { all: false, nodes: false, json: false };
    let n = args.len();
    let mut i: usize = from;
    assert(rest.take(0) =~= Seq::<Seq<char>>::empty());
    while i < n
        invariant
            n == args@.len(),
            from <= i <= n,
            rest == arg_views(args@).skip(from as int),
            list_flags(rest.take(i - from)) == Ok::<(bool, bool, bool), Seq<char>>((opts.all, opts.nodes, opts.json)),
        decreases n - i,
    {
        let a = args[i].as_str();
        assert(rest.take(i - from + 1).drop_last() == rest.take(i - from));
        assert(rest.take(i - from + 1).last() == a@);
        if same_str(a, "--all") || same_str(a, "-a") {
            opts.all = true;
        } else if same_str(a, "--nodes") {
            opts.nodes = true;
        } else if same_str(a, "--json") {
            opts.json = true;
        } else {
            proof {
                lemma_list_flags_stops(rest, i - from + 1);
            }
            return Err(ArgError::UnknownArgument(str_string(a)));
        }
        i = i + 1;
    }
    assert(rest.take(n - from) == rest);
    Ok(opts)
}

/// Once the flags stop at an argument not understood, reading more changes
/// nothing.
proof fn lemma_list_flags_stops(args: Seq<Seq<char>>, k: int)
    requires
        0 < k <= args.len(),
        list_flags(args.take(k)) is Err,
    ensures
        list_flags(args) == list_flags(args.take(k)),
    decreases args.len() - k,
{
    if k < args.len() {
        assert(args.take(k + 1).drop_last() == args.take(k));
        lemma_list_flags_stops(args, k + 1);
    } else {
        assert(args.take(k) == args);
    }
}

proof fn lemma_probe_args_stops(args: Seq<Seq<char>>, k: int)
    requires
        0 < k <= args.len(),
        probe_args(args.take(k)) is Err,
    ensures
        probe_args(args) == probe_args(args.take(k)),
    decreases args.len() - k,
{
    if k < args.len() {
        assert(args.take(k + 1).drop_last() == args.take(k));
        lemma_probe_args_stops(args, k + 1);
    } else {
        assert(args.take(k) == args);
    }
}

fn read_probe(args: &[String], from: usize) -> (r: Result<ProbeOptions, ArgError>)
    requires
        from <= args@.len(),
    ensures
        match probe_args(arg_views(args@).skip(from as int)) {
            Ok((target, yes)) => r matches Ok(p) && p.assume_yes == yes && match target {
                Some(t) => p.target matches Some(s) && s@ == t,
                None => p.target.is_none(),
            },
            Err(a) => r matches Err(ArgError::UnknownArgument(b)) && b@ == a,
        },
{
    let ghost rest = arg_views(args@).skip(from as int);
    let mut target: Option<String> = None;
    let mut yes = false;
    let n = args.len();
    let mut i: usize = from;
    assert(rest.take(0) =~= Seq::<Seq<char>>::empty());
    while i < n
        invariant
            n == args@.len(),
            from <= i <= n,
            rest == arg_views(args@).skip(from as int),
            probe_args(rest.take(i - from)) matches Ok((t, y)) && y == yes && match t {
                Some(t) => target matches Some(s) && s@ == t,
                None => target.is_none(),
            },
        decreases n - i,
    {
        let a = args[i].as_str();
        assert(rest.take(i - from + 1).drop_last() == rest.take(i - from));
        assert(rest.take(i - from + 1).last() == a@);
        if same_str(a, "--yes") || same_str(a, "-y") {
            yes = true;
        } else if starts_with_dash(a) {
            proof {
                lemma_probe_args_stops(rest, i - from + 1);
            }
            return Err(ArgError::UnknownArgument(str_string(a)));
        } else {
            target = Some(str_string(a));
        }
        i = i + 1;
    }
    assert(rest.take(n - from) == rest);
    Ok(ProbeOptions { target, assume_yes: yes })
}

/// Reads the command line, without the program name.
pub fn parse_args(args: &[String]) -> (r: Result<CliCommand, ArgError>)
    ensures
        reads_as(arg_views(args@), r),
{
    let ghost vs = arg_views(args@);
    let n = args.len();
    let mut k: usize = 0;
    while k < n
        invariant
            n == args@.len(),
            vs == arg_views(args@),
            k <= n,
            forall|j: int| 0 <= j < k ==> !is_help(#[trigger] vs[j]),
        decreases n - k,
    {
        let a = args[k].as_str();
        if same_str(a, "--help") || same_str(a, "-h") || same_str(a, "help") {
            assert(is_help(vs[k as int]));
            return Ok(CliCommand::Help);
        }
        assert(!is_help(vs[k as int]));
        k = k + 1;
    }
    if n == 0 || starts_with_dash(args[0].as_str()) {
        assert(vs.skip(0) == vs);
        return match read_list(args, 0) {
            Ok(opts) => Ok(CliCommand::List(opts)),
            Err(e) => Err(e),
        };
    }
    let command = args[0].as_str();
    assert(vs.skip(1) == vs.drop_first());
    if same_str(command, "list") {
        match read_list(args, 1) {
            Ok(opts) => Ok(CliCommand::List(opts)),
            Err(e) => Err(e),
        }
    } else if same_str(command, "probe") {
        match read_probe(args, 1) {
            Ok(opts) => Ok(CliCommand::Probe(opts)),
            Err(e) => Err(e),
        }
    } else {
        Err(ArgError::UnknownCommand(str_string(command)))
    }
}

/// Whether a row answers to a probe target: its COM port or its bus id,
/// either ignoring ASCII case.
pub open spec fn answers_to(row: DeviceRow, target: Seq<char>) -> bool {
    (row.com_port_spec() matches Some(p) && ci_eq(p, target)) || (row.bus_id_spec() matches Some(b) && ci_eq(
        b,
        target,
    ))
}

/// The rows that answer to a target, by position.
pub open spec fn answering(rows: Seq<DeviceRow>, target: Seq<char>) -> Seq<int>
    decreases rows.len(),
{
    if rows.len() == 0 {
        Seq::empty()
    } else if answers_to(rows.last(), target) {
        answering(rows.drop_last(), target).push(rows.len() - 1)
    } else {
        answering(rows.drop_last(), target)
    }
}

/// Why no single device was picked.
#[derive(Debug, Clone, PartialEq, Eq)]
pub enum TargetError {
    /// Nothing answers to the target.
    NoMatch,
    /// Several devices do: a COM number can be reused by a device that is not
    /// connected, so this is reported rather than guessed at.
    Several(usize),
}

/// The one device a probe target names, by position in the list.
pub fn find_target(snapshot: &Snapshot, target: &str) -> (r: Result<usize, TargetError>)
    ensures
        ({
            let found = answering(snapshot.devices@, target@);
            &&& found.len() == 0 ==> r == Err::<usize, TargetError>(TargetError::NoMatch)
            &&& found.len() == 1 ==> r == Ok::<usize, TargetError>(found[0] as usize)
            &&& found.len() > 1 ==> r == Err::<usize, TargetError>(TargetError::Several(found.len() as usize))
        }),
{
    let ghost rows = snapshot.devices@;
    let n = snapshot.devices.len();
    let mut count: usize = 0;
    let mut first: usize = 0;
    let mut i: usize = 0;
    while i < n
        invariant
            n == rows.len(),
            rows == snapshot.devices@,
            i <= n,
            count == answering(rows.take(i as int), target@).len(),
            count <= i,
            count > 0 ==> first == answering(rows.take(i as int), target@)[0],
        decreases n - i,
    {
        assert(rows.take(i as int + 1).drop_last() == rows.take(i as int));
        let row = &snapshot.devices[i];
        let by_port = match row.com_port() {
            Some(p) => eq_ignore_case(p, target),
            None => false,
        };
        let by_bus = match row.bus_id() {
            Some(b) => eq_ignore_case(b, target),
            None => false,
        };
        if by_port || by_bus {
            if count == 0 {
                first = i;
            }
            count = count + 1;
        }
        i = i + 1;
    }
    assert(rows.take(n as int) == rows);
    if count == 0 {
        Err(TargetError::NoMatch)
    } else if count == 1 {
        Ok(first)
    } else {
        Err(TargetError::Several(count))
    }
}

/// Whether an answer to "run it? [y/N]" is a yes: `y`, `Y` or `yes`, with
/// surrounding whitespace ignored. Anything else, an empty line included, is
/// a no.
pub fn is_yes(answer: &str) -> (r: bool)
    ensures
        r == (trim(answer@) == "y"@ || trim(answer@) == "Y"@ || trim(answer@) == "yes"@),
{
    let t = trim_str(answer);
    same_str(t.as_str(), "y") || same_str(t.as_str(), "Y") || same_str(t.as_str(), "yes")
}

/// Whether a probe run that identified nothing ends quietly: every probe on
/// offer was declined and none ran. Declining is a choice, not a failure.
pub fn declined_only(attempted: usize, declined: usize) -> (r: bool)
    ensures
        r == (attempted == 0 && declined > 0),
{
    attempted == 0 && declined > 0
}

} // verus!
