//! Per-port power switching, through `vhfilter`.
//!
//! **This module records intent, not observation.** Nothing on Windows reports
//! whether a hub port has power, so what is held here is "this application
//! switched that port off", which is a different claim and must be shown as
//! one. The record lives as long as the process, and is dropped for a hub that
//! stops being enumerated: unplugging a hub resets its ports to powered.
//!
//! Running `vhfilter` is the caller's business; what its answers mean, and
//! what is recorded of them, is decided here.
use vstd::prelude::*;

use crate::disk::is_file;

use crate::text::{
    chars_of, is_ws, is_ws_char, lower_seq, lower_vec, parse_dec_u32, parse_dec_u32_vec, same_chars,
    same_str, seq_lt, compare_chars, lemma_seq_lt_total, lemma_seq_lt_transitive,
    lemma_seq_lt_irreflexive, lemma_seq_lt_asymmetric, split_seq, split_vec, starts_with, string_of, trim, trim_vec, upper_seq,
    upper_vec, str_string, trim_str, push_str, u32_string, dec_text,
};

verus! {

/// A hub `vhfilter` says can switch its ports' power.
#[derive(Debug, Clone, PartialEq, Eq)]
pub struct PppsHub {
    /// The device instance id, also the join key with everything else.
    pub instance_id: String,
    pub ports: u32,
}

/// What we asked a port to do. Absent means "never touched by us", which is
/// not the same as "on".
#[derive(Debug, Clone, Copy, PartialEq, Eq, Structural)]
pub enum PortPower {
    /// Switched off by this application, this session.
    SwitchedOff,
    /// Switched on by this application, this session.
    SwitchedOn,
}

/// How `vhfilter.exe` was arrived at.
#[derive(Debug, Clone, Copy, PartialEq, Eq, Structural)]
pub enum FoundHow {
    /// At the path the user gave.
    Configured,
    /// In one of the folders searched.
    Searched,
}

// ---------------------------------------------------------------------------
// Reading `--list-hubs`
// ---------------------------------------------------------------------------

/// `str::split_whitespace`, as the words finished so far and the one being
/// read.
pub open spec fn words_acc(s: Seq<char>) -> (Seq<Seq<char>>, Seq<char>)
    decreases s.len(),
{
    if s.len() == 0 {
        (Seq::empty(), Seq::empty())
    } else {
        let (done, cur) = words_acc(s.drop_last());
        if is_ws(s.last()) {
            if cur.len() > 0 {
                (done.push(cur), Seq::empty())
            } else {
                (done, Seq::empty())
            }
        } else {
            (done, cur.push(s.last()))
        }
    }
}

/// `str::split_whitespace`: the runs of non-whitespace, in order.
pub open spec fn words(s: Seq<char>) -> Seq<Seq<char>> {
    let (done, cur) = words_acc(s);
    if cur.len() > 0 {
        done.push(cur)
    } else {
        done
    }
}

/// The position of the first whitespace character.
pub open spec fn first_ws(s: Seq<char>) -> Option<int>
    decreases s.len(),
{
    if s.len() == 0 {
        None
    } else if is_ws(s[0]) {
        Some(0)
    } else {
        match first_ws(s.drop_first()) {
            Some(i) => Some(i + 1),
            None => None,
        }
    }
}

/// The word after the first `has`.
pub open spec fn after_has(ws: Seq<Seq<char>>) -> Option<Seq<char>>
    decreases ws.len(),
{
    if ws.len() == 0 {
        None
    } else if ws[0] == seq!['h', 'a', 's'] {
        if ws.len() > 1 {
            Some(ws[1])
        } else {
            None
        }
    } else {
        after_has(ws.drop_first())
    }
}

/// What one line of `--list-hubs` says: a hub's instance id and its port
/// count, when the line starts with a USB instance id and a count follows
/// `has`.
pub open spec fn hub_line(line: Seq<char>) -> Option<(Seq<char>, u32)> {
    let t = trim(line);
    match first_ws(t) {
        None => None,
        Some(i) => {
            let id = t.take(i);
            let rest = t.skip(i + 1);
            if !starts_with(upper_seq(id), seq!['U', 'S', 'B', '\\']) {
                None
            } else {
                match after_has(words(rest)) {
                    None => None,
                    Some(w) => match parse_dec_u32(w) {
                        Some(n) => Some((id, n)),
                        None => None,
                    },
                }
            }
        },
    }
}

/// The hubs a whole answer lists, in order.
pub open spec fn hub_lines(lines: Seq<Seq<char>>) -> Seq<(Seq<char>, u32)>
    decreases lines.len(),
{
    if lines.len() == 0 {
        Seq::empty()
    } else {
        match hub_line(lines.last()) {
            Some(h) => hub_lines(lines.drop_last()).push(h),
            None => hub_lines(lines.drop_last()),
        }
    }
}

pub open spec fn hub_views(hubs: Seq<PppsHub>) -> Seq<(Seq<char>, u32)> {
    hubs.map_values(|h: PppsHub| (h.instance_id@, h.ports))
}

/// `str::split_whitespace` on characters.
pub fn words_of(s: &Vec<char>) -> (r: Vec<Vec<char>>)
    ensures
        r@.len() == words(s@).len(),
        forall|k: int| 0 <= k < r@.len() ==> #[trigger] r@[k]@ == words(s@)[k],
{
    let mut done: Vec<Vec<char>> = Vec::new();
    let mut cur: Vec<char> = Vec::new();
    let n = s.len();
    let mut i: usize = 0;
    while i < n
        invariant
            n == s@.len(),
            i <= n,
            done@.len() == words_acc(s@.take(i as int)).0.len(),
            forall|k: int| 0 <= k < done@.len() ==> #[trigger] done@[k]@ == words_acc(s@.take(i as int)).0[k],
            cur@ == words_acc(s@.take(i as int)).1,
        decreases n - i,
    {
        assert(s@.take(i as int + 1).drop_last() == s@.take(i as int));
        let c = s[i];
        if is_ws_char(c) {
            if cur.len() > 0 {
                let w = cur;
                done.push(w);
                cur = Vec::new();
            } else {
                cur = Vec::new();
            }
        } else {
            cur.push(c);
        }
        i = i + 1;
    }
    assert(s@.take(n as int) == s@);
    if cur.len() > 0 {
        done.push(cur);
    }
    done
}

fn first_ws_of(s: &Vec<char>) -> (r: Option<usize>)
    ensures
        match r {
            Some(i) => first_ws(s@) == Some(i as int) && i < s@.len(),
            None => first_ws(s@).is_none(),
        },
{
    let n = s.len();
    let mut i: usize = 0;
    assert(s@.skip(0) == s@);
    while i < n
        invariant
            n == s@.len(),
            i <= n,
            first_ws(s@) == match first_ws(s@.skip(i as int)) {
                Some(j) => Some(j + i),
                None => None,
            },
        decreases n - i,
    {
        assert(s@.skip(i as int)[0] == s@[i as int]);
        if is_ws_char(s[i]) {
            return Some(i);
        }
        assert(s@.skip(i as int).drop_first() == s@.skip(i as int + 1));
        i = i + 1;
    }
    assert(s@.skip(n as int).len() == 0);
    None
}

fn word_after_has(ws: &Vec<Vec<char>>) -> (r: Option<&Vec<char>>)
    ensures
        match r {
            Some(w) => after_has(ws@.map_values(|v: Vec<char>| v@)) == Some(w@),
            None => after_has(ws@.map_values(|v: Vec<char>| v@)).is_none(),
        },
{
    let ghost vs = ws@.map_values(|v: Vec<char>| v@);
    let has: Vec<char> = vec!['h', 'a', 's'];
    assert(has@ =~= seq!['h', 'a', 's']);
    let n = ws.len();
    let mut i: usize = 0;
    assert(vs.skip(0) == vs);
    while i < n
        invariant
            n == ws@.len(),
            vs == ws@.map_values(|v: Vec<char>| v@),
            has@ == seq!['h', 'a', 's'],
            i <= n,
            after_has(vs) == after_has(vs.skip(i as int)),
        decreases n - i,
    {
        assert(vs.skip(i as int)[0] == ws@[i as int]@);
        if same_chars(&ws[i], &has) {
            if i + 1 < n {
                assert(vs.skip(i as int)[1] == ws@[i + 1]@);
                return Some(&ws[i + 1]);
            }
            return None;
        }
        assert(vs.skip(i as int).drop_first() == vs.skip(i as int + 1));
        i = i + 1;
    }
    assert(vs.skip(n as int).len() == 0);
    None
}

fn hub_of_line(line: &Vec<char>) -> (r: Option<PppsHub>)
    ensures
        match r {
            Some(h) => hub_line(line@) == Some((h.instance_id@, h.ports)),
            None => hub_line(line@).is_none(),
        },
{
    let t = trim_vec(line);
    let i = match first_ws_of(&t) {
        Some(i) => i,
        None => return None,
    };
    let tn = t.len();
    let mut id: Vec<char> = Vec::new();
    let mut k: usize = 0;
    while k < i
        invariant
            k <= i,
            tn == t@.len(),
            i < tn,
            id@ == t@.take(k as int),
        decreases i - k,
    {
        id.push(t[k]);
        assert(t@.take(k as int + 1) == t@.take(k as int).push(t@[k as int]));
        k = k + 1;
    }
    let mut rest: Vec<char> = Vec::new();
    let mut k: usize = i + 1;
    while k < t.len()
        invariant
            i + 1 <= k <= t@.len(),
            rest@ == t@.subrange(i + 1, k as int),
        decreases t@.len() - k,
    {
        rest.push(t[k]);
        assert(t@.subrange(i + 1, k as int + 1) == t@.subrange(i + 1, k as int).push(t@[k as int]));
        k = k + 1;
    }
    assert(rest@ == t@.skip(i + 1));
    let upper = upper_vec(&id);
    let usb: Vec<char> = vec!['U', 'S', 'B', '\\'];
    assert(usb@ =~= seq!['U', 'S', 'B', '\\']);
    let prefixed = upper.len() >= 4 && upper[0] == 'U' && upper[1] == 'S' && upper[2] == 'B' && upper[3] == '\\';
    assert(prefixed == starts_with(upper_seq(id@), seq!['U', 'S', 'B', '\\'])) by {
        if upper@.len() >= 4 {
            if prefixed {
                assert(upper@.take(4) =~= seq!['U', 'S', 'B', '\\']);
            } else {
                assert(upper@.take(4)[0] == upper@[0]);
                assert(upper@.take(4)[1] == upper@[1]);
                assert(upper@.take(4)[2] == upper@[2]);
                assert(upper@.take(4)[3] == upper@[3]);
            }
        }
    }
    if !prefixed {
        return None;
    }
    let ws = words_of(&rest);
    assert(ws@.map_values(|v: Vec<char>| v@) =~= words(rest@));
    match word_after_has(&ws) {
        None => None,
        Some(w) => match parse_dec_u32_vec(w) {
            Some(n) => Some(PppsHub { instance_id: string_of(&id), ports: n }),
            None => None,
        },
    }
}

/// Reads `--list-hubs` output: one line per hub, such as
/// `USB\VID_1A86&PID_8094\5&829319&0&2  has  4 ports  is USB 2 ...`.
///
/// Only the instance id and the port count are taken. An answer with no hub
/// is an empty list, not an error.
pub fn parse_hubs(text: &str) -> (r: Vec<PppsHub>)
    ensures
        hub_views(r@) == hub_lines(split_seq(text@, '\n')),
{
    let chars = chars_of(text);
    let lines = split_vec(&chars, '\n');
    let ghost ls = split_seq(text@, '\n');
    let mut out: Vec<PppsHub> = Vec::new();
    let n = lines.len();
    let mut i: usize = 0;
    while i < n
        invariant
            n == lines@.len(),
            n == ls.len(),
            forall|k: int| 0 <= k < n ==> (#[trigger] lines@[k])@ == ls[k],
            i <= n,
            hub_views(out@) == hub_lines(ls.take(i as int)),
        decreases n - i,
    {
        assert(ls.take(i as int + 1).drop_last() == ls.take(i as int));
        match hub_of_line(&lines[i]) {
            Some(h) => {
                let ghost before = out@;
                out.push(h);
                assert(hub_views(out@) =~= hub_views(before).push((h.instance_id@, h.ports)));
            },
            None => {},
        }
        i = i + 1;
    }
    assert(ls.take(n as int) == ls);
    out
}

// ---------------------------------------------------------------------------
// What was switched
// ---------------------------------------------------------------------------

/// The first entry in `ports` on `port`.
pub open spec fn find_port(ports: Seq<(u32, PortPower)>, port: u32) -> Option<int>
    decreases ports.len(),
{
    if ports.len() == 0 {
        None
    } else {
        match find_port(ports.drop_last(), port) {
            Some(j) => Some(j),
            None => if ports.last().0 == port {
                Some(ports.len() - 1)
            } else {
                None
            },
        }
    }
}

/// The first entry on hub `hub`.
pub open spec fn find_hub(hubs: Seq<(Seq<char>, Seq<(u32, PortPower)>)>, hub: Seq<char>) -> Option<int>
    decreases hubs.len(),
{
    if hubs.len() == 0 {
        None
    } else {
        match find_hub(hubs.drop_last(), hub) {
            Some(j) => Some(j),
            None => if hubs.last().0 == hub {
                Some(hubs.len() - 1)
            } else {
                None
            },
        }
    }
}

/// What was last asked of a port, if anything.
pub open spec fn power_in(hubs: Seq<(Seq<char>, Seq<(u32, PortPower)>)>, hub: Seq<char>, port: u32) -> Option<PortPower> {
    match find_hub(hubs, hub) {
        Some(i) => match find_port(hubs[i].1, port) {
            Some(j) => Some(hubs[i].1[j].1),
            None => None,
        },
        None => None,
    }
}

proof fn lemma_find_port(ports: Seq<(u32, PortPower)>, port: u32)
    ensures
        match find_port(ports, port) {
            Some(j) => 0 <= j < ports.len() && ports[j].0 == port && forall|k: int|
                0 <= k < j ==> (#[trigger] ports[k]).0 != port,
            None => forall|k: int| 0 <= k < ports.len() ==> (#[trigger] ports[k]).0 != port,
        },
    decreases ports.len(),
{
    if ports.len() > 0 {
        lemma_find_port(ports.drop_last(), port);
        assert forall|k: int| 0 <= k < ports.len() - 1 implies #[trigger] ports[k] == ports.drop_last()[k] by {}
    }
}

proof fn lemma_find_hub(hubs: Seq<(Seq<char>, Seq<(u32, PortPower)>)>, hub: Seq<char>)
    ensures
        match find_hub(hubs, hub) {
            Some(j) => 0 <= j < hubs.len() && hubs[j].0 == hub && forall|k: int|
                0 <= k < j ==> (#[trigger] hubs[k]).0 != hub,
            None => forall|k: int| 0 <= k < hubs.len() ==> (#[trigger] hubs[k]).0 != hub,
        },
    decreases hubs.len(),
{
    if hubs.len() > 0 {
        lemma_find_hub(hubs.drop_last(), hub);
        assert forall|k: int| 0 <= k < hubs.len() - 1 implies #[trigger] hubs[k] == hubs.drop_last()[k] by {}
    }
}

/// Whether a hub's entry names each port once.
pub open spec fn ports_distinct(ports: Seq<(u32, PortPower)>) -> bool {
    forall|a: int, b: int| 0 <= a < b < ports.len() ==> (#[trigger] ports[a]).0 != (#[trigger] ports[b]).0
}

pub open spec fn entries_of(v: Seq<(String, Vec<(u32, PortPower)>)>) -> Seq<(Seq<char>, Seq<(u32, PortPower)>)> {
    v.map_values(|e: (String, Vec<(u32, PortPower)>)| (e.0@, e.1@))
}

/// What this application asked of the ports it switched, this session.
pub struct SwitchRecord {
    hubs: Vec<(String, Vec<(u32, PortPower)>)>,
}

impl SwitchRecord {
    /// The entries: each hub with what was asked of its ports.
    pub closed spec fn entries(&self) -> Seq<(Seq<char>, Seq<(u32, PortPower)>)> {
        entries_of(self.hubs@)
    }

    /// What was last asked of a port, if anything.
    pub open spec fn power(&self, hub: Seq<char>, port: u32) -> Option<PortPower> {
        power_in(self.entries(), hub, port)
    }

    /// Each hub, and each port of a hub, appears once.
    pub closed spec fn well_formed(&self) -> bool {
        &&& forall|a: int, b: int|
            0 <= a < b < self.entries().len() ==> (#[trigger] self.entries()[a]).0 != (#[trigger] self.entries()[b]).0
        &&& forall|a: int| 0 <= a < self.entries().len() ==> ports_distinct(#[trigger] self.entries()[a].1)
    }

    /// Nothing switched yet.
    pub fn new() -> (r: Self)
        ensures
            r.well_formed(),
            r.entries().len() == 0,
            forall|h: Seq<char>, p: u32| r.power(h, p).is_none(),
    {
        let r = SwitchRecord { hubs: Vec::new() };
        assert(r.entries() =~= Seq::<(Seq<char>, Seq<(u32, PortPower)>)>::empty());
        r
    }

    /// What this application last asked of a port, if anything.
    pub fn recorded(&self, hub_instance_id: &str, port: u32) -> (r: Option<PortPower>)
        ensures
            r == self.power(hub_instance_id@, port),
    {
        let ghost es = self.entries();
        proof {
            lemma_find_hub(es, hub_instance_id@);
        }
        let n = self.hubs.len();
        let mut i: usize = 0;
        while i < n
            invariant
                n == es.len(),
                es == self.entries(),
                i <= n,
                forall|k: int| 0 <= k < i ==> (#[trigger] es[k]).0 != hub_instance_id@,
                match find_hub(es, hub_instance_id@) {
                    Some(j) => 0 <= j < es.len() && es[j].0 == hub_instance_id@ && forall|k: int|
                        0 <= k < j ==> (#[trigger] es[k]).0 != hub_instance_id@,
                    None => forall|k: int| 0 <= k < es.len() ==> (#[trigger] es[k]).0 != hub_instance_id@,
                },
            decreases n - i,
        {
            let entry = &self.hubs[i];
            assert(es[i as int] == (entry.0@, entry.1@));
            if same_str(entry.0.as_str(), hub_instance_id) {
                assert(find_hub(es, hub_instance_id@) == Some(i as int));
                let ports = &entry.1;
                proof {
                    lemma_find_port(ports@, port);
                }
                let m = ports.len();
                let mut j: usize = 0;
                while j < m
                    invariant
                        m == ports@.len(),
                        j <= m,
                        es == self.entries(),
                        find_hub(es, hub_instance_id@) == Some(i as int),
                        es[i as int].1 == ports@,
                        forall|k: int| 0 <= k < j ==> (#[trigger] ports@[k]).0 != port,
                        match find_port(ports@, port) {
                            Some(x) => 0 <= x < ports@.len() && ports@[x].0 == port && forall|k: int|
                                0 <= k < x ==> (#[trigger] ports@[k]).0 != port,
                            None => forall|k: int| 0 <= k < ports@.len() ==> (#[trigger] ports@[k]).0 != port,
                        },
                    decreases m - j,
                {
                    if ports[j].0 == port {
                        assert(find_port(ports@, port) == Some(j as int));
                        return Some(ports[j].1);
                    }
                    j = j + 1;
                }
                return None;
            }
            i = i + 1;
        }
        None
    }

    /// Every port of a hub this application has switched off and not
    /// switched back, in ascending order.
    pub fn switched_off(&self, hub_instance_id: &str) -> (r: Vec<u32>)
        ensures
            forall|a: int, b: int| 0 <= a < b < r@.len() ==> r@[a] < r@[b],
            forall|p: u32| r@.contains(p) <==> self.power(hub_instance_id@, p) == Some(PortPower::SwitchedOff),
    {
        proof {
            use_type_invariant(self);
        }
        let ghost es = self.entries();
        proof {
            lemma_find_hub(es, hub_instance_id@);
        }
        let n = self.hubs.len();
        let mut i: usize = 0;
        while i < n
            invariant
                n == es.len(),
                es == self.entries(),
                self.well_formed(),
                i <= n,
                forall|k: int| 0 <= k < i ==> (#[trigger] es[k]).0 != hub_instance_id@,
                match find_hub(es, hub_instance_id@) {
                    Some(j) => 0 <= j < es.len() && es[j].0 == hub_instance_id@ && forall|k: int|
                        0 <= k < j ==> (#[trigger] es[k]).0 != hub_instance_id@,
                    None => forall|k: int| 0 <= k < es.len() ==> (#[trigger] es[k]).0 != hub_instance_id@,
                },
            decreases n - i,
        {
            let entry = &self.hubs[i];
            assert(es[i as int] == (entry.0@, entry.1@));
            if same_str(entry.0.as_str(), hub_instance_id) {
                assert(find_hub(es, hub_instance_id@) == Some(i as int));
                let ports = &entry.1;
                assert(ports_distinct(ports@));
                let mut out: Vec<u32> = Vec::new();
                let m = ports.len();
                let mut j: usize = 0;
                while j < m
                    invariant
                        m == ports@.len(),
                        ports_distinct(ports@),
                        j <= m,
                        forall|a: int, b: int| 0 <= a < b < out@.len() ==> out@[a] < out@[b],
                        forall|p: u32| out@.contains(p) <==> exists|k: int|
                            0 <= k < j && (#[trigger] ports@[k]).0 == p && ports@[k].1 == PortPower::SwitchedOff,
                    decreases m - j,
                {
                    let (p, state) = ports[j];
                    if state == PortPower::SwitchedOff {
                        proof {
                            assert(!out@.contains(p)) by {
                                if out@.contains(p) {
                                    let k = choose|k: int| 0 <= k < j && (#[trigger] ports@[k]).0 == p && ports@[k].1 == PortPower::SwitchedOff;
                                    assert(ports@[k].0 != ports@[j as int].0);
                                }
                            }
                        }
                        let len = out.len();
                        let mut at: usize = 0;
                        while at < len && out[at] < p
                            invariant
                                at <= len,
                                len == out@.len(),
                                forall|a: int| 0 <= a < at ==> out@[a] < p,
                            decreases len - at,
                        {
                            at = at + 1;
                        }
                        let ghost before = out@;
                        proof {
                            assert forall|a: int| at <= a < len implies p < before[a] by {
                                assert(before[a] != p);
                                if a > at {
                                    assert(before[at as int] < before[a]);
                                }
                            }
                        }
                        out.insert(at, p);
                        proof {
                            assert forall|a: int, b: int| 0 <= a < b < out@.len() implies out@[a] < out@[b] by {
                                if a < at && b < at {
                                } else if a < at && b == at {
                                } else if a < at {
                                    assert(out@[b] == before[b - 1]);
                                } else if a == at {
                                    assert(out@[b] == before[b - 1]);
                                } else {
                                    assert(out@[a] == before[a - 1]);
                                    assert(out@[b] == before[b - 1]);
                                }
                            }
                            assert forall|q: u32| out@.contains(q) <==> exists|k: int|
                                0 <= k < j + 1 && (#[trigger] ports@[k]).0 == q && ports@[k].1 == PortPower::SwitchedOff by {
                                if out@.contains(q) {
                                    let x = choose|x: int| 0 <= x < out@.len() && out@[x] == q;
                                    if x != at {
                                        let y = if x < at { x } else { x - 1 };
                                        assert(before[y] == q);
                                        assert(before.contains(q));
                                    }
                                }
                                if exists|k: int| 0 <= k < j + 1 && (#[trigger] ports@[k]).0 == q && ports@[k].1 == PortPower::SwitchedOff {
                                    let k = choose|k: int| 0 <= k < j + 1 && (#[trigger] ports@[k]).0 == q && ports@[k].1 == PortPower::SwitchedOff;
                                    if k == j {
                                        assert(out@[at as int] == q);
                                    } else {
                                        assert(before.contains(q));
                                        let x = choose|x: int| 0 <= x < before.len() && before[x] == q;
                                        if x < at {
                                            assert(out@[x] == q);
                                        } else {
                                            assert(out@[x + 1] == q);
                                        }
                                    }
                                }
                            }
                        }
                    }
                    j = j + 1;
                }
                proof {
                    lemma_find_port(ports@, 0);
                    assert forall|p: u32| out@.contains(p) <==> self.power(hub_instance_id@, p) == Some(PortPower::SwitchedOff) by {
                        lemma_find_port(ports@, p);
                        if out@.contains(p) {
                            let k = choose|k: int| 0 <= k < m && (#[trigger] ports@[k]).0 == p && ports@[k].1 == PortPower::SwitchedOff;
                            let f = find_port(ports@, p).unwrap();
                            if f != k {
                                if f < k {
                                    assert(ports@[f].0 != ports@[k].0);
                                }
                            }
                        }
                        if self.power(hub_instance_id@, p) == Some(PortPower::SwitchedOff) {
                            let f = find_port(ports@, p).unwrap();
                            assert(ports@[f].0 == p && ports@[f].1 == PortPower::SwitchedOff);
                        }
                    }
                }
                return out;
            }
            i = i + 1;
        }
        let out: Vec<u32> = Vec::new();
        proof {
            assert forall|p: u32| out@.contains(p) <==> self.power(hub_instance_id@, p) == Some(PortPower::SwitchedOff) by {}
        }
        out
    }

    #[verifier::type_invariant]
    closed spec fn record_holds_together(&self) -> bool {
        self.well_formed()
    }
}

proof fn lemma_find_hub_names(
    es: Seq<(Seq<char>, Seq<(u32, PortPower)>)>,
    fs: Seq<(Seq<char>, Seq<(u32, PortPower)>)>,
    h: Seq<char>,
)
    requires
        es.len() == fs.len(),
        forall|k: int| 0 <= k < es.len() ==> (#[trigger] es[k]).0 == fs[k].0,
    ensures
        find_hub(es, h) == find_hub(fs, h),
    decreases es.len(),
{
    if es.len() > 0 {
        assert forall|k: int| 0 <= k < es.len() - 1 implies (#[trigger] es.drop_last()[k]).0 == fs.drop_last()[k].0 by {
            assert(es.drop_last()[k] == es[k]);
            assert(fs.drop_last()[k] == fs[k]);
        }
        lemma_find_hub_names(es.drop_last(), fs.drop_last(), h);
    }
}

proof fn lemma_find_port_keys(ps: Seq<(u32, PortPower)>, qs: Seq<(u32, PortPower)>, p: u32)
    requires
        ps.len() == qs.len(),
        forall|k: int| 0 <= k < ps.len() ==> (#[trigger] ps[k]).0 == qs[k].0,
    ensures
        find_port(ps, p) == find_port(qs, p),
    decreases ps.len(),
{
    if ps.len() > 0 {
        assert forall|k: int| 0 <= k < ps.len() - 1 implies (#[trigger] ps.drop_last()[k]).0 == qs.drop_last()[k].0 by {
            assert(ps.drop_last()[k] == ps[k]);
            assert(qs.drop_last()[k] == qs[k]);
        }
        lemma_find_port_keys(ps.drop_last(), qs.drop_last(), p);
    }
}

/// The entries on hubs in `present`, in order.
pub open spec fn kept(es: Seq<(Seq<char>, Seq<(u32, PortPower)>)>, present: Seq<Seq<char>>) -> Seq<(Seq<char>, Seq<(u32, PortPower)>)>
    decreases es.len(),
{
    if es.len() == 0 {
        Seq::empty()
    } else if present.contains(es.last().0) {
        kept(es.drop_last(), present).push(es.last())
    } else {
        kept(es.drop_last(), present)
    }
}

proof fn lemma_kept(es: Seq<(Seq<char>, Seq<(u32, PortPower)>)>, present: Seq<Seq<char>>, h: Seq<char>)
    ensures
        kept(es, present).len() <= es.len(),
        find_hub(kept(es, present), h) == (if present.contains(h) {
            match find_hub(es, h) {
                Some(i) => Some(kept(es.take(i), present).len() as int),
                None => None,
            }
        } else {
            None
        }),
        match find_hub(es, h) {
            Some(i) => present.contains(h) ==> kept(es.take(i), present).len() < kept(es, present).len()
                && kept(es, present)[kept(es.take(i), present).len() as int] == es[i],
            None => true,
        },
        forall|k: int| 0 <= k < kept(es, present).len() ==> present.contains(#[trigger] kept(es, present)[k].0),
    decreases es.len(),
{
    if es.len() > 0 {
        let init = es.drop_last();
        let last = es.last();
        lemma_kept(init, present, h);
        lemma_find_hub(init, h);
        assert(es.take(es.len() - 1) =~= init);
        let ki = kept(init, present);
        let ke = kept(es, present);
        if present.contains(last.0) {
            assert(ke == ki.push(last));
            assert(ke.drop_last() == ki);
            assert forall|k: int| 0 <= k < ke.len() implies present.contains(#[trigger] ke[k].0) by {
                if k < ki.len() {
                    assert(ke[k] == ki[k]);
                }
            }
        } else {
            assert(ke == ki);
        }
        match find_hub(init, h) {
            Some(i) => {
                assert(init.take(i) =~= es.take(i));
                assert(find_hub(es, h) == Some(i));
                if present.contains(h) {
                    lemma_find_hub(ki, h);
                    if present.contains(last.0) {
                        assert(ke[kept(es.take(i), present).len() as int] == ki[kept(es.take(i), present).len() as int]);
                    }
                }
            },
            None => {
                if last.0 == h {
                    assert(find_hub(es, h) == Some(es.len() - 1));
                    if present.contains(h) {
                        assert(find_hub(ki, h).is_none());
                        assert(find_hub(ke, h) == Some(ki.len() as int));
                    }
                } else {
                    assert(find_hub(es, h).is_none());
                    if present.contains(last.0) {
                        assert(find_hub(ke, h) == find_hub(ki, h));
                    }
                }
            },
        }
    }
}

impl SwitchRecord {
    /// Records what was asked of a port. Called once `vhfilter` reported
    /// success, so a refused switch leaves the record as it was.
    pub fn record(&mut self, hub_instance_id: &str, port: u32, on: bool)
        ensures
            final(self).power(hub_instance_id@, port) == Some(if on {
                PortPower::SwitchedOn
            } else {
                PortPower::SwitchedOff
            }),
            forall|h: Seq<char>, p: u32|
                !(h == hub_instance_id@ && p == port) ==> #[trigger] final(self).power(h, p) == old(self).power(h, p),
    {
        proof {
            use_type_invariant(&*self);
        }
        let state = if on {
            PortPower::SwitchedOn
        } else {
            PortPower::SwitchedOff
        };
        let ghost es = self.entries();
        proof {
            lemma_find_hub(es, hub_instance_id@);
        }
        let ghost names_distinct = forall|a: int, b: int| 0 <= a < b < es.len() ==> (#[trigger] es[a]).0 != (#[trigger] es[b]).0;
        let ghost each_distinct = forall|a: int| 0 <= a < es.len() ==> ports_distinct(#[trigger] es[a].1);
        assert(names_distinct && each_distinct);
        let mut hubs: Vec<(String, Vec<(u32, PortPower)>)> = Vec::new();
        std::mem::swap(&mut hubs, &mut self.hubs);
        assert(entries_of(hubs@) == es);
        let n = hubs.len();
        let mut i: usize = 0;
        let mut found: Option<usize> = None;
        while i < n && found.is_none()
            invariant
                n == es.len(),
                n == hubs@.len(),
                entries_of(hubs@) == es,
                i <= n,
                match found {
                    Some(j) => find_hub(es, hub_instance_id@) == Some(j as int),
                    None => forall|k: int| 0 <= k < i ==> (#[trigger] es[k]).0 != hub_instance_id@,
                },
                match find_hub(es, hub_instance_id@) {
                    Some(j) => 0 <= j < es.len() && es[j].0 == hub_instance_id@ && forall|k: int|
                        0 <= k < j ==> (#[trigger] es[k]).0 != hub_instance_id@,
                    None => forall|k: int| 0 <= k < es.len() ==> (#[trigger] es[k]).0 != hub_instance_id@,
                },
            decreases n - i + (if found.is_none() { 1int } else { 0int }),
        {
            assert(es[i as int] == (hubs@[i as int].0@, hubs@[i as int].1@));
            if same_str(hubs[i].0.as_str(), hub_instance_id) {
                found = Some(i);
            } else {
                i = i + 1;
            }
        }
        match found {
            Some(at) => {
                let mut entry = hubs.remove(at);
                let ghost ports = entry.1@;
                proof {
                    lemma_find_port(ports, port);
                    assert(es[at as int] == (entry.0@, ports));
                    assert(ports_distinct(es[at as int].1));
                }
                let m = entry.1.len();
                let mut j: usize = 0;
                let mut slot: Option<usize> = None;
                while j < m && slot.is_none()
                    invariant
                        m == ports.len(),
                        entry.1@ == ports,
                        j <= m,
                        match slot {
                            Some(x) => find_port(ports, port) == Some(x as int),
                            None => forall|k: int| 0 <= k < j ==> (#[trigger] ports[k]).0 != port,
                        },
                        match find_port(ports, port) {
                            Some(x) => 0 <= x < ports.len() && ports[x].0 == port && forall|k: int|
                                0 <= k < x ==> (#[trigger] ports[k]).0 != port,
                            None => forall|k: int| 0 <= k < ports.len() ==> (#[trigger] ports[k]).0 != port,
                        },
                    decreases m - j + (if slot.is_none() { 1int } else { 0int }),
                {
                    if entry.1[j].0 == port {
                        slot = Some(j);
                    } else {
                        j = j + 1;
                    }
                }
                match slot {
                    Some(x) => {
                        entry.1.set(x, (port, state));
                    },
                    None => {
                        entry.1.push((port, state));
                    },
                }
                let ghost new_ports = entry.1@;
                proof {
                    lemma_find_port(new_ports, port);
                    assert forall|a: int, b: int| 0 <= a < b < new_ports.len() implies (#[trigger] new_ports[a]).0 != (#[trigger] new_ports[b]).0 by {
                        if b < ports.len() {
                            assert(new_ports[a].0 == ports[a].0);
                            assert(new_ports[b].0 == ports[b].0);
                        } else {
                            assert(new_ports[a] == ports[a]);
                        }
                    }
                    match slot {
                        Some(x) => {
                            assert forall|k: int| 0 <= k < ports.len() implies (#[trigger] ports[k]).0 == new_ports[k].0 by {}
                            assert forall|p: u32| #[trigger] find_port(new_ports, p) == find_port(ports, p) by {
                                lemma_find_port_keys(ports, new_ports, p);
                            }
                        },
                        None => {
                            assert(new_ports.drop_last() == ports);
                            assert(find_port(new_ports, port) == Some(ports.len() as int));
                            assert forall|p: u32| p != port implies #[trigger] find_port(new_ports, p) == find_port(ports, p) by {}
                        },
                    }
                    assert(new_ports[find_port(new_ports, port).unwrap()] == (port, state));
                    assert forall|p: u32| p != port && find_port(new_ports, p).is_some() implies #[trigger] new_ports[find_port(new_ports, p).unwrap()] == ports[find_port(ports, p).unwrap()] by {
                        lemma_find_port(ports, p);
                        lemma_find_port(new_ports, p);
                    }
                }
                hubs.insert(at, entry);
                proof {
                    let fs = entries_of(hubs@);
                    assert(fs =~= es.update(at as int, (es[at as int].0, new_ports)));
                    assert forall|k: int| 0 <= k < es.len() implies (#[trigger] es[k]).0 == fs[k].0 by {}
                    assert forall|h: Seq<char>| #[trigger] find_hub(fs, h) == find_hub(es, h) by {
                        lemma_find_hub_names(es, fs, h);
                    }
                    assert(power_in(fs, hub_instance_id@, port) == Some(state));
                    assert forall|h: Seq<char>, p: u32|
                        !(h == hub_instance_id@ && p == port) implies #[trigger] power_in(fs, h, p) == power_in(es, h, p) by {
                        lemma_find_hub(es, h);
                    }
                    assert forall|a: int, b: int| 0 <= a < b < fs.len() implies (#[trigger] fs[a]).0 != (#[trigger] fs[b]).0 by {}
                    assert forall|a: int| 0 <= a < fs.len() implies ports_distinct(#[trigger] fs[a].1) by {
                        if a != at {
                            assert(fs[a] == es[a]);
                        }
                    }
                }
            },
            None => {
                let mut ports: Vec<(u32, PortPower)> = Vec::new();
                ports.push((port, state));
                hubs.push((str_string(hub_instance_id), ports));
                proof {
                    let fs = entries_of(hubs@);
                    assert(fs.drop_last() =~= es);
                    assert(find_hub(fs, hub_instance_id@) == Some(es.len() as int));
                    let ps = fs[es.len() as int].1;
                    assert(ps =~= seq![(port, state)]);
                    assert(ps.drop_last().len() == 0);
                    assert(ps.last() == (port, state));
                    reveal_with_fuel(find_port, 2);
                    assert(find_port(ps, port) == Some(0int));
                    assert(power_in(fs, hub_instance_id@, port) == Some(state));
                    assert forall|h: Seq<char>, p: u32|
                        !(h == hub_instance_id@ && p == port) implies #[trigger] power_in(fs, h, p) == power_in(es, h, p) by {
                        if h != hub_instance_id@ {
                            lemma_find_hub(es, h);
                            assert(find_hub(fs, h) == find_hub(es, h));
                            if let Some(k) = find_hub(es, h) {
                                assert(fs[k] == es[k]);
                            }
                        } else {
                            reveal_with_fuel(find_port, 2);
                            assert(find_port(ps, p).is_none());
                        }
                    }
                    assert forall|a: int, b: int| 0 <= a < b < fs.len() implies (#[trigger] fs[a]).0 != (#[trigger] fs[b]).0 by {
                        if b == es.len() {
                            assert(fs[a] == es[a]);
                        } else {
                            assert(fs[a] == es[a]);
                            assert(fs[b] == es[b]);
                        }
                    }
                    assert forall|a: int| 0 <= a < fs.len() implies ports_distinct(#[trigger] fs[a].1) by {
                        if a < es.len() {
                            assert(fs[a] == es[a]);
                        }
                    }
                }
            },
        }
        self.hubs = hubs;
    }
}

pub open spec fn names_of(v: Seq<String>) -> Seq<Seq<char>> {
    v.map_values(|s: String| s@)
}

fn contains_name(present: &[String], name: &str) -> (r: bool)
    ensures
        r == names_of(present@).contains(name@),
{
    let n = present.len();
    let mut i: usize = 0;
    while i < n
        invariant
            n == present@.len(),
            i <= n,
            forall|k: int| 0 <= k < i ==> (#[trigger] present@[k])@ != name@,
        decreases n - i,
    {
        if same_str(present[i].as_str(), name) {
            assert(names_of(present@)[i as int] == name@);
            return true;
        }
        i = i + 1;
    }
    proof {
        if names_of(present@).contains(name@) {
            let k = choose|k: int| 0 <= k < names_of(present@).len() && names_of(present@)[k] == name@;
            assert(present@[k]@ == name@);
        }
    }
    false
}

/// Whether each hub has one entry at most.
pub open spec fn hubs_distinct(es: Seq<(Seq<char>, Seq<(u32, PortPower)>)>) -> bool {
    forall|a: int, b: int| 0 <= a < b < es.len() ==> (#[trigger] es[a]).0 != (#[trigger] es[b]).0
}

/// How many entries are on hubs not in `present`.
pub open spec fn absent_count(es: Seq<(Seq<char>, Seq<(u32, PortPower)>)>, present: Seq<Seq<char>>) -> nat
    decreases es.len(),
{
    if es.len() == 0 {
        0
    } else if present.contains(es.last().0) {
        absent_count(es.drop_last(), present)
    } else {
        absent_count(es.drop_last(), present) + 1
    }
}

proof fn lemma_absent_count(es: Seq<(Seq<char>, Seq<(u32, PortPower)>)>, present: Seq<Seq<char>>)
    ensures
        kept(es, present).len() + absent_count(es, present) == es.len(),
    decreases es.len(),
{
    if es.len() > 0 {
        lemma_absent_count(es.drop_last(), present);
    }
}

impl SwitchRecord {
    /// Forgets hubs that are no longer enumerated, returning how many.
    ///
    /// Unplugging a hub powers its ports back up, so a record kept across
    /// that would go on saying a live port is dead. Each hub has one entry,
    /// so the count is the number of recorded hubs that are absent.
    pub fn forget_absent(&mut self, present: &[String]) -> (r: usize)
        ensures
            hubs_distinct(old(self).entries()),
            hubs_distinct(final(self).entries()),
            final(self).entries() == kept(old(self).entries(), names_of(present@)),
            r == absent_count(old(self).entries(), names_of(present@)),
            forall|h: Seq<char>, p: u32| #[trigger] final(self).power(h, p) == (if names_of(present@).contains(h) {
                old(self).power(h, p)
            } else {
                None
            }),
    {
        proof {
            use_type_invariant(&*self);
        }
        let ghost es = self.entries();
        let ghost pv = names_of(present@);
        let ghost names_distinct = forall|a: int, b: int| 0 <= a < b < es.len() ==> (#[trigger] es[a]).0 != (#[trigger] es[b]).0;
        let ghost each_distinct = forall|a: int| 0 <= a < es.len() ==> ports_distinct(#[trigger] es[a].1);
        assert(names_distinct && each_distinct);
        let mut hubs: Vec<(String, Vec<(u32, PortPower)>)> = Vec::new();
        std::mem::swap(&mut hubs, &mut self.hubs);
        let n = hubs.len();
        let ghost start = hubs@;
        assert(entries_of(start) == es);
        let mut out: Vec<(String, Vec<(u32, PortPower)>)> = Vec::new();
        let ghost mut src: Seq<int> = Seq::empty();
        let mut i: usize = 0;
        assert(es.take(0) =~= Seq::<(Seq<char>, Seq<(u32, PortPower)>)>::empty());
        while i < n
            invariant
                n == es.len(),
                n == start.len(),
                entries_of(start) == es,
                pv == names_of(present@),
                names_distinct,
                each_distinct,
                names_distinct == forall|a: int, b: int| 0 <= a < b < es.len() ==> (#[trigger] es[a]).0 != (#[trigger] es[b]).0,
                each_distinct == forall|a: int| 0 <= a < es.len() ==> ports_distinct(#[trigger] es[a].1),
                i <= n,
                hubs@ == start.skip(i as int),
                entries_of(out@) == kept(es.take(i as int), pv),
                src.len() == out@.len(),
                forall|k: int| 0 <= k < out@.len() ==> 0 <= #[trigger] src[k] < i && entries_of(out@)[k] == es[src[k]],
                forall|a: int, b: int| 0 <= a < b < out@.len() ==> #[trigger] src[a] < #[trigger] src[b],
            decreases n - i,
        {
            assert(hubs@[0] == start[i as int]);
            let e = hubs.remove(0);
            assert(hubs@ =~= start.skip(i as int + 1));
            assert(es[i as int] == (e.0@, e.1@));
            assert(es.take(i as int + 1).drop_last() =~= es.take(i as int));
            if contains_name(present, e.0.as_str()) {
                let ghost before = out@;
                out.push(e);
                proof {
                    assert(entries_of(out@) =~= entries_of(before).push(es[i as int]));
                    src = src.push(i as int);
                }
            }
            i = i + 1;
        }
        assert(es.take(n as int) =~= es);
        proof {
            lemma_kept(es, pv, Seq::empty());
        }
        let r = n - out.len();
        proof {
            lemma_absent_count(es, pv);
            let fs = entries_of(out@);
            assert forall|a: int, b: int| 0 <= a < b < fs.len() implies (#[trigger] fs[a]).0 != (#[trigger] fs[b]).0 by {
                assert(fs[a] == es[src[a]]);
                assert(fs[b] == es[src[b]]);
            }
            assert forall|a: int| 0 <= a < fs.len() implies ports_distinct(#[trigger] fs[a].1) by {
                assert(fs[a] == es[src[a]]);
            }
            assert forall|h: Seq<char>, p: u32| #[trigger] power_in(fs, h, p) == (if pv.contains(h) {
                power_in(es, h, p)
            } else {
                None
            }) by {
                lemma_kept(es, pv, h);
            }
        }
        self.hubs = out;
        r
    }
}

// ---------------------------------------------------------------------------
// The hub list, re-read only when the hubs present change
// ---------------------------------------------------------------------------

/// Whether `s` is in order, equal neighbours allowed.
pub open spec fn names_sorted(s: Seq<Seq<char>>) -> bool {
    forall|a: int, b: int| 0 <= a < b < s.len() ==> !seq_lt(#[trigger] s[b], #[trigger] s[a])
}

/// The hubs present, each in ASCII lower case.
pub open spec fn lowered(present: Seq<Seq<char>>) -> Seq<Seq<char>> {
    present.map_values(|h: Seq<char>| lower_seq(h))
}

/// Whether `key` is the key for the hubs `present`: their names in ASCII
/// lower case, each as often as it occurs, in order.
pub open spec fn keyed_on(key: Seq<Seq<char>>, present: Seq<Seq<char>>) -> bool {
    names_sorted(key) && key.to_multiset() == lowered(present).to_multiset()
}

/// `a` sorts no later than `b`.
pub open spec fn name_le(a: Seq<char>, b: Seq<char>) -> bool {
    !seq_lt(b, a)
}

/// What the cached answer is keyed on: the hubs present, in ASCII lower case
/// and in order, so neither casing nor enumeration order makes a new key.
pub fn cache_key(present: &[String]) -> (r: Vec<String>)
    ensures
        keyed_on(names_of(r@), names_of(present@)),
{
    broadcast use vstd::seq_lib::group_to_multiset_ensures;

    let ghost names = names_of(present@);
    let n = present.len();
    let mut out: Vec<String> = Vec::new();
    let mut keys: Vec<Vec<char>> = Vec::new();
    let mut i: usize = 0;
    assert(lowered(names.take(0)) =~= Seq::<Seq<char>>::empty());
    assert(names_of(out@) =~= Seq::<Seq<char>>::empty());
    while i < n
        invariant
            n == present@.len(),
            names == names_of(present@),
            i <= n,
            out@.len() == i,
            keys@.len() == i,
            forall|a: int| 0 <= a < i ==> (#[trigger] keys@[a])@ == out@[a]@,
            names_of(out@).to_multiset() == lowered(names.take(i as int)).to_multiset(),
            names_sorted(names_of(out@)),
        decreases n - i,
    {
        let k = lower_vec(&chars_of(present[i].as_str()));
        let mut j: usize = 0;
        while j < i && compare_chars(&k, &keys[j]) != -1
            invariant
                j <= i,
                i == keys@.len(),
                i == out@.len(),
                forall|a: int| 0 <= a < i ==> (#[trigger] keys@[a])@ == out@[a]@,
                forall|a: int| 0 <= a < j ==> !seq_lt(k@, (#[trigger] out@[a])@),
            decreases i - j,
        {
            j = j + 1;
        }
        let ghost before = out@;
        proof {
            assert forall|a: int| j <= a < i implies seq_lt(k@, (#[trigger] before[a])@) by {
                assert(seq_lt(k@, before[j as int]@));
                if a > j {
                    assert(names_of(before)[a] == before[a]@);
                    assert(names_of(before)[j as int] == before[j as int]@);
                    assert(!seq_lt(before[a]@, before[j as int]@));
                    lemma_seq_lt_total(before[a]@, before[j as int]@);
                    if before[a]@ != before[j as int]@ {
                        lemma_seq_lt_transitive(k@, before[j as int]@, before[a]@);
                    }
                }
            }
        }
        let text = string_of(&k);
        out.insert(j, text);
        keys.insert(j, k);
        proof {
            assert forall|a: int, b: int| 0 <= a < b < i + 1 implies !seq_lt(
                #[trigger] names_of(out@)[b],
                #[trigger] names_of(out@)[a],
            ) by {
                if a == j {
                    assert(out@[b] == before[b - 1]);
                    lemma_seq_lt_total(k@, before[b - 1]@);
                    if seq_lt(before[b - 1]@, k@) {
                        lemma_seq_lt_transitive(k@, before[b - 1]@, k@);
                        lemma_seq_lt_irreflexive(k@);
                    }
                } else if b == j {
                    assert(out@[a] == before[a]);
                } else {
                    let oa = if a < j { a } else { a - 1 };
                    let ob = if b < j { b } else { b - 1 };
                    assert(out@[a] == before[oa]);
                    assert(out@[b] == before[ob]);
                    assert(names_of(before)[oa] == before[oa]@);
                    assert(names_of(before)[ob] == before[ob]@);
                }
            }
            assert forall|a: int| 0 <= a < i + 1 implies (#[trigger] keys@[a])@ == out@[a]@ by {
                if a < j {
                } else if a > j {
                }
            }
            assert(names_of(out@) =~= names_of(before).insert(j as int, k@));
            assert(names.take(i as int + 1) =~= names.take(i as int).push(names[i as int]));
            assert(lowered(names.take(i as int + 1)) =~= lowered(names.take(i as int)).push(lower_seq(names[i as int])));
            assert(names[i as int] == present@[i as int]@);
            assert(k@ == lower_seq(names[i as int]));
            vstd::seq_lib::to_multiset_insert(names_of(before), j as int, k@);
            vstd::seq_lib::to_multiset_build(lowered(names.take(i as int)), k@);
            assert(names_of(out@).to_multiset() == names_of(before).to_multiset().insert(k@));
            assert(lowered(names.take(i as int + 1)).to_multiset() == lowered(names.take(i as int)).to_multiset().insert(
                k@,
            ));
        }
        i = i + 1;
    }
    assert(names.take(n as int) =~= names);
    out
}

/// The hub-list cache is keyed on which hubs are present and nothing else:
/// two lists of the same hubs, in any order and any ASCII case, give the
/// same key.
pub proof fn a_hub_key_ignores_case_and_order(
    a: Seq<Seq<char>>,
    b: Seq<Seq<char>>,
    key_a: Seq<Seq<char>>,
    key_b: Seq<Seq<char>>,
)
    requires
        lowered(a).to_multiset() == lowered(b).to_multiset(),
        keyed_on(key_a, a),
        keyed_on(key_b, b),
    ensures
        key_a == key_b,
{
    let leq = |x: Seq<char>, y: Seq<char>| name_le(x, y);
    assert(vstd::relations::total_ordering(leq)) by {
        assert forall|x: Seq<char>| #[trigger] leq(x, x) by {
            lemma_seq_lt_irreflexive(x);
        }
        assert forall|x: Seq<char>, y: Seq<char>| #[trigger] leq(x, y) && #[trigger] leq(y, x) implies x == y by {
            lemma_seq_lt_total(x, y);
        }
        assert forall|x: Seq<char>, y: Seq<char>, z: Seq<char>| #[trigger] leq(x, y) && #[trigger] leq(y, z) implies leq(x, z) by {
            if seq_lt(z, x) {
                lemma_seq_lt_total(x, y);
                lemma_seq_lt_total(y, z);
                if x != y && y != z {
                    lemma_seq_lt_transitive(x, y, z);
                    lemma_seq_lt_asymmetric(x, z);
                } else if x == y {
                    lemma_seq_lt_asymmetric(y, z);
                } else {
                    lemma_seq_lt_asymmetric(x, y);
                }
            }
        }
        assert forall|x: Seq<char>, y: Seq<char>| #[trigger] leq(x, y) || #[trigger] leq(y, x) by {
            lemma_seq_lt_asymmetric(x, y);
        }
    }
    assert(vstd::relations::sorted_by(key_a, leq));
    assert(vstd::relations::sorted_by(key_b, leq));
    vstd::seq_lib::lemma_sorted_unique(key_a, key_b, leq);
}

/// A list kept for the hubs present when it was read answers again exactly
/// when the same hubs are present, in whatever order and ASCII case: it is
/// re-read only when that set changes.
pub proof fn a_kept_listing_answers_while_the_same_hubs_are_present(
    kept_key: Seq<Seq<char>>,
    asked: Seq<Seq<char>>,
    later: Seq<Seq<char>>,
)
    requires
        keyed_on(kept_key, asked),
    ensures
        keyed_on(kept_key, later) == (lowered(asked).to_multiset() == lowered(later).to_multiset()),
{
}

fn copy_hubs(hubs: &Vec<PppsHub>) -> (r: Vec<PppsHub>)
    ensures
        hub_views(r@) == hub_views(hubs@),
{
    let mut out: Vec<PppsHub> = Vec::new();
    let n = hubs.len();
    let mut i: usize = 0;
    while i < n
        invariant
            n == hubs@.len(),
            i <= n,
            hub_views(out@) == hub_views(hubs@.take(i as int)),
        decreases n - i,
    {
        let ghost before = out@;
        out.push(PppsHub { instance_id: hubs[i].instance_id.clone(), ports: hubs[i].ports });
        assert(hubs@.take(i as int + 1) =~= hubs@.take(i as int).push(hubs@[i as int]));
        assert(hub_views(out@) =~= hub_views(before).push((hubs@[i as int].instance_id@, hubs@[i as int].ports)));
        assert(hub_views(hubs@.take(i as int + 1)) =~= hub_views(hubs@.take(i as int)).push((hubs@[i as int].instance_id@, hubs@[i as int].ports)));
        i = i + 1;
    }
    assert(hubs@.take(n as int) =~= hubs@);
    out
}

fn same_names(a: &Vec<String>, b: &Vec<String>) -> (r: bool)
    ensures
        r == (names_of(a@) == names_of(b@)),
{
    if a.len() != b.len() {
        proof {
            assert(names_of(a@).len() != names_of(b@).len());
        }
        return false;
    }
    let n = a.len();
    let mut i: usize = 0;
    while i < n
        invariant
            n == a@.len(),
            n == b@.len(),
            i <= n,
            forall|k: int| 0 <= k < i ==> (#[trigger] a@[k])@ == b@[k]@,
        decreases n - i,
    {
        if !same_str(a[i].as_str(), b[i].as_str()) {
            proof {
                assert(names_of(a@)[i as int] != names_of(b@)[i as int]);
            }
            return false;
        }
        i = i + 1;
    }
    assert(names_of(a@) =~= names_of(b@));
    true
}

/// The last `--list-hubs` answer, with the key it was read for.
pub struct HubListCache {
    pub listed: Option<(Vec<String>, Vec<PppsHub>)>,
}

impl HubListCache {
    pub fn new() -> (r: Self)
        ensures
            r.listed.is_none(),
    {
        HubListCache { listed: None }
    }

    /// The cached answer, when it was read for this key.
    pub fn answer_for(&self, key: &Vec<String>) -> (r: Option<Vec<PppsHub>>)
        ensures
            r.is_some() == (self.listed.is_some() && names_of(self.listed.unwrap().0@) == names_of(key@)),
            r.is_some() ==> hub_views(r.unwrap()@) == hub_views(self.listed.unwrap().1@),
    {
        match &self.listed {
            Some((for_key, hubs)) => {
                if same_names(for_key, key) {
                    Some(copy_hubs(hubs))
                } else {
                    None
                }
            },
            None => None,
        }
    }

    /// Keeps an answer and the key it was read for.
    pub fn remember(&mut self, key: Vec<String>, hubs: Vec<PppsHub>)
        ensures
            final(self).listed == Some((key, hubs)),
    {
        self.listed = Some((key, hubs));
    }

    /// Forgets the cached answer, so the next call asks again. For when the
    /// path to `vhfilter` changes: the hubs have not moved, the tool has.
    pub fn forget_listed(&mut self)
        ensures
            final(self).listed.is_none(),
    {
        self.listed = None;
    }
}

/// What answering "which hubs can switch their ports" takes next.
#[derive(Debug, Clone)]
pub enum HubsStep {
    /// The cached list, read for the hubs present now.
    Cached(Vec<PppsHub>),
    /// Run `vhfilter --list-hubs`, then hand its outcome to
    /// [`HubListCache::finish_listing`] with this key.
    Ask(Vec<String>),
}

impl HubListCache {
    /// Whether the cached list answers for the hubs `present`: it does when
    /// it was read for the same hubs, in any order and any ASCII case.
    pub fn hubs_step(&self, present: &[String]) -> (r: HubsStep)
        ensures
            match r {
                HubsStep::Cached(l) => {
                    &&& self.listed is Some
                    &&& keyed_on(names_of(self.listed.unwrap().0@), names_of(present@))
                    &&& hub_views(l@) == hub_views(self.listed.unwrap().1@)
                },
                HubsStep::Ask(k) => {
                    &&& !(self.listed is Some && keyed_on(names_of(self.listed.unwrap().0@), names_of(present@)))
                    &&& keyed_on(names_of(k@), names_of(present@))
                },
            },
    {
        let key = cache_key(present);
        proof {
            if self.listed is Some && keyed_on(names_of(self.listed.unwrap().0@), names_of(present@)) {
                a_hub_key_ignores_case_and_order(
                    names_of(present@),
                    names_of(present@),
                    names_of(self.listed.unwrap().0@),
                    names_of(key@),
                );
            }
        }
        match self.answer_for(&key) {
            Some(l) => HubsStep::Cached(l),
            None => HubsStep::Ask(key),
        }
    }

    /// What a `--list-hubs` run comes to: when it could not start, an error
    /// and the cache as it was; otherwise the hubs its output lists, whatever
    /// its exit status, kept for `key`.
    pub fn finish_listing(&mut self, key: Vec<String>, run: &VhfilterRun) -> (r: Result<
        Vec<PppsHub>,
        VhfilterError,
    >)
        ensures
            match run {
                VhfilterRun::NotStarted => {
                    &&& r == Err::<Vec<PppsHub>, VhfilterError>(VhfilterError::CouldNotRun)
                    &&& final(self).listed == old(self).listed
                },
                VhfilterRun::Exited { success: _, stdout } => {
                    &&& r is Ok
                    &&& hub_views(r->Ok_0@) == hub_lines(split_seq(stdout@, '\n'))
                    &&& final(self).listed is Some
                    &&& names_of(final(self).listed.unwrap().0@) == names_of(key@)
                    &&& hub_views(final(self).listed.unwrap().1@) == hub_lines(split_seq(stdout@, '\n'))
                },
            },
    {
        match run {
            VhfilterRun::NotStarted => Err(VhfilterError::CouldNotRun),
            VhfilterRun::Exited { success: _, stdout } => {
                let hubs = parse_hubs(stdout.as_str());
                let kept = copy_hubs(&hubs);
                self.remember(key, kept);
                Ok(hubs)
            },
        }
    }
}

// ---------------------------------------------------------------------------
// Switching a port
// ---------------------------------------------------------------------------

/// The arguments that switch a port: `--switch-port <port> on|off <hub>`.
pub fn switch_arguments(hub_instance_id: &str, port: u32, on: bool) -> (r: Vec<String>)
    ensures
        r@.len() == 4,
        r@[0]@ == "--switch-port"@,
        r@[1]@ == dec_text(port as nat),
        r@[2]@ == (if on { "on"@ } else { "off"@ }),
        r@[3]@ == hub_instance_id@,
{
    let mut args: Vec<String> = Vec::new();
    args.push(str_string("--switch-port"));
    args.push(u32_string(port));
    args.push(str_string(if on { "on" } else { "off" }));
    args.push(str_string(hub_instance_id));
    args
}

/// What a refused switch is reported as: the port, and what `vhfilter` said
/// when it said anything.
pub open spec fn refusal_text(port: u32, stdout: Seq<char>) -> Seq<char> {
    let detail = trim(stdout);
    "vhfilter refused to switch port "@ + dec_text(port as nat) + if detail.len() == 0 {
        Seq::<char>::empty()
    } else {
        ": "@ + detail
    }
}

pub fn refusal(port: u32, stdout: &str) -> (r: String)
    ensures
        r@ == refusal_text(port, stdout@),
{
    let detail = trim_str(stdout);
    let mut text = str_string("vhfilter refused to switch port ");
    push_str(&mut text, u32_string(port).as_str());
    if detail.as_str().is_empty() {
        assert(text@ =~= refusal_text(port, stdout@));
    } else {
        push_str(&mut text, ": ");
        push_str(&mut text, detail.as_str());
        assert(text@ =~= refusal_text(port, stdout@));
    }
    text
}

/// The state a switch records once `vhfilter` reports success.
pub fn power_after(on: bool) -> (r: PortPower)
    ensures
        r == (if on { PortPower::SwitchedOn } else { PortPower::SwitchedOff }),
{
    if on {
        PortPower::SwitchedOn
    } else {
        PortPower::SwitchedOff
    }
}

/// How a run of `vhfilter` went, as the caller saw it.
#[derive(Debug, Clone)]
pub enum VhfilterRun {
    /// It could not be started.
    NotStarted,
    /// It ran: whether it reported success, and what it printed, decoded.
    Exited { success: bool, stdout: String },
}

/// Why a `vhfilter` request came to nothing.
#[derive(Debug, Clone, PartialEq, Eq)]
pub enum VhfilterError {
    /// It could not be started.
    CouldNotRun,
    /// It ran and refused; the text names the port and what it said.
    Refused(String),
}

impl SwitchRecord {
    /// What a switch of `port` on `hub_instance_id` comes to, once `vhfilter`
    /// has been run with [`switch_arguments`]: the record is written only
    /// when it reports success, so a refused or failed switch leaves the
    /// account of every port as it was.
    pub fn finish_switch(&mut self, hub_instance_id: &str, port: u32, on: bool, run: &VhfilterRun) -> (r: Result<
        (),
        VhfilterError,
    >)
        ensures
            match run {
                VhfilterRun::Exited { success: true, stdout: _ } => {
                    &&& r is Ok
                    &&& final(self).power(hub_instance_id@, port) == Some(
                        if on {
                            PortPower::SwitchedOn
                        } else {
                            PortPower::SwitchedOff
                        },
                    )
                    &&& forall|h: Seq<char>, p: u32|
                        !(h == hub_instance_id@ && p == port) ==> #[trigger] final(self).power(h, p) == old(
                            self,
                        ).power(h, p)
                },
                VhfilterRun::Exited { success: false, stdout } => {
                    &&& r is Err && r->Err_0 is Refused && r->Err_0->Refused_0@ == refusal_text(port, stdout@)
                    &&& final(self).entries() == old(self).entries()
                },
                VhfilterRun::NotStarted => {
                    &&& r == Err::<(), VhfilterError>(VhfilterError::CouldNotRun)
                    &&& final(self).entries() == old(self).entries()
                },
            },
    {
        match run {
            VhfilterRun::NotStarted => Err(VhfilterError::CouldNotRun),
            VhfilterRun::Exited { success, stdout } => {
                if *success {
                    self.record(hub_instance_id, port, on);
                    Ok(())
                } else {
                    Err(VhfilterError::Refused(refusal(port, stdout.as_str())))
                }
            },
        }
    }
}

// ---------------------------------------------------------------------------
// Finding `vhfilter.exe`
// ---------------------------------------------------------------------------

/// An optional text by its characters.
pub open spec fn opt_chars(o: Option<&str>) -> Option<Seq<char>> {
    match o {
        Some(c) => Some(c@),
        None => None,
    }
}

/// A found path by its characters.
pub open spec fn found_view(r: Option<(String, FoundHow)>) -> Option<(Seq<char>, FoundHow)> {
    match r {
        Some((p, how)) => Some((p@, how)),
        None => None,
    }
}

/// The path of a pick, without how it was arrived at.
pub open spec fn pick_path(p: Option<(Seq<char>, FoundHow)>) -> Option<Seq<char>> {
    match p {
        Some((path, _)) => Some(path),
        None => None,
    }
}

/// The first index from `from` on, below `count`, whose answer is "a file is
/// there"; an index past the end of `answers` counts as "no file".
pub open spec fn first_file(count: int, answers: Seq<bool>, from: int) -> Option<int>
    decreases count - from,
{
    if from < 0 || from >= count {
        None
    } else if from < answers.len() && answers[from] {
        Some(from)
    } else {
        first_file(count, answers, from + 1)
    }
}

/// Which `vhfilter.exe` to use, given the disk's answers.
///
/// A configured path that is not blank decides alone: its trimmed text when a
/// file is there, else nothing, and no folder is searched. Otherwise the
/// first candidate whose answer says a file is there.
pub open spec fn pick_spec(
    configured: Option<Seq<char>>,
    configured_is_file: bool,
    candidates: Seq<Seq<char>>,
    answers: Seq<bool>,
) -> Option<(Seq<char>, FoundHow)> {
    match configured {
        Some(c) if trim(c).len() > 0 => if configured_is_file {
            Some((trim(c), FoundHow::Configured))
        } else {
            None
        },
        _ => match first_file(candidates.len() as int, answers, 0) {
            Some(i) => Some((candidates[i], FoundHow::Searched)),
            None => None,
        },
    }
}

/// A configured path is never replaced by a search: when it is not blank,
/// what is picked is that path or nothing, whatever the folders hold.
pub proof fn a_configured_path_is_never_replaced_by_a_search(
    configured: Seq<char>,
    configured_is_file: bool,
    candidates: Seq<Seq<char>>,
    answers: Seq<bool>,
)
    requires
        trim(configured).len() > 0,
    ensures
        pick_spec(Some(configured), configured_is_file, candidates, answers) == (if configured_is_file {
            Some((trim(configured), FoundHow::Configured))
        } else {
            None
        }),
{
}

/// Which `vhfilter.exe` to use, given whether a file is at the configured
/// path (`configured_is_file`) and at each candidate (`answers`, in the order
/// of `candidates`; a missing answer counts as "no file").
pub fn pick_vhfilter(
    configured: Option<&str>,
    configured_is_file: bool,
    candidates: &[String],
    answers: &[bool],
) -> (r: Option<(String, FoundHow)>)
    ensures
        found_view(r) == pick_spec(opt_chars(configured), configured_is_file, names_of(candidates@), answers@),
{
    match configured {
        Some(c) => {
            let path = trim_str(c);
            if !path.as_str().is_empty() {
                if configured_is_file {
                    return Some((path, FoundHow::Configured));
                }
                return None;
            }
        },
        None => {},
    }
    let n = candidates.len();
    let mut i: usize = 0;
    while i < n
        invariant
            n == candidates@.len(),
            i <= n,
            first_file(n as int, answers@, 0) == first_file(n as int, answers@, i as int),
            match configured {
                Some(c) => trim(c@).len() == 0,
                None => true,
            },
        decreases n - i,
    {
        if i < answers.len() && answers[i] {
            assert(names_of(candidates@)[i as int] == candidates@[i as int]@);
            return Some((candidates[i].clone(), FoundHow::Searched));
        }
        i = i + 1;
    }
    None
}

/// Where `vhfilter.exe` is and how it was arrived at.
///
/// A configured path wins, blank meaning "not configured"; otherwise the first
/// of `candidates` (the search folders joined with the file name) that holds
/// a file. The disk is asked about the trimmed configured path alone, or else
/// about each candidate in order up to the first file; the answers decide as
/// `pick_vhfilter` says.
pub fn found(configured: Option<&str>, candidates: &[String]) -> (r: Option<(String, FoundHow)>)
    ensures
        exists|configured_is_file: bool, answers: Seq<bool>|
            found_view(r) == #[trigger] pick_spec(
                opt_chars(configured),
                configured_is_file,
                names_of(candidates@),
                answers,
            ),
{
    let mut configured_is_file = false;
    let mut answers: Vec<bool> = Vec::new();
    let mut search = true;
    match configured {
        Some(c) => {
            let path = trim_str(c);
            if !path.as_str().is_empty() {
                configured_is_file = is_file(path.as_str());
                search = false;
            }
        },
        None => {},
    }
    if search {
        let n = candidates.len();
        let mut i: usize = 0;
        while i < n
            invariant
                n == candidates@.len(),
                i <= n,
            decreases n - i,
        {
            let a = is_file(candidates[i].as_str());
            answers.push(a);
            if a {
                break;
            }
            i = i + 1;
        }
    }
    let r = pick_vhfilter(configured, configured_is_file, candidates, answers.as_slice());
    assert(found_view(r) == pick_spec(
        opt_chars(configured),
        configured_is_file,
        names_of(candidates@),
        answers@,
    ));
    r
}

/// Where `vhfilter.exe` is, if it can be found: the path `found` gives.
pub fn locate(configured: Option<&str>, candidates: &[String]) -> (r: Option<String>)
    ensures
        exists|configured_is_file: bool, answers: Seq<bool>|
            crate::windevice::opt_text(r) == pick_path(
                #[trigger] pick_spec(opt_chars(configured), configured_is_file, names_of(candidates@), answers),
            ),
{
    let f = found(configured, candidates);
    let ghost (cf, a) = choose|configured_is_file: bool, answers: Seq<bool>|
        found_view(f) == #[trigger] pick_spec(
            opt_chars(configured),
            configured_is_file,
            names_of(candidates@),
            answers,
        );
    let r = match f {
        Some((path, _)) => Some(path),
        None => None,
    };
    assert(crate::windevice::opt_text(r) == pick_path(
        pick_spec(opt_chars(configured), cf, names_of(candidates@), a),
    ));
    r
}

} // verus!
