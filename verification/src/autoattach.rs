//! Rules for handing a device to WSL without being asked.
//!
//! A rule names *what* to attach, and the four kinds differ in how firmly they
//! name it. Matching is a string comparison, but which string is compared
//! decides whether the rule still means what it meant yesterday.
//!
//! Nothing here reaches a device: a rule is evaluated against values the
//! enumeration already produced.
use vstd::prelude::*;

use crate::text::{ci_eq, eq_ignore_case, lemma_trim_idempotent, trim, trim_str};

verus! {

/// What a rule matches on, declared most specific first.
#[derive(Debug, Clone, Copy, PartialEq, Eq, Structural)]
pub enum RuleKind {
    /// What the board itself answered, e.g. `esp32-s3-3485188f6d7c`.
    Identity,
    /// The USB serial number.
    Serial,
    /// Every device of a kind: "attach any CH340".
    VidPid,
    /// Whatever is at this bus id. Not a stable name.
    BusId,
}

impl RuleKind {
    /// Every kind, most specific first.
    pub fn all() -> (r: Vec<RuleKind>)
        ensures
            r@ == seq![RuleKind::Identity, RuleKind::Serial, RuleKind::VidPid, RuleKind::BusId],
    {
        let mut r: Vec<RuleKind> = Vec::new();
        r.push(RuleKind::Identity);
        r.push(RuleKind::Serial);
        r.push(RuleKind::VidPid);
        r.push(RuleKind::BusId);
        assert(r@ =~= seq![RuleKind::Identity, RuleKind::Serial, RuleKind::VidPid, RuleKind::BusId]);
        r
    }
}

/// One rule: attach whatever answers to this value.
#[derive(Debug, Clone, PartialEq, Eq)]
pub struct Rule {
    pub kind: RuleKind,
    pub value: String,
}

impl View for Rule {
    type V = (RuleKind, Seq<char>);

    open spec fn view(&self) -> (RuleKind, Seq<char>) {
        (self.kind, self.value@)
    }
}

/// One thing about a device that a rule could name.
#[derive(Debug, Clone, PartialEq, Eq)]
pub struct Candidate {
    pub kind: RuleKind,
    pub value: String,
}

impl View for Candidate {
    type V = (RuleKind, Seq<char>);

    open spec fn view(&self) -> (RuleKind, Seq<char>) {
        (self.kind, self.value@)
    }
}

/// Whether a rule whose value is `rule_value` names `value`: case-insensitive
/// on ASCII letters, with the offered value trimmed.
pub open spec fn names(rule_value: Seq<char>, value: Seq<char>) -> bool {
    ci_eq(rule_value, trim(value))
}

/// Whether some rule of the candidate's kind names the candidate.
pub open spec fn covers(rules: Seq<(RuleKind, Seq<char>)>, c: (RuleKind, Seq<char>)) -> bool {
    exists|j: int| 0 <= j < rules.len() && (#[trigger] rules[j]).0 == c.0 && names(rules[j].1, c.1)
}

/// The kind of the first candidate a rule covers.
pub open spec fn first_covered(
    rules: Seq<(RuleKind, Seq<char>)>,
    candidates: Seq<(RuleKind, Seq<char>)>,
) -> Option<RuleKind>
    decreases candidates.len(),
{
    if candidates.len() == 0 {
        None
    } else if covers(rules, candidates[0]) {
        Some(candidates[0].0)
    } else {
        first_covered(rules, candidates.drop_first())
    }
}

/// Two rules say the same thing: same kind, and the first names the second's
/// value.
pub open spec fn same_rule(a: (RuleKind, Seq<char>), b: (RuleKind, Seq<char>)) -> bool {
    a.0 == b.0 && names(a.1, b.1)
}

/// Whether `kept` already holds a rule saying the same as `r`.
pub open spec fn repeats(kept: Seq<(RuleKind, Seq<char>)>, r: (RuleKind, Seq<char>)) -> bool {
    exists|j: int| 0 <= j < kept.len() && same_rule(#[trigger] kept[j], r)
}

/// The rules with values trimmed, blanks dropped, and each rule that says the
/// same as one before it dropped, the first spelling kept.
pub open spec fn sanitise_spec(rules: Seq<(RuleKind, Seq<char>)>) -> Seq<(RuleKind, Seq<char>)>
    decreases rules.len(),
{
    if rules.len() == 0 {
        Seq::empty()
    } else {
        let kept = sanitise_spec(rules.drop_last());
        let r = (rules.last().0, trim(rules.last().1));
        if r.1.len() == 0 || repeats(kept, r) {
            kept
        } else {
            kept.push(r)
        }
    }
}


/// After sanitising, no rule is blank and no two rules say the same thing.
pub proof fn sanitised_rules_have_no_blanks_or_repeats(rules: Seq<(RuleKind, Seq<char>)>)
    ensures
        forall|i: int| 0 <= i < sanitise_spec(rules).len() ==> (#[trigger] sanitise_spec(rules)[i]).1.len() > 0,
        forall|i: int, j: int|
            0 <= i < j < sanitise_spec(rules).len() ==> !same_rule(
                #[trigger] sanitise_spec(rules)[i],
                #[trigger] sanitise_spec(rules)[j],
            ),
        forall|i: int| 0 <= i < sanitise_spec(rules).len() ==> trim((#[trigger] sanitise_spec(rules)[i]).1) == sanitise_spec(rules)[i].1,
    decreases rules.len(),
{
    if rules.len() > 0 {
        sanitised_rules_have_no_blanks_or_repeats(rules.drop_last());
        lemma_trim_idempotent(rules.last().1);
        let kept = sanitise_spec(rules.drop_last());
        let r = (rules.last().0, trim(rules.last().1));
        if !(r.1.len() == 0 || repeats(kept, r)) {
            let s = kept.push(r);
            assert forall|i: int, j: int| 0 <= i < j < s.len() implies !same_rule(
                #[trigger] s[i],
                #[trigger] s[j],
            ) by {
                if j == s.len() - 1 {
                    assert(s[i] == kept[i]);
                    assert(!same_rule(kept[i], r));
                } else {
                    assert(s[i] == kept[i]);
                    assert(s[j] == kept[j]);
                }
            }
        }
    }
}

/// Sanitising a sanitised list changes nothing.
pub proof fn sanitising_twice_is_sanitising_once(rules: Seq<(RuleKind, Seq<char>)>)
    ensures
        sanitise_spec(sanitise_spec(rules)) == sanitise_spec(rules),
{
    let s = sanitise_spec(rules);
    sanitised_rules_have_no_blanks_or_repeats(rules);
    lemma_clean_is_fixed(s, s.len() as int);
    assert(s.take(s.len() as int) == s);
}

proof fn lemma_clean_is_fixed(s: Seq<(RuleKind, Seq<char>)>, k: int)
    requires
        0 <= k <= s.len(),
        forall|i: int| 0 <= i < s.len() ==> (#[trigger] s[i]).1.len() > 0,
        forall|i: int, j: int| 0 <= i < j < s.len() ==> !same_rule(#[trigger] s[i], #[trigger] s[j]),
        forall|i: int| 0 <= i < s.len() ==> trim((#[trigger] s[i]).1) == s[i].1,
    ensures
        sanitise_spec(s.take(k)) == s.take(k),
    decreases k,
{
    if k > 0 {
        lemma_clean_is_fixed(s, k - 1);
        let t = s.take(k);
        assert(t.drop_last() == s.take(k - 1));
        assert(t.last() == s[k - 1]);
        let r = (s[k - 1].0, trim(s[k - 1].1));
        assert(r == s[k - 1]);
        assert(!repeats(s.take(k - 1), r)) by {
            if repeats(s.take(k - 1), r) {
                let j = choose|j: int| 0 <= j < s.take(k - 1).len() && same_rule(#[trigger] s.take(k - 1)[j], r);
                assert(s.take(k - 1)[j] == s[j]);
            }
        }
        assert(s.take(k - 1).push(r) == t);
    }
}

pub open spec fn views_of_rules(rules: Seq<Rule>) -> Seq<(RuleKind, Seq<char>)> {
    rules.map_values(|r: Rule| r@)
}

pub open spec fn views_of_candidates(cs: Seq<Candidate>) -> Seq<(RuleKind, Seq<char>)> {
    cs.map_values(|c: Candidate| c@)
}

impl Rule {
    /// A rule with its value trimmed. The stored text keeps whatever case it
    /// was given.
    pub fn new(kind: RuleKind, value: &str) -> (r: Self)
        ensures
            r.kind == kind,
            r.value@ == trim(value@),
    {
        Rule { kind, value: trim_str(value) }
    }

    /// Whether this rule names `value`, ignoring ASCII case and surrounding
    /// whitespace in `value`.
    pub fn matches(&self, value: &str) -> (r: bool)
        ensures
            r == names(self.value@, value@),
    {
        let t = trim_str(value);
        eq_ignore_case(self.value.as_str(), t.as_str())
    }

    fn is_same(&self, other: &Rule) -> (r: bool)
        ensures
            r == same_rule(self@, other@),
    {
        self.kind == other.kind && self.matches(other.value.as_str())
    }
}

impl Candidate {
    pub fn new(kind: RuleKind, value: &str) -> (r: Self)
        ensures
            r.kind == kind,
            r.value@ == value@,
    {
        Candidate { kind, value: value.to_owned() }
    }
}

fn covered(rules: &[Rule], candidate: &Candidate) -> (r: bool)
    ensures
        r == covers(views_of_rules(rules@), candidate@),
{
    let ghost vs = views_of_rules(rules@);
    let n = rules.len();
    let mut j: usize = 0;
    while j < n
        invariant
            n == rules@.len(),
            vs == views_of_rules(rules@),
            j <= n,
            forall|k: int|
                0 <= k < j ==> !((#[trigger] vs[k]).0 == candidate@.0 && names(vs[k].1, candidate@.1)),
        decreases n - j,
    {
        let rule = &rules[j];
        if rule.kind == candidate.kind && rule.matches(candidate.value.as_str()) {
            assert(vs[j as int] == rules@[j as int]@);
            return true;
        }
        assert(vs[j as int] == rules@[j as int]@);
        j = j + 1;
    }
    false
}

/// Which kind of rule covers a device, if any: the kind of the first
/// candidate, in the order given (most specific first), that some rule of its
/// own kind names.
pub fn matching(rules: &[Rule], candidates: &[Candidate]) -> (r: Option<RuleKind>)
    ensures
        r == first_covered(views_of_rules(rules@), views_of_candidates(candidates@)),
{
    let ghost rs = views_of_rules(rules@);
    let ghost cs = views_of_candidates(candidates@);
    let n = candidates.len();
    let mut i: usize = 0;
    assert(cs.skip(0) == cs);
    while i < n
        invariant
            n == candidates@.len(),
            rs == views_of_rules(rules@),
            cs == views_of_candidates(candidates@),
            i <= n,
            first_covered(rs, cs) == first_covered(rs, cs.skip(i as int)),
        decreases n - i,
    {
        let c = &candidates[i];
        assert(cs.skip(i as int)[0] == c@);
        assert(cs.skip(i as int).drop_first() == cs.skip(i as int + 1));
        if covered(rules, c) {
            return Some(c.kind);
        }
        i = i + 1;
    }
    assert(cs.skip(n as int).len() == 0);
    None
}

/// Drops blanks and duplicates, keeping the first of each.
pub fn sanitise(rules: Vec<Rule>) -> (r: Vec<Rule>)
    ensures
        views_of_rules(r@) == sanitise_spec(views_of_rules(rules@)),
{
    let ghost vs = views_of_rules(rules@);
    let mut kept: Vec<Rule> = Vec::new();
    let n = rules.len();
    let mut i: usize = 0;
    assert(vs.take(0) =~= Seq::<(RuleKind, Seq<char>)>::empty());
    assert(views_of_rules(kept@) =~= Seq::<(RuleKind, Seq<char>)>::empty());
    while i < n
        invariant
            n == rules@.len(),
            vs == views_of_rules(rules@),
            i <= n,
            views_of_rules(kept@) == sanitise_spec(vs.take(i as int)),
        decreases n - i,
    {
        let given = &rules[i];
        let rule = Rule::new(given.kind, given.value.as_str());
        let ghost kv = views_of_rules(kept@);
        assert(vs.take(i as int + 1).drop_last() == vs.take(i as int));
        assert(vs.take(i as int + 1).last() == given@);
        let mut blank_or_repeat = rule.value.as_str().is_empty();
        let ghost blank = blank_or_repeat;
        let m = kept.len();
        let mut j: usize = 0;
        while j < m && !blank_or_repeat
            invariant
                m == kept@.len(),
                kv == views_of_rules(kept@),
                j <= m,
                blank ==> blank_or_repeat,
                blank_or_repeat ==> blank || repeats(kv, rule@),
                !blank_or_repeat ==> forall|k: int| 0 <= k < j ==> !same_rule(#[trigger] kv[k], rule@),
            decreases m - j,
        {
            assert(kv[j as int] == kept@[j as int]@);
            if kept[j].is_same(&rule) {
                blank_or_repeat = true;
            }
            j = j + 1;
        }
        if !blank_or_repeat {
            kept.push(rule);
            assert(views_of_rules(kept@) =~= kv.push(rule@));
        }
        i = i + 1;
    }
    assert(vs.take(n as int) == vs);
    kept
}

} // verus!
