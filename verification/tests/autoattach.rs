use wuim::autoattach::{matching, sanitise, Candidate, Rule, RuleKind};

fn candidates() -> Vec<Candidate> {
    vec![
        Candidate::new(RuleKind::Identity, "esp32-s3-3485188f6d7c"),
        Candidate::new(RuleKind::Serial, "5B5F090816"),
        Candidate::new(RuleKind::VidPid, "1a86:7523"),
        Candidate::new(RuleKind::BusId, "12-3"),
    ]
}

#[test]
fn a_rule_matches_its_own_kind_only() {
    let rules = vec![Rule::new(RuleKind::Serial, "12-3")];
    assert_eq!(matching(&rules, &candidates()), None);
}

#[test]
fn the_most_specific_match_is_the_one_reported() {
    let rules = vec![
        Rule::new(RuleKind::VidPid, "1a86:7523"),
        Rule::new(RuleKind::Identity, "esp32-s3-3485188f6d7c"),
    ];
    assert_eq!(matching(&rules, &candidates()), Some(RuleKind::Identity));
}

#[test]
fn case_does_not_make_a_different_rule() {
    let rules = vec![Rule::new(RuleKind::VidPid, "1A86:7523")];
    assert_eq!(matching(&rules, &candidates()), Some(RuleKind::VidPid));
}

#[test]
fn a_device_without_a_candidate_cannot_be_matched_on_it() {
    let all = candidates();
    let without_identity = &all[1..];
    let rules = vec![Rule::new(RuleKind::Identity, "esp32-s3-3485188f6d7c")];
    assert_eq!(matching(&rules, without_identity), None);
}

#[test]
fn sanitising_drops_blanks_and_repeats() {
    let rules = vec![
        Rule::new(RuleKind::VidPid, "1a86:7523"),
        Rule::new(RuleKind::VidPid, "  1A86:7523 "),
        Rule::new(RuleKind::Serial, "   "),
        Rule::new(RuleKind::BusId, "12-3"),
    ];
    let kept = sanitise(rules);
    assert_eq!(kept.len(), 2);
    assert_eq!(kept[0].value, "1a86:7523", "the first spelling is kept");
    assert_eq!(kept[1].kind, RuleKind::BusId);
}

#[test]
fn nothing_matches_an_empty_rule_list() {
    assert_eq!(matching(&[], &candidates()), None);
}

#[test]
fn a_rule_trims_its_value_but_keeps_its_case() {
    let rule = Rule::new(RuleKind::Serial, "  AbC ");
    assert_eq!(rule.value, "AbC");
    assert!(rule.matches(" abc"));
    assert!(!rule.matches("abd"));
}

#[test]
fn kinds_are_listed_most_specific_first() {
    assert_eq!(
        RuleKind::all(),
        vec![RuleKind::Identity, RuleKind::Serial, RuleKind::VidPid, RuleKind::BusId]
    );
}

#[test]
fn sanitising_twice_changes_nothing_more() {
    let rules = vec![
        Rule::new(RuleKind::Serial, "A"),
        Rule::new(RuleKind::Serial, "a"),
        Rule::new(RuleKind::BusId, ""),
        Rule::new(RuleKind::VidPid, "a"),
    ];
    let once = sanitise(rules);
    let twice = sanitise(once.clone());
    assert_eq!(once, twice);
    assert_eq!(once.len(), 2);
}
