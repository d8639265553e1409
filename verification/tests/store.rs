use wuim::autoattach::{Rule, RuleKind};
use wuim::store::{
    admitted, LastSeen, readable_schema, Loaded, SeenIdentity, Settings, Store, LAST_SEEN_LIMIT, SCHEMA_VERSION,
};

fn seen(key: &str) -> SeenIdentity {
    SeenIdentity {
        identity_key: key.to_owned(),
        device_type: "esp32-s3".to_owned(),
        device_id: key.to_owned(),
        hardware_revision: None,
        id_source: Some("target-mac".to_owned()),
    }
}

#[test]
fn settings_default_to_automatic_identification_with_confirmation() {
    let settings = Settings::default();
    assert!(settings.auto_identify);
    assert!(settings.auto_exclude.is_empty());
    assert!(settings.confirm_before_identify);
    assert!(!settings.start_with_windows);
}

#[test]
fn a_name_already_recorded_is_not_written_again() {
    let mut store = Store::default();
    assert!(store.remember_name("USB\\a", "CH340"));
    assert!(!store.remember_name("USB\\a", "CH340"));
    assert!(store.remember_name("USB\\a", "CH343"));
    assert_eq!(store.last_seen("USB\\a").unwrap().name.as_deref(), Some("CH343"));
    assert_eq!(store.last_seen.len(), 1);
}

#[test]
fn the_least_recently_seen_is_dropped_first() {
    let mut store = Store::default();
    for n in 0..LAST_SEEN_LIMIT + 10 {
        store.remember_name(&format!("USB\\{n}"), "CH340");
    }
    assert_eq!(store.last_seen.len(), LAST_SEEN_LIMIT);
    assert!(store.last_seen("USB\\0").is_none(), "the oldest should have gone");
    assert!(store.last_seen(&format!("USB\\{}", LAST_SEEN_LIMIT + 9)).is_some());
}

#[test]
fn seeing_a_device_again_moves_it_out_of_the_firing_line() {
    let mut store = Store::default();
    store.remember_name("USB\\old", "CH340");
    for n in 0..LAST_SEEN_LIMIT - 1 {
        store.remember_name(&format!("USB\\{n}"), "CH340");
    }
    store.remember_name("USB\\old", "CH340 (COM9)");
    store.remember_name("USB\\new", "CH343");

    assert_eq!(store.last_seen.len(), LAST_SEEN_LIMIT);
    assert!(store.last_seen("USB\\old").is_some());
    assert!(store.last_seen("USB\\0").is_none());
}

#[test]
fn clearing_leaves_the_settings_alone() {
    let mut store = Store::default();
    store.settings.auto_attach = true;
    store.remember_name("USB\\a", "CH340");

    assert_eq!(store.forget_everything_seen(), 1);
    assert!(store.last_seen.is_empty());
    assert!(store.settings.auto_attach);
}

#[test]
fn an_identification_is_dated_and_read_back() {
    let mut store = Store::default();
    assert!(store.remember_identity("USB\\a", seen("esp32-s3-abc"), "2026-09-18 10:22:31".to_owned()));
    let entry = store.last_seen("USB\\a").unwrap();
    assert_eq!(entry.identity.as_ref().unwrap().identity_key, "esp32-s3-abc");
    assert_eq!(entry.identified_at.as_deref(), Some("2026-09-18 10:22:31"));
    assert!(seen("x").same_as(&seen("x")));
    assert!(!seen("x").same_as(&seen("y")));
}

#[test]
fn a_newer_schema_is_not_readable() {
    assert!(readable_schema(SCHEMA_VERSION));
    assert!(readable_schema(0));
    assert!(!readable_schema(SCHEMA_VERSION + 1));
    assert!(!readable_schema(99));
}

#[test]
fn a_store_read_from_disk_is_capped_on_the_way_in() {
    let mut store = Store::default();
    store.settings.auto_identify = false;
    for n in 0..LAST_SEEN_LIMIT + 3 {
        store.last_seen.push(LastSeen {
            instance_id: format!("USB\\{n}"),
            name: None,
            identity: None,
            identified_at: None,
        });
    }
    let Loaded::Read(read) = admitted(store) else {
        panic!("an admitted store is read");
    };
    assert_eq!(read.last_seen.len(), LAST_SEEN_LIMIT);
    assert_eq!(read.last_seen[0].instance_id, "USB\\3");
    assert!(!read.settings.auto_identify);
}

#[test]
fn sanitising_settings_cleans_the_rule_list() {
    let mut settings = Settings::default();
    settings.auto_attach_rules = vec![
        Rule::new(RuleKind::Serial, "A"),
        Rule::new(RuleKind::Serial, " a "),
        Rule::new(RuleKind::BusId, " "),
    ];
    let clean = settings.sanitised();
    assert_eq!(clean.auto_attach_rules.len(), 1);
    assert_eq!(clean.auto_attach_rules[0].value, "A");
}
