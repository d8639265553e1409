use wuim::keyed::Keyed;
use wuim::probe::TargetIdentity;
use wuim::session::Session;
use wuim::store::Store;

fn found(key: &str) -> TargetIdentity {
    TargetIdentity {
        family: "esp32".to_owned(),
        identity_key: key.to_owned(),
        device_id: "3485188f6d7c".to_owned(),
        device_type: "esp32-s3".to_owned(),
        hardware_revision: Some("v0.2".to_owned()),
        id_source: "target-mac",
        details: Vec::new(),
    }
}

#[test]
fn an_identity_lasts_while_its_device_is_present() {
    let mut session = Session::new(Store::default(), true);
    assert!(session.identity("USB\\a").is_none());
    assert!(session.remember_identity("USB\\a".to_owned(), found("esp32-s3-3485188f6d7c"), "then".to_owned()));
    assert_eq!(session.identity("USB\\a").unwrap().identity_key, "esp32-s3-3485188f6d7c");
    assert_eq!(session.forget_absent(&["USB\\a".to_owned()]), 0);
    assert!(session.identity("USB\\a").is_some());
    assert_eq!(session.forget_absent(&["USB\\b".to_owned()]), 1);
    assert!(session.identity("USB\\a").is_none());
    // The file still remembers it, labelled as the past.
    let seen = session.last_seen("USB\\a").unwrap();
    assert_eq!(seen.identified_at.as_deref(), Some("then"));
    assert_eq!(session.remembered_count(), 1);
}

#[test]
fn a_port_is_remembered_while_windows_cannot_say() {
    let mut session = Session::new(Store::default(), false);
    assert!(!session.is_writable());
    assert_eq!(session.port_of("USB\\a", None), None);
    assert_eq!(session.port_of("USB\\a", Some(("USB\\HUB".to_owned(), 3))), Some(("USB\\HUB".to_owned(), 3)));
    assert_eq!(session.port_of("USB\\a", None), Some(("USB\\HUB".to_owned(), 3)));
    session.forget_ports(&["USB\\b".to_owned()]);
    assert_eq!(session.port_of("USB\\a", None), None);
}

#[test]
fn one_pass_of_names_is_one_write_or_none() {
    let mut session = Session::new(Store::default(), true);
    let pass = vec![("USB\\a".to_owned(), "CH340".to_owned()), ("USB\\b".to_owned(), "CH343".to_owned())];
    assert!(session.remember_names(&pass));
    assert!(!session.remember_names(&pass));
    assert_eq!(session.remembered_count(), 2);
    assert_eq!(session.forget_everything_seen(), 2);
    assert_eq!(session.remembered_count(), 0);
}

#[test]
fn a_keyed_table_holds_one_value_per_key() {
    let mut table: Keyed<u32> = Keyed::new();
    assert_eq!(table.get("a"), None);
    table.insert("a", 1);
    table.insert("b", 2);
    table.insert("a", 3);
    assert_eq!(table.get("a"), Some(&3));
    assert_eq!(table.get("b"), Some(&2));
    assert_eq!(table.retain_keys(&["b".to_owned(), "c".to_owned()]), 1);
    assert_eq!(table.get("a"), None);
    assert_eq!(table.get("b"), Some(&2));
}

#[test]
fn a_change_is_written_only_while_writing_is_allowed() {
    let writable = Session::new(Store::default(), true);
    assert!(writable.update_when(true));
    assert!(!writable.update_when(false));
    let refused = Session::new(Store::default(), false);
    assert!(!refused.update_when(true));
}

#[test]
fn a_detail_goes_where_its_name_sorts() {
    let mut id = found("ch32v305rbt6-0909090909090909");
    id.details = vec![
        ("chip_id".to_owned(), "0x30500528".to_owned()),
        ("flash".to_owned(), "128 KiB".to_owned()),
        ("probe".to_owned(), "LinkE 2.12".to_owned()),
    ];
    id.add_detail("debug_speed".to_owned(), "default".to_owned());
    let names: Vec<&str> = id.details.iter().map(|(k, _)| k.as_str()).collect();
    assert_eq!(names, vec!["chip_id", "debug_speed", "flash", "probe"]);
    id.add_detail("zz".to_owned(), "last".to_owned());
    assert_eq!(id.details.last().unwrap().0, "zz");
}

#[test]
fn a_detail_under_a_name_already_there_replaces_its_value() {
    let mut id = found("ch32v305rbt6-0909090909090909");
    id.details = vec![
        ("chip_id".to_owned(), "0x30500528".to_owned()),
        ("flash".to_owned(), "128 KiB".to_owned()),
    ];
    id.add_detail("flash".to_owned(), "256 KiB".to_owned());
    assert_eq!(
        id.details,
        vec![
            ("chip_id".to_owned(), "0x30500528".to_owned()),
            ("flash".to_owned(), "256 KiB".to_owned()),
        ]
    );
}
