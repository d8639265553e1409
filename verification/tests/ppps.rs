use wuim::ppps::{
    cache_key, found, locate, parse_hubs, pick_vhfilter, power_after, refusal, switch_arguments, FoundHow,
    HubListCache, HubsStep, PortPower, PppsHub, SwitchRecord, VhfilterError, VhfilterRun,
};

const MEASURED: &str = "The following hubs are attached that support Per-Port-Power-Switching:\n\
    \n\
    USB\\VID_1A86&PID_8094\\5&829319&0&2\t has  4 ports\tis USB 2\tand attached to port  2 on USB\\ROOT_HUB30\\4&945a1ec&0&0 with companion port  3\n";

#[test]
fn reads_the_measured_output() {
    let hubs = parse_hubs(MEASURED);
    assert_eq!(
        hubs,
        vec![PppsHub {
            instance_id: "USB\\VID_1A86&PID_8094\\5&829319&0&2".to_owned(),
            ports: 4,
        }]
    );
}

#[test]
fn no_ppps_hub_is_an_empty_list_and_not_an_error() {
    let text = "The following hubs are attached that support Per-Port-Power-Switching:\n\n";
    assert!(parse_hubs(text).is_empty());
}

#[test]
fn the_heading_is_not_mistaken_for_a_hub() {
    assert!(parse_hubs("The following hubs are attached that support X:").is_empty());
}

#[test]
fn a_configured_path_that_does_not_exist_finds_nothing() {
    assert!(locate(Some("Z:\\nowhere\\vhfilter.exe"), &[]).is_none());
    assert!(locate(Some("   "), &[]).is_none() || locate(None, &[]).is_some());
}

#[test]
fn a_configured_path_that_exists_wins_over_the_search() {
    let cargo = "/bin/sh".to_owned();
    let padded = format!("  {cargo} ");
    let got = found(Some(&padded), &[cargo.clone()]);
    assert_eq!(got, Some((cargo.clone(), FoundHow::Configured)));
    let searched = found(Some("  "), &["Z:\\nowhere".to_owned(), cargo.clone()]);
    assert_eq!(searched, Some((cargo, FoundHow::Searched)));
}

#[test]
fn a_switch_is_remembered_per_hub_and_port() {
    let mut record = SwitchRecord::new();
    assert_eq!(record.recorded("HUB-A", 1), None);
    record.record("HUB-A", 3, false);
    record.record("HUB-A", 1, false);
    record.record("HUB-B", 1, true);
    assert_eq!(record.recorded("HUB-A", 3), Some(PortPower::SwitchedOff));
    assert_eq!(record.recorded("HUB-B", 1), Some(PortPower::SwitchedOn));
    assert_eq!(record.switched_off("HUB-A"), vec![1, 3]);
    record.record("HUB-A", 1, true);
    assert_eq!(record.switched_off("HUB-A"), vec![3]);
    assert_eq!(record.switched_off("HUB-B"), Vec::<u32>::new());
}

#[test]
fn an_unplugged_hub_is_forgotten() {
    let mut record = SwitchRecord::new();
    record.record("HUB-A", 2, false);
    record.record("HUB-B", 2, false);
    let dropped = record.forget_absent(&["HUB-B".to_owned()]);
    assert_eq!(dropped, 1);
    assert_eq!(record.recorded("HUB-A", 2), None);
    assert_eq!(record.recorded("HUB-B", 2), Some(PortPower::SwitchedOff));
}

#[test]
fn the_cache_key_ignores_case_and_order() {
    let a = cache_key(&["USB\\B".to_owned(), "usb\\a".to_owned()]);
    let b = cache_key(&["usb\\b".to_owned(), "USB\\A".to_owned()]);
    assert_eq!(a, vec!["usb\\a".to_owned(), "usb\\b".to_owned()]);
    assert_eq!(a, b);
}

#[test]
fn a_cached_answer_is_given_only_for_its_own_key() {
    let mut cache = HubListCache::new();
    let key = cache_key(&["USB\\A".to_owned()]);
    assert!(cache.answer_for(&key).is_none());
    let hubs = vec![PppsHub { instance_id: "USB\\A".to_owned(), ports: 4 }];
    cache.remember(key.clone(), hubs.clone());
    assert_eq!(cache.answer_for(&key), Some(hubs));
    assert!(cache.answer_for(&cache_key(&["USB\\B".to_owned()])).is_none());
    cache.forget_listed();
    assert!(cache.answer_for(&key).is_none());
}

#[test]
fn switching_passes_port_state_and_hub() {
    assert_eq!(
        switch_arguments("USB\\HUB", 12, false),
        vec!["--switch-port", "12", "off", "USB\\HUB"]
    );
    assert_eq!(switch_arguments("H", 0, true)[2], "on");
}

#[test]
fn a_refusal_quotes_what_vhfilter_said() {
    assert_eq!(refusal(3, "  \n"), "vhfilter refused to switch port 3");
    assert_eq!(refusal(40, " no such port\n"), "vhfilter refused to switch port 40: no such port");
    assert_eq!(power_after(true), PortPower::SwitchedOn);
    assert_eq!(power_after(false), PortPower::SwitchedOff);
}

#[test]
fn a_configured_path_decides_alone() {
    let candidates = vec!["C:\\a\\vhfilter.exe".to_owned(), "C:\\b\\vhfilter.exe".to_owned()];
    assert_eq!(
        pick_vhfilter(Some("  D:\\tools\\vhfilter.exe "), true, &candidates, &[true, true]),
        Some(("D:\\tools\\vhfilter.exe".to_owned(), FoundHow::Configured))
    );
    assert_eq!(pick_vhfilter(Some("D:\\tools\\vhfilter.exe"), false, &candidates, &[true, true]), None);
}

#[test]
fn the_search_takes_the_first_candidate_that_is_a_file() {
    let candidates = vec![
        "C:\\a\\vhfilter.exe".to_owned(),
        "C:\\b\\vhfilter.exe".to_owned(),
        "C:\\c\\vhfilter.exe".to_owned(),
    ];
    assert_eq!(
        pick_vhfilter(None, false, &candidates, &[false, true, true]),
        Some(("C:\\b\\vhfilter.exe".to_owned(), FoundHow::Searched))
    );
    assert_eq!(
        pick_vhfilter(Some("   "), true, &candidates, &[false, false, true]),
        Some(("C:\\c\\vhfilter.exe".to_owned(), FoundHow::Searched))
    );
    // Missing answers count as "no file".
    assert_eq!(pick_vhfilter(None, false, &candidates, &[false]), None);
    assert_eq!(pick_vhfilter(None, true, &[], &[]), None);
}

#[test]
fn a_switch_is_recorded_only_when_vhfilter_reports_success() {
    let mut record = SwitchRecord::new();
    let refused = VhfilterRun::Exited { success: false, stdout: "  port not found \n".to_owned() };
    assert_eq!(
        record.finish_switch("HUB-A", 2, false, &refused),
        Err(VhfilterError::Refused("vhfilter refused to switch port 2: port not found".to_owned()))
    );
    assert_eq!(record.recorded("HUB-A", 2), None);
    assert_eq!(record.finish_switch("HUB-A", 2, false, &VhfilterRun::NotStarted), Err(VhfilterError::CouldNotRun));
    assert_eq!(record.recorded("HUB-A", 2), None);
    let silent = VhfilterRun::Exited { success: false, stdout: String::new() };
    assert_eq!(
        record.finish_switch("HUB-A", 2, true, &silent),
        Err(VhfilterError::Refused("vhfilter refused to switch port 2".to_owned()))
    );
    let done = VhfilterRun::Exited { success: true, stdout: String::new() };
    assert_eq!(record.finish_switch("HUB-A", 2, false, &done), Ok(()));
    assert_eq!(record.recorded("HUB-A", 2), Some(PortPower::SwitchedOff));
    assert_eq!(record.recorded("HUB-A", 1), None);
}

#[test]
fn the_hub_list_is_read_once_for_the_same_hubs() {
    let mut cache = HubListCache::new();
    let present = vec!["USB\\ROOT_HUB30\\4&1".to_owned(), "USB\\VID_1A86&PID_8094\\5&829319&0&2".to_owned()];
    let key = match cache.hubs_step(&present) {
        HubsStep::Ask(key) => key,
        HubsStep::Cached(_) => panic!("nothing is cached yet"),
    };
    // Could not start: an error, and nothing cached.
    assert_eq!(cache.finish_listing(key.clone(), &VhfilterRun::NotStarted), Err(VhfilterError::CouldNotRun));
    assert!(cache.listed.is_none());
    let run = VhfilterRun::Exited { success: false, stdout: MEASURED.to_owned() };
    let listed = cache.finish_listing(key, &run).unwrap();
    assert_eq!(listed, parse_hubs(MEASURED));
    // The same hubs in another order and case are answered from the cache.
    let again = vec!["usb\\vid_1a86&pid_8094\\5&829319&0&2".to_owned(), "USB\\ROOT_HUB30\\4&1".to_owned()];
    match cache.hubs_step(&again) {
        HubsStep::Cached(l) => assert_eq!(l, listed),
        HubsStep::Ask(_) => panic!("the same hubs are present"),
    }
    // Another hub set asks again.
    assert!(matches!(cache.hubs_step(&present[..1]), HubsStep::Ask(_)));
    cache.forget_listed();
    assert!(matches!(cache.hubs_step(&present), HubsStep::Ask(_)));
}
