use wuim::webview2::{is_installed, locations, Root, CLIENT};

#[test]
fn finds_the_runtime_on_a_machine_that_has_it() {
    // What the three locations hold where the runtime is installed per machine.
    let read = vec![Some("131.0.2903.70".to_owned()), None, None];
    assert!(is_installed(&read));
}

#[test]
fn every_location_is_a_clients_key_for_the_runtime() {
    for (_, key) in locations() {
        assert!(key.ends_with(CLIENT), "{key}");
        assert!(key.contains(r"EdgeUpdate\Clients"), "{key}");
    }
}

#[test]
fn the_machine_keys_come_before_the_user_key() {
    let roots: Vec<Root> = locations().into_iter().map(|(root, _)| root).collect();
    assert_eq!(roots, vec![Root::LocalMachine, Root::LocalMachine, Root::CurrentUser]);
}

#[test]
fn what_an_uninstall_leaves_behind_does_not_count() {
    assert!(!is_installed(&[]));
    assert!(!is_installed(&[None, Some("  ".to_owned()), Some("0.0.0.0".to_owned())]));
    assert!(is_installed(&[Some(" 0.0.0.1 ".to_owned())]));
}
