use wuim::instance_id::InstanceId;
use wuim::probe::id_sources;
use wuim::probe::usb_descriptor::{board_for_usb_id, board_ids, identify, is_generic_bridge};
use wuim::probe::TargetIdentity;

fn identity_for(raw: &str) -> Option<TargetIdentity> {
    identify(&InstanceId::parse(raw))
}

#[test]
fn the_table_is_sorted_so_the_search_works() {
    let table = board_ids();
    assert!(
        table.windows(2).all(|pair| pair[0].key < pair[1].key),
        "the board table must be sorted and free of repeats"
    );
}

#[test]
fn a_board_with_its_own_pair_and_a_serial_is_named() {
    let found = identity_for("USB\\VID_2341&PID_0069\\34B7DA65B1C8").expect("named");
    assert_eq!(found.device_type, "arduino-uno-r4-minima");
    assert_eq!(found.device_id, "34B7DA65B1C8");
    assert_eq!(found.identity_key, "arduino-uno-r4-minima-34b7da65b1c8");
    assert_eq!(found.id_source, id_sources::USB_SERIAL);
}

#[test]
fn a_stock_bridge_is_never_a_board() {
    assert!(identity_for("USB\\VID_1A86&PID_7523\\5B5F090816").is_none());
    assert!(is_generic_bridge(0x10C4, 0xEA60));
    assert!(board_for_usb_id(0x10C4, 0xEA60).is_none());
}

#[test]
fn a_pair_several_boards_share_names_no_board() {
    let board = board_for_usb_id(0x0483, 0x3748).expect("in the table");
    assert_eq!(board.family, "stm32");
    assert!(board.variant.is_none());
    assert!(identity_for("USB\\VID_0483&PID_3748\\066BFF3837334D4643133213").is_none());
}

#[test]
fn without_a_serial_number_the_model_is_known_but_the_unit_is_not() {
    assert!(identity_for("USB\\VID_2341&PID_0069\\7&19033BE6&0&1").is_none());
}

#[test]
fn a_serial_too_short_to_identify_is_refused() {
    assert!(identity_for("USB\\VID_2341&PID_0069\\AB12").is_none());
}

#[test]
fn espressif_pairs_were_left_out_of_the_table() {
    assert!(board_for_usb_id(0x303A, 0x1001).is_none());
}

#[test]
fn a_named_board_lists_its_family_in_the_details() {
    let found = identity_for("USB\\VID_2341&PID_0069\\34B7DA65B1C8").expect("named");
    assert!(found.details.iter().any(|(k, _)| k == "family"));
    assert!(found.hardware_revision.is_none());
}
