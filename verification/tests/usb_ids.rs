use wuim::usb_ids::UsbIds;

const SAMPLE: &str = "\
# Comment
#
1a86  QinHeng Electronics
\t5523  CH341 in serial mode, usb to serial port converter
\t7523  CH340 serial converter
\t\t0001  an interface, ignored
0b95  ASIX Electronics Corp.
\t1790  AX88179 Gigabit Ethernet

# List of known device classes
C 00  (Defined at Interface level)
\t01  something that is not a product
";

fn sample() -> UsbIds {
    UsbIds::parse(SAMPLE)
}

#[test]
fn finds_vendors_and_products() {
    let ids = sample();
    assert_eq!(ids.vendor(0x1a86), Some("QinHeng Electronics"));
    assert_eq!(ids.product(0x1a86, 0x7523), Some("CH340 serial converter"));
    assert_eq!(ids.vendor(0x0b95), Some("ASIX Electronics Corp."));
    assert_eq!(ids.product(0x0b95, 0x1790), Some("AX88179 Gigabit Ethernet"));
}

#[test]
fn does_not_confuse_vendors_with_each_other() {
    let ids = sample();
    assert_eq!(ids.product(0x0b95, 0x7523), None);
}

#[test]
fn ignores_interfaces_and_the_class_sections() {
    let ids = sample();
    assert_eq!(ids.vendor_count(), 2);
    assert_eq!(ids.product_count(), 3);
}

#[test]
fn an_empty_text_knows_nothing() {
    let ids = UsbIds::parse("");
    assert!(ids.is_empty());
    assert_eq!(ids.vendor(0x1a86), None);
    assert!(UsbIds::new().is_empty());
    assert!(!sample().is_empty());
}

#[test]
fn a_line_that_is_not_hex_is_skipped() {
    let ids = UsbIds::parse("zz12  Not a vendor\n\t0001  orphan\n1234  Real\n\tabcd  Thing\n");
    assert_eq!(ids.vendor_count(), 1);
    assert_eq!(ids.product(0x1234, 0xabcd), Some("Thing"));
}
