use wuim::probe::identity::{
    esp_variant, identity_key, normalize_unique_id, normalize_variant, IdentityKeyError,
};

#[test]
fn matches_the_documented_examples() {
    assert_eq!(identity_key("esp32-s3", "7cdfa1123456").unwrap(), "esp32-s3-7cdfa1123456");
    assert_eq!(
        identity_key("ch32x035c8t6", "1ff9abcd880ebc48").unwrap(),
        "ch32x035c8t6-1ff9abcd880ebc48"
    );
    assert_eq!(identity_key("wch-link", "fc928f068181").unwrap(), "wch-link-fc928f068181");
}

#[test]
fn strips_separators_from_the_unique_id() {
    assert_eq!(identity_key("esp32-s3", "7C:DF:A1:12:34:56").unwrap(), "esp32-s3-7cdfa1123456");
}

#[test]
fn is_deterministic_across_input_spellings() {
    let a = identity_key("ESP32-S3", "7C:DF:A1:12:34:56").unwrap();
    let b = identity_key("esp32 s3", "7cdfa1123456").unwrap();
    assert_eq!(a, b);
}

#[test]
fn rejects_a_unique_id_that_is_too_short() {
    assert_eq!(
        identity_key("esp32", "12:34"),
        Err(IdentityKeyError::UniqueIdTooShort { got: "12:34".into() })
    );
}

#[test]
fn rejects_an_empty_variant() {
    assert_eq!(identity_key("///", "7cdfa1123456"), Err(IdentityKeyError::EmptyVariant));
}

#[test]
fn never_emits_a_slash_or_nul() {
    let key = identity_key("esp32/s3\u{0}", "7cdf/a112\u{0}3456").unwrap();
    assert!(!key.contains('/'));
    assert!(!key.contains('\0'));
}

#[test]
fn esp_variant_inserts_the_series_separator() {
    assert_eq!(esp_variant("esp32"), "esp32");
    assert_eq!(esp_variant("esp32s3"), "esp32-s3");
    assert_eq!(esp_variant("esp32c61"), "esp32-c61");
    assert_eq!(esp_variant("ESP32-S2"), "esp32-s2");
    assert_eq!(esp_variant("ch32x035"), "ch32x035");
}

#[test]
fn normalising_collapses_runs_and_trims_the_ends() {
    let v: String = normalize_variant("  --ESP32__S3--  ").into_iter().collect();
    assert_eq!(v, "esp32-s3");
    let u: String = normalize_unique_id("7C:DF-A1 12").into_iter().collect();
    assert_eq!(u, "7cdfa112");
}

#[test]
fn exactly_the_minimum_length_is_enough() {
    assert_eq!(identity_key("x", "ab:cd:ef").unwrap(), "x-abcdef");
    assert!(identity_key("x", "ab:cd:e").is_err());
}

#[test]
fn a_refused_key_says_why() {
    assert_eq!(
        IdentityKeyError::UniqueIdTooShort { got: "12:34".into() }.message(),
        "unique id \"12:34\" has fewer than 6 usable characters"
    );
    assert_eq!(
        IdentityKeyError::UniqueIdTooShort { got: "a\"b".into() }.message(),
        "unique id \"a\\\"b\" has fewer than 6 usable characters"
    );
    assert_eq!(IdentityKeyError::EmptyVariant.message(), "variant name is empty");
}
