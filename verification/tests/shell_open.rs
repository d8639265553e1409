use wuim::shell_open::{folder, url, OpenRefused};

#[test]
fn refuses_anything_that_is_not_https() {
    for address in [
        "http://example.com",
        "file:///C:/Windows/System32/cmd.exe",
        r"C:\Windows\System32\cmd.exe",
        "javascript:alert(1)",
    ] {
        assert!(url(address).is_err(), "opened {address}");
    }
}

#[test]
fn refuses_a_path_that_is_not_a_folder() {
    assert!(folder(r"C:\no such folder 7f3a1c").is_err());
}

#[test]
fn an_https_address_is_handed_on_unchanged() {
    assert_eq!(url("https://example.com/x"), Ok("https://example.com/x".to_owned()));
    assert_eq!(
        url("ftp://x").unwrap_err().message(),
        "refusing to open ftp://x: only https is opened"
    );
}

#[test]
fn an_existing_folder_is_opened() {
    let here = "/";
    assert_eq!(folder(here), Ok(here.to_owned()));
    assert_eq!(
        folder("/no such folder 7f3a1c"),
        Err(OpenRefused::NotAFolder("/no such folder 7f3a1c".to_owned()))
    );
}
