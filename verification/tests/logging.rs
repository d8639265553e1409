use wuim::logging;

#[test]
fn a_line_pads_the_level_to_five_columns() {
    assert_eq!(logging::line("2026-09-18T10:22:31+09:00", "info", "started"), "2026-09-18T10:22:31+09:00 info  started\n");
    assert_eq!(logging::info("t", "ok"), "t info  ok\n");
    assert_eq!(logging::error("t", "bad"), "t error bad\n");
    assert_eq!(logging::line("t", "verbose", "x"), "t verbose x\n");
}

#[test]
fn anything_but_error_is_written_as_info() {
    assert_eq!(logging::level_of("error"), "error");
    assert_eq!(logging::level_of("warn"), "info");
    assert_eq!(logging::level_of("ERROR"), "info");
}
