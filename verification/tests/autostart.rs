use wuim::autostart;
use wuim::autostart::{command_line, is_enabled, quoted_exe, RunEntry, HIDDEN_ARG};

const EXE: &str = r"C:\Program Files\WUIM\wuim.exe";

#[test]
fn the_entry_starts_this_executable_hidden() {
    assert_eq!(quoted_exe(EXE), format!("\"{EXE}\""));
    assert_eq!(command_line(EXE), format!("\"{EXE}\" {HIDDEN_ARG}"));
    assert_eq!(autostart::set(true, EXE), RunEntry::Write(format!("\"{EXE}\" --hidden")));
    assert_eq!(autostart::set(false, EXE), RunEntry::Delete);
}

#[test]
fn an_entry_for_this_executable_counts_with_or_without_the_flag() {
    assert!(is_enabled(Some(EXE), Some(&command_line(EXE))));
    assert!(is_enabled(Some(EXE), Some(&format!("  \"{}\" ", EXE.to_uppercase()))));
    assert!(!is_enabled(Some(EXE), Some(r#""C:\old\wuim.exe" --hidden"#)));
    assert!(!is_enabled(Some(EXE), None));
    assert!(!is_enabled(None, Some(&command_line(EXE))));
}
