use compiletest::{extract_gdb_version, extract_lldb_version, is_blacklisted_lldb_version};

#[test]
fn gdb_extracts_simple_version() {
    let got = extract_gdb_version(Some("GNU gdb 7.11".to_string()));
    assert_eq!(got, Some("7.11".to_string()));
}

#[test]
fn gdb_extends_over_following_digits() {
    let got = extract_gdb_version(Some("GNU gdb (GDB) 7.1234 release".to_string()));
    assert_eq!(got, Some("7.1234".to_string()));
}

#[test]
fn gdb_stops_at_second_dot() {
    let got = extract_gdb_version(Some("GNU gdb 7.11.90".to_string()));
    assert_eq!(got, Some("7.11".to_string()));
}

#[test]
fn gdb_none_on_absent_line() {
    assert_eq!(extract_gdb_version(None), None);
}

#[test]
fn gdb_none_on_empty_line() {
    assert_eq!(extract_gdb_version(Some("".to_string())), None);
}

#[test]
fn gdb_none_without_version_pattern() {
    assert_eq!(extract_gdb_version(Some("no digits dot digits here".to_string())), None);
}

#[test]
fn gdb_never_starts_inside_longer_integer() {
    // the candidate digit may not be preceded by a digit, and a
    // two-digit major never matches at its second digit either
    assert_eq!(extract_gdb_version(Some("GNU gdb 10.1".to_string())), None);
}

#[test]
fn lldb_extracts_major_version() {
    let got = extract_lldb_version(Some("lldb-179.5".to_string()));
    assert_eq!(got, Some("179".to_string()));
}

#[test]
fn lldb_is_case_insensitive() {
    let got = extract_lldb_version(Some("LLDB-300.2.51".to_string()));
    assert_eq!(got, Some("300".to_string()));
}

#[test]
fn lldb_none_without_token() {
    assert_eq!(extract_lldb_version(Some("no version here".to_string())), None);
}

#[test]
fn lldb_none_when_no_digits_follow() {
    assert_eq!(extract_lldb_version(Some("lldb-".to_string())), None);
    assert_eq!(extract_lldb_version(Some("lldb-x179".to_string())), None);
}

#[test]
fn lldb_none_on_absent_or_empty_line() {
    assert_eq!(extract_lldb_version(None), None);
    assert_eq!(extract_lldb_version(Some("".to_string())), None);
}

#[test]
fn lldb_skips_token_without_digits_for_later_one() {
    let got = extract_lldb_version(Some("lldb-beta lldb-42.0".to_string()));
    assert_eq!(got, Some("42".to_string()));
}

#[test]
fn blacklisted_lldb_version_is_exact() {
    assert!(is_blacklisted_lldb_version("350"));
    assert!(!is_blacklisted_lldb_version("349"));
    assert!(!is_blacklisted_lldb_version("3500"));
    assert!(!is_blacklisted_lldb_version(""));
}
