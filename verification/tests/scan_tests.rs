use clash_verge_service::scan::check_dry_run_output;

fn scan(s: &str) -> Result<(), Vec<u8>> {
    let bytes: Vec<u8> = s.as_bytes().to_vec();
    check_dry_run_output(&bytes)
}

#[test]
fn clean_output_validates() {
    let out = "time=1 level=info msg=\"configuration loaded\"\nlistening on :7890\n";
    assert_eq!(scan(out), Ok(()));
}

#[test]
fn empty_output_validates() {
    assert_eq!(scan(""), Ok(()));
}

#[test]
fn error_line_with_msg_is_reported() {
    let out = "time=1 level=error msg=\"invalid port\"\n";
    let e = scan(out).unwrap_err();
    assert_eq!(e, b"[broken] invalid port".to_vec());
}

#[test]
fn fatal_line_with_msg_is_reported() {
    let out = "level=fatal msg='broken rule'\n";
    let e = scan(out).unwrap_err();
    assert_eq!(e, b"[broken] broken rule".to_vec());
}

#[test]
fn markers_match_in_any_case() {
    let out = "level=ERROR msg=\"loud\"\n";
    let e = scan(out).unwrap_err();
    assert_eq!(e, b"[broken] loud".to_vec());
    let out2 = "level=Fatal msg=\"mixed\"\n";
    let e2 = scan(out2).unwrap_err();
    assert_eq!(e2, b"[broken] mixed".to_vec());
}

#[test]
fn marker_without_msg_field_is_ignored() {
    let out = "error: something odd happened\nall good otherwise\n";
    assert_eq!(scan(out), Ok(()));
}

#[test]
fn msg_without_marker_is_ignored() {
    let out = "level=info msg=\"routine note\"\n";
    assert_eq!(scan(out), Ok(()));
}

#[test]
fn diagnostics_join_in_line_order() {
    let out = "level=error msg=\"first\"\nlevel=info msg=ok\nlevel=fatal msg=\"second\"\n";
    let e = scan(out).unwrap_err();
    assert_eq!(e, b"[broken] first\n[broken] second".to_vec());
}

#[test]
fn crlf_line_ending_is_stripped() {
    let out = "level=error msg=\"bad dns\"\r\n";
    let e = scan(out).unwrap_err();
    assert_eq!(e, b"[broken] bad dns".to_vec());
}

#[test]
fn message_is_trimmed_and_unquoted() {
    let out = "level=error msg=  \"spaced\"  \n";
    let e = scan(out).unwrap_err();
    assert_eq!(e, b"[broken] spaced".to_vec());
}

#[test]
fn message_keeps_rest_of_line() {
    let out = "level=error msg=\"bad\" code=5\n";
    let e = scan(out).unwrap_err();
    assert_eq!(e, b"[broken] bad code=5".to_vec());
}

#[test]
fn final_line_without_newline_is_scanned() {
    let out = "level=error msg=unterminated";
    let e = scan(out).unwrap_err();
    assert_eq!(e, b"[broken] unterminated".to_vec());
}
