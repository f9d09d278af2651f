use sndlab::edit::{apply_edit, engine_state_report, last_error_report, Command};

#[test]
fn unique_match_is_replaced() {
    assert_eq!(
        apply_edit("sine(330.0, 1.0)", "sine(330.0,", "sine(280.0,"),
        Ok("sine(280.0, 1.0)".to_string())
    );
}

#[test]
fn missing_match_is_reported() {
    assert_eq!(
        apply_edit("abc", "x", "y"),
        Err("error: old_string not found in buffer".to_string())
    );
}

#[test]
fn ambiguous_match_reports_count() {
    assert_eq!(
        apply_edit("ab ab ab", "ab", "x"),
        Err("error: old_string occurs 3 times; needs more surrounding context to disambiguate"
            .to_string())
    );
    // Non-overlapping counting: "aaa" holds "aa" once.
    assert_eq!(apply_edit("aaa", "aa", "b"), Ok("ba".to_string()));
}

#[test]
fn empty_pattern_matches_every_boundary() {
    assert_eq!(apply_edit("", "", "new"), Ok("new".to_string()));
    assert_eq!(
        apply_edit("ab", "", "x"),
        Err("error: old_string occurs 3 times; needs more surrounding context to disambiguate"
            .to_string())
    );
}

#[test]
fn edit_with_multibyte_text() {
    assert_eq!(apply_edit("── é ──", "é", "e"), Ok("── e ──".to_string()));
}

#[test]
fn state_report_lists_playing_ambients() {
    assert_eq!(
        engine_state_report(false, &vec![]),
        "live_ambient: false\nplaying_ambients: (none)\n"
    );
    assert_eq!(
        engine_state_report(true, &vec!["hum".to_string(), "wash".to_string()]),
        "live_ambient: true\nplaying_ambients:\n  - hum\n  - wash\n"
    );
}

#[test]
fn last_error_report_text() {
    assert_eq!(last_error_report(&None), "no error");
    assert_eq!(last_error_report(&Some("boom".to_string())), "boom");
}

#[test]
fn commands_carry_their_payload() {
    let c = Command::SetBuffer("x".to_string());
    match c.clone() {
        Command::SetBuffer(s) => assert_eq!(s, "x"),
        _ => panic!(),
    }
    assert!(matches!(Command::Eval, Command::Eval));
    assert!(matches!(Command::Play("p".to_string()), Command::Play(n) if n == "p"));
}
