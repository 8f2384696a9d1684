use vrcs_core::diagnostics::{
    clean_identifier, clean_log_text, frontend_code, frontend_stack, log_window,
    log_dir_from, new_report_id, new_session_id, path_variable, replace_text, report_header,
    report_section, select_recent_logs, PATH_VARIABLE_COUNT, REDACTED_TEXT,
};

#[test]
fn diagnostic_text_is_bounded_and_sensitive_values_are_rejected() {
    assert_eq!(clean_identifier("react render/error"), "reactrendererror");
    assert_eq!(clean_log_text("abcdef", 3, &vec![]), "abc…");
    assert_eq!(
        clean_log_text("Authorization: Bearer secret", 100, &vec![]),
        "[redacted potentially sensitive text]"
    );
}

#[test]
fn identifiers_are_limited_and_never_empty() {
    assert_eq!(clean_identifier("///"), "unknown");
    assert_eq!(clean_identifier(""), "unknown");
    assert_eq!(clean_identifier(&"a".repeat(100)).len(), 64);
    assert_eq!(clean_identifier("ok_1-2.x"), "ok_1-2.x");
    assert_eq!(frontend_code("react render"), "frontend.reactrender");
}

#[test]
fn log_text_is_flattened_and_user_paths_are_hidden() {
    let mut env = vec![None; PATH_VARIABLE_COUNT];
    env[7] = Some("/home/alice".to_string());
    env[0] = Some(String::new());
    assert_eq!(
        clean_log_text("line\r\none\tat /home/alice/x", 100, &env),
        "line | one at %HOME%/x"
    );
    assert_eq!(clean_log_text("TOKEN=abc", 100, &env), REDACTED_TEXT);
    assert_eq!(clean_log_text("x-goog-api-key", 100, &env), REDACTED_TEXT);
    assert_eq!(clean_log_text("abc", 3, &env), "abc");
    assert_eq!(path_variable(7), ("HOME", "%HOME%"));
    assert_eq!(path_variable(0), ("XDG_STATE_HOME", "%XDG_STATE_HOME%"));
}

#[test]
fn replacement_matches_from_the_left_without_overlap() {
    assert_eq!(replace_text("aaa", "aa", "b"), "ba");
    assert_eq!(replace_text("abab", "ab", ""), "");
    assert_eq!(replace_text("abc", "", "x"), "abc");
    assert_eq!(replace_text("héllo", "é", "e"), "hello");
}

#[test]
fn exported_reports_take_the_three_newest_logs() {
    let names: Vec<String> = [
        "errorlog.2026-01-01.log",
        "errorlog.2026-01-02.log",
        "vrcs-core.2026-01-03.log",
        "errorlog.2026-01-04.log",
        "unrelated.log",
    ]
    .iter()
    .map(|n| n.to_string())
    .collect();
    assert_eq!(
        select_recent_logs(&names),
        [
            "errorlog.2026-01-04.log",
            "vrcs-core.2026-01-03.log",
            "errorlog.2026-01-02.log",
        ]
    );
    assert!(select_recent_logs(&vec!["notes.txt".to_string()]).is_empty());
}

#[test]
fn each_log_takes_its_tail_within_the_budget() {
    assert_eq!(log_window(100, 30), (0, 70));
    assert_eq!(log_window(100, 300), (200, 0));
    assert_eq!(log_window(0, 10), (10, 0));
}

#[test]
fn front_end_stacks_are_joined() {
    assert_eq!(
        frontend_stack(Some("a"), Some("b")).as_deref(),
        Some("a | component stack: b")
    );
    assert_eq!(frontend_stack(None, Some("b")).as_deref(), Some("b"));
    assert_eq!(frontend_stack(Some(""), None), None);
    assert_eq!(frontend_stack(None, None), None);
}

#[test]
fn report_and_session_ids_are_random_hex() {
    let report = new_report_id();
    assert_eq!(report.len(), 12);
    assert!(report.chars().all(|c| c.is_ascii_hexdigit()));
    assert_ne!(new_session_id(), new_session_id());
}

#[test]
fn logs_live_under_the_xdg_state_directory() {
    assert_eq!(
        log_dir_from(Some("/state".into()), Some("/home/u".into()), None),
        "/state/vrcs/logs"
    );
    assert_eq!(
        log_dir_from(Some("relative".into()), Some("/home/u/".into()), None),
        "/home/u/.local/state/vrcs/logs"
    );
    assert_eq!(
        log_dir_from(None, Some("not-absolute".into()), Some("/work".into())),
        "/work/.local/state/vrcs/logs"
    );
    assert_eq!(log_dir_from(None, None, None), "./.local/state/vrcs/logs");
}

#[test]
fn report_header_names_the_session_and_latest_report() {
    assert_eq!(
        report_header(1700000000, "0.3.1", "abc", None),
        "VRCS error report\nGenerated: 1700000000\nVersion: 0.3.1\nSession: abc\nLatest report: none\n\nThis report was generated locally and is not uploaded automatically.\n"
    );
    assert!(report_header(0, "v", "s", Some("r1")).contains("Latest report: r1\n"));
}

#[test]
fn report_sections_clean_each_line() {
    let env = vec![None; PATH_VARIABLE_COUNT];
    assert_eq!(
        report_section("errorlog.1.log", "one\r\ntwo\tthree\n\nlast", &env),
        "\n\n===== errorlog.1.log =====\none\ntwo three\n\nlast\n"
    );
    assert_eq!(
        report_section("x.log", "token=abc\nok\n", &env),
        format!("\n\n===== x.log =====\n{REDACTED_TEXT}\nok\n")
    );
    assert_eq!(report_section("empty.log", "", &env), "\n\n===== empty.log =====\n");
}
