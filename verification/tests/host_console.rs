use asteria::console::{
    compact_err, is_disconnect_error, ls_lines, reconnect_notice, shell_step, ReconnectNotice,
    ShellEvent, ShellNotice, UiStyle,
};

#[test]
fn compact_error_first_line() {
    assert_eq!(compact_err(""), "unknown connection error");
    assert_eq!(compact_err("a\nb"), "a");
    assert_eq!(compact_err("x\r\ny"), "x");
    assert_eq!(compact_err("x\r"), "x\r");
    assert_eq!(compact_err("\nsecond"), "");
    assert_eq!(compact_err("single"), "single");
}

#[test]
fn compact_error_is_capped() {
    let long = "é".repeat(200);
    let out = compact_err(&long);
    assert_eq!(out, format!("{}...", "é".repeat(140)));
    let exact = "a".repeat(140);
    assert_eq!(compact_err(&exact), exact);
}

#[test]
fn disconnect_detection() {
    assert!(is_disconnect_error("Connection RESET by peer"));
    assert!(is_disconnect_error("Broken Pipe"));
    assert!(is_disconnect_error("port CLOSED"));
    assert!(is_disconnect_error("device disconnected"));
    assert!(is_disconnect_error("Connection aborted"));
    assert!(is_disconnect_error("request timed out"));
    assert!(!is_disconnect_error("timeout"));
    assert!(!is_disconnect_error("path not found: /x"));
    assert!(!is_disconnect_error(""));
}

#[test]
fn plain_prompt_and_labels() {
    let plain = UiStyle { color: false };
    assert_eq!(plain.prompt("/logs", "serial"), "asteria:/logs [serial]> ");
    assert_eq!(plain.info_label("status:"), "status:");
    assert_eq!(plain.error_label("error:"), "error:");
}

#[test]
fn colored_prompt_and_labels() {
    let color = UiStyle { color: true };
    assert_eq!(
        color.prompt("/logs", "serial"),
        "\x1b[1;32masteria\x1b[0m:\x1b[1;34m/logs\x1b[0m [\x1b[36mserial\x1b[0m]> "
    );
    assert_eq!(color.info_label("status:"), "\x1b[90mstatus:\x1b[0m");
    assert_eq!(color.error_label("error:"), "\x1b[1;31merror:\x1b[0m");
    assert_eq!(color.wrap("x", "7"), "\x1b[7mx\x1b[0m");
}

fn owned(xs: &[&str]) -> Vec<String> {
    xs.iter().map(|s| s.to_string()).collect()
}

#[test]
fn ls_without_terminal_prints_one_per_line() {
    let entries = owned(&["a", "bb", "ccc"]);
    assert_eq!(ls_lines(&entries, false, Some(20)), entries);
    assert!(ls_lines(&[], true, None).is_empty());
}

#[test]
fn ls_columns_fit_the_terminal() {
    let entries = owned(&["a", "bb", "ccc"]);
    assert_eq!(ls_lines(&entries, true, Some(20)), owned(&["a    bb   ccc"]));
    let entries = owned(&["abcdefgh", "abcdefgh", "abcdefgh", "abcdefgh", "abcdefgh"]);
    assert_eq!(
        ls_lines(&entries, true, Some(40)),
        owned(&["abcdefgh  abcdefgh  abcdefgh", "abcdefgh  abcdefgh"])
    );
}

#[test]
fn ls_unknown_width_uses_80_columns() {
    let entries: Vec<String> = (0..13).map(|i| format!("f{:02}", i)).collect();
    let lines = ls_lines(&entries, true, None);
    assert_eq!(lines.len(), 2);
    assert_eq!(lines[1], "f12");
}

#[test]
fn ls_narrow_terminal_one_column() {
    let entries = owned(&["a_rather_long_name", "x"]);
    assert_eq!(ls_lines(&entries, true, Some(10)), entries);
}

#[test]
fn shell_reactions() {
    let s = shell_step(ShellEvent::Completed(true), true, true);
    assert_eq!(s.notice, ShellNotice::WaitingForReboot);
    assert!(s.reconnect && !s.retry && !s.exit && s.print_stats);
    let s = shell_step(ShellEvent::Completed(false), false, true);
    assert!(s.exit && !s.print_stats && !s.reconnect);
    let s = shell_step(ShellEvent::Failed { disconnected: true }, false, true);
    assert_eq!(s.notice, ShellNotice::LinkLost);
    assert!(s.reconnect && s.retry && !s.exit);
    let s = shell_step(ShellEvent::Failed { disconnected: false }, false, true);
    assert_eq!(s.notice, ShellNotice::Error);
    assert!(!s.reconnect && !s.retry && s.print_stats);
    let s = shell_step(ShellEvent::Interrupted, false, true);
    assert_eq!(s.notice, ShellNotice::Interrupted);
    assert!(s.reconnect && !s.print_stats);
}

#[test]
fn reconnect_notices() {
    assert_eq!(reconnect_notice(1), ReconnectNotice::Waiting);
    assert_eq!(reconnect_notice(2), ReconnectNotice::Silent);
    assert_eq!(reconnect_notice(10), ReconnectNotice::StillWaiting);
    assert_eq!(reconnect_notice(20), ReconnectNotice::StillWaiting);
    assert_eq!(reconnect_notice(21), ReconnectNotice::Silent);
}
