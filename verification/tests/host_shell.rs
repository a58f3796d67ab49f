use asteria::shell::{
    classify_line, command_kind, command_label, command_reboots_board, mode_label, parse_command,
    parse_du_args,
    parse_ls_args, parse_pull_args, parse_rm_args, parse_usize, require_arg,
    require_erase_storage_confirmation, trim_line, CommandKind, ShellCommand, ShellLine,
    TransportMode,
};

fn words(xs: &[&str]) -> Vec<String> {
    xs.iter().map(|s| s.to_string()).collect()
}

#[test]
fn pull_args() {
    assert_eq!(
        parse_pull_args(&words(&["-r", "/a", "b"])).unwrap(),
        (true, "/a".to_string(), "b".to_string())
    );
    assert_eq!(
        parse_pull_args(&words(&["/a", "--recursive", "b"])).unwrap(),
        (true, "/a".to_string(), "b".to_string())
    );
    assert_eq!(
        parse_pull_args(&words(&["/a", "b"])).unwrap(),
        (false, "/a".to_string(), "b".to_string())
    );
    assert_eq!(
        parse_pull_args(&words(&["/a"])).unwrap_err(),
        "usage: pull [-r] <remote_path> <local_path>"
    );
}

#[test]
fn rm_args() {
    assert_eq!(parse_rm_args(&words(&["-R", "/x"])).unwrap(), (true, "/x".to_string()));
    assert_eq!(parse_rm_args(&words(&["/x"])).unwrap(), (false, "/x".to_string()));
    assert_eq!(parse_rm_args(&words(&[])).unwrap_err(), "usage: rm [-r] <path>");
    assert_eq!(parse_rm_args(&words(&["a", "b"])).unwrap_err(), "usage: rm [-r] <path>");
}

#[test]
fn ls_args() {
    assert_eq!(parse_ls_args(&words(&[])).unwrap(), (false, None));
    assert_eq!(
        parse_ls_args(&words(&["--sizes", "/logs"])).unwrap(),
        (true, Some("/logs".to_string()))
    );
    assert_eq!(parse_ls_args(&words(&["a", "b"])).unwrap_err(), "usage: ls [-s|--sizes] [path]");
}

#[test]
fn du_args() {
    assert_eq!(
        parse_du_args(&words(&["-d", "2", "/logs"])).unwrap(),
        (false, false, Some(2), Some("/logs".to_string()))
    );
    assert_eq!(
        parse_du_args(&words(&["-a", "--recursive", "--depth=3"])).unwrap(),
        (true, true, Some(3), None)
    );
    assert_eq!(parse_du_args(&words(&["--depth", "+4"])).unwrap(), (false, false, Some(4), None));
    assert_eq!(
        parse_du_args(&words(&["--depth=x"])).unwrap_err(),
        "du depth must be a non-negative integer"
    );
    assert_eq!(
        parse_du_args(&words(&["-d", "-1"])).unwrap_err(),
        "du depth must be a non-negative integer"
    );
    assert_eq!(
        parse_du_args(&words(&["-d"])).unwrap_err(),
        "usage: du [-a|--all] [-r|--recursive] [-d|--depth N] [path]"
    );
    assert_eq!(
        parse_du_args(&words(&["a", "b"])).unwrap_err(),
        "usage: du [-a|--all] [-r|--recursive] [-d|--depth N] [path]"
    );
}

#[test]
fn usize_parsing_follows_from_str() {
    assert_eq!(parse_usize("0"), Some(0));
    assert_eq!(parse_usize("+17"), Some(17));
    assert_eq!(parse_usize("18446744073709551615"), Some(usize::MAX));
    assert_eq!(parse_usize("18446744073709551616"), None);
    assert_eq!(parse_usize(""), None);
    assert_eq!(parse_usize("+"), None);
    assert_eq!(parse_usize("1a"), None);
    assert_eq!(parse_usize(" 1"), None);
}

#[test]
fn argument_helpers() {
    assert_eq!(require_arg(&words(&["x", "y"]), "need").unwrap(), "x");
    assert_eq!(require_arg(&words(&[]), "need a path").unwrap_err(), "need a path");
    assert!(require_erase_storage_confirmation(&words(&["--yes"])).is_ok());
    assert_eq!(
        require_erase_storage_confirmation(&words(&["--yes", "now"])).unwrap_err(),
        "confirmation required: erase-storage --yes"
    );
    assert_eq!(mode_label(TransportMode::Auto), "auto");
    assert_eq!(mode_label(TransportMode::Raw), "raw");
    assert_eq!(mode_label(TransportMode::Serial), "serial");
    assert_eq!(command_label(&words(&[])), "<empty>");
    assert_eq!(command_label(&words(&["ls", "-s"])), "ls");
}

#[test]
fn reboot_commands() {
    assert!(command_reboots_board(&words(&["reset"])));
    assert!(command_reboots_board(&words(&["erase-storage", "--yes"])));
    assert!(command_reboots_board(&words(&["erasestorage"])));
    assert!(command_reboots_board(&words(&["panic", "boom"])));
    assert!(!command_reboots_board(&words(&["ls"])));
    assert!(!command_reboots_board(&words(&[])));
}

#[test]
fn command_names() {
    assert_eq!(command_kind("cp"), CommandKind::Pull);
    assert_eq!(command_kind("pull"), CommandKind::Pull);
    assert_eq!(command_kind("erase-storage"), CommandKind::EraseStorage);
    assert_eq!(command_kind("frob"), CommandKind::Unknown);
}

#[test]
fn parse_commands() {
    assert!(matches!(parse_command(&words(&["help"])), Ok(ShellCommand::Help)));
    assert!(matches!(
        parse_command(&words(&["ls", "-s"])),
        Ok(ShellCommand::Ls { sizes: true, path: None })
    ));
    match parse_command(&words(&["cp", "-r", "/logs", "out"])) {
        Ok(ShellCommand::Pull { recursive, remote, local }) => {
            assert!(recursive);
            assert_eq!(remote, "/logs");
            assert_eq!(local, "out");
        }
        _ => panic!("expected pull"),
    }
    match parse_command(&words(&["cd"])) {
        Ok(ShellCommand::Cd { path }) => assert_eq!(path, "/"),
        _ => panic!("expected cd"),
    }
    assert_eq!(
        parse_command(&words(&["cat"])).unwrap_err(),
        "cat requires a path argument"
    );
    match parse_command(&words(&["panic"])) {
        Ok(ShellCommand::Panic { message }) => assert_eq!(message, "panic requested via shell"),
        _ => panic!("expected panic"),
    }
    match parse_command(&words(&["panic", "disk", "full"])) {
        Ok(ShellCommand::Panic { message }) => assert_eq!(message, "disk full"),
        _ => panic!("expected panic"),
    }
    assert_eq!(parse_command(&words(&["reset", "now"])).unwrap_err(), "usage: reset");
    assert!(matches!(parse_command(&words(&["reset"])), Ok(ShellCommand::Reset)));
    assert_eq!(parse_command(&words(&["frob", "x"])).unwrap_err(), "unknown command: frob");
    assert!(matches!(parse_command(&words(&["exit"])), Ok(ShellCommand::Exit)));
    assert!(matches!(
        parse_command(&words(&["erase-storage", "--yes"])),
        Ok(ShellCommand::EraseStorage)
    ));
    assert_eq!(
        parse_command(&words(&["erasestorage"])).unwrap_err(),
        "confirmation required: erase-storage --yes"
    );
}

#[test]
fn lines_are_trimmed_like_str_trim() {
    assert_eq!(trim_line("  ls  \n"), "ls");
    assert_eq!(trim_line("\u{3000}\t cd a b \u{a0}"), "cd a b");
    assert_eq!(trim_line(" \r\n "), "");
    assert_eq!(trim_line("x"), "x");
}

#[test]
fn blank_lines_ask_again() {
    assert!(matches!(classify_line(""), ShellLine::Blank));
    assert!(matches!(classify_line(" \t\n"), ShellLine::Blank));
}

#[test]
fn lines_split_into_shell_words() {
    match classify_line("  pull -r '/logs dir' \"local\\\" x\"  ") {
        ShellLine::Tokens(t) => assert_eq!(t, ["pull", "-r", "/logs dir", "local\" x"]),
        other => panic!("unexpected {:?}", other),
    }
    assert!(matches!(classify_line("cd 'unclosed"), ShellLine::Unparsable));
}
