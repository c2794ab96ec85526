use rmux::cli::{parse_args, ClientOptions, ParseError, ParseResult};

fn args(s: &[&str]) -> Vec<String> {
    s.iter().map(|x| (*x).to_string()).collect()
}

/// Unwrap a `ParseResult::Run` or panic.
fn unwrap_run(result: Result<ParseResult, ParseError>) -> ClientOptions {
    match result.unwrap() {
        ParseResult::Run(opts) => opts,
        ParseResult::Version => panic!("expected Run, got Version"),
    }
}

#[test]
fn no_args_defaults() {
    let opts = unwrap_run(parse_args(&args(&["rmux"])));
    assert_eq!(opts.socket_name, "default");
    assert_eq!(opts.command_start, 1);
}

#[test]
fn socket_name_separate() {
    let opts = unwrap_run(parse_args(&args(&["rmux", "-L", "mysock", "new"])));
    assert_eq!(opts.socket_name, "mysock");
}

#[test]
fn socket_name_attached() {
    let opts = unwrap_run(parse_args(&args(&["rmux", "-Lmysock", "new"])));
    assert_eq!(opts.socket_name, "mysock");
}

#[test]
fn missing_arg_for_l() {
    let err = parse_args(&args(&["rmux", "-L"])).unwrap_err();
    assert!(matches!(err, ParseError::MissingArgument('L')));
}

#[test]
fn missing_arg_for_s() {
    let err = parse_args(&args(&["rmux", "-S"])).unwrap_err();
    assert!(matches!(err, ParseError::MissingArgument('S')));
}

#[test]
fn missing_arg_for_f() {
    let err = parse_args(&args(&["rmux", "-f"])).unwrap_err();
    assert!(matches!(err, ParseError::MissingArgument('f')));
}

#[test]
fn missing_arg_for_c() {
    let err = parse_args(&args(&["rmux", "-c"])).unwrap_err();
    assert!(matches!(err, ParseError::MissingArgument('c')));
}

#[test]
fn unknown_option() {
    let err = parse_args(&args(&["rmux", "-Z"])).unwrap_err();
    assert!(matches!(err, ParseError::UnknownOption('Z')));
}

#[test]
fn no_start_server_flag() {
    let opts = unwrap_run(parse_args(&args(&["rmux", "-N", "list-sessions"])));
    assert!(opts.no_start_server);
}

#[test]
fn command_args_start_after_options() {
    let opts = unwrap_run(parse_args(&args(&["rmux", "-2", "-u", "new-session", "-s", "test"])));
    assert_eq!(opts.command_start, 3);
}

#[test]
fn double_dash_stops_parsing() {
    let opts = unwrap_run(parse_args(&args(&["rmux", "--", "-L", "foo"])));
    assert_eq!(opts.command_start, 2);
    assert_eq!(opts.socket_name, "default");
}

#[test]
fn socket_path_option() {
    let opts = unwrap_run(parse_args(&args(&["rmux", "-S", "/tmp/my.sock"])));
    assert_eq!(opts.socket_path.as_deref(), Some("/tmp/my.sock"));
}

#[test]
fn control_mode_flag() {
    let opts = unwrap_run(parse_args(&args(&["rmux", "-C", "new"])));
    assert!(opts.control_mode);
}

#[test]
fn control_mode_stacked() {
    let opts = unwrap_run(parse_args(&args(&["rmux", "-2C", "new"])));
    assert!(opts.control_mode);
}

#[test]
fn stacked_flags() {
    let opts = unwrap_run(parse_args(&args(&["rmux", "-2uv", "new"])));
    assert_eq!(opts.command_start, 2);
}

#[test]
fn version_flag() {
    let result = parse_args(&args(&["rmux", "-V"])).unwrap();
    assert!(matches!(result, ParseResult::Version));
}

#[test]
fn error_display_formats() {
    assert_eq!(ParseError::MissingArgument('L').message(), "option requires an argument -- L");
    assert_eq!(ParseError::UnknownOption('Z').message(), "unknown option -- Z");
}

#[test]
fn config_and_shell_command_values() {
    let opts = unwrap_run(parse_args(&args(&["rmux", "-fmy.conf", "-c", "echo hi", "attach"])));
    assert_eq!(opts.config_file.as_deref(), Some("my.conf"));
    assert_eq!(opts.shell_command.as_deref(), Some("echo hi"));
    assert_eq!(opts.command_start, 4);
}

#[test]
fn value_option_ends_its_group() {
    // Everything after -L in the group is the socket name.
    let opts = unwrap_run(parse_args(&args(&["rmux", "-LCx"])));
    assert_eq!(opts.socket_name, "Cx");
    assert!(!opts.control_mode);
}

#[test]
fn non_ascii_option_reports_first_byte() {
    let err = parse_args(&args(&["rmux", "-é"])).err().unwrap();
    assert_eq!(err, ParseError::UnknownOption('\u{c3}'));
}

#[test]
fn lone_dash_is_skipped() {
    let opts = unwrap_run(parse_args(&args(&["rmux", "-", "new"])));
    assert_eq!(opts.command_start, 2);
}

#[test]
fn flags_law_example() {
    let opts = unwrap_run(parse_args(&args(&["rmux", "-2", "-u", "-v", "-l", "-C", "-D", "new-session"])));
    assert_eq!(opts.command_start, 7);
    assert!(opts.control_mode);
}
