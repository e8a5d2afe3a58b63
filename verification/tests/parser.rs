use minishell::command::{parse_command, ShellCommand};

#[test]
fn parse_exit_with_code() {
    match parse_command("exit 42\n") {
        Some(ShellCommand::Exit(n)) => assert_eq!(n, 42),
        other => panic!("expected Exit, got {:?}", other),
    }
}

#[test]
fn parse_exit_missing_argument() {
    match parse_command("exit\n") {
        Some(ShellCommand::Exit(n)) => assert_eq!(n, 0),
        other => panic!("expected Exit, got {:?}", other),
    }
}

#[test]
fn parse_exit_non_numeric_argument() {
    match parse_command("exit abc\n") {
        Some(ShellCommand::Exit(n)) => assert_eq!(n, 0),
        other => panic!("expected Exit, got {:?}", other),
    }
}

#[test]
fn parse_exit_negative_code() {
    match parse_command("exit -5\n") {
        Some(ShellCommand::Exit(n)) => assert_eq!(n, -5),
        other => panic!("expected Exit, got {:?}", other),
    }
}

#[test]
fn parse_exit_overflowing_argument_defaults_to_zero() {
    match parse_command("exit 99999999999\n") {
        Some(ShellCommand::Exit(n)) => assert_eq!(n, 0),
        other => panic!("expected Exit, got {:?}", other),
    }
}

#[test]
fn parse_echo_keeps_internal_spacing() {
    match parse_command("echo   hello   world\n") {
        Some(ShellCommand::Echo(text)) => assert_eq!(text, "hello   world"),
        other => panic!("expected Echo, got {:?}", other),
    }
}

#[test]
fn parse_echo_empty_argument() {
    match parse_command("echo\n") {
        Some(ShellCommand::Echo(text)) => assert_eq!(text, ""),
        other => panic!("expected Echo, got {:?}", other),
    }
}

#[test]
fn parse_type_command() {
    match parse_command("type ls\n") {
        Some(ShellCommand::Type(name)) => assert_eq!(name, "ls"),
        other => panic!("expected Type, got {:?}", other),
    }
}

#[test]
fn parse_pwd_command() {
    assert!(matches!(parse_command("pwd\n"), Some(ShellCommand::Pwd)));
}

#[test]
fn parse_pwd_ignores_arguments() {
    assert!(matches!(parse_command("pwd now\n"), Some(ShellCommand::Pwd)));
}

#[test]
fn parse_cd_command() {
    match parse_command("cd /tmp\n") {
        Some(ShellCommand::Cd(path)) => assert_eq!(path, "/tmp"),
        other => panic!("expected Cd, got {:?}", other),
    }
}

#[test]
fn parse_external_with_arguments() {
    match parse_command("ls -la /tmp\n") {
        Some(ShellCommand::Program(name, args)) => {
            assert_eq!(name, "ls");
            assert_eq!(args, "-la /tmp");
        },
        other => panic!("expected Program, got {:?}", other),
    }
}

#[test]
fn parse_unknown_single_token() {
    match parse_command("doesnotexist123\n") {
        Some(ShellCommand::Program(name, args)) => {
            assert_eq!(name, "doesnotexist123");
            assert_eq!(args, "");
        },
        other => panic!("expected Program, got {:?}", other),
    }
}

#[test]
fn parse_never_fails_on_odd_input() {
    match parse_command("!!! ???") {
        Some(ShellCommand::Program(name, args)) => {
            assert_eq!(name, "!!!");
            assert_eq!(args, "???");
        },
        other => panic!("expected Program, got {:?}", other),
    }
}

#[test]
fn parse_splits_at_tab_as_well() {
    match parse_command("echo\thi\n") {
        Some(ShellCommand::Echo(text)) => assert_eq!(text, "hi"),
        other => panic!("expected Echo, got {:?}", other),
    }
}

#[test]
fn parse_is_case_sensitive() {
    assert!(matches!(
        parse_command("Echo hi\n"),
        Some(ShellCommand::Program(name, _)) if name == "Echo"
    ));
}
