use minishell::dispatch::{cd_destination, split_args};
use minishell::message::{
    builtin_message, cd_error_message, command_not_found_message, executable_message,
    not_found_message,
};
use minishell::text::{is_blank, trim_str};

#[test]
fn cd_tilde_goes_home() {
    let home = String::from("/home/user");
    assert_eq!(cd_destination("~", Some(home.as_str())), Some("/home/user".to_string()));
}

#[test]
fn cd_tilde_without_home_resolves_nowhere() {
    assert_eq!(cd_destination("~", None), None);
}

#[test]
fn cd_literal_path_passes_through() {
    assert_eq!(cd_destination("/tmp", Some("/home/user")), Some("/tmp".to_string()));
    assert_eq!(cd_destination("..", None), Some("..".to_string()));
}

#[test]
fn cd_failure_message_is_exact() {
    assert_eq!(
        cd_error_message("/nonexistent/dir"),
        "cd: /nonexistent/dir: No such file or directory"
    );
}

#[test]
fn unknown_command_message_is_exact() {
    assert_eq!(
        command_not_found_message("doesnotexist123"),
        "doesnotexist123: command not found"
    );
}

#[test]
fn type_messages_are_exact() {
    assert_eq!(builtin_message("pwd"), "pwd is a shell builtin");
    assert_eq!(executable_message("cat", "/bin"), "cat is /bin/cat");
    assert_eq!(not_found_message("zzz"), "zzz: not found");
}

#[test]
fn split_args_on_runs_of_whitespace() {
    assert_eq!(
        split_args("a  b c"),
        vec!["a".to_string(), "b".to_string(), "c".to_string()]
    );
}

#[test]
fn split_args_empty_and_blank() {
    assert_eq!(split_args(""), Vec::<String>::new());
    assert_eq!(split_args("   "), Vec::<String>::new());
}

#[test]
fn split_args_mixed_whitespace() {
    assert_eq!(
        split_args("\t-la\n /tmp "),
        vec!["-la".to_string(), "/tmp".to_string()]
    );
}

#[test]
fn trim_removes_edges_only() {
    assert_eq!(trim_str("  a  b  "), "a  b");
    assert_eq!(trim_str("\n"), "");
    assert_eq!(trim_str("x"), "x");
}

#[test]
fn blank_lines_are_recognized() {
    assert!(is_blank(""));
    assert!(is_blank(" \t\r\n"));
    assert!(!is_blank(" x "));
}
