use minishell::classify::{classify_command, get_command_type, is_builtin, CommandType};

#[test]
fn type_of_builtin_echo() {
    let dirs: Vec<String> = Vec::new();
    let present: Vec<bool> = Vec::new();
    assert_eq!(get_command_type("echo", &dirs, &present), "echo is a shell builtin");
}

#[test]
fn type_of_every_builtin() {
    let dirs: Vec<String> = Vec::new();
    let present: Vec<bool> = Vec::new();
    for name in ["exit", "echo", "type", "pwd", "cd"] {
        assert!(is_builtin(name));
        let line = get_command_type(name, &dirs, &present);
        assert_eq!(line, format!("{} is a shell builtin", name));
    }
}

#[test]
fn type_of_unknown_name() {
    let dirs = vec!["/bin".to_string()];
    let present = vec![false];
    assert_eq!(
        get_command_type("nonexistent_cmd_xyz", &dirs, &present),
        "nonexistent_cmd_xyz: not found"
    );
}

#[test]
fn type_of_resolved_executable() {
    // With /bin on the search path and /bin/ls present, `type ls` names it.
    let dirs = vec!["/bin".to_string()];
    let present = vec![true];
    assert_eq!(get_command_type("ls", &dirs, &present), "ls is /bin/ls");
}

#[test]
fn type_prefers_earlier_directory() {
    let dirs = vec!["/usr/bin".to_string(), "/bin".to_string()];
    let present = vec![true, true];
    assert_eq!(get_command_type("foo", &dirs, &present), "foo is /usr/bin/foo");
}

#[test]
fn builtin_shadows_search_path() {
    let dirs = vec!["/bin".to_string()];
    let present = vec![true];
    assert_eq!(get_command_type("type", &dirs, &present), "type is a shell builtin");
}

#[test]
fn classification_of_executable_carries_name_and_directory() {
    let dirs = vec!["/usr/bin".to_string(), "/bin".to_string()];
    let present = vec![false, true];
    match classify_command("ls", &dirs, &present) {
        CommandType::Executable(name, dir) => {
            assert_eq!(name, "ls");
            assert_eq!(dir, "/bin");
        },
        other => panic!("expected Executable, got {:?}", other),
    }
}

#[test]
fn classification_of_builtin() {
    let dirs: Vec<String> = Vec::new();
    let present: Vec<bool> = Vec::new();
    assert!(matches!(classify_command("cd", &dirs, &present), CommandType::BuiltIn));
}

#[test]
fn classification_of_unknown_holds_message() {
    let dirs = vec!["/bin".to_string()];
    let present = vec![false];
    match classify_command("nope", &dirs, &present) {
        CommandType::Unrecognized(msg) => assert_eq!(msg, "nope: not found"),
        other => panic!("expected Unrecognized, got {:?}", other),
    }
}

#[test]
fn is_builtin_rejects_near_misses() {
    assert!(!is_builtin("Echo"));
    assert!(!is_builtin("exi"));
    assert!(!is_builtin("exits"));
    assert!(!is_builtin(""));
}
