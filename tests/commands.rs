use clean_rs::cmd::{Cmd, Platform};

#[test]
fn builtin_commands() {
    let tests = [
        ("Cargo.toml", "cargo"),
        ("go.mod", "go"),
        ("pom.xml", "mvn"),
        ("build.gradle", "gradle"),
    ];
    for (file, expected) in tests {
        let cmd = Cmd::resolve(file, Platform::Unix).unwrap();
        assert_eq!(cmd.command, expected);
        assert_eq!(cmd.args, ["clean"]);
    }
}

#[test]
fn builtin_commands_on_windows() {
    let tests = [
        ("Cargo.toml", "cargo"),
        ("go.mod", "go"),
        ("pom.xml", "mvn.cmd"),
        ("build.gradle", "gradle.bat"),
    ];
    for (file, expected) in tests {
        let cmd = Cmd::resolve(file, Platform::Windows).unwrap();
        assert_eq!(cmd.command, expected);
        assert_eq!(cmd.args, ["clean"]);
    }
}

#[test]
fn custom_commands() {
    let rm = Cmd::resolve("!rm -rf .", Platform::Unix).unwrap();
    assert_eq!(rm.command, "rm");
    assert_eq!(rm.args, ["-rf", "."]);
}

#[test]
fn fails_on_parse_invalid_command() {
    let err = Cmd::resolve("test", Platform::Unix).unwrap_err();

    assert_eq!(err.to_string(), "command can not be resolved: `test`");
}

#[test]
fn custom_command_keeps_empty_words() {
    let cmd = Cmd::custom("!echo  a").unwrap();
    assert_eq!(cmd.command, "echo");
    assert_eq!(cmd.args, ["", "a"]);
}

#[test]
fn custom_command_without_arguments() {
    let cmd = Cmd::custom("!make").unwrap();
    assert_eq!(cmd.command, "make");
    assert!(cmd.args.is_empty());
}

#[test]
fn custom_command_needs_bang() {
    assert!(Cmd::custom("make clean").is_none());
    assert!(Cmd::custom("").is_none());
}

#[test]
fn custom_command_takes_precedence_over_builtin_lookup() {
    let cmd = Cmd::resolve("!Cargo.toml", Platform::Unix).unwrap();
    assert_eq!(cmd.command, "Cargo.toml");
    assert!(cmd.args.is_empty());
}

#[test]
fn builtin_is_exact_on_name() {
    assert!(Cmd::builtin("cargo.toml", Platform::Unix).is_none());
    assert!(Cmd::builtin("Cargo.toml ", Platform::Unix).is_none());
    assert!(Cmd::builtin("", Platform::Windows).is_none());
}

#[test]
fn new_keeps_program_and_arguments() {
    let cmd = Cmd::new("pwd".to_string(), vec!["-L".to_string()]);
    assert_eq!(cmd.command, "pwd");
    assert_eq!(cmd.args, ["-L"]);
    let copy = cmd.duplicate();
    assert_eq!(copy.command, "pwd");
    assert_eq!(copy.args, ["-L"]);
}

#[test]
fn from_words_splits_on_single_spaces() {
    let cmd = Cmd::from_words("mvn -B clean");
    assert_eq!(cmd.command, "mvn");
    assert_eq!(cmd.args, ["-B", "clean"]);
}
