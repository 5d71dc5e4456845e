use clean_rs::cmd::{Cmd, Platform};
use clean_rs::conf::{parse_line, Config, Line, Plan};
use clean_rs::Error;

const HELP: &str = "\
# Config Examples:

# rm directory recursively
node_modules/

# run custom command
pom.xml = mvn -B clean
";

fn into_cmd(plan: Plan) -> Option<Cmd> {
    match plan {
        Plan::Cmd(cmd) => Some(cmd),
        Plan::RmDir(_) => None,
    }
}

fn removed_dir(plan: Option<Plan>) -> Option<String> {
    match plan {
        Some(Plan::RmDir(dir)) => Some(dir),
        _ => None,
    }
}

#[test]
fn parse_empty_config() {
    let config = Config::empty();
    assert_eq!(
        into_cmd(config.parse("Cargo.toml", false, Platform::Unix).unwrap())
            .unwrap()
            .command,
        "cargo"
    );
}

#[test]
fn parse_dir_config() {
    let config = Config::load("node_modules/").unwrap();
    assert_eq!(
        into_cmd(config.parse("Cargo.toml", false, Platform::Unix).unwrap())
            .unwrap()
            .command,
        "cargo"
    );
    assert_eq!(
        removed_dir(config.parse("node_modules", true, Platform::Unix)).unwrap(),
        "node_modules"
    );
}

#[test]
fn skip_comments() {
    let config = Config::load("#Node Dependencies Directory\n node_modules/").unwrap();
    assert_eq!(
        removed_dir(config.parse("node_modules", true, Platform::Unix)).unwrap(),
        "node_modules"
    );
}

#[test]
fn parse_trimmed_dir_config() {
    let config = Config::load(" node_modules/ ").unwrap();

    assert_eq!(
        removed_dir(config.parse("node_modules", true, Platform::Unix)).unwrap(),
        "node_modules"
    );
}

#[test]
fn parse_trimmed_dir_contains_empty_lines() {
    let config = Config::load("node_modules/\r\n\r\ntarget/").unwrap();
    assert_eq!(
        removed_dir(config.parse("node_modules", true, Platform::Unix)).unwrap(),
        "node_modules"
    );
    assert_eq!(
        removed_dir(config.parse("target", true, Platform::Unix)).unwrap(),
        "target"
    );
}

#[test]
fn parse_custom_cmd() {
    let config = Config::load("pom.xml = mvn -B clean").unwrap();
    let mvn = into_cmd(config.parse("pom.xml", false, Platform::Unix).unwrap()).unwrap();
    assert_eq!(mvn.command, "mvn");
    assert_eq!(mvn.args, ["-B", "clean"]);
}

#[test]
fn fail_with_custom_empty_cmd() {
    let result = Config::load("pom.xml = ");

    assert!(result.is_err());
}

#[test]
fn fail_with_empty_file_when_parse_custom_cmd() {
    let result = Config::load(" = rm -rf");

    assert!(result.is_err());
}

#[test]
fn rm_dir_plan_apply_dir_only() {
    assert!(Plan::RmDir("target".into()).filter(true).is_some());
    assert!(Plan::RmDir("target".into()).filter(false).is_none());
}

#[test]
fn malformed_file_reports_help() {
    let err = Config::load("node_modules/\nnot a rule").unwrap_err();
    assert!(matches!(err, Error::Message(_)));
    assert_eq!(err.to_string(), HELP);
}

#[test]
fn line_without_name_or_command_is_malformed() {
    assert!(matches!(parse_line(" = rm -rf"), Line::Malformed));
    assert!(matches!(parse_line("pom.xml ="), Line::Malformed));
    assert!(matches!(parse_line("pom.xml"), Line::Malformed));
    assert!(matches!(parse_line(" / "), Line::Malformed));
}

#[test]
fn blank_and_comment_lines_are_skipped() {
    assert!(matches!(parse_line(""), Line::Skip));
    assert!(matches!(parse_line(" \t\r"), Line::Skip));
    assert!(matches!(parse_line("  # pom.xml = mvn"), Line::Skip));
}

#[test]
fn command_rule_splits_at_first_equals_sign() {
    match parse_line(" make = make A=1 clean ") {
        Line::Rule(name, Plan::Cmd(cmd)) => {
            assert_eq!(name, "make");
            assert_eq!(cmd.command, "make");
            assert_eq!(cmd.args, ["A=1", "clean"]);
        }
        _ => panic!("expected a command rule"),
    }
}

#[test]
fn later_rule_overrides_earlier() {
    let config = Config::load("build/\nbuild = make clean").unwrap();
    let cmd = into_cmd(config.parse("build", true, Platform::Unix).unwrap()).unwrap();
    assert_eq!(cmd.command, "make");
    assert_eq!(cmd.args, ["clean"]);
}

#[test]
fn user_rule_overrides_builtin() {
    let config = Config::load("Cargo.toml = cargo clean --release").unwrap();
    let cmd = into_cmd(config.parse("Cargo.toml", false, Platform::Unix).unwrap()).unwrap();
    assert_eq!(cmd.command, "cargo");
    assert_eq!(cmd.args, ["clean", "--release"]);
}

#[test]
fn directory_rule_skips_regular_file() {
    let config = Config::load("target/").unwrap();
    assert!(config.parse("target", false, Platform::Unix).is_none());
    assert!(config.parse("target", true, Platform::Unix).is_some());
}

#[test]
fn unknown_entry_has_no_plan() {
    let config = Config::empty();
    assert!(config.parse("README.md", false, Platform::Unix).is_none());
    assert!(config.parse("src", true, Platform::Unix).is_none());
}

#[test]
fn bang_entry_name_is_a_command() {
    let config = Config::empty();
    let cmd = into_cmd(config.parse("!true", false, Platform::Unix).unwrap()).unwrap();
    assert_eq!(cmd.command, "true");
}

#[test]
fn unicode_white_space_is_trimmed() {
    let config = Config::load("\u{3000}dist/\u{a0}").unwrap();
    assert_eq!(
        removed_dir(config.parse("dist", true, Platform::Unix)).unwrap(),
        "dist"
    );
}
