use funke::cli::{parse_cli, version_string, CliAction, VERSION};

#[test]
fn test_parse_cli_no_args() {
    let args = vec!["funke"];
    assert_eq!(parse_cli(&args), CliAction::RunTui);
}

#[test]
fn test_parse_cli_version_subcommand() {
    let args = vec!["funke", "version"];
    assert_eq!(parse_cli(&args), CliAction::PrintVersion);
}

#[test]
fn test_parse_cli_double_dash_version() {
    let args = vec!["funke", "--version"];
    assert_eq!(parse_cli(&args), CliAction::PrintVersion);
}

#[test]
fn test_parse_cli_short_v() {
    let args = vec!["funke", "-V"];
    assert_eq!(parse_cli(&args), CliAction::PrintVersion);
}

#[test]
fn test_parse_cli_unknown_arg_falls_through() {
    let args = vec!["funke", "bogus"];
    assert_eq!(parse_cli(&args), CliAction::RunTui);
}

#[test]
fn test_version_string_format() {
    let s = version_string();
    assert!(s.starts_with("funke "), "unexpected prefix in {s}");
    assert!(
        s.contains(VERSION),
        "missing the version in {s}"
    );
}
