use local_review::cli::{cli_to_options, port_in_range, Cli, CliError, DEFAULT_PORT};
use local_review::types::CliOptions;

/// The command line with no arguments, as the argument parser yields it.
fn bare() -> Cli {
    Cli {
        commit1: None,
        commit2: None,
        port: DEFAULT_PORT,
        base: None,
        open: true,
        output: None,
        staged: false,
        unstaged: false,
        working: false,
        fetch: false,
        tui: false,
        context: None,
        all: false,
        frontend_dir: None,
    }
}

fn parse(cli: Cli) -> Result<CliOptions, CliError> {
    cli_to_options(cli, 3)
}

#[test]
fn parses_port_default() {
    assert_eq!(port_in_range("8989").unwrap(), 8989);
}

#[test]
fn parses_port_custom() {
    assert_eq!(port_in_range("8080").unwrap(), 8080);
}

#[test]
fn validates_port_range() {
    assert!(port_in_range("0").is_err());
    assert!(port_in_range("65536").is_err());
    assert!(port_in_range("abc").is_err());
}

#[test]
fn port_error_messages() {
    assert_eq!(port_in_range("0").unwrap_err(), "port not in range 1-65535, got 0");
    assert_eq!(port_in_range("65536").unwrap_err(), "port not in range 1-65535, got 65536");
    assert_eq!(port_in_range("abc").unwrap_err(), "`abc` isn't a port number");
    assert_eq!(port_in_range("").unwrap_err(), "`` isn't a port number");
    assert_eq!(port_in_range("+").unwrap_err(), "`+` isn't a port number");
    assert_eq!(port_in_range("-1").unwrap_err(), "`-1` isn't a port number");
    assert_eq!(port_in_range("99999999999999999999999").unwrap_err(), "`99999999999999999999999` isn't a port number");
}

#[test]
fn port_accepts_plus_sign_and_edges() {
    assert_eq!(port_in_range("+80").unwrap(), 80);
    assert_eq!(port_in_range("1").unwrap(), 1);
    assert_eq!(port_in_range("65535").unwrap(), 65535);
    assert_eq!(port_in_range("007").unwrap(), 7);
}

#[test]
fn defaults_no_mode_flags() {
    let opts = parse(bare()).unwrap();
    assert!(!opts.staged && !opts.unstaged && !opts.working && !opts.all);
    assert!(opts.commits.is_none());
}

#[test]
fn parses_all_flag() {
    let opts = parse(Cli { all: true, ..bare() }).unwrap();
    assert!(opts.all);
}

#[test]
fn rejects_all_with_other_mode_flag() {
    let err = parse(Cli { all: true, staged: true, ..bare() }).unwrap_err();
    assert!(err.message().contains("mutually exclusive"));
}

#[test]
fn rejects_all_with_working() {
    let err = parse(Cli { all: true, working: true, ..bare() }).unwrap_err();
    assert!(err.message().contains("mutually exclusive"));
}

#[test]
fn rejects_all_with_positional_commit() {
    let err = parse(Cli { all: true, commit1: Some("HEAD~1".to_string()), ..bare() }).unwrap_err();
    assert!(err.message().contains("cannot be combined"));
}

#[test]
fn second_positional_defaults_head_when_only_one_given() {
    let opts = parse(Cli { commit1: Some("abc123".to_string()), ..bare() }).unwrap();
    let commits = opts.commits.unwrap();
    assert_eq!(commits[0], "abc123");
    assert_eq!(commits[1], "HEAD");
}

#[test]
fn no_open_inverts_open_flag() {
    let with = parse(Cli { open: false, ..bare() }).unwrap();
    let without = parse(bare()).unwrap();
    assert!(with.no_open);
    assert!(!without.no_open);
}

#[test]
fn parses_defaults_correctly() {
    let opts = parse(bare()).unwrap();
    assert_eq!(opts.port, 8989);
    assert!(!opts.no_open);
    assert!(!opts.staged);
    assert!(!opts.unstaged);
    assert!(!opts.working);
    assert!(!opts.fetch);
    assert!(!opts.all);
    assert!(opts.commits.is_none());
    assert!(opts.base.is_none());
    assert!(opts.output.is_none());
}

#[test]
fn parses_port_with_custom_value() {
    let opts = parse(Cli { port: port_in_range("8080").unwrap(), ..bare() }).unwrap();
    assert_eq!(opts.port, 8080);
}

#[test]
fn parses_short_p_flag_for_port() {
    let opts = parse(Cli { port: port_in_range("4000").unwrap(), ..bare() }).unwrap();
    assert_eq!(opts.port, 4000);
}

#[test]
fn parses_staged_flag() {
    assert!(parse(Cli { staged: true, ..bare() }).unwrap().staged);
}

#[test]
fn parses_unstaged_flag() {
    assert!(parse(Cli { unstaged: true, ..bare() }).unwrap().unstaged);
}

#[test]
fn parses_working_flag() {
    assert!(parse(Cli { working: true, ..bare() }).unwrap().working);
}

#[test]
fn parses_fetch_flag() {
    assert!(parse(Cli { fetch: true, ..bare() }).unwrap().fetch);
}

#[test]
fn parses_base_option() {
    assert_eq!(parse(Cli { base: Some("main".to_string()), ..bare() }).unwrap().base.as_deref(), Some("main"));
}

#[test]
fn parses_output_option() {
    assert_eq!(
        parse(Cli { output: Some("review.md".to_string()), ..bare() }).unwrap().output.as_deref(),
        Some("review.md")
    );
}

#[test]
fn parses_two_positional_commits() {
    let opts = parse(Cli { commit1: Some("abc123".to_string()), commit2: Some("def456".to_string()), ..bare() }).unwrap();
    assert_eq!(opts.commits.unwrap(), ["abc123".to_string(), "def456".to_string()]);
}

#[test]
fn rejects_staged_with_unstaged() {
    let err = parse(Cli { staged: true, unstaged: true, ..bare() }).unwrap_err();
    assert!(err.message().contains("mutually exclusive"));
}

#[test]
fn rejects_staged_with_working() {
    let err = parse(Cli { staged: true, working: true, ..bare() }).unwrap_err();
    assert!(err.message().contains("mutually exclusive"));
}

#[test]
fn rejects_staged_with_positional_commit() {
    let err = parse(Cli { staged: true, commit1: Some("abc123".to_string()), ..bare() }).unwrap_err();
    assert!(err.message().contains("cannot be combined"));
}

#[test]
fn parses_fetch_and_port_together() {
    let opts = parse(Cli { fetch: true, port: port_in_range("3000").unwrap(), ..bare() }).unwrap();
    assert!(opts.fetch);
    assert_eq!(opts.port, 3000);
}

#[test]
fn context_defaults_to_provided_fallback() {
    assert_eq!(cli_to_options(bare(), 5).unwrap().context, 5);
}

#[test]
fn context_flag_overrides_fallback() {
    assert_eq!(cli_to_options(Cli { context: Some(8), ..bare() }, 3).unwrap().context, 8);
    assert_eq!(cli_to_options(Cli { context: Some(0), ..bare() }, 3).unwrap().context, 0);
}

#[test]
fn error_variants_and_messages() {
    assert_eq!(parse(Cli { working: true, all: true, unstaged: true, ..bare() }).unwrap_err(), CliError::ModesExclusive);
    assert_eq!(parse(Cli { unstaged: true, commit2: Some("x".to_string()), ..bare() }).unwrap_err(), CliError::ModeWithCommits);
    assert_eq!(
        CliError::ModesExclusive.message(),
        "--staged, --unstaged, --working, and --all are mutually exclusive"
    );
    assert_eq!(
        CliError::ModeWithCommits.message(),
        "--staged, --unstaged, --working, and --all cannot be combined with positional commits"
    );
}

#[test]
fn second_commit_alone_is_ignored() {
    let opts = parse(Cli { commit2: Some("def456".to_string()), ..bare() }).unwrap();
    assert!(opts.commits.is_none());
}

#[test]
fn one_mode_with_flags_is_accepted() {
    let opts = parse(Cli { staged: true, fetch: true, tui: true, base: Some("b".to_string()), ..bare() }).unwrap();
    assert!(opts.staged && opts.fetch && opts.tui);
    assert_eq!(opts.base.as_deref(), Some("b"));
}
