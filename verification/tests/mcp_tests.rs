use local_review::cli::DEFAULT_PORT;
use local_review::mcp::{ArgsError, StartReviewArgs};

#[test]
fn default_args_map_to_default_options() {
    let opts = StartReviewArgs::default().into_options(3).unwrap();
    assert!(!opts.staged && !opts.unstaged && !opts.working && !opts.all);
    assert!(opts.commits.is_none());
    assert_eq!(opts.context, 3);
}

#[test]
fn mode_flags_map_correctly() {
    let mk = |mode: &str| StartReviewArgs {
        mode: Some(mode.to_string()),
        ..Default::default()
    };
    assert!(mk("staged").into_options(3).unwrap().staged);
    assert!(mk("unstaged").into_options(3).unwrap().unstaged);
    assert!(mk("working").into_options(3).unwrap().working);
    assert!(mk("all").into_options(3).unwrap().all);
}

#[test]
fn context_override_takes_precedence() {
    let args = StartReviewArgs {
        context: Some(10),
        ..Default::default()
    };
    assert_eq!(args.into_options(3).unwrap().context, 10);
}

#[test]
fn commits_mode_requires_commit1() {
    let args = StartReviewArgs {
        mode: Some("commits".to_string()),
        ..Default::default()
    };
    assert!(args.into_options(3).is_err());
}

#[test]
fn commits_mode_defaults_head() {
    let args = StartReviewArgs {
        mode: Some("commits".to_string()),
        commit1: Some("abc123".to_string()),
        ..Default::default()
    };
    let opts = args.into_options(3).unwrap();
    assert_eq!(opts.commits.unwrap(), ["abc123".to_string(), "HEAD".to_string()]);
}

#[test]
fn unknown_mode_is_rejected() {
    let args = StartReviewArgs {
        mode: Some("bogus".to_string()),
        ..Default::default()
    };
    assert!(args.into_options(3).is_err());
}

#[test]
fn port_defaults_to_8989_when_absent() {
    assert_eq!(StartReviewArgs::default().into_options(3).unwrap().port, DEFAULT_PORT);
}

#[test]
fn custom_port_is_applied() {
    let args = StartReviewArgs {
        port: Some(8080),
        ..Default::default()
    };
    assert_eq!(args.into_options(3).unwrap().port, 8080);
}

#[test]
fn zero_port_is_rejected() {
    let args = StartReviewArgs {
        port: Some(0),
        ..Default::default()
    };
    assert!(args.into_options(3).is_err());
}

#[test]
fn no_open_defaults_false_and_is_forwarded() {
    assert!(!StartReviewArgs::default().into_options(3).unwrap().no_open);
    let args = StartReviewArgs {
        no_open: Some(true),
        ..Default::default()
    };
    assert!(args.into_options(3).unwrap().no_open);
}

#[test]
fn output_and_frontend_dir_are_forwarded() {
    let args = StartReviewArgs {
        output: Some("review.md".to_string()),
        frontend_dir: Some("/tmp/frontend".to_string()),
        ..Default::default()
    };
    let opts = args.into_options(3).unwrap();
    assert_eq!(opts.output.as_deref(), Some("review.md"));
    assert_eq!(opts.frontend_dir.as_deref(), Some("/tmp/frontend"));
}

#[test]
fn refusals_carry_their_messages() {
    let e = StartReviewArgs { port: Some(0), ..Default::default() }.into_options(3).unwrap_err();
    assert_eq!(e, ArgsError::Port("port not in range 1-65535, got 0".to_string()));
    assert_eq!(e.message(), "port not in range 1-65535, got 0");
    let e = StartReviewArgs { mode: Some("commits".to_string()), ..Default::default() }.into_options(3).unwrap_err();
    assert_eq!(e, ArgsError::MissingCommit1);
    assert_eq!(e.message(), "mode \"commits\" requires commit1");
    let e = StartReviewArgs { mode: Some("bogus".to_string()), ..Default::default() }.into_options(3).unwrap_err();
    assert_eq!(e, ArgsError::UnknownMode("bogus".to_string()));
    assert_eq!(e.message(), "unknown mode \"bogus\"; expected staged|unstaged|working|all|commits");
}

#[test]
fn port_is_checked_before_mode() {
    let e = StartReviewArgs { port: Some(0), mode: Some("bogus".to_string()), ..Default::default() }
        .into_options(3)
        .unwrap_err();
    assert!(matches!(e, ArgsError::Port(_)));
}

#[test]
fn fetch_and_explicit_commits_are_forwarded() {
    let opts = StartReviewArgs {
        mode: Some("commits".to_string()),
        commit1: Some("a".to_string()),
        commit2: Some("b".to_string()),
        fetch: Some(true),
        base: Some("main".to_string()),
        ..Default::default()
    }
    .into_options(7)
    .unwrap();
    assert!(opts.fetch);
    assert_eq!(opts.commits.unwrap(), ["a".to_string(), "b".to_string()]);
    assert_eq!(opts.base.as_deref(), Some("main"));
    assert_eq!(opts.context, 7);
    assert!(!opts.tui);
}

#[test]
fn working_tree_mode_with_commits_is_refused() {
    for mode in ["staged", "unstaged", "working", "all"] {
        let e = StartReviewArgs {
            mode: Some(mode.to_string()),
            commit1: Some("abc".to_string()),
            ..Default::default()
        }
        .into_options(3)
        .unwrap_err();
        assert_eq!(e, ArgsError::ModeWithCommits(mode.to_string()));
    }
    let e = StartReviewArgs { mode: Some("staged".to_string()), commit2: Some("def".to_string()), ..Default::default() }
        .into_options(3)
        .unwrap_err();
    assert_eq!(e.message(), "mode \"staged\" cannot be combined with commit1/commit2");
}
