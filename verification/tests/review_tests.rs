use local_review::review::{
    context_choice, diff_request, file_changes_from_diffs, lists_files_from_git, review_file_list, last_pushed_lookups, plan_mode_switch,
    plan_range, range_ends, review_metadata, DiffRequest, PushedLookup, RangePlan, RangeResult,
    RefSource, FULL_CONTEXT_LINES,
};
use local_review::types::{CliOptions, FileChange, FileStatus, ParsedFileDiff};

fn refs(p: &RangePlan) -> Vec<String> {
    p.refs
        .iter()
        .map(|r| match r {
            RefSource::Given(s) => format!("given:{}", s),
            RefSource::Resolved(s) => format!("resolve:{}", s),
            RefSource::LastPushed => "last-pushed".to_string(),
        })
        .collect()
}

#[test]
fn returns_commits_mode_for_explicit_commits() {
    let options = CliOptions {
        commits: Some(["aaa".into(), "bbb".into()]),
        ..Default::default()
    };
    let plan = plan_range(&options);
    assert_eq!(plan.mode, "commits");
    assert_eq!(refs(&plan), vec!["given:aaa", "given:bbb"]);
}

#[test]
fn returns_staged_mode() {
    let options = CliOptions {
        staged: true,
        ..Default::default()
    };
    let plan = plan_range(&options);
    assert_eq!(plan.mode, "staged");
    assert!(plan.refs.is_empty());
}

#[test]
fn returns_unstaged_mode() {
    let options = CliOptions {
        unstaged: true,
        ..Default::default()
    };
    let plan = plan_range(&options);
    assert_eq!(plan.mode, "unstaged");
    assert!(plan.refs.is_empty());
}

#[test]
fn returns_working_mode() {
    let options = CliOptions {
        working: true,
        ..Default::default()
    };
    let plan = plan_range(&options);
    assert_eq!(plan.mode, "working");
    assert!(plan.refs.is_empty());
}

#[test]
fn base_and_default_plans() {
    let all = plan_range(&CliOptions { all: true, base: Some("main".into()), ..Default::default() });
    assert_eq!((all.mode.as_str(), refs(&all)), ("all", vec!["resolve:main".to_string()]));
    let all = plan_range(&CliOptions { all: true, ..Default::default() });
    assert_eq!(refs(&all), vec!["last-pushed"]);
    let based = plan_range(&CliOptions { base: Some("v1".into()), ..Default::default() });
    assert_eq!((based.mode.as_str(), refs(&based)), ("commits", vec!["resolve:v1".to_string(), "given:HEAD".to_string()]));
    let default = plan_range(&CliOptions::default());
    assert_eq!((default.mode.as_str(), refs(&default)), ("commits", vec!["last-pushed".to_string(), "given:HEAD".to_string()]));
}

#[test]
fn mode_switch_plans_and_refusals() {
    let p = plan_mode_switch("last_pushed", &None, &None, &None).unwrap();
    assert_eq!((p.mode.as_str(), refs(&p)), ("commits", vec!["last-pushed".to_string(), "given:HEAD".to_string()]));
    let p = plan_mode_switch("commits", &None, &Some("a".into()), &None).unwrap();
    assert_eq!(refs(&p), vec!["resolve:a", "resolve:HEAD"]);
    let p = plan_mode_switch("staged", &Some("x".into()), &None, &None).unwrap();
    assert_eq!((p.mode.as_str(), p.refs.len()), ("staged", 0));
    assert_eq!(plan_mode_switch("commits", &None, &None, &None).unwrap_err(), "commit1 required");
    assert_eq!(plan_mode_switch("bogus", &None, &None, &None).unwrap_err(), "Unknown diff mode: bogus");
}

#[test]
fn diff_requests_and_range_ends() {
    let r = RangeResult { mode: "commits".into(), args: vec!["a".into(), "b".into()] };
    assert!(matches!(diff_request(&r).unwrap(), DiffRequest::Commits(ref x, ref y) if x == "a" && y == "b"));
    assert_eq!(range_ends(&r), ("a".to_string(), "b".to_string()));
    let s = RangeResult { mode: "staged".into(), args: vec![] };
    assert!(matches!(diff_request(&s).unwrap(), DiffRequest::Staged));
    assert_eq!(range_ends(&s), ("staged".to_string(), "HEAD".to_string()));
    let bad = RangeResult { mode: "weird".into(), args: vec![] };
    assert_eq!(diff_request(&bad).unwrap_err(), "Unknown range mode: weird");
    let m = review_metadata("repo".into(), &r, vec![], "t".into(), "tok".into());
    assert_eq!(m.commit_range, "a..b");
}

#[test]
fn file_list_from_diffs() {
    let d = |old: &str, new: &str, status| ParsedFileDiff {
        old_path: old.into(),
        new_path: new.into(),
        hunks: vec![],
        status,
        additions: 2,
        deletions: 1,
        is_binary: false,
        is_large: false,
    };
    let list = file_changes_from_diffs(&vec![d("a", "a", FileStatus::Modified), d("x", "y", FileStatus::Renamed)]);
    assert_eq!(list[0].path, "a");
    assert_eq!(list[0].old_path, None);
    assert_eq!(list[1].old_path.as_deref(), Some("x"));
    assert_eq!(list[1].status, FileStatus::Renamed);
    assert_eq!((list[1].additions, list[1].deletions), (2, 1));
}

#[test]
fn context_choices() {
    assert_eq!(context_choice(None, 3), None);
    assert_eq!(context_choice(Some("notanumber"), 3), None);
    assert_eq!(context_choice(Some("3"), 3), None);
    assert_eq!(context_choice(Some("1"), 3), Some(1));
    assert_eq!(context_choice(Some("full"), 3), Some(FULL_CONTEXT_LINES));
    assert_eq!(context_choice(Some("4294967296"), 3), None);
}

#[test]
fn last_pushed_lookup_order() {
    let names = |v: Vec<PushedLookup>| -> Vec<String> {
        v.iter()
            .map(|l| match l {
                PushedLookup::Direct(r) => format!("direct:{}", r),
                PushedLookup::MergeBaseWithHead(r) => format!("base:{}", r),
            })
            .collect()
    };
    assert_eq!(
        names(last_pushed_lookups("feature")),
        vec!["direct:@{push}", "base:@{upstream}", "base:origin/feature", "base:origin/main", "base:origin/master"]
    );
    assert_eq!(names(last_pushed_lookups("HEAD")).len(), 4);
}

#[test]
fn review_file_list_source() {
    let d = ParsedFileDiff {
        old_path: "a".into(),
        new_path: "a".into(),
        hunks: vec![],
        status: FileStatus::Modified,
        additions: 1,
        deletions: 0,
        is_binary: false,
        is_large: false,
    };
    let git = FileChange { path: "g".into(), old_path: None, status: FileStatus::Added, additions: 5, deletions: 0 };
    let commits = RangeResult { mode: "commits".into(), args: vec!["a".into(), "b".into()] };
    let staged = RangeResult { mode: "staged".into(), args: vec![] };
    assert!(lists_files_from_git(&commits));
    assert!(!lists_files_from_git(&staged));
    let l = review_file_list(&commits, Some(vec![git.clone()]), &vec![d.clone()]);
    assert_eq!(l.len(), 1);
    assert_eq!(l[0].path, "g");
    assert!(review_file_list(&commits, None, &vec![d.clone()]).is_empty());
    let l = review_file_list(&staged, None, &vec![d]);
    assert_eq!(l[0].path, "a");
    assert_eq!(l[0].additions, 1);
}
