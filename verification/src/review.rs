//! Planning a review: which refs a diff range needs, which diff to take for
//! a resolved range, the file list and metadata of a review, the context
//! width a request asks for, and switching the diff of a running review.
use vstd::prelude::*;
use crate::cli::{opt_commits, parse_unsigned, unsigned_value};
use crate::text::{chars_of, equals_str, extend_str, string_of};
use crate::types::{
    CliOptions, DiffResponse, FileChange, FileDiffV, ParsedFileDiff, ReviewMetadata, files_view,
    opt_str,
};

verus! {

broadcast use vstd::string::group_string_axioms;

/// Where one ref of a diff range comes from.
#[derive(Debug)]
pub enum RefSource {
    /// Used as given.
    Given(String),
    /// Resolved to a commit id by the repository.
    Resolved(String),
    /// The last pushed commit of the current branch.
    LastPushed,
}

/// The mathematical value of a [`RefSource`].
pub enum RefV {
    Given(Seq<char>),
    Resolved(Seq<char>),
    LastPushed,
}

impl View for RefSource {
    type V = RefV;

    open spec fn view(&self) -> RefV {
        match self {
            RefSource::Given(s) => RefV::Given(s@),
            RefSource::Resolved(s) => RefV::Resolved(s@),
            RefSource::LastPushed => RefV::LastPushed,
        }
    }
}

/// A diff range still to be resolved: its mode and where each of its refs
/// comes from.
#[derive(Debug)]
pub struct RangePlan {
    pub mode: String,
    pub refs: Vec<RefSource>,
}

/// The views of a sequence of ref sources.
pub open spec fn refs_view(s: Seq<RefSource>) -> Seq<RefV> {
    s.map_values(|r: RefSource| r@)
}

/// A resolved diff range: its mode and its refs.
#[derive(Debug)]
pub struct RangeResult {
    pub mode: String,
    pub args: Vec<String>,
}

impl Clone for RangeResult {
    fn clone(&self) -> (r: Self)
        ensures
            r.mode@ == self.mode@,
            r.args@ == self.args@,
    {
        RangeResult { mode: self.mode.clone(), args: self.args.clone() }
    }
}

/// The plan of the range the command-line options select: explicit commits
/// as given; `staged`, `unstaged` and `working` without refs; `all` from the
/// resolved base (or the last pushed commit); a base resolved against `HEAD`;
/// by default the last pushed commit against `HEAD`.
pub open spec fn range_plan_of(
    commits: Option<(Seq<char>, Seq<char>)>,
    staged: bool,
    unstaged: bool,
    working: bool,
    all: bool,
    base: Option<Seq<char>>,
) -> (Seq<char>, Seq<RefV>) {
    match commits {
        Some((a, b)) => ("commits"@, seq![RefV::Given(a), RefV::Given(b)]),
        None => if staged {
            ("staged"@, seq![])
        } else if unstaged {
            ("unstaged"@, seq![])
        } else if working {
            ("working"@, seq![])
        } else if all {
            ("all"@, seq![match base {
                Some(b) => RefV::Resolved(b),
                None => RefV::LastPushed,
            }])
        } else {
            match base {
                Some(b) => ("commits"@, seq![RefV::Resolved(b), RefV::Given("HEAD"@)]),
                None => ("commits"@, seq![RefV::LastPushed, RefV::Given("HEAD"@)]),
            }
        },
    }
}

fn plan(mode: &str, refs: Vec<RefSource>) -> (r: RangePlan)
    ensures
        r.mode@ == mode@,
        r.refs@ == refs@,
{
    RangePlan { mode: String::from_str(mode), refs }
}

/// The range the command-line options select, with the refs still to be
/// resolved (see [`range_plan_of`]).
pub fn plan_range(options: &CliOptions) -> (r: RangePlan)
    ensures
        (r.mode@, refs_view(r.refs@)) == range_plan_of(
            opt_commits(options.commits),
            options.staged,
            options.unstaged,
            options.working,
            options.all,
            opt_str(options.base),
        ),
{
    let r = if let Some(commits) = &options.commits {
        plan("commits", vec![RefSource::Given(commits[0].clone()), RefSource::Given(commits[1].clone())])
    } else if options.staged {
        plan("staged", Vec::new())
    } else if options.unstaged {
        plan("unstaged", Vec::new())
    } else if options.working {
        plan("working", Vec::new())
    } else if options.all {
        let source = match &options.base {
            Some(b) => RefSource::Resolved(b.clone()),
            None => RefSource::LastPushed,
        };
        plan("all", vec![source])
    } else {
        match &options.base {
            Some(b) => plan("commits", vec![RefSource::Resolved(b.clone()), RefSource::Given(String::from_str("HEAD"))]),
            None => plan("commits", vec![RefSource::LastPushed, RefSource::Given(String::from_str("HEAD"))]),
        }
    };
    assert(refs_view(r.refs@) =~= range_plan_of(
        opt_commits(options.commits),
        options.staged,
        options.unstaged,
        options.working,
        options.all,
        opt_str(options.base),
    ).1);
    r
}

/// The plan of a diff-mode switch requested by the web UI, or its refusal:
/// `staged`, `unstaged` and `working` without refs; `last_pushed` as the last
/// pushed commit against `HEAD`; `all` from the resolved base (or the last
/// pushed commit); `commits` from `commit1` and `commit2` (default `HEAD`),
/// both resolved, refused without `commit1`; any other mode refused.
pub open spec fn mode_switch_of(
    mode: Seq<char>,
    base: Option<Seq<char>>,
    commit1: Option<Seq<char>>,
    commit2: Option<Seq<char>>,
) -> Result<(Seq<char>, Seq<RefV>), Seq<char>> {
    if mode == "staged"@ || mode == "unstaged"@ || mode == "working"@ {
        Ok((mode, seq![]))
    } else if mode == "last_pushed"@ {
        Ok(("commits"@, seq![RefV::LastPushed, RefV::Given("HEAD"@)]))
    } else if mode == "all"@ {
        Ok(("all"@, seq![match base {
            Some(b) => RefV::Resolved(b),
            None => RefV::LastPushed,
        }]))
    } else if mode == "commits"@ {
        match commit1 {
            Some(a) => Ok(("commits"@, seq![RefV::Resolved(a), RefV::Resolved(match commit2 {
                Some(b) => b,
                None => "HEAD"@,
            })])),
            None => Err("commit1 required"@),
        }
    } else {
        Err("Unknown diff mode: "@ + mode)
    }
}

/// A `commits` switch compares the two commits the web UI asked for, both
/// resolved: `commit1` against `commit2`, or against `HEAD` only when no
/// `commit2` is given; without `commit1` it is refused.
pub proof fn lemma_commits_switch(base: Option<Seq<char>>, a: Seq<char>, b: Option<Seq<char>>)
    ensures
        b matches Some(bb) ==> mode_switch_of("commits"@, base, Some(a), b)
            == Ok::<(Seq<char>, Seq<RefV>), Seq<char>>(("commits"@, seq![RefV::Resolved(a), RefV::Resolved(bb)])),
        b is None ==> mode_switch_of("commits"@, base, Some(a), b)
            == Ok::<(Seq<char>, Seq<RefV>), Seq<char>>(("commits"@, seq![RefV::Resolved(a), RefV::Resolved("HEAD"@)])),
        mode_switch_of("commits"@, base, None, b) is Err,
{
    lemma_mode_names_distinct();
    assert(!("commits"@ == "staged"@ || "commits"@ == "unstaged"@ || "commits"@ == "working"@));
    assert("commits"@ != "last_pushed"@);
    assert("commits"@ != "all"@);
    let second = match b {
        Some(bb) => bb,
        None => "HEAD"@,
    };
    let r = mode_switch_of("commits"@, base, Some(a), b);
    assert(r is Ok);
    assert(r->Ok_0.0 == "commits"@);
    assert(r->Ok_0.1 =~= seq![RefV::Resolved(a), RefV::Resolved(second)]);
    assert(r == Ok::<(Seq<char>, Seq<RefV>), Seq<char>>(("commits"@, seq![RefV::Resolved(a), RefV::Resolved(second)])));
    match b {
        Some(bb) => {
            assert(seq![RefV::Resolved(a), RefV::Resolved(second)] =~= seq![RefV::Resolved(a), RefV::Resolved(bb)]);
        },
        None => {
            assert(seq![RefV::Resolved(a), RefV::Resolved(second)] =~= seq![RefV::Resolved(a), RefV::Resolved("HEAD"@)]);
        },
    }
}

proof fn lemma_mode_names_distinct()
    ensures
        "last_pushed"@ != "staged"@ && "last_pushed"@ != "unstaged"@ && "last_pushed"@ != "working"@,
        "all"@ != "staged"@ && "all"@ != "unstaged"@ && "all"@ != "working"@ && "all"@ != "last_pushed"@,
        "commits"@ != "staged"@ && "commits"@ != "unstaged"@ && "commits"@ != "working"@,
        "commits"@ != "last_pushed"@ && "commits"@ != "all"@,
{
    reveal_strlit("staged");
    reveal_strlit("unstaged");
    reveal_strlit("working");
    reveal_strlit("last_pushed");
    reveal_strlit("all");
    reveal_strlit("commits");
    assert("staged"@.len() == 6);
    assert("unstaged"@.len() == 8);
    assert("working"@.len() == 7);
    assert("last_pushed"@.len() == 11);
    assert("all"@.len() == 3);
    assert("commits"@.len() == 7);
    assert("working"@[0] != "commits"@[0]);
}

/// The plan of a diff-mode switch, or the refusal message (see
/// [`mode_switch_of`]).
pub fn plan_mode_switch(mode: &str, base: &Option<String>, commit1: &Option<String>, commit2: &Option<String>) -> (r: Result<RangePlan, String>)
    ensures
        match r {
            Ok(p) => mode_switch_of(mode@, opt_str(*base), opt_str(*commit1), opt_str(*commit2)) == Ok::<(Seq<char>, Seq<RefV>), Seq<char>>((p.mode@, refs_view(p.refs@))),
            Err(m) => mode_switch_of(mode@, opt_str(*base), opt_str(*commit1), opt_str(*commit2)) == Err::<(Seq<char>, Seq<RefV>), Seq<char>>(m@),
        },
{
    proof {
        lemma_mode_names_distinct();
    }
    let m = chars_of(mode);
    if equals_str(&m, "staged") || equals_str(&m, "unstaged") || equals_str(&m, "working") {
        let r = plan(mode, Vec::new());
        assert(refs_view(r.refs@) =~= seq![]);
        assert(mode_switch_of(mode@, opt_str(*base), opt_str(*commit1), opt_str(*commit2)) == Ok::<(Seq<char>, Seq<RefV>), Seq<char>>((r.mode@, refs_view(r.refs@))));
        Ok(r)
    } else if equals_str(&m, "last_pushed") {
        let r = plan("commits", vec![RefSource::LastPushed, RefSource::Given(String::from_str("HEAD"))]);
        assert(refs_view(r.refs@) =~= seq![RefV::LastPushed, RefV::Given("HEAD"@)]);
        assert(mode_switch_of(mode@, opt_str(*base), opt_str(*commit1), opt_str(*commit2)) == Ok::<(Seq<char>, Seq<RefV>), Seq<char>>((r.mode@, refs_view(r.refs@))));
        Ok(r)
    } else if equals_str(&m, "all") {
        let source = match base {
            Some(b) => RefSource::Resolved(b.clone()),
            None => RefSource::LastPushed,
        };
        let r = plan("all", vec![source]);
        assert(refs_view(r.refs@) =~= seq![source@]);
        assert(mode_switch_of(mode@, opt_str(*base), opt_str(*commit1), opt_str(*commit2)) == Ok::<(Seq<char>, Seq<RefV>), Seq<char>>((r.mode@, refs_view(r.refs@))));
        Ok(r)
    } else if equals_str(&m, "commits") {
        match commit1 {
            Some(a) => {
                let b = match commit2 {
                    Some(b) => b.clone(),
                    None => String::from_str("HEAD"),
                };
                let ghost bv = b@;
                assert(bv == match opt_str(*commit2) {
                    Some(c) => c,
                    None => "HEAD"@,
                });
                let r = plan("commits", vec![RefSource::Resolved(a.clone()), RefSource::Resolved(b)]);
                assert(refs_view(r.refs@) =~= seq![RefV::Resolved(a@), RefV::Resolved(bv)]);
                assert(mode@ == "commits"@);
                assert(opt_str(*commit1) == Some(a@));
                assert(!("commits"@ == "staged"@ || "commits"@ == "unstaged"@ || "commits"@ == "working"@));
                assert("commits"@ != "last_pushed"@);
                assert("commits"@ != "all"@);
                assert(mode_switch_of("commits"@, opt_str(*base), Some(a@), opt_str(*commit2)) is Ok);
                assert(mode_switch_of("commits"@, opt_str(*base), Some(a@), opt_str(*commit2))->Ok_0.0 == "commits"@);
                assert(mode_switch_of("commits"@, opt_str(*base), Some(a@), opt_str(*commit2))->Ok_0.1 =~= seq![RefV::Resolved(a@), RefV::Resolved(bv)]);
                assert(mode_switch_of(mode@, opt_str(*base), opt_str(*commit1), opt_str(*commit2)) == Ok::<(Seq<char>, Seq<RefV>), Seq<char>>((r.mode@, refs_view(r.refs@))));
                Ok(r)
            },
            None => Err(String::from_str("commit1 required")),
        }
    } else {
        let mut msg: Vec<char> = Vec::new();
        extend_str(&mut msg, "Unknown diff mode: ");
        extend_str(&mut msg, mode);
        Err(string_of(&msg))
    }
}

/// Which diff a resolved range reads.
#[derive(Debug)]
pub enum DiffRequest {
    /// The index against `HEAD`.
    Staged,
    /// The working tree against the index.
    Unstaged,
    /// The working tree (with the index) against `HEAD`.
    Working,
    /// One commit against another.
    Commits(String, String),
    /// The working tree (with the index) against a base commit.
    All(String),
}

/// The diff a resolved range reads, or the refusal message of an unknown
/// mode.
pub fn diff_request(range: &RangeResult) -> (r: Result<DiffRequest, String>)
    requires
        range.mode@ == "commits"@ ==> range.args@.len() >= 2,
        range.mode@ == "all"@ ==> range.args@.len() >= 1,
    ensures
        match r {
            Ok(DiffRequest::Staged) => range.mode@ == "staged"@,
            Ok(DiffRequest::Unstaged) => range.mode@ == "unstaged"@,
            Ok(DiffRequest::Working) => range.mode@ == "working"@,
            Ok(DiffRequest::Commits(a, b)) => range.mode@ == "commits"@ && a@ == range.args@[0]@ && b@ == range.args@[1]@,
            Ok(DiffRequest::All(b)) => range.mode@ == "all"@ && b@ == range.args@[0]@,
            Err(m) => !(range.mode@ == "staged"@ || range.mode@ == "unstaged"@ || range.mode@ == "working"@
                || range.mode@ == "commits"@ || range.mode@ == "all"@) && m@ == "Unknown range mode: "@ + range.mode@,
        },
{
    let m = chars_of(range.mode.as_str());
    if equals_str(&m, "staged") {
        Ok(DiffRequest::Staged)
    } else if equals_str(&m, "unstaged") {
        Ok(DiffRequest::Unstaged)
    } else if equals_str(&m, "working") {
        Ok(DiffRequest::Working)
    } else if equals_str(&m, "commits") {
        Ok(DiffRequest::Commits(range.args[0].clone(), range.args[1].clone()))
    } else if equals_str(&m, "all") {
        Ok(DiffRequest::All(range.args[0].clone()))
    } else {
        let mut msg: Vec<char> = Vec::new();
        extend_str(&mut msg, "Unknown range mode: ");
        extend_str(&mut msg, range.mode.as_str());
        Err(string_of(&msg))
    }
}

/// The file-list entry of a parsed file diff: its new path, its old path
/// when that differs, its status and line counts.
pub open spec fn file_change_of(f: FileDiffV, c: FileChange) -> bool {
    &&& c.path@ == f.new_path
    &&& opt_str(c.old_path) == if f.old_path != f.new_path { Some(f.old_path) } else { None }
    &&& c.status == f.status
    &&& c.additions == f.additions
    &&& c.deletions == f.deletions
}

/// Whether a range's file list is git's list of the files the commits
/// change (a commit range) rather than the list of its parsed diff.
pub fn lists_files_from_git(range: &RangeResult) -> (r: bool)
    ensures
        r == (range.mode@ == "commits"@),
{
    equals_str(&chars_of(range.mode.as_str()), "commits")
}

/// The file list of a review: for a commit range, git's list of the changed
/// files (empty when git could not list them); otherwise the list of the
/// parsed diff, one entry per file in order.
pub fn review_file_list(range: &RangeResult, git_list: Option<Vec<FileChange>>, files: &Vec<ParsedFileDiff>) -> (r: Vec<FileChange>)
    ensures
        range.mode@ == "commits"@ ==> r@ == match git_list {
            Some(l) => l@,
            None => Seq::<FileChange>::empty(),
        },
        range.mode@ != "commits"@ ==> r@.len() == files@.len()
            && forall|i: int| 0 <= i < files@.len() ==> file_change_of(files_view(files@)[i], #[trigger] r@[i]),
{
    if lists_files_from_git(range) {
        match git_list {
            Some(l) => l,
            None => Vec::new(),
        }
    } else {
        file_changes_from_diffs(files)
    }
}

/// The file list of parsed file diffs, one entry per file in order.
pub fn file_changes_from_diffs(files: &Vec<ParsedFileDiff>) -> (r: Vec<FileChange>)
    ensures
        r@.len() == files@.len(),
        forall|i: int| 0 <= i < files@.len() ==> file_change_of(files_view(files@)[i], #[trigger] r@[i]),
{
    let ghost fv = files_view(files@);
    let mut r: Vec<FileChange> = Vec::new();
    let mut i: usize = 0;
    while i < files.len()
        invariant
            i <= files@.len(),
            fv == files_view(files@),
            r@.len() == i,
            forall|k: int| 0 <= k < i ==> file_change_of(fv[k], #[trigger] r@[k]),
        decreases files@.len() - i,
    {
        let f = &files[i];
        let old_path = if f.old_path != f.new_path { Some(f.old_path.clone()) } else { None };
        r.push(FileChange {
            path: f.new_path.clone(),
            old_path,
            status: f.status,
            additions: f.additions,
            deletions: f.deletions,
        });
        i = i + 1;
    }
    r
}

/// The base and head refs a resolved range shows: its first ref (or its
/// mode, for a range without refs) and its second ref (or `HEAD`).
pub open spec fn range_ends_of(mode: Seq<char>, args: Seq<Seq<char>>) -> (Seq<char>, Seq<char>) {
    (
        if args.len() > 0 { args[0] } else { mode },
        if args.len() > 1 { args[1] } else { "HEAD"@ },
    )
}

/// The views of a sequence of strings.
pub open spec fn strings_of(s: Seq<String>) -> Seq<Seq<char>> {
    s.map_values(|x: String| x@)
}

/// The base and head refs of a resolved range (see [`range_ends_of`]).
pub fn range_ends(range: &RangeResult) -> (r: (String, String))
    ensures
        (r.0@, r.1@) == range_ends_of(range.mode@, strings_of(range.args@)),
{
    let base = if range.args.len() > 0 { range.args[0].clone() } else { range.mode.clone() };
    let head = if range.args.len() > 1 { range.args[1].clone() } else { String::from_str("HEAD") };
    (base, head)
}

/// `base..head`.
pub fn commit_range(base_ref: &str, head_ref: &str) -> (r: String)
    ensures
        r@ == base_ref@ + ".."@ + head_ref@,
{
    let mut v: Vec<char> = Vec::new();
    extend_str(&mut v, base_ref);
    extend_str(&mut v, "..");
    extend_str(&mut v, head_ref);
    string_of(&v)
}

/// The metadata of a review of `range`: the range's base and head refs and
/// `base..head`, with the given name, file list, time stamp and token.
pub fn review_metadata(repo_name: String, range: &RangeResult, files: Vec<FileChange>, timestamp: String, csrf_token: String) -> (r: ReviewMetadata)
    ensures
        r.repo_name == repo_name,
        r.base_ref@ == range_ends_of(range.mode@, strings_of(range.args@)).0,
        r.head_ref@ == range_ends_of(range.mode@, strings_of(range.args@)).1,
        r.commit_range@ == r.base_ref@ + ".."@ + r.head_ref@,
        r.files == files,
        r.timestamp == timestamp,
        r.csrf_token == csrf_token,
{
    let (base_ref, head_ref) = range_ends(range);
    let commit_range = commit_range(base_ref.as_str(), head_ref.as_str());
    ReviewMetadata { repo_name, commit_range, base_ref, head_ref, files, timestamp, csrf_token }
}

/// The context width that stands for whole-file context.
pub const FULL_CONTEXT_LINES: u32 = 1_000_000;

/// The context width a diff request asks for; `None` when the review's
/// startup diff is to be served: no width asked, an unreadable one, or the
/// startup width itself. `full` asks for [`FULL_CONTEXT_LINES`].
pub open spec fn context_choice_of(query: Option<Seq<char>>, default_context: u32) -> Option<u32> {
    let asked: Option<nat> = match query {
        None => None,
        Some(q) => if q == "full"@ {
            Some(FULL_CONTEXT_LINES as nat)
        } else {
            match unsigned_value(q) {
                Some(v) => if v <= u32::MAX { Some(v) } else { None },
                None => None,
            }
        },
    };
    match asked {
        Some(n) => if n == default_context { None } else { Some(n as u32) },
        None => None,
    }
}

/// The context width a diff request asks for (see [`context_choice_of`]).
pub fn context_choice(query: Option<&str>, default_context: u32) -> (r: Option<u32>)
    ensures
        r == context_choice_of(
            match query {
                Some(q) => Some(q@),
                None => None,
            },
            default_context,
        ),
{
    let asked: Option<u32> = match query {
        None => None,
        Some(q) => {
            let chars = chars_of(q);
            if equals_str(&chars, "full") {
                Some(FULL_CONTEXT_LINES)
            } else {
                match parse_unsigned(&chars, 4294967295) {
                    Some(v) => Some(v as u32),
                    None => None,
                }
            }
        },
    };
    match asked {
        Some(n) => if n == default_context { None } else { Some(n) },
        None => None,
    }
}

/// What the diff of a running review was computed from.
#[derive(Debug)]
pub struct DiffSource {
    pub mode: String,
    pub args: Vec<String>,
    pub include_untracked: bool,
}

/// A freshly computed diff: its parsed files, file list and range ends.
#[derive(Debug)]
pub struct ComputedDiff {
    pub files: Vec<ParsedFileDiff>,
    pub file_list: Vec<FileChange>,
    pub base_ref: String,
    pub head_ref: String,
}

/// The diff state of a running review, which the web UI can switch.
#[derive(Debug)]
pub struct DiffRuntime {
    pub metadata: ReviewMetadata,
    /// The diff at the startup context width.
    pub diff_data: DiffResponse,
    pub diff_source: DiffSource,
    pub default_context: u32,
}

impl DiffRuntime {
    /// Installs a switched diff: the metadata takes its range ends, `base..head`
    /// and file list; the diff and its source are replaced; the rest of the
    /// metadata and the startup width stay.
    pub fn apply_switch(&mut self, computed: ComputedDiff, source: DiffSource)
        ensures
            final(self).metadata.commit_range@ == computed.base_ref@ + ".."@ + computed.head_ref@,
            final(self).metadata.base_ref == computed.base_ref,
            final(self).metadata.head_ref == computed.head_ref,
            final(self).metadata.files == computed.file_list,
            final(self).metadata.repo_name == old(self).metadata.repo_name,
            final(self).metadata.timestamp == old(self).metadata.timestamp,
            final(self).metadata.csrf_token == old(self).metadata.csrf_token,
            final(self).diff_data.files == computed.files,
            final(self).diff_source == source,
            final(self).default_context == old(self).default_context,
    {
        self.metadata.commit_range = commit_range(computed.base_ref.as_str(), computed.head_ref.as_str());
        self.metadata.base_ref = computed.base_ref;
        self.metadata.head_ref = computed.head_ref;
        self.metadata.files = computed.file_list;
        self.diff_data = DiffResponse { files: computed.files };
        self.diff_source = source;
    }
}

/// One way of finding the last pushed commit.
#[derive(Debug)]
pub enum PushedLookup {
    /// The commit a ref names.
    Direct(String),
    /// The merge base of `HEAD` and the commit a ref names.
    MergeBaseWithHead(String),
}

/// The view of a [`PushedLookup`]: whether it takes a merge base, and its ref.
pub open spec fn lookup_view(l: PushedLookup) -> (bool, Seq<char>) {
    match l {
        PushedLookup::Direct(r) => (false, r@),
        PushedLookup::MergeBaseWithHead(r) => (true, r@),
    }
}

/// The ways of finding the last pushed commit, tried in order: the push
/// target; the merge base with the upstream; with `origin/<branch>` (unless
/// the branch is `HEAD`, a detached head); with `origin/main`; with
/// `origin/master`.
pub open spec fn pushed_lookups_of(branch: Seq<char>) -> Seq<(bool, Seq<char>)> {
    seq![(false, "@{push}"@), (true, "@{upstream}"@)]
        + (if branch != "HEAD"@ { seq![(true, "origin/"@ + branch)] } else { seq![] })
        + seq![(true, "origin/main"@), (true, "origin/master"@)]
}

/// The message when no lookup finds the last pushed commit.
pub fn last_pushed_error() -> (r: String)
    ensures
        r@ == "Could not determine last pushed commit. Use --base <ref> to specify manually."@,
{
    String::from_str("Could not determine last pushed commit. Use --base <ref> to specify manually.")
}

/// The ways of finding the last pushed commit of `branch` (the current
/// branch's short name, or `HEAD`), in the order to try them.
pub fn last_pushed_lookups(branch: &str) -> (r: Vec<PushedLookup>)
    ensures
        r@.map_values(|l: PushedLookup| lookup_view(l)) == pushed_lookups_of(branch@),
{
    let mut r: Vec<PushedLookup> = Vec::new();
    r.push(PushedLookup::Direct(String::from_str("@{push}")));
    r.push(PushedLookup::MergeBaseWithHead(String::from_str("@{upstream}")));
    if !equals_str(&chars_of(branch), "HEAD") {
        let mut name: Vec<char> = Vec::new();
        extend_str(&mut name, "origin/");
        extend_str(&mut name, branch);
        r.push(PushedLookup::MergeBaseWithHead(string_of(&name)));
    }
    r.push(PushedLookup::MergeBaseWithHead(String::from_str("origin/main")));
    r.push(PushedLookup::MergeBaseWithHead(String::from_str("origin/master")));
    assert(r@.map_values(|l: PushedLookup| lookup_view(l)) =~= pushed_lookups_of(branch@));
    r
}

} // verus!
