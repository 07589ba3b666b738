//! The state of the terminal review UI and every transition of it: file
//! selection and filtering, the diff cursor, comment creation, editing and
//! deletion, review marks and preferences.
use vstd::prelude::*;
use crate::config::Config;
use crate::markdown::{find_file, first_file};
use crate::text::{trim, trim_exec, chars_eq, chars_lt, chars_lt_exec, chars_of, lemma_chars_lt_order, contains_chars, contains_seq, decimal, equals_str, extend_str, lowercase_of, push_decimal, string_of, to_lowercase};
use crate::tui::icons::IconSet;
use crate::tui::theme::{self, Theme, ORDER};
use crate::types::{
    Hunk,
    ChangeType, ChangeV, Comment, CommentCategory, CommentType, CommentV, FileChange, FileDiffV,
    FileStatus, HunkV, ParsedFileDiff, changes_view, comments_view, files_view, hunks_view,
};

verus! {

broadcast use vstd::string::group_string_axioms;

/// The longest comment the input form accepts, in characters.
pub const MAX_COMMENT_CHARS: usize = 2000;

/// How the diff is shown, or that the comment form owns the input.
#[derive(Debug, Clone, Copy, PartialEq, Eq, Structural)]
pub enum ViewMode {
    Split,
    Unified,
    CommentInput,
}

/// A side of a diff.
#[derive(Debug, Clone, Copy, PartialEq, Eq, Structural)]
pub enum Side {
    Old,
    New,
}

/// The name a side is stored under in comments.
pub open spec fn side_name(s: Side) -> Seq<char> {
    match s {
        Side::Old => "old"@,
        Side::New => "new"@,
    }
}

impl Side {
    /// `"old"` or `"new"`.
    pub fn as_str(&self) -> (r: &'static str)
        ensures
            r@ == side_name(*self),
    {
        match self {
            Side::Old => "old",
            Side::New => "new",
        }
    }
}

/// What the comment form will produce when submitted.
#[derive(Debug)]
pub struct PendingComment {
    pub kind: CommentType,
    pub file_path: Option<String>,
    pub start_line: Option<u32>,
    pub end_line: Option<u32>,
    pub side: Option<String>,
    /// The comment being edited; `None` for a fresh comment.
    pub editing_id: Option<String>,
}

impl Clone for PendingComment {
    fn clone(&self) -> (r: Self)
        ensures
            r == *self,
    {
        PendingComment {
            kind: self.kind,
            file_path: crate::types::clone_opt_string(&self.file_path),
            start_line: self.start_line,
            end_line: self.end_line,
            side: crate::types::clone_opt_string(&self.side),
            editing_id: crate::types::clone_opt_string(&self.editing_id),
        }
    }
}

/// One rendered row of the selected file's diff. The cursor only lands on
/// `Change` rows, which carry the line and side a comment targets.
#[derive(Debug)]
pub enum DiffRow {
    HunkHeader(String),
    Change {
        old: Option<u32>,
        new: Option<u32>,
        side: Side,
        change_type: crate::types::ChangeType,
        content: String,
    },
    Blank,
}

impl DiffRow {
    /// Whether this is a `Change` row.
    pub fn is_change(&self) -> (r: bool)
        ensures
            r == (*self is Change),
    {
        match self {
            DiffRow::Change { .. } => true,
            _ => false,
        }
    }
}

/// The whole state of the terminal review UI.
#[derive(Debug)]
pub struct App {
    /// Every file of the review with its parsed diff, when there is one.
    pub files: Vec<(FileChange, Option<ParsedFileDiff>)>,
    pub comments: Vec<Comment>,
    pub reviewed_files: Vec<String>,
    pub current_file_idx: usize,
    pub current_comment_idx: usize,
    pub view_mode: ViewMode,
    pub input_buffer: String,
    pub input_category: CommentCategory,
    pub show_help: bool,
    pub sidebar_collapsed: bool,
    pub search_query: String,
    pub filter_status: Option<FileStatus>,
    pub head_ref: String,
    pub theme_id: String,
    pub icons: IconSet,
    pub context_lines: u32,
    pub scroll_offset: usize,
    pub diff_cursor: usize,
    /// The comment the form will create or edit when submitted.
    pub pending_comment: Option<PendingComment>,
    /// The start of a range selection: a line and its side.
    pub range_anchor: Option<(u32, Side)>,
}

/// The views of a sequence of strings.
pub open spec fn strings_view(s: Seq<String>) -> Seq<Seq<char>> {
    s.map_values(|x: String| x@)
}

/// The view of an optional file diff.
pub open spec fn opt_diff_view(d: Option<ParsedFileDiff>) -> Option<FileDiffV> {
    match d {
        Some(p) => Some(p@),
        None => None,
    }
}

/// Whether `r` pairs each file of `files`, in order, with the first diff of
/// `parsed` whose new or old path is the file's path.
pub open spec fn combined(
    r: Seq<(FileChange, Option<ParsedFileDiff>)>,
    files: Seq<FileChange>,
    parsed: Seq<FileDiffV>,
) -> bool {
    &&& r.len() == files.len()
    &&& forall|i: int|
        0 <= i < files.len() ==> (#[trigger] r[i]).0 == files[i] && opt_diff_view(r[i].1)
            == first_file(parsed, files[i].path@)
}

/// Pairs each file with the first parsed diff whose new or old path is the
/// file's path.
pub fn combine(files: Vec<FileChange>, parsed_diffs: Vec<ParsedFileDiff>) -> (r: Vec<(FileChange, Option<ParsedFileDiff>)>)
    ensures
        combined(r@, files@, files_view(parsed_diffs@)),
{
    let mut r: Vec<(FileChange, Option<ParsedFileDiff>)> = Vec::new();
    let mut i: usize = 0;
    while i < files.len()
        invariant
            i <= files@.len(),
            r@.len() == i,
            forall|j: int|
                0 <= j < i ==> (#[trigger] r@[j]).0 == files@[j] && opt_diff_view(r@[j].1)
                    == first_file(files_view(parsed_diffs@), files@[j].path@),
        decreases files@.len() - i,
    {
        let fc = files[i].clone();
        let diff = match find_file(&parsed_diffs, &fc.path) {
            Some(k) => Some(parsed_diffs[k].clone()),
            None => None,
        };
        r.push((fc, diff));
        i = i + 1;
    }
    r
}

/// The position of a theme id in [`ORDER`]; 0 when it is not there.
pub open spec fn theme_position(id: Seq<char>) -> int {
    if ORDER@[0]@ == id {
        0
    } else if ORDER@[1]@ == id {
        1
    } else if ORDER@[2]@ == id {
        2
    } else if ORDER@[3]@ == id {
        3
    } else if ORDER@[4]@ == id {
        4
    } else if ORDER@[5]@ == id {
        5
    } else {
        0
    }
}

fn position_in_order(id: &Vec<char>) -> (r: usize)
    ensures
        r == theme_position(id@),
        r < 6,
{
    if equals_str(id, ORDER[0]) {
        0
    } else if equals_str(id, ORDER[1]) {
        1
    } else if equals_str(id, ORDER[2]) {
        2
    } else if equals_str(id, ORDER[3]) {
        3
    } else if equals_str(id, ORDER[4]) {
        4
    } else if equals_str(id, ORDER[5]) {
        5
    } else {
        0
    }
}

/// The theme id after cycling once from `id`, forward or backward, with
/// wrap-around; an id not in [`ORDER`] cycles from the first.
pub open spec fn cycled_theme(id: Seq<char>, forward: bool) -> Seq<char> {
    let cur = theme_position(id);
    let next = if forward { (cur + 1) % 6 } else { (cur + 5) % 6 };
    ORDER@[next]@
}

/// The input buffer after typing `c`: kept when already
/// [`MAX_COMMENT_CHARS`] long.
pub open spec fn typed(buffer: Seq<char>, c: char) -> Seq<char> {
    if buffer.len() < MAX_COMMENT_CHARS { buffer.push(c) } else { buffer }
}

/// The input buffer after a backspace.
pub open spec fn erased(buffer: Seq<char>) -> Seq<char> {
    if buffer.len() > 0 { buffer.drop_last() } else { buffer }
}

/// The view mode stored in a session: the comment form is never stored.
pub open spec fn persisted_mode(m: ViewMode) -> Seq<char> {
    match m {
        ViewMode::Unified => "unified"@,
        _ => "split"@,
    }
}

/// The view mode restored from a stored name.
pub open spec fn restored_mode(s: Seq<char>) -> ViewMode {
    if s == "unified"@ { ViewMode::Unified } else { ViewMode::Split }
}

/// How many comments are attached to `path`.
pub open spec fn count_on_file(cs: Seq<CommentV>, path: Seq<char>) -> nat
    decreases cs.len(),
{
    if cs.len() == 0 {
        0
    } else {
        count_on_file(cs.drop_last(), path) + if cs.last().file_path == Some(path) { 1nat } else { 0nat }
    }
}

/// Whether a review mark is for a path other than `path`.
pub open spec fn unmarked(path: Seq<char>) -> spec_fn(Seq<char>) -> bool {
    |f: Seq<char>| f != path
}

/// The review marks after toggling `path`: removed (every copy) when it is
/// marked, appended otherwise.
pub open spec fn toggled(reviewed: Seq<Seq<char>>, path: Seq<char>) -> Seq<Seq<char>> {
    if reviewed.contains(path) {
        reviewed.filter(unmarked(path))
    } else {
        reviewed.push(path)
    }
}

impl App {
    /// A fresh review of `files`, each paired with its parsed diff, using the
    /// preferences of `config`.
    pub fn new(files: Vec<FileChange>, parsed_diffs: Vec<ParsedFileDiff>, head_ref: String, config: &Config) -> (r: Self)
        ensures
            combined(r.files@, files@, files_view(parsed_diffs@)),
            r.comments@.len() == 0,
            r.reviewed_files@.len() == 0,
            r.current_file_idx == 0,
            r.current_comment_idx == 0,
            r.view_mode == ViewMode::Split,
            r.input_buffer@.len() == 0,
            r.input_category == CommentCategory::Fix,
            !r.show_help,
            !r.sidebar_collapsed,
            r.search_query@.len() == 0,
            r.filter_status is None,
            r.head_ref == head_ref,
            r.theme_id@ == config.theme@,
            r.icons.glyph_mode() == config.icon_mode,
            r.context_lines == config.diff_context_lines,
            r.scroll_offset == 0,
            r.diff_cursor == 0,
            r.pending_comment is None,
            r.range_anchor is None,
    {
        let combined = combine(files, parsed_diffs);
        App {
            files: combined,
            comments: Vec::new(),
            reviewed_files: Vec::new(),
            current_file_idx: 0,
            current_comment_idx: 0,
            view_mode: ViewMode::Split,
            input_buffer: String::new(),
            input_category: CommentCategory::Fix,
            show_help: false,
            sidebar_collapsed: false,
            search_query: String::new(),
            filter_status: None,
            head_ref,
            theme_id: config.theme.clone(),
            icons: IconSet::new(config.icon_mode),
            context_lines: config.diff_context_lines,
            scroll_offset: 0,
            diff_cursor: 0,
            pending_comment: None,
            range_anchor: None,
        }
    }

    /// The theme of the current theme id.
    pub fn theme(&self) -> (r: Theme)
        ensures
            r == theme::theme_of(self.theme_id@),
    {
        theme::by_id(self.theme_id.as_str())
    }

    /// Moves to the next (or previous) theme of [`ORDER`], wrapping around.
    pub fn cycle_theme(&mut self, forward: bool)
        ensures
            theme_cycled(*old(self), *final(self), forward),
    {
        let cur = position_in_order(&chars_of(self.theme_id.as_str()));
        let next = if forward { (cur + 1) % 6 } else { (cur + 5) % 6 };
        self.theme_id = String::from_str(ORDER[next]);
    }

    /// The view mode to store: `"unified"` or `"split"` (the comment form is
    /// never stored).
    pub fn persistable_view_mode(&self) -> (r: &'static str)
        ensures
            r@ == persisted_mode(self.view_mode),
    {
        match self.view_mode {
            ViewMode::Unified => "unified",
            _ => "split",
        }
    }

    /// Restores a stored view mode: `"unified"`, anything else is split.
    pub fn set_view_mode_from_str(&mut self, s: &str)
        ensures
            mode_restored(*old(self), *final(self), s@),
    {
        let chars = chars_of(s);
        self.view_mode = if equals_str(&chars, "unified") { ViewMode::Unified } else { ViewMode::Split };
    }

    /// Whether the comment form owns the input.
    pub fn is_input_active(&self) -> (r: bool)
        ensures
            r == (self.view_mode == ViewMode::CommentInput),
    {
        self.view_mode == ViewMode::CommentInput
    }

    /// Types a character into the comment form, up to
    /// [`MAX_COMMENT_CHARS`] characters.
    pub fn push_input_char(&mut self, c: char)
        ensures
            char_typed(*old(self), *final(self), c),
    {
        let mut chars = chars_of(self.input_buffer.as_str());
        if chars.len() < MAX_COMMENT_CHARS {
            chars.push(c);
            self.input_buffer = string_of(&chars);
        }
    }

    /// Erases the last character of the comment form, if any.
    pub fn pop_input_char(&mut self)
        ensures
            char_erased(*old(self), *final(self)),
    {
        let mut chars = chars_of(self.input_buffer.as_str());
        if chars.len() > 0 {
            chars.pop();
            self.input_buffer = string_of(&chars);
        }
    }

    /// How many comments are attached to `file_path`.
    pub fn comment_count(&self, file_path: &str) -> (r: usize)
        ensures
            r == count_on_file(comments_view(self.comments@), file_path@),
    {
        let ghost cs = comments_view(self.comments@);
        let path = chars_of(file_path);
        let mut n: usize = 0;
        let mut i: usize = 0;
        while i < self.comments.len()
            invariant
                i <= self.comments@.len(),
                cs == comments_view(self.comments@),
                path@ == file_path@,
                n == count_on_file(cs.take(i as int), file_path@),
                n <= i,
            decreases self.comments@.len() - i,
        {
            assert(cs.take(i + 1).drop_last() =~= cs.take(i as int));
            let on_file = match &self.comments[i].file_path {
                Some(p) => equals_str(&path, p.as_str()),
                None => false,
            };
            if on_file {
                n = n + 1;
            }
            i = i + 1;
        }
        assert(cs.take(i as int) =~= cs);
        n
    }

    /// Whether `file_path` is marked reviewed.
    pub fn is_reviewed(&self, file_path: &str) -> (r: bool)
        ensures
            r == strings_view(self.reviewed_files@).contains(file_path@),
    {
        let ghost rv = strings_view(self.reviewed_files@);
        let path = chars_of(file_path);
        let mut i: usize = 0;
        while i < self.reviewed_files.len()
            invariant
                i <= self.reviewed_files@.len(),
                rv == strings_view(self.reviewed_files@),
                path@ == file_path@,
                forall|j: int| 0 <= j < i ==> rv[j] != file_path@,
            decreases self.reviewed_files@.len() - i,
        {
            if equals_str(&path, self.reviewed_files[i].as_str()) {
                assert(rv[i as int] == file_path@);
                return true;
            }
            i = i + 1;
        }
        false
    }

    /// Marks `file_path` reviewed, or unmarks it (every copy) when it is
    /// marked.
    pub fn toggle_reviewed(&mut self, file_path: &str)
        ensures
            review_toggled(*old(self), *final(self), file_path@),
    {
        let ghost rv = strings_view(self.reviewed_files@);
        let ghost keep = unmarked(file_path@);
        if self.is_reviewed(file_path) {
            let path = chars_of(file_path);
            let mut kept: Vec<String> = Vec::new();
            let mut i: usize = 0;
            while i < self.reviewed_files.len()
                invariant
                    i <= self.reviewed_files@.len(),
                    rv == strings_view(self.reviewed_files@),
                    path@ == file_path@,
                    keep == unmarked(file_path@),
                    strings_view(kept@) == rv.take(i as int).filter(keep),
                decreases self.reviewed_files@.len() - i,
            {
                proof {
                    assert(rv.take(i + 1) =~= rv.take(i as int).push(rv[i as int]));
                    rv.take(i as int).lemma_filter_push(rv[i as int], keep);
                }
                if !equals_str(&path, self.reviewed_files[i].as_str()) {
                    let f = self.reviewed_files[i].clone();
                    kept.push(f);
                    assert(strings_view(kept@) =~= rv.take(i as int).filter(keep).push(rv[i as int]));
                }
                i = i + 1;
            }
            assert(rv.take(i as int) =~= rv);
            self.reviewed_files = kept;
        } else {
            self.reviewed_files.push(String::from_str(file_path));
            assert(strings_view(self.reviewed_files@) =~= rv.push(file_path@));
        }
    }
}

// ---------------------------------------------------------------------------
// File selection
// ---------------------------------------------------------------------------

/// Whether a file is listed under a search query and a status filter: the
/// lower-cased query occurs in the lower-cased path (or the query is empty),
/// and the status is the filtered one (or there is no filter).
pub open spec fn file_passes(path: Seq<char>, status: FileStatus, query: Seq<char>, filter: Option<FileStatus>) -> bool {
    &&& (query.len() == 0 || contains_seq(lowercase_of(path), lowercase_of(query)))
    &&& (filter matches Some(f) ==> status == f)
}

/// The positions, in order, of the files listed under a query and filter.
pub open spec fn filtered_indices(
    files: Seq<(FileChange, Option<ParsedFileDiff>)>,
    query: Seq<char>,
    filter: Option<FileStatus>,
) -> Seq<int>
    decreases files.len(),
{
    if files.len() == 0 {
        seq![]
    } else {
        let rest = filtered_indices(files.drop_last(), query, filter);
        if file_passes(files.last().0.path@, files.last().0.status, query, filter) {
            rest.push(files.len() - 1)
        } else {
            rest
        }
    }
}

/// The view of a sequence of positions.
pub open spec fn idx_view(v: Seq<usize>) -> Seq<int> {
    v.map_values(|i: usize| i as int)
}

/// The view of an optional position.
pub open spec fn opt_idx(o: Option<usize>) -> Option<int> {
    match o {
        Some(i) => Some(i as int),
        None => None,
    }
}

/// Whether a file is listed, given its path and status, the search query and
/// the status filter. `lower_path` and `lower_query` are the path and query
/// lower-cased.
pub fn passes_filter(lower_path: &str, status: FileStatus, query: &str, lower_query: &str, filter: Option<FileStatus>) -> (r: bool)
    ensures
        r == ((query@.len() == 0 || contains_seq(lower_path@, lower_query@)) && (filter matches Some(f) ==> status == f)),
{
    if chars_of(query).len() != 0 && !contains_chars(&chars_of(lower_path), &chars_of(lower_query)) {
        return false;
    }
    match filter {
        Some(f) => status == f,
        None => true,
    }
}

// ---------------------------------------------------------------------------
// Diff rows and the cursor
// ---------------------------------------------------------------------------

/// The mathematical value of a [`DiffRow`].
pub enum RowV {
    HunkHeader(Seq<char>),
    Change { old: Option<nat>, new: Option<nat>, side: Side, change_type: ChangeType, content: Seq<char> },
    Blank,
}

impl View for DiffRow {
    type V = RowV;

    open spec fn view(&self) -> RowV {
        match self {
            DiffRow::HunkHeader(h) => RowV::HunkHeader(h@),
            DiffRow::Change { old, new, side, change_type, content } => RowV::Change {
                old: crate::types::opt_nat(*old),
                new: crate::types::opt_nat(*new),
                side: *side,
                change_type: *change_type,
                content: content@,
            },
            DiffRow::Blank => RowV::Blank,
        }
    }
}

/// The views of a sequence of rows.
pub open spec fn rows_view(rows: Seq<DiffRow>) -> Seq<RowV> {
    rows.map_values(|r: DiffRow| r@)
}

/// The header row text of a hunk: `@@ -a,b +c,d @@` and the hunk's trailing
/// header text.
pub open spec fn hunk_header(h: HunkV) -> Seq<char> {
    "@@ -"@ + decimal(h.old_start) + ","@ + decimal(h.old_lines) + " +"@ + decimal(h.new_start) + ","@
        + decimal(h.new_lines) + " @@"@ + h.content
}

/// The row of a change: deletions sit on the old side, the rest on the new.
pub open spec fn change_row(c: ChangeV) -> RowV {
    RowV::Change {
        old: c.old_line_number,
        new: c.new_line_number,
        side: if c.change_type == ChangeType::Delete { Side::Old } else { Side::New },
        change_type: c.change_type,
        content: c.content,
    }
}

/// The rows of one hunk: its header, then its changes.
pub open spec fn hunk_rows(h: HunkV) -> Seq<RowV> {
    seq![RowV::HunkHeader(hunk_header(h))] + h.changes.map_values(|c: ChangeV| change_row(c))
}

/// The rows of a file's hunks, a blank row between consecutive hunks.
pub open spec fn rows_of_hunks(hs: Seq<HunkV>) -> Seq<RowV>
    decreases hs.len(),
{
    if hs.len() == 0 {
        seq![]
    } else {
        rows_of_hunks(hs.drop_last()) + (if hs.len() > 1 { seq![RowV::Blank] } else { seq![] }) + hunk_rows(hs.last())
    }
}

/// The positions, in order, of the `Change` rows.
pub open spec fn change_indices(rows: Seq<RowV>) -> Seq<int>
    decreases rows.len(),
{
    if rows.len() == 0 {
        seq![]
    } else {
        let rest = change_indices(rows.drop_last());
        if rows.last() is Change { rest.push(rows.len() - 1) } else { rest }
    }
}

/// The line and side that a cursor on row `cursor` targets: a `Change` row
/// with a line number on its own side.
pub open spec fn target_of(rows: Seq<RowV>, cursor: int) -> Option<(nat, Side)> {
    if 0 <= cursor < rows.len() {
        match rows[cursor] {
            RowV::Change { old, new, side, .. } => {
                let line = match side {
                    Side::Old => old,
                    Side::New => new,
                };
                match line {
                    Some(l) => Some((l, side)),
                    None => None,
                }
            },
            _ => None,
        }
    } else {
        None
    }
}

/// The view of an optional cursor target.
pub open spec fn opt_target(o: Option<(u32, Side)>) -> Option<(nat, Side)> {
    match o {
        Some((l, s)) => Some((l as nat, s)),
        None => None,
    }
}

/// The first position of `s` holding a value above `c`.
pub open spec fn first_above(s: Seq<int>, c: int) -> Option<int>
    decreases s.len(),
{
    if s.len() == 0 {
        None
    } else if s[0] > c {
        Some(0)
    } else {
        match first_above(s.drop_first(), c) {
            Some(k) => Some(k + 1),
            None => None,
        }
    }
}

/// The last position of `s` holding a value below `c`.
pub open spec fn last_below(s: Seq<int>, c: int) -> Option<int>
    decreases s.len(),
{
    if s.len() == 0 {
        None
    } else if s.last() < c {
        Some(s.len() - 1)
    } else {
        last_below(s.drop_last(), c)
    }
}

/// The cursor after one step among the change rows `changes` (nonempty, in
/// increasing order): forward, the first change row after the cursor, or
/// the last one when none is after it; backward, the last change row before
/// the cursor, or the first one when none is before it.
pub open spec fn stepped_cursor(changes: Seq<int>, cursor: int, forward: bool) -> int {
    if forward {
        match first_above(changes, cursor) {
            Some(k) => changes[k],
            None => changes.last(),
        }
    } else {
        match last_below(changes, cursor) {
            Some(k) => changes[k],
            None => changes[0],
        }
    }
}

impl App {
    /// The positions of the files listed under the search query and the
    /// status filter.
    pub open spec fn filtered_view(&self) -> Seq<int> {
        filtered_indices(self.files@, self.search_query@, self.filter_status)
    }

    /// The selected file's position: the listed file at the current index,
    /// clamped to the last listed one.
    pub open spec fn selected_view(&self) -> Option<int> {
        let f = self.filtered_view();
        if f.len() == 0 {
            None
        } else if self.current_file_idx < f.len() {
            Some(f[self.current_file_idx as int])
        } else {
            Some(f[f.len() - 1])
        }
    }

    /// The rows of the selected file's diff.
    pub open spec fn rows_spec(&self) -> Seq<RowV> {
        match self.selected_view() {
            Some(i) => match self.files@[i].1 {
                Some(d) => rows_of_hunks(d@.hunks),
                None => seq![],
            },
            None => seq![],
        }
    }

    /// The positions of the files listed under the search query (matched
    /// case-insensitively against the path) and the status filter.
    pub fn filtered_files(&self) -> (r: Vec<usize>)
        ensures
            idx_view(r@) == self.filtered_view(),
    {
        let lower_query = to_lowercase(self.search_query.as_str());
        let mut r: Vec<usize> = Vec::new();
        let mut i: usize = 0;
        while i < self.files.len()
            invariant
                i <= self.files@.len(),
                lower_query@ == lowercase_of(self.search_query@),
                idx_view(r@) == filtered_indices(self.files@.take(i as int), self.search_query@, self.filter_status),
            decreases self.files@.len() - i,
        {
            let fc = &self.files[i].0;
            let lower_path = to_lowercase(fc.path.as_str());
            let keep = passes_filter(lower_path.as_str(), fc.status, self.search_query.as_str(), lower_query.as_str(), self.filter_status);
            assert(self.files@.take(i + 1).drop_last() =~= self.files@.take(i as int));
            if keep {
                r.push(i);
                assert(idx_view(r@) =~= filtered_indices(self.files@.take(i as int), self.search_query@, self.filter_status).push(i as int));
            }
            i = i + 1;
        }
        assert(self.files@.take(i as int) =~= self.files@);
        r
    }
}

proof fn lemma_filtered_in_range(files: Seq<(FileChange, Option<ParsedFileDiff>)>, query: Seq<char>, filter: Option<FileStatus>)
    ensures
        forall|k: int| 0 <= k < filtered_indices(files, query, filter).len() ==> 0 <= #[trigger] filtered_indices(files, query, filter)[k] < files.len(),
    decreases files.len(),
{
    if files.len() > 0 {
        lemma_filtered_in_range(files.drop_last(), query, filter);
        let rest = filtered_indices(files.drop_last(), query, filter);
        let all = filtered_indices(files, query, filter);
        assert forall|k: int| 0 <= k < all.len() implies 0 <= #[trigger] all[k] < files.len() by {
            if k < rest.len() {
                assert(all[k] == rest[k]);
            }
        }
    }
}

proof fn lemma_change_indices_in_range(rows: Seq<RowV>)
    ensures
        forall|k: int| 0 <= k < change_indices(rows).len() ==> 0 <= #[trigger] change_indices(rows)[k] < rows.len(),
    decreases rows.len(),
{
    if rows.len() > 0 {
        lemma_change_indices_in_range(rows.drop_last());
        let rest = change_indices(rows.drop_last());
        let all = change_indices(rows);
        assert forall|k: int| 0 <= k < all.len() implies 0 <= #[trigger] all[k] < rows.len() by {
            if k < rest.len() {
                assert(all[k] == rest[k]);
            }
        }
    }
}

fn hunk_header_exec(h: &Hunk) -> (r: String)
    ensures
        r@ == hunk_header(h@),
{
    let mut v: Vec<char> = Vec::new();
    extend_str(&mut v, "@@ -");
    push_decimal(&mut v, h.old_start as u64);
    extend_str(&mut v, ",");
    push_decimal(&mut v, h.old_lines as u64);
    extend_str(&mut v, " +");
    push_decimal(&mut v, h.new_start as u64);
    extend_str(&mut v, ",");
    push_decimal(&mut v, h.new_lines as u64);
    extend_str(&mut v, " @@");
    extend_str(&mut v, h.content.as_str());
    string_of(&v)
}

fn rows_for_hunks(hunks: &Vec<Hunk>) -> (r: Vec<DiffRow>)
    ensures
        rows_view(r@) == rows_of_hunks(hunks_view(hunks@)),
{
    let ghost hv = hunks_view(hunks@);
    let mut rows: Vec<DiffRow> = Vec::new();
    let mut h: usize = 0;
    while h < hunks.len()
        invariant
            h <= hunks@.len(),
            hv == hunks_view(hunks@),
            rows_view(rows@) == rows_of_hunks(hv.take(h as int)),
        decreases hunks@.len() - h,
    {
        let ghost before = rows_view(rows@);
        if h > 0 {
            rows.push(DiffRow::Blank);
        }
        let ghost sep: Seq<RowV> = if h > 0 { seq![RowV::Blank] } else { seq![] };
        assert(rows_view(rows@) =~= before + sep);
        let hunk = &hunks[h];
        rows.push(DiffRow::HunkHeader(hunk_header_exec(hunk)));
        let ghost cv = changes_view(hunk.changes@);
        assert(rows_view(rows@) =~= before + sep + seq![RowV::HunkHeader(hunk_header(hunk@))]);
        let mut j: usize = 0;
        while j < hunk.changes.len()
            invariant
                j <= hunk.changes@.len(),
                cv == changes_view(hunk.changes@),
                rows_view(rows@) == before + sep + seq![RowV::HunkHeader(hunk_header(hunk@))]
                    + cv.take(j as int).map_values(|c: ChangeV| change_row(c)),
            decreases hunk.changes@.len() - j,
        {
            let change = &hunk.changes[j];
            let ghost prev = rows_view(rows@);
            let side = match change.change_type {
                ChangeType::Delete => Side::Old,
                _ => Side::New,
            };
            rows.push(DiffRow::Change {
                old: change.old_line_number,
                new: change.new_line_number,
                side,
                change_type: change.change_type,
                content: change.content.clone(),
            });
            assert(rows@.last()@ == change_row(cv[j as int]));
            assert(rows_view(rows@) =~= prev.push(change_row(cv[j as int])));
            assert(cv.take(j + 1).map_values(|c: ChangeV| change_row(c))
                =~= cv.take(j as int).map_values(|c: ChangeV| change_row(c)).push(change_row(cv[j as int])));
            assert(rows_view(rows@) =~= before + sep + seq![RowV::HunkHeader(hunk_header(hunk@))]
                + cv.take(j + 1).map_values(|c: ChangeV| change_row(c)));
            j = j + 1;
        }
        assert(cv.take(j as int) =~= cv);
        assert(hv.take(h + 1).drop_last() =~= hv.take(h as int));
        assert(hv.take(h + 1).last() == hv[h as int]);
        assert(rows_view(rows@) =~= rows_of_hunks(hv.take(h + 1)));
        h = h + 1;
    }
    assert(hv.take(h as int) =~= hv);
    rows
}

fn first_above_exec(s: &Vec<usize>, c: usize) -> (r: Option<usize>)
    ensures
        opt_idx(r) == first_above(idx_view(s@), c as int),
{
    let ghost sv = idx_view(s@);
    let mut k: usize = 0;
    assert(sv.skip(0) =~= sv);
    while k < s.len()
        invariant
            k <= s@.len(),
            sv == idx_view(s@),
            first_above(sv, c as int) == match first_above(sv.skip(k as int), c as int) {
                Some(m) => Some(m + k),
                None => None,
            },
        decreases s@.len() - k,
    {
        assert(sv.skip(k as int)[0] == sv[k as int]);
        if s[k] > c {
            return Some(k);
        }
        assert(sv.skip(k as int).drop_first() =~= sv.skip(k + 1));
        k = k + 1;
    }
    assert(sv.skip(k as int).len() == 0);
    None
}

fn last_below_exec(s: &Vec<usize>, c: usize) -> (r: Option<usize>)
    ensures
        opt_idx(r) == last_below(idx_view(s@), c as int),
{
    let ghost sv = idx_view(s@);
    let mut k: usize = s.len();
    assert(sv.take(k as int) =~= sv);
    while k > 0
        invariant
            k <= s@.len(),
            sv == idx_view(s@),
            last_below(sv, c as int) == last_below(sv.take(k as int), c as int),
        decreases k,
    {
        if s[k - 1] < c {
            return Some(k - 1);
        }
        assert(sv.take(k as int).drop_last() =~= sv.take(k - 1));
        k = k - 1;
    }
    None
}

impl App {
    /// The selected file's position: the listed file at the current index,
    /// clamped to the last listed one; `None` when no file is listed.
    pub fn selected_file_index(&self) -> (r: Option<usize>)
        ensures
            opt_idx(r) == self.selected_view(),
            r matches Some(i) ==> i < self.files@.len(),
    {
        let filtered = self.filtered_files();
        proof { lemma_filtered_in_range(self.files@, self.search_query@, self.filter_status); }
        if filtered.len() == 0 {
            return None;
        }
        let sidx = if self.current_file_idx < filtered.len() { self.current_file_idx } else { filtered.len() - 1 };
        assert(idx_view(filtered@)[sidx as int] == filtered@[sidx as int] as int);
        Some(filtered[sidx])
    }

    /// The selected file's path.
    pub fn selected_file_path(&self) -> (r: Option<String>)
        ensures
            crate::types::opt_str(r) == match self.selected_view() {
                Some(i) => Some(self.files@[i].0.path@),
                None => None,
            },
    {
        match self.selected_file_index() {
            Some(i) => Some(self.files[i].0.path.clone()),
            None => None,
        }
    }

    /// The rows of the selected file's diff: per hunk a header row and its
    /// change rows, a blank row between hunks; none without a selected
    /// file or diff.
    pub fn diff_rows(&self) -> (r: Vec<DiffRow>)
        ensures
            rows_view(r@) == self.rows_spec(),
    {
        let idx = match self.selected_file_index() {
            Some(i) => i,
            None => {
                return Vec::new();
            },
        };
        match &self.files[idx].1 {
            Some(diff) => rows_for_hunks(&diff.hunks),
            None => Vec::new(),
        }
    }

    /// The positions of the `Change` rows of `rows`.
    pub fn change_row_indices(rows: &[DiffRow]) -> (r: Vec<usize>)
        ensures
            idx_view(r@) == change_indices(rows_view(rows@)),
    {
        let ghost rv = rows_view(rows@);
        let mut r: Vec<usize> = Vec::new();
        let mut i: usize = 0;
        while i < rows.len()
            invariant
                i <= rows@.len(),
                rv == rows_view(rows@),
                idx_view(r@) == change_indices(rv.take(i as int)),
            decreases rows@.len() - i,
        {
            assert(rv.take(i + 1).drop_last() =~= rv.take(i as int));
            if rows[i].is_change() {
                r.push(i);
                assert(idx_view(r@) =~= change_indices(rv.take(i as int)).push(i as int));
            }
            i = i + 1;
        }
        assert(rv.take(i as int) =~= rv);
        r
    }

    /// The line and side under the diff cursor, when it is on a change row
    /// with a line number on its side.
    pub fn cursor_target(&self) -> (r: Option<(u32, Side)>)
        ensures
            opt_target(r) == target_of(self.rows_spec(), self.diff_cursor as int),
    {
        let rows = self.diff_rows();
        if self.diff_cursor >= rows.len() {
            return None;
        }
        assert(rows_view(rows@)[self.diff_cursor as int] == rows@[self.diff_cursor as int]@);
        match &rows[self.diff_cursor] {
            DiffRow::Change { old, new, side, .. } => {
                let line = match side {
                    Side::Old => *old,
                    Side::New => *new,
                };
                match line {
                    Some(l) => Some((l, *side)),
                    None => None,
                }
            },
            _ => None,
        }
    }

    /// Moves the diff cursor to the next (or previous) change row, stopping
    /// at either end; nothing happens without change rows.
    pub fn move_cursor(&mut self, forward: bool)
        ensures
            cursor_moved(*old(self), *final(self), forward),
    {
        let rows = self.diff_rows();
        let changes = Self::change_row_indices(rows.as_slice());
        if changes.len() == 0 {
            return;
        }
        let ghost sv = idx_view(changes@);
        let next = if forward {
            match first_above_exec(&changes, self.diff_cursor) {
                Some(k) => {
                    proof { lemma_first_above_props(sv, self.diff_cursor as int); }
                    k
                },
                None => changes.len() - 1,
            }
        } else {
            match last_below_exec(&changes, self.diff_cursor) {
                Some(k) => {
                    proof { lemma_last_below_props(sv, self.diff_cursor as int); }
                    k
                },
                None => 0,
            }
        };
        self.diff_cursor = changes[next];
    }

    /// Resets the viewport for a newly selected file: scrolled to the top,
    /// the cursor on the first change row (or row 0), no range anchor.
    pub fn reset_diff_view(&mut self)
        ensures
            view_reset(*old(self), *final(self)),
    {
        self.scroll_offset = 0;
        let rows = self.diff_rows();
        let changes = Self::change_row_indices(rows.as_slice());
        self.diff_cursor = if changes.len() > 0 { changes[0] } else { 0 };
        self.range_anchor = None;
    }

    /// Sets the range anchor to the cursor's target (clearing it when the
    /// cursor targets no line).
    pub fn set_range_anchor(&mut self)
        ensures
            anchor_set(*old(self), *final(self)),
    {
        self.range_anchor = self.cursor_target();
    }
}

proof fn lemma_first_above_props(s: Seq<int>, c: int)
    ensures
        first_above(s, c) matches Some(k) ==> 0 <= k < s.len() && s[k] > c
            && forall|j: int| 0 <= j < k ==> s[j] <= c,
        first_above(s, c) is None ==> forall|j: int| 0 <= j < s.len() ==> s[j] <= c,
    decreases s.len(),
{
    if s.len() > 0 {
        lemma_first_above_props(s.drop_first(), c);
        assert forall|j: int| 0 < j < s.len() implies s[j] == s.drop_first()[j - 1] by {}
    }
}

proof fn lemma_last_below_props(s: Seq<int>, c: int)
    ensures
        last_below(s, c) matches Some(k) ==> 0 <= k < s.len() && s[k] < c
            && forall|j: int| k < j < s.len() ==> s[j] >= c,
        last_below(s, c) is None ==> forall|j: int| 0 <= j < s.len() ==> s[j] >= c,
    decreases s.len(),
{
    if s.len() > 0 {
        lemma_last_below_props(s.drop_last(), c);
        assert forall|j: int| 0 <= j < s.len() - 1 implies s[j] == s.drop_last()[j] by {}
    }
}

// ---------------------------------------------------------------------------
// Comment order and lookup
// ---------------------------------------------------------------------------

/// Whether a comment is an overall comment.
pub open spec fn is_overall(c: CommentV) -> bool {
    c.comment_type == CommentType::Overall
}

/// The path a comment is ordered by (empty when it has none).
pub open spec fn path_key(c: CommentV) -> Seq<char> {
    match c.file_path {
        Some(p) => p,
        None => seq![],
    }
}

/// The line a comment is ordered by (0 when it has none).
pub open spec fn line_key(c: CommentV) -> nat {
    match c.start_line {
        Some(l) => l,
        None => 0,
    }
}

/// Review order of comments: overall comments first, then by path, then by
/// start line.
pub open spec fn key_lt(a: CommentV, b: CommentV) -> bool {
    if is_overall(a) != is_overall(b) {
        is_overall(a)
    } else if path_key(a) != path_key(b) {
        chars_lt(path_key(a), path_key(b))
    } else {
        line_key(a) < line_key(b)
    }
}

/// Whether two comments tie in review order.
pub open spec fn key_eq(a: CommentV, b: CommentV) -> bool {
    is_overall(a) == is_overall(b) && path_key(a) == path_key(b) && line_key(a) == line_key(b)
}

/// Comment `a` is listed before comment `b`: earlier in review order, or
/// tied and earlier in the list.
pub open spec fn listed_before(cs: Seq<CommentV>, a: int, b: int) -> bool {
    key_lt(cs[a], cs[b]) || (key_eq(cs[a], cs[b]) && a < b)
}

/// Inserts position `i` into the listing `s`, before the first entry that
/// `i` precedes in review order.
pub open spec fn insert_listed(cs: Seq<CommentV>, s: Seq<int>, i: int) -> Seq<int>
    decreases s.len(),
{
    if s.len() == 0 {
        seq![i]
    } else if key_lt(cs[i], cs[s[0]]) {
        seq![i] + s
    } else {
        seq![s[0]] + insert_listed(cs, s.drop_first(), i)
    }
}

/// The positions of the first `n` comments listed in review order, ties kept
/// in list order.
pub open spec fn review_listing(cs: Seq<CommentV>, n: nat) -> Seq<int>
    decreases n,
{
    if n == 0 {
        seq![]
    } else {
        insert_listed(cs, review_listing(cs, (n - 1) as nat), n - 1)
    }
}

/// Whether a comment shows on line `line` of `side` of `path`: a line or
/// range comment on that file and side whose lines (a missing end taken as
/// the start, a missing start as 0) contain `line`.
pub open spec fn on_line(c: CommentV, path: Seq<char>, line: nat, side: Side) -> bool {
    let start = line_key(c);
    let end = match c.end_line {
        Some(e) => e,
        None => start,
    };
    &&& c.file_path == Some(path)
    &&& c.side == Some(side_name(side))
    &&& (c.comment_type == CommentType::Line || c.comment_type == CommentType::Range)
    &&& start <= line && line <= end
}

/// The views of a sequence of comment references.
pub open spec fn ref_comments_view(s: Seq<&Comment>) -> Seq<CommentV> {
    s.map_values(|c: &Comment| c@)
}

proof fn lemma_key_lt_facts(a: CommentV, b: CommentV, c: CommentV)
    ensures
        !key_lt(a, a),
        key_lt(a, b) ==> !key_lt(b, a),
        key_lt(a, b) || key_lt(b, a) || key_eq(a, b),
        key_lt(a, b) && key_lt(b, c) ==> key_lt(a, c),
        key_lt(a, b) && key_eq(b, c) ==> key_lt(a, c),
        key_eq(a, b) && key_lt(b, c) ==> key_lt(a, c),
        key_eq(a, b) ==> !key_lt(a, b),
{
    lemma_chars_lt_order(path_key(a), path_key(b), path_key(c));
    lemma_chars_lt_order(path_key(b), path_key(a), path_key(c));
}

proof fn lemma_insert_listed(cs: Seq<CommentV>, s: Seq<int>, i: int, p: int)
    requires
        0 <= p <= s.len(),
        forall|k: int| 0 <= k < p ==> !key_lt(cs[i], cs[#[trigger] s[k]]),
        p < s.len() ==> key_lt(cs[i], cs[s[p]]),
    ensures
        insert_listed(cs, s, i) == s.insert(p, i),
    decreases s.len(),
{
    if s.len() > 0 && p > 0 {
        assert forall|k: int| 0 <= k < p - 1 implies !key_lt(cs[i], cs[#[trigger] s.drop_first()[k]]) by {
            assert(s.drop_first()[k] == s[k + 1]);
        }
        lemma_insert_listed(cs, s.drop_first(), i, p - 1);
        assert(seq![s[0]] + s.drop_first().insert(p - 1, i) =~= s.insert(p, i));
    } else if s.len() > 0 {
        assert(seq![i] + s =~= s.insert(0, i));
    } else {
        assert(seq![i] =~= s.insert(0, i));
    }
}

fn key_lt_exec(a: &Comment, b: &Comment) -> (r: bool)
    ensures
        r == key_lt(a@, b@),
{
    let oa = a.comment_type == CommentType::Overall;
    let ob = b.comment_type == CommentType::Overall;
    if oa != ob {
        return oa;
    }
    let pa = match &a.file_path {
        Some(p) => chars_of(p.as_str()),
        None => Vec::new(),
    };
    let pb = match &b.file_path {
        Some(p) => chars_of(p.as_str()),
        None => Vec::new(),
    };
    assert(pa@ == path_key(a@));
    assert(pb@ == path_key(b@));
    if !chars_eq(&pa, &pb) {
        return chars_lt_exec(&pa, &pb);
    }
    let la = match a.start_line {
        Some(l) => l,
        None => 0,
    };
    let lb = match b.start_line {
        Some(l) => l,
        None => 0,
    };
    la < lb
}

fn first_with_id(cs: &Vec<Comment>, id: &Vec<char>) -> (r: Option<usize>)
    ensures
        match r {
            Some(k) => k < cs@.len() && cs@[k as int].id@ == id@ && forall|j: int| 0 <= j < k ==> cs@[j].id@ != id@,
            None => forall|j: int| 0 <= j < cs@.len() ==> cs@[j].id@ != id@,
        },
{
    let mut k: usize = 0;
    while k < cs.len()
        invariant
            k <= cs@.len(),
            forall|j: int| 0 <= j < k ==> cs@[j].id@ != id@,
        decreases cs@.len() - k,
    {
        if equals_str(id, cs[k].id.as_str()) {
            return Some(k);
        }
        k = k + 1;
    }
    None
}

/// The position of the first comment with id `id`.
pub open spec fn first_id(cs: Seq<CommentV>, id: Seq<char>) -> Option<int>
    decreases cs.len(),
{
    if cs.len() == 0 {
        None
    } else {
        match first_id(cs.drop_last(), id) {
            Some(k) => Some(k),
            None => if cs.last().id == id { Some(cs.len() - 1) } else { None },
        }
    }
}

proof fn lemma_first_id(cs: Seq<CommentV>, id: Seq<char>, k: int)
    requires
        0 <= k <= cs.len(),
        forall|j: int| 0 <= j < k ==> cs[j].id != id,
        k < cs.len() ==> cs[k].id == id,
    ensures
        first_id(cs, id) == if k < cs.len() { Some(k) } else { None::<int> },
    decreases cs.len(),
{
    if cs.len() > 0 {
        if k < cs.len() - 1 {
            lemma_first_id(cs.drop_last(), id, k);
        } else {
            lemma_first_id(cs.drop_last(), id, cs.len() - 1);
        }
    }
}

impl App {
    /// The positions of all comments listed in review order: overall
    /// comments first, then by file path, then by start line; ties keep
    /// their order in the list.
    pub fn sorted_comment_indices(&self) -> (r: Vec<usize>)
        ensures
            idx_view(r@) == review_listing(comments_view(self.comments@), self.comments@.len()),
    {
        let ghost cs = comments_view(self.comments@);
        let mut r: Vec<usize> = Vec::new();
        let mut i: usize = 0;
        while i < self.comments.len()
            invariant
                i <= self.comments@.len(),
                cs == comments_view(self.comments@),
                idx_view(r@) == review_listing(cs, i as nat),
                forall|k: int| 0 <= k < r@.len() ==> #[trigger] r@[k] < i,
            decreases self.comments@.len() - i,
        {
            let mut p: usize = 0;
            while p < r.len() && !key_lt_exec(&self.comments[i], &self.comments[r[p]])
                invariant
                    i < self.comments@.len(),
                    cs == comments_view(self.comments@),
                    p <= r@.len(),
                    forall|k: int| 0 <= k < r@.len() ==> #[trigger] r@[k] < i,
                    forall|k: int| 0 <= k < p ==> !key_lt(cs[i as int], cs[#[trigger] idx_view(r@)[k]]),
                decreases r@.len() - p,
            {
                p = p + 1;
            }
            proof {
                lemma_insert_listed(cs, idx_view(r@), i as int, p as int);
            }
            let ghost prev = r@;
            r.insert(p, i);
            assert(idx_view(r@) =~= idx_view(prev).insert(p as int, i as int));
            i = i + 1;
        }
        r
    }
}

/// Whether the positions `s` are listed in review order.
pub open spec fn listed_in_order(cs: Seq<CommentV>, s: Seq<int>) -> bool {
    forall|a: int, b: int| #![trigger s[a], s[b]] 0 <= a < b < s.len() ==> listed_before(cs, s[a], s[b])
}

proof fn lemma_insert_listed_sorted(cs: Seq<CommentV>, s: Seq<int>, i: int)
    requires
        0 <= i < cs.len(),
        listed_in_order(cs, s),
        forall|k: int| 0 <= k < s.len() ==> 0 <= #[trigger] s[k] < i,
    ensures
        insert_listed(cs, s, i).len() == s.len() + 1,
        listed_in_order(cs, insert_listed(cs, s, i)),
        forall|k: int| 0 <= k < s.len() + 1 ==> (#[trigger] insert_listed(cs, s, i)[k] == i || s.contains(insert_listed(cs, s, i)[k])),
        forall|k: int| 0 <= k < s.len() + 1 ==> 0 <= #[trigger] insert_listed(cs, s, i)[k] <= i,
        insert_listed(cs, s, i).contains(i),
        forall|k: int| 0 <= k < s.len() ==> insert_listed(cs, s, i).contains(#[trigger] s[k]),
    decreases s.len(),
{
    let t = insert_listed(cs, s, i);
    if s.len() == 0 {
        assert(t[0] == i);
    } else if key_lt(cs[i], cs[s[0]]) {
        assert(t =~= seq![i] + s);
        assert forall|a: int, b: int| #![trigger t[a], t[b]] 0 <= a < b < t.len() implies listed_before(cs, t[a], t[b]) by {
            if a == 0 {
                if b > 1 {
                    assert(listed_before(cs, s[0], s[b - 1]));
                    lemma_key_lt_facts(cs[i], cs[s[0]], cs[s[b - 1]]);
                }
            } else {
                assert(t[a] == s[a - 1] && t[b] == s[b - 1]);
            }
        }
        assert(t[0] == i);
        assert forall|k: int| 0 <= k < s.len() implies t.contains(#[trigger] s[k]) by {
            assert(t[k + 1] == s[k]);
        }
        assert forall|k: int| 0 <= k < s.len() + 1 implies (#[trigger] t[k] == i || s.contains(t[k])) by {
            if k > 0 {
                assert(t[k] == s[k - 1]);
            }
        }
    } else {
        let rest = s.drop_first();
        assert forall|a: int, b: int| #![trigger rest[a], rest[b]] 0 <= a < b < rest.len() implies listed_before(cs, rest[a], rest[b]) by {
            assert(rest[a] == s[a + 1] && rest[b] == s[b + 1]);
        }
        assert forall|k: int| 0 <= k < rest.len() implies 0 <= #[trigger] rest[k] < i by {
            assert(rest[k] == s[k + 1]);
        }
        lemma_insert_listed_sorted(cs, rest, i);
        let u = insert_listed(cs, rest, i);
        assert(t =~= seq![s[0]] + u);
        lemma_key_lt_facts(cs[s[0]], cs[i], cs[i]);
        assert(listed_before(cs, s[0], i));
        assert forall|a: int, b: int| #![trigger t[a], t[b]] 0 <= a < b < t.len() implies listed_before(cs, t[a], t[b]) by {
            if a == 0 {
                assert(t[b] == u[b - 1]);
                if u[b - 1] != i {
                    assert(rest.contains(u[b - 1]));
                    let j = choose|j: int| 0 <= j < rest.len() && rest[j] == u[b - 1];
                    assert(rest[j] == s[j + 1]);
                    assert(listed_before(cs, s[0], s[j + 1]));
                }
            } else {
                assert(t[a] == u[a - 1] && t[b] == u[b - 1]);
            }
        }
        assert(t[0] == s[0]);
        assert forall|k: int| 0 <= k < s.len() + 1 implies (#[trigger] t[k] == i || s.contains(t[k])) by {
            if k == 0 {
            } else {
                assert(t[k] == u[k - 1]);
                if u[k - 1] != i {
                    let j = choose|j: int| 0 <= j < rest.len() && rest[j] == u[k - 1];
                    assert(s[j + 1] == rest[j]);
                }
            }
        }
        assert forall|k: int| 0 <= k < s.len() + 1 implies 0 <= #[trigger] t[k] <= i by {
            if k > 0 {
                assert(t[k] == u[k - 1]);
            }
        }
        let ki = choose|k: int| 0 <= k < u.len() && u[k] == i;
        assert(t[ki + 1] == i);
        assert forall|k: int| 0 <= k < s.len() implies t.contains(#[trigger] s[k]) by {
            if k > 0 {
                assert(rest[k - 1] == s[k]);
                assert(u.contains(rest[k - 1]));
                let j = choose|j: int| 0 <= j < u.len() && u[j] == rest[k - 1];
                assert(t[j + 1] == s[k]);
            }
        }
    }
}

/// The review listing of the first `n` comments holds each of the positions
/// `0..n` exactly once, and lists every comment before each one it comes
/// before: overall comments first, then by file path, then by start line,
/// ties in list order.
pub proof fn lemma_review_listing_sorted(cs: Seq<CommentV>, n: nat)
    requires
        n <= cs.len(),
    ensures
        review_listing(cs, n).len() == n,
        forall|k: int| 0 <= k < n ==> 0 <= #[trigger] review_listing(cs, n)[k] < n,
        forall|m: int| 0 <= m < n ==> review_listing(cs, n).contains(m),
        listed_in_order(cs, review_listing(cs, n)),
    decreases n,
{
    if n > 0 {
        let prev = review_listing(cs, (n - 1) as nat);
        lemma_review_listing_sorted(cs, (n - 1) as nat);
        lemma_insert_listed_sorted(cs, prev, n - 1);
        let cur = review_listing(cs, n);
        assert(cur == insert_listed(cs, prev, n - 1));
        assert forall|m: int| 0 <= m < n implies cur.contains(m) by {
            if m < n - 1 {
                assert(prev.contains(m));
                let j = choose|j: int| 0 <= j < prev.len() && prev[j] == m;
                assert(cur.contains(prev[j]));
            }
        }
        assert forall|k: int| 0 <= k < n implies 0 <= #[trigger] cur[k] < n by {
            if cur[k] != n - 1 {
                let j = choose|j: int| 0 <= j < prev.len() && prev[j] == cur[k];
            }
        }
    }
}

// ---------------------------------------------------------------------------
// Comment transitions
// ---------------------------------------------------------------------------

/// The mathematical value of a [`PendingComment`].
pub struct PendingV {
    pub kind: CommentType,
    pub file_path: Option<Seq<char>>,
    pub start_line: Option<nat>,
    pub end_line: Option<nat>,
    pub side: Option<Seq<char>>,
    pub editing_id: Option<Seq<char>>,
}

impl View for PendingComment {
    type V = PendingV;

    open spec fn view(&self) -> PendingV {
        PendingV {
            kind: self.kind,
            file_path: crate::types::opt_str(self.file_path),
            start_line: crate::types::opt_nat(self.start_line),
            end_line: crate::types::opt_nat(self.end_line),
            side: crate::types::opt_str(self.side),
            editing_id: crate::types::opt_str(self.editing_id),
        }
    }
}

/// The view of an optional pending comment.
pub open spec fn opt_pending(o: Option<PendingComment>) -> Option<PendingV> {
    match o {
        Some(p) => Some(p@),
        None => None,
    }
}

/// What a new comment of `kind` will target: nothing for an overall comment,
/// the selected file for a file comment; for a line comment the cursor's
/// line and side, for a range comment the lines from the anchor to the
/// cursor when the anchor is on the cursor's side (else the cursor's line).
/// `None` when a line or range comment has no cursor target.
pub open spec fn new_pending(kind: CommentType, file_path: Option<Seq<char>>, target: Option<(nat, Side)>, anchor: Option<(nat, Side)>) -> Option<PendingV> {
    match kind {
        CommentType::Overall => Some(PendingV { kind, file_path: None, start_line: None, end_line: None, side: None, editing_id: None }),
        CommentType::File => Some(PendingV { kind, file_path, start_line: None, end_line: None, side: None, editing_id: None }),
        CommentType::Range => match target {
            None => None,
            Some((cur, side)) => {
                let (start, end) = match anchor {
                    Some((a, aside)) => if aside == side {
                        (if a < cur { a } else { cur }, if a > cur { a } else { cur })
                    } else {
                        (cur, cur)
                    },
                    None => (cur, cur),
                };
                Some(PendingV {
                    kind: CommentType::Range,
                    file_path,
                    start_line: Some(start),
                    end_line: Some(end),
                    side: Some(side_name(side)),
                    editing_id: None,
                })
            },
        },
        CommentType::Line => match target {
            None => None,
            Some((line, side)) => Some(PendingV {
                kind: CommentType::Line,
                file_path,
                start_line: Some(line),
                end_line: Some(line),
                side: Some(side_name(side)),
                editing_id: None,
            }),
        },
    }
}

/// A range comment begun with an anchor on the cursor's side spans both the
/// anchor's line and the cursor's line, from the lower to the higher, in
/// either direction of selection; without such an anchor it spans the
/// cursor's line alone.
pub proof fn lemma_range_spans_anchor_and_cursor(file_path: Option<Seq<char>>, cur: nat, side: Side, a: nat, aside: Side)
    ensures
        new_pending(CommentType::Range, file_path, Some((cur, side)), Some((a, aside))) matches Some(p) && ({
            let start = p.start_line->0;
            let end = p.end_line->0;
            &&& p.start_line is Some && p.end_line is Some
            &&& start <= cur <= end
            &&& aside == side ==> start <= a <= end && (start == a || start == cur) && (end == a || end == cur)
            &&& aside != side ==> start == cur && end == cur
        }),
        new_pending(CommentType::Range, file_path, Some((cur, side)), None) matches Some(p)
            && p.start_line == Some(cur) && p.end_line == Some(cur),
{
}

/// The comments after editing the first one with id `id`: its text,
/// category and update time replaced.
pub open spec fn edited(cs: Seq<CommentV>, id: Seq<char>, text: Seq<char>, category: CommentCategory, now: Seq<char>) -> Seq<CommentV> {
    match first_id(cs, id) {
        Some(k) => cs.update(k, CommentV { text, category, updated_at: now, ..cs[k] }),
        None => cs,
    }
}

/// The comment created from a pending comment.
pub open spec fn created(p: PendingV, category: CommentCategory, text: Seq<char>, id: Seq<char>, now: Seq<char>) -> CommentV {
    CommentV {
        id,
        comment_type: p.kind,
        category,
        text,
        file_path: p.file_path,
        start_line: p.start_line,
        end_line: p.end_line,
        side: p.side,
        created_at: now,
        updated_at: now,
    }
}

/// Whether `new` is the state after submitting the comment form in state
/// `old` at time `now`, with `new_id` for a created comment. Without a
/// pending comment nothing changes; with blank (trimmed) text the form is
/// cancelled; otherwise the pending comment is created (or the edited one
/// updated) with the trimmed text, and the form closes.
pub open spec fn committed(old: App, new: App, now: Seq<char>, new_id: Seq<char>) -> bool {
    let text = trim(old.input_buffer@);
    match old.pending_comment {
        None => new == old,
        Some(p) => if text.len() == 0 {
            &&& new.input_buffer@.len() == 0
            &&& new == (App { input_buffer: new.input_buffer, pending_comment: None, view_mode: ViewMode::Split, ..old })
        } else {
            let cs = comments_view(old.comments@);
            &&& comments_view(new.comments@) == match p.editing_id {
                Some(id) => edited(cs, id@, text, old.input_category, now),
                None => cs.push(created(p@, old.input_category, text, new_id, now)),
            }
            &&& new.input_buffer@.len() == 0
            &&& new == (App {
                comments: new.comments,
                input_buffer: new.input_buffer,
                pending_comment: None,
                range_anchor: None,
                view_mode: ViewMode::Split,
                ..old
            })
        },
    }
}

/// The current time in RFC 3339 form (chrono `Utc::now().to_rfc3339()`).
/// Trusted for nothing: the result depends on the clock.
#[verifier::external_body]
fn utc_now_rfc3339() -> (r: String) {
    chrono::Utc::now().to_rfc3339()
}

/// A lower-case hexadecimal digit.
pub open spec fn is_lower_hex(c: char) -> bool {
    ('0' <= c && c <= '9') || ('a' <= c && c <= 'f')
}

/// The text of a version 4 UUID: 36 characters, hyphens at positions 8,
/// 13, 18 and 23, lower-case hexadecimal digits elsewhere, `4` (the
/// version) at 14 and one of `8`, `9`, `a`, `b` (the variant) at 19.
pub open spec fn uuid_v4_text(s: Seq<char>) -> bool {
    &&& s.len() == 36
    &&& s[8] == '-' && s[13] == '-' && s[18] == '-' && s[23] == '-'
    &&& forall|i: int| 0 <= i < 36 && i != 8 && i != 13 && i != 18 && i != 23 ==> is_lower_hex(#[trigger] s[i])
    &&& s[14] == '4'
    &&& (s[19] == '8' || s[19] == '9' || s[19] == 'a' || s[19] == 'b')
}

/// A fresh random comment id (uuid `Uuid::new_v4()`, rendered by its
/// `Display`, the hyphenated lower-case form). Trusted: it has the shape
/// of a version 4 UUID; which one is random.
#[verifier::external_body]
fn new_comment_id() -> (r: String)
    ensures
        uuid_v4_text(r@),
{
    uuid::Uuid::new_v4().to_string()
}

fn on_line_exec(c: &Comment, path: &Vec<char>, line: u32, side: Side) -> (r: bool)
    ensures
        r == on_line(c@, path@, line as nat, side),
{
    let on_file = match &c.file_path {
        Some(p) => equals_str(path, p.as_str()),
        None => false,
    };
    let on_side = match &c.side {
        Some(sd) => equals_str(&chars_of(sd.as_str()), side.as_str()),
        None => false,
    };
    let kind_ok = c.comment_type == CommentType::Line || c.comment_type == CommentType::Range;
    let start = match c.start_line {
        Some(l) => l,
        None => 0,
    };
    let end = match c.end_line {
        Some(e) => e,
        None => start,
    };
    on_file && on_side && kind_ok && start <= line && line <= end
}

impl App {
    /// The id of the comment selected by comment navigation: the one at the
    /// current comment index of the review listing.
    pub fn selected_comment_id(&self) -> (r: Option<String>)
        ensures
            crate::types::opt_str(r) == selected_comment_of(*self),
    {
        let order = self.sorted_comment_indices();
        proof {
            lemma_review_listing_sorted(comments_view(self.comments@), self.comments@.len());
        }
        if self.current_comment_idx < order.len() {
            let i = order[self.current_comment_idx];
            assert(idx_view(order@)[self.current_comment_idx as int] == i as int);
            Some(self.comments[i].id.clone())
        } else {
            None
        }
    }

    /// The comments shown on line `line` of `side` of `file_path`, in list
    /// order.
    pub fn get_comments_for_line(&self, file_path: &str, line: u32, side: Side) -> (r: Vec<&Comment>)
        ensures
            ref_comments_view(r@) == comments_view(self.comments@).filter(|c: CommentV| on_line(c, file_path@, line as nat, side)),
    {
        let ghost cs = comments_view(self.comments@);
        let ghost pred = |c: CommentV| on_line(c, file_path@, line as nat, side);
        let path = chars_of(file_path);
        let mut r: Vec<&Comment> = Vec::new();
        let mut i: usize = 0;
        while i < self.comments.len()
            invariant
                i <= self.comments@.len(),
                cs == comments_view(self.comments@),
                path@ == file_path@,
                pred == (|c: CommentV| on_line(c, file_path@, line as nat, side)),
                ref_comments_view(r@) == cs.take(i as int).filter(pred),
            decreases self.comments@.len() - i,
        {
            proof {
                assert(cs.take(i + 1) =~= cs.take(i as int).push(cs[i as int]));
                cs.take(i as int).lemma_filter_push(cs[i as int], pred);
            }
            if on_line_exec(&self.comments[i], &path, line, side) {
                r.push(&self.comments[i]);
                assert(ref_comments_view(r@) =~= cs.take(i as int).filter(pred).push(cs[i as int]));
            }
            i = i + 1;
        }
        assert(cs.take(i as int) =~= cs);
        r
    }

    /// Closes the comment form without saving.
    pub fn cancel_input(&mut self)
        ensures
            input_cancelled(*old(self), *final(self)),
    {
        self.input_buffer = String::new();
        self.pending_comment = None;
        self.view_mode = ViewMode::Split;
    }

    /// Deletes every comment with id `id`, keeping the comment index within
    /// the remaining comments.
    pub fn delete_comment(&mut self, id: &str)
        ensures
            comment_deleted(*old(self), *final(self), id@),
    {
        let ghost cs = comments_view(self.comments@);
        let ghost keep = |c: CommentV| c.id != id@;
        let target = chars_of(id);
        let mut kept: Vec<Comment> = Vec::new();
        let mut i: usize = 0;
        while i < self.comments.len()
            invariant
                i <= self.comments@.len(),
                cs == comments_view(self.comments@),
                target@ == id@,
                keep == (|c: CommentV| c.id != id@),
                comments_view(kept@) == cs.take(i as int).filter(keep),
            decreases self.comments@.len() - i,
        {
            proof {
                assert(cs.take(i + 1) =~= cs.take(i as int).push(cs[i as int]));
                cs.take(i as int).lemma_filter_push(cs[i as int], keep);
            }
            if !equals_str(&target, self.comments[i].id.as_str()) {
                let c = self.comments[i].clone();
                kept.push(c);
                assert(comments_view(kept@) =~= cs.take(i as int).filter(keep).push(cs[i as int]));
            }
            i = i + 1;
        }
        assert(cs.take(i as int) =~= cs);
        self.comments = kept;
        let order_len = self.comments.len();
        if self.current_comment_idx >= order_len && order_len > 0 {
            self.current_comment_idx = order_len - 1;
        }
    }

    /// Opens the comment form on the first comment with id `id`, prefilled
    /// with its text and category; nothing happens when there is none.
    pub fn begin_edit(&mut self, id: &str)
        ensures
            edit_begun(*old(self), *final(self), id@),
    {
        let ghost cs = comments_view(self.comments@);
        let found = first_with_id(&self.comments, &chars_of(id));
        proof {
            match found {
                Some(k) => { lemma_first_id(cs, id@, k as int); },
                None => { lemma_first_id(cs, id@, cs.len() as int); },
            }
        }
        if let Some(k) = found {
            let c = &self.comments[k];
            let text = c.text.clone();
            let category = c.category;
            let pending = PendingComment {
                kind: c.comment_type,
                file_path: crate::types::clone_opt_string(&c.file_path),
                start_line: c.start_line,
                end_line: c.end_line,
                side: crate::types::clone_opt_string(&c.side),
                editing_id: Some(c.id.clone()),
            };
            self.input_buffer = text;
            self.input_category = category;
            self.pending_comment = Some(pending);
            self.view_mode = ViewMode::CommentInput;
        }
    }

    /// Opens the comment form for a new comment of `kind` (see
    /// [`new_pending`] for its target). The form is cleared and its category
    /// reset first; when a line or range comment has no cursor target the
    /// form stays closed.
    pub fn begin_comment(&mut self, kind: CommentType)
        ensures
            comment_begun(*old(self), *final(self), kind),
    {
        self.input_buffer = String::new();
        self.input_category = CommentCategory::Fix;
        let file_path = self.selected_file_path();
        let pending = match kind {
            CommentType::Overall => PendingComment {
                kind,
                file_path: None,
                start_line: None,
                end_line: None,
                side: None,
                editing_id: None,
            },
            CommentType::File => PendingComment {
                kind,
                file_path,
                start_line: None,
                end_line: None,
                side: None,
                editing_id: None,
            },
            CommentType::Range => {
                let (cur_line, side) = match self.cursor_target() {
                    Some(t) => t,
                    None => {
                        return;
                    },
                };
                let (start, end) = match self.range_anchor {
                    Some((anchor, aside)) => if aside == side {
                        (if anchor < cur_line { anchor } else { cur_line }, if anchor > cur_line { anchor } else { cur_line })
                    } else {
                        (cur_line, cur_line)
                    },
                    None => (cur_line, cur_line),
                };
                PendingComment {
                    kind: CommentType::Range,
                    file_path,
                    start_line: Some(start),
                    end_line: Some(end),
                    side: Some(String::from_str(side.as_str())),
                    editing_id: None,
                }
            },
            CommentType::Line => {
                let (line, side) = match self.cursor_target() {
                    Some(t) => t,
                    None => {
                        return;
                    },
                };
                PendingComment {
                    kind: CommentType::Line,
                    file_path,
                    start_line: Some(line),
                    end_line: Some(line),
                    side: Some(String::from_str(side.as_str())),
                    editing_id: None,
                }
            },
        };
        self.pending_comment = Some(pending);
        self.view_mode = ViewMode::CommentInput;
    }

    /// Submits the comment form at time `now`, creating a comment with id
    /// `new_id` or updating the edited one (see [`committed`]).
    pub fn commit_pending_comment_at(&mut self, now: String, new_id: String)
        ensures
            committed(*old(self), *final(self), now@, new_id@),
    {
        let text = trim_exec(&chars_of(self.input_buffer.as_str()));
        let pending = match self.pending_comment.take() {
            Some(p) => p,
            None => {
                return;
            },
        };
        if text.len() == 0 {
            self.cancel_input();
            return;
        }
        let text = string_of(&text);
        let ghost cs = comments_view(self.comments@);
        match pending.editing_id {
            Some(id) => {
                let found = first_with_id(&self.comments, &chars_of(id.as_str()));
                proof {
                    match found {
                        Some(k) => { lemma_first_id(cs, id@, k as int); },
                        None => { lemma_first_id(cs, id@, cs.len() as int); },
                    }
                }
                if let Some(k) = found {
                    let old_c = self.comments[k].clone();
                    let updated = Comment {
                        text,
                        category: self.input_category,
                        updated_at: now,
                        ..old_c
                    };
                    self.comments.set(k, updated);
                    assert(comments_view(self.comments@) =~= edited(cs, id@, text@, self.input_category, now@));
                }
            },
            None => {
                let c = Comment {
                    id: new_id,
                    comment_type: pending.kind,
                    category: self.input_category,
                    text,
                    file_path: pending.file_path,
                    start_line: pending.start_line,
                    end_line: pending.end_line,
                    side: pending.side,
                    created_at: now.clone(),
                    updated_at: now,
                };
                self.comments.push(c);
                assert(comments_view(self.comments@) =~= cs.push(c@));
            },
        }
        self.input_buffer = String::new();
        self.range_anchor = None;
        self.view_mode = ViewMode::Split;
    }

    /// Submits the comment form at the current time, a created comment
    /// getting a fresh random id (a version 4 UUID).
    pub fn commit_pending_comment(&mut self)
        ensures
            exists|now: Seq<char>, new_id: Seq<char>| #[trigger] committed(*old(self), *final(self), now, new_id) && uuid_v4_text(new_id),
    {
        let now = utc_now_rfc3339();
        let new_id = new_comment_id();
        self.commit_pending_comment_at(now, new_id);
    }
}

fn contains_index(s: &Vec<usize>, x: usize) -> (r: bool)
    ensures
        r == idx_view(s@).contains(x as int),
{
    let mut k: usize = 0;
    while k < s.len()
        invariant
            k <= s@.len(),
            forall|j: int| 0 <= j < k ==> s@[j] != x,
        decreases s@.len() - k,
    {
        if s[k] == x {
            assert(idx_view(s@)[k as int] == x as int);
            return true;
        }
        k = k + 1;
    }
    assert forall|j: int| 0 <= j < idx_view(s@).len() implies idx_view(s@)[j] != x as int by {
        assert(idx_view(s@)[j] == s@[j] as int);
    }
    false
}

impl App {
    /// Replaces the diff data after a re-diff, keeping the review state: the
    /// file index is clamped to the listed files, the cursor kept when it is
    /// still on a change row (else moved to the first one, or row 0), and the
    /// view scrolled to the top.
    pub fn rebuild_diffs(&mut self, files: Vec<FileChange>, parsed: Vec<ParsedFileDiff>)
        ensures
            diffs_rebuilt(*old(self), *final(self), files@, files_view(parsed@)),
    {
        self.files = combine(files, parsed);
        let filtered = self.filtered_files();
        if filtered.len() > 0 && self.current_file_idx >= filtered.len() {
            self.current_file_idx = filtered.len() - 1;
        }
        let rows = self.diff_rows();
        let changes = Self::change_row_indices(rows.as_slice());
        if !contains_index(&changes, self.diff_cursor) {
            self.diff_cursor = if changes.len() > 0 { changes[0] } else { 0 };
        }
        self.scroll_offset = 0;
    }
}

// ---------------------------------------------------------------------------
// Laws
// ---------------------------------------------------------------------------

/// Cycling the theme forward and then back (or back and then forward)
/// returns to a theme of [`ORDER`].
pub proof fn lemma_cycle_theme_round_trip(k: int)
    requires
        0 <= k < 6,
    ensures
        cycled_theme(cycled_theme(ORDER@[k]@, true), false) == ORDER@[k]@,
        cycled_theme(cycled_theme(ORDER@[k]@, false), true) == ORDER@[k]@,
{
    reveal_strlit("default-dark");
    reveal_strlit("catppuccin-mocha");
    reveal_strlit("catppuccin-macchiato");
    reveal_strlit("catppuccin-frappe");
    reveal_strlit("default-light");
    reveal_strlit("catppuccin-latte");
    assert(ORDER@[0]@.len() == 12);
    assert(ORDER@[1]@.len() == 16);
    assert(ORDER@[2]@.len() == 20);
    assert(ORDER@[3]@.len() == 17);
    assert(ORDER@[4]@.len() == 13);
    assert(ORDER@[5]@.len() == 16);
    assert(ORDER@[1]@[11] != ORDER@[5]@[11]);
    assert(ORDER@[0]@ != ORDER@[1]@);
    assert(ORDER@[0]@ != ORDER@[2]@);
    assert(ORDER@[0]@ != ORDER@[3]@);
    assert(ORDER@[0]@ != ORDER@[4]@);
    assert(ORDER@[0]@ != ORDER@[5]@);
    assert(ORDER@[1]@ != ORDER@[2]@);
    assert(ORDER@[1]@ != ORDER@[3]@);
    assert(ORDER@[1]@ != ORDER@[4]@);
    assert(ORDER@[1]@ != ORDER@[5]@);
    assert(ORDER@[2]@ != ORDER@[3]@);
    assert(ORDER@[2]@ != ORDER@[4]@);
    assert(ORDER@[2]@ != ORDER@[5]@);
    assert(ORDER@[3]@ != ORDER@[4]@);
    assert(ORDER@[3]@ != ORDER@[5]@);
    assert(ORDER@[4]@ != ORDER@[5]@);
}

/// A toggle flips whether the file is marked and leaves every other file's
/// mark as it was, so toggling twice restores the marks of all files (and,
/// from an unmarked file, the list itself); after a toggle the file is
/// listed at most once.
pub proof fn lemma_toggle_reviewed(reviewed: Seq<Seq<char>>, path: Seq<char>)
    ensures
        !reviewed.contains(path) ==> toggled(toggled(reviewed, path), path) == reviewed,
        toggled(reviewed, path).contains(path) == !reviewed.contains(path),
        forall|q: Seq<char>| q != path ==> (#[trigger] toggled(reviewed, path).contains(q) == reviewed.contains(q)),
        forall|q: Seq<char>| #[trigger] toggled(toggled(reviewed, path), path).contains(q) == reviewed.contains(q),
        forall|i: int, j: int| 0 <= i < toggled(reviewed, path).len() && 0 <= j < toggled(reviewed, path).len()
            && toggled(reviewed, path)[i] == path && toggled(reviewed, path)[j] == path ==> i == j,
{
    lemma_toggle_once(reviewed, path);
    lemma_toggle_once(toggled(reviewed, path), path);
    if !reviewed.contains(path) {
        let keep = unmarked(path);
        assert(reviewed.push(path)[reviewed.len() as int] == path);
        reviewed.lemma_filter_push(path, keep);
        assert(reviewed.filter(keep) == reviewed) by {
            lemma_filter_all(reviewed, keep);
        }
    }
}

proof fn lemma_toggle_once(reviewed: Seq<Seq<char>>, path: Seq<char>)
    ensures
        toggled(reviewed, path).contains(path) == !reviewed.contains(path),
        forall|q: Seq<char>| q != path ==> (#[trigger] toggled(reviewed, path).contains(q) == reviewed.contains(q)),
        forall|i: int, j: int| 0 <= i < toggled(reviewed, path).len() && 0 <= j < toggled(reviewed, path).len()
            && toggled(reviewed, path)[i] == path && toggled(reviewed, path)[j] == path ==> i == j,
{
    broadcast use vstd::seq_lib::group_filter_ensures;
    let keep = unmarked(path);
    let t = toggled(reviewed, path);
    if reviewed.contains(path) {
        assert forall|k: int| 0 <= k < t.len() implies t[k] != path by {
            assert(t.contains(t[k]));
            assert(keep(t[k]));
        }
        assert(t == reviewed.filter(keep));
        assert forall|q: Seq<char>| q != path implies (#[trigger] t.contains(q) == reviewed.contains(q)) by {
            if reviewed.contains(q) {
                let k = choose|k: int| 0 <= k < reviewed.len() && reviewed[k] == q;
                assert(keep(reviewed[k]));
                assert(reviewed.filter(keep).contains(reviewed[k]));
            }
            if t.contains(q) {
                let k = choose|k: int| 0 <= k < t.len() && t[k] == q;
                lemma_filter_within(reviewed, keep);
                assert(reviewed.contains(reviewed.filter(keep)[k]));
            }
        }
    } else {
        assert(t == reviewed.push(path));
        assert(t[reviewed.len() as int] == path);
        assert forall|q: Seq<char>| q != path implies (#[trigger] t.contains(q) == reviewed.contains(q)) by {
            if t.contains(q) {
                let k = choose|k: int| 0 <= k < t.len() && t[k] == q;
                assert(k < reviewed.len());
                assert(reviewed[k] == q);
            }
            if reviewed.contains(q) {
                let k = choose|k: int| 0 <= k < reviewed.len() && reviewed[k] == q;
                assert(t[k] == q);
            }
        }
        assert forall|i: int, j: int| 0 <= i < t.len() && 0 <= j < t.len() && t[i] == path && t[j] == path implies i == j by {
            if i < reviewed.len() {
                assert(reviewed[i] == path);
            }
            if j < reviewed.len() {
                assert(reviewed[j] == path);
            }
        }
    }
}

proof fn lemma_filter_within(s: Seq<Seq<char>>, keep: spec_fn(Seq<char>) -> bool)
    ensures
        forall|k: int| 0 <= k < s.filter(keep).len() ==> s.contains(#[trigger] s.filter(keep)[k]),
    decreases s.len(),
{
    reveal(Seq::filter);
    if s.len() > 0 {
        lemma_filter_within(s.drop_last(), keep);
        let sub = s.drop_last().filter(keep);
        assert forall|k: int| 0 <= k < s.filter(keep).len() implies s.contains(#[trigger] s.filter(keep)[k]) by {
            if k < sub.len() {
                assert(s.filter(keep)[k] == sub[k]);
                let j = choose|j: int| 0 <= j < s.drop_last().len() && s.drop_last()[j] == sub[k];
                assert(s[j] == sub[k]);
            } else {
                assert(s.filter(keep)[k] == s.last());
                assert(s[s.len() - 1] == s.last());
            }
        }
    }
}

proof fn lemma_filter_all(s: Seq<Seq<char>>, keep: spec_fn(Seq<char>) -> bool)
    requires
        forall|k: int| 0 <= k < s.len() ==> keep(#[trigger] s[k]),
    ensures
        s.filter(keep) == s,
    decreases s.len(),
{
    if s.len() > 0 {
        lemma_filter_all(s.drop_last(), keep);
        s.drop_last().lemma_filter_push(s.last(), keep);
        assert(s.drop_last().push(s.last()) =~= s);
    } else {
        reveal(Seq::filter);
    }
}

/// Typing a character into a form below the length limit and erasing it
/// gives back the form's text.
pub proof fn lemma_type_then_erase(buffer: Seq<char>, c: char)
    requires
        buffer.len() < MAX_COMMENT_CHARS,
    ensures
        erased(typed(buffer, c)) == buffer,
{
    assert(buffer.push(c).drop_last() =~= buffer);
}

/// The stored view mode restores the split or unified view it was stored
/// from.
pub proof fn lemma_view_mode_round_trip(m: ViewMode)
    requires
        m != ViewMode::CommentInput,
    ensures
        restored_mode(persisted_mode(m)) == m,
{
    reveal_strlit("unified");
    reveal_strlit("split");
    assert("split"@.len() != "unified"@.len());
}

// ---------------------------------------------------------------------------
// Transition relations
// ---------------------------------------------------------------------------

/// `new` is `old` with the theme cycled once, forward or back.
pub open spec fn theme_cycled(old: App, new: App, forward: bool) -> bool {
    &&& new.theme_id@ == cycled_theme(old.theme_id@, forward)
    &&& new == (App { theme_id: new.theme_id, ..old })
}

/// `new` is `old` with the view mode restored from the stored name `s`.
pub open spec fn mode_restored(old: App, new: App, s: Seq<char>) -> bool {
    &&& new.view_mode == restored_mode(s)
    &&& new == (App { view_mode: new.view_mode, ..old })
}

/// `new` is `old` with `c` typed into the comment form.
pub open spec fn char_typed(old: App, new: App, c: char) -> bool {
    &&& new.input_buffer@ == typed(old.input_buffer@, c)
    &&& new == (App { input_buffer: new.input_buffer, ..old })
}

/// `new` is `old` with the last character of the comment form erased.
pub open spec fn char_erased(old: App, new: App) -> bool {
    &&& new.input_buffer@ == erased(old.input_buffer@)
    &&& new == (App { input_buffer: new.input_buffer, ..old })
}

/// `new` is `old` with the review mark of `path` toggled.
pub open spec fn review_toggled(old: App, new: App, path: Seq<char>) -> bool {
    &&& strings_view(new.reviewed_files@) == toggled(strings_view(old.reviewed_files@), path)
    &&& new == (App { reviewed_files: new.reviewed_files, ..old })
}

/// `new` is `old` with the diff cursor stepped forward or back among the change rows.
pub open spec fn cursor_moved(old: App, new: App, forward: bool) -> bool {
    &&& ({
        let changes = change_indices(old.rows_spec());
        new.diff_cursor == if changes.len() == 0 {
            old.diff_cursor as int
        } else {
            stepped_cursor(changes, old.diff_cursor as int, forward)
        }
    })
    &&& new == (App { diff_cursor: new.diff_cursor, ..old })
}

/// `new` is `old` with the diff viewport reset: scrolled to the top, the cursor on the
/// first change row (or row 0), no range anchor.
pub open spec fn view_reset(old: App, new: App) -> bool {
    &&& ({
        let changes = change_indices(old.rows_spec());
        new.diff_cursor == if changes.len() > 0 { changes[0] } else { 0 }
    })
    &&& new == (App { scroll_offset: 0, diff_cursor: new.diff_cursor, range_anchor: None, ..old })
}

/// `new` is `old` with the range anchor set to the cursor's target.
pub open spec fn anchor_set(old: App, new: App) -> bool {
    &&& opt_target(new.range_anchor) == target_of(old.rows_spec(), old.diff_cursor as int)
    &&& new == (App { range_anchor: new.range_anchor, ..old })
}

/// `new` is `old` with the comment form closed unsaved.
pub open spec fn input_cancelled(old: App, new: App) -> bool {
    &&& new.input_buffer@.len() == 0
    &&& new == (App { input_buffer: new.input_buffer, pending_comment: None, view_mode: ViewMode::Split, ..old })
}

/// `new` is `old` without the comments with id `id`, the comment index kept within
/// the remaining comments.
pub open spec fn comment_deleted(old: App, new: App, id: Seq<char>) -> bool {
    &&& comments_view(new.comments@) == comments_view(old.comments@).filter(|c: CommentV| c.id != id)
    &&& new.current_comment_idx == if old.current_comment_idx >= new.comments@.len() && new.comments@.len() > 0 {
        (new.comments@.len() - 1) as usize
    } else {
        old.current_comment_idx
    }
    &&& new == (App { comments: new.comments, current_comment_idx: new.current_comment_idx, ..old })
}

/// `new` is `old` with the comment form opened on the first comment with id `id`
/// (unchanged when there is none).
pub open spec fn edit_begun(old: App, new: App, id: Seq<char>) -> bool {
    &&& ({
        let cs = comments_view(old.comments@);
        match first_id(cs, id) {
            Some(k) => {
                &&& new.input_buffer@ == cs[k].text
                &&& opt_pending(new.pending_comment) == Some(PendingV {
                    kind: cs[k].comment_type,
                    file_path: cs[k].file_path,
                    start_line: cs[k].start_line,
                    end_line: cs[k].end_line,
                    side: cs[k].side,
                    editing_id: Some(cs[k].id),
                })
                &&& new == (App {
                    input_buffer: new.input_buffer,
                    input_category: cs[k].category,
                    pending_comment: new.pending_comment,
                    view_mode: ViewMode::CommentInput,
                    ..old
                })
            },
            None => new == old,
        }
    })
}

/// `new` is `old` with the comment form opened for a new comment of `kind` (see
/// [`new_pending`]); when a line or range comment has no target the form stays
/// closed, though cleared.
pub open spec fn comment_begun(old: App, new: App, kind: CommentType) -> bool {
    &&& new.input_buffer@.len() == 0
    &&& ({
        let path = match old.selected_view() {
            Some(i) => Some(old.files@[i].0.path@),
            None => None,
        };
        let p = new_pending(kind, path, target_of(old.rows_spec(), old.diff_cursor as int), opt_target(old.range_anchor));
        match p {
            Some(pv) => opt_pending(new.pending_comment) == Some(pv) && new.view_mode == ViewMode::CommentInput,
            None => new.pending_comment == old.pending_comment && new.view_mode == old.view_mode,
        }
    })
    &&& new == (App {
        input_buffer: new.input_buffer,
        input_category: CommentCategory::Fix,
        pending_comment: new.pending_comment,
        view_mode: new.view_mode,
        ..old
    })
}

/// `new` is `old` with its files replaced by `files` paired with the diffs of
/// `parsed`: the file index clamped to the listed files, the cursor kept
/// when it is still on a change row (else on the first, or row 0), and the
/// view scrolled to the top.
pub open spec fn diffs_rebuilt(old: App, new: App, files: Seq<FileChange>, parsed: Seq<FileDiffV>) -> bool {
    &&& combined(new.files@, files, parsed)
    &&& ({
        let f = filtered_indices(new.files@, old.search_query@, old.filter_status);
        new.current_file_idx == if f.len() > 0 && old.current_file_idx >= f.len() {
            (f.len() - 1) as usize
        } else {
            old.current_file_idx
        }
    })
    &&& ({
        let ch = change_indices(new.rows_spec());
        new.diff_cursor == if ch.contains(old.diff_cursor as int) {
            old.diff_cursor as int
        } else if ch.len() > 0 {
            ch[0]
        } else {
            0
        }
    })
    &&& new == (App {
        files: new.files,
        current_file_idx: new.current_file_idx,
        diff_cursor: new.diff_cursor,
        scroll_offset: 0,
        ..old
    })
}

/// The id of the comment selected by comment navigation: the one at the
/// current comment index of the review listing.
pub open spec fn selected_comment_of(app: App) -> Option<Seq<char>> {
    let cs = comments_view(app.comments@);
    let l = review_listing(cs, cs.len());
    if app.current_comment_idx < l.len() {
        Some(cs[l[app.current_comment_idx as int]].id)
    } else {
        None
    }
}

/// The first visible row of a viewport `viewport` rows high, scrolled to
/// `scroll`, once moved the least to show the cursor row.
pub open spec fn offset_for(scroll: nat, cursor: nat, viewport: nat) -> nat {
    if cursor < scroll {
        cursor
    } else if viewport > 0 && cursor >= scroll + viewport {
        (cursor + 1 - viewport) as nat
    } else {
        scroll
    }
}

/// The first visible row once the viewport is moved the least to show the
/// cursor row (see [`offset_for`]); the cursor row is then visible.
pub fn visible_offset(scroll: usize, cursor: usize, viewport: usize) -> (r: usize)
    ensures
        r == offset_for(scroll as nat, cursor as nat, viewport as nat),
        viewport > 0 ==> r <= cursor < r + viewport,
{
    if cursor < scroll {
        cursor
    } else if viewport > 0 && cursor - scroll >= viewport {
        cursor - viewport + 1
    } else {
        scroll
    }
}

// ---------------------------------------------------------------------------
// More laws
// ---------------------------------------------------------------------------

/// A cursor step among change rows in increasing order lands on a change
/// row: forward, on the nearest one after the cursor when there is one
/// (else the last), backward, on the nearest one before it when there is one
/// (else the first).
pub proof fn lemma_cursor_lands_on_change_row(changes: Seq<int>, cursor: int, forward: bool)
    requires
        changes.len() > 0,
        forall|i: int, j: int| 0 <= i < j < changes.len() ==> changes[i] < changes[j],
    ensures
        changes.contains(stepped_cursor(changes, cursor, forward)),
        forward && (exists|j: int| 0 <= j < changes.len() && changes[j] > cursor) ==> {
            let r = stepped_cursor(changes, cursor, forward);
            r > cursor && forall|j: int| 0 <= j < changes.len() && changes[j] > cursor ==> r <= changes[j]
        },
        forward && !(exists|j: int| 0 <= j < changes.len() && changes[j] > cursor)
            ==> stepped_cursor(changes, cursor, forward) == changes.last(),
        !forward && (exists|j: int| 0 <= j < changes.len() && changes[j] < cursor) ==> {
            let r = stepped_cursor(changes, cursor, forward);
            r < cursor && forall|j: int| 0 <= j < changes.len() && changes[j] < cursor ==> r >= changes[j]
        },
        !forward && !(exists|j: int| 0 <= j < changes.len() && changes[j] < cursor)
            ==> stepped_cursor(changes, cursor, forward) == changes[0],
{
    lemma_first_above_props(changes, cursor);
    lemma_last_below_props(changes, cursor);
    if forward {
        match first_above(changes, cursor) {
            Some(k) => {
                assert(changes[k] == stepped_cursor(changes, cursor, forward));
                assert forall|j: int| 0 <= j < changes.len() && changes[j] > cursor implies changes[k] <= changes[j] by {
                    if j < k {
                    } else if j > k {
                    }
                }
            },
            None => {
                assert(changes[changes.len() - 1] == stepped_cursor(changes, cursor, forward));
            },
        }
    } else {
        match last_below(changes, cursor) {
            Some(k) => {
                assert(changes[k] == stepped_cursor(changes, cursor, forward));
                assert forall|j: int| 0 <= j < changes.len() && changes[j] < cursor implies changes[k] >= changes[j] by {
                    if j > k {
                    } else if j < k {
                    }
                }
            },
            None => {
                assert(changes[0] == stepped_cursor(changes, cursor, forward));
            },
        }
    }
}

/// The change rows of a diff are in increasing order.
pub proof fn lemma_change_rows_increasing(rows: Seq<RowV>)
    ensures
        forall|i: int| 0 <= i < change_indices(rows).len() ==> 0 <= #[trigger] change_indices(rows)[i] < rows.len(),
        forall|i: int, j: int| 0 <= i < j < change_indices(rows).len() ==> change_indices(rows)[i] < change_indices(rows)[j],
    decreases rows.len(),
{
    if rows.len() > 0 {
        let rest = change_indices(rows.drop_last());
        lemma_change_rows_increasing(rows.drop_last());
        let ci = change_indices(rows);
        if rows.last() is Change {
            assert(ci == rest.push(rows.len() - 1));
            assert forall|i: int| 0 <= i < ci.len() implies 0 <= #[trigger] ci[i] < rows.len() by {
                if i < rest.len() {
                    assert(ci[i] == rest[i]);
                }
            }
            assert forall|i: int, j: int| 0 <= i < j < ci.len() implies ci[i] < ci[j] by {
                assert(ci[i] == rest[i]);
                if j < rest.len() {
                    assert(ci[j] == rest[j]);
                }
            }
        } else {
            assert(ci == rest);
        }
    }
}

/// A range comment never starts after it ends, and a line comment spans one
/// line.
pub proof fn lemma_new_comment_lines(kind: CommentType, file_path: Option<Seq<char>>, target: Option<(nat, Side)>, anchor: Option<(nat, Side)>)
    ensures
        new_pending(kind, file_path, target, anchor) matches Some(p) ==> match (p.start_line, p.end_line) {
            (Some(s), Some(e)) => s <= e && (kind == CommentType::Line ==> s == e),
            (None, None) => kind == CommentType::File || kind == CommentType::Overall,
            _ => false,
        },
{
}

/// Submitting the form on a fresh comment with some text appends exactly
/// one comment, carrying the trimmed text and the selected category.
pub proof fn lemma_commit_appends(old: App, new: App, now: Seq<char>, new_id: Seq<char>)
    requires
        committed(old, new, now, new_id),
        old.pending_comment matches Some(p) && p.editing_id is None,
        trim(old.input_buffer@).len() > 0,
    ensures
        new.comments@.len() == old.comments@.len() + 1,
        comments_view(new.comments@).last().text == trim(old.input_buffer@),
        comments_view(new.comments@).last().category == old.input_category,
        comments_view(new.comments@).last().id == new_id,
        comments_view(new.comments@).drop_last() == comments_view(old.comments@),
{
    let cs = comments_view(old.comments@);
    let p = old.pending_comment->0;
    assert(comments_view(new.comments@) == cs.push(created(p@, old.input_category, trim(old.input_buffer@), new_id, now)));
    assert(comments_view(new.comments@).len() == new.comments@.len());
    assert(cs.push(created(p@, old.input_category, trim(old.input_buffer@), new_id, now)).drop_last() =~= cs);
}

/// After deleting a comment id no comment with that id is left, and every
/// other comment stays.
pub proof fn lemma_delete_removes_id(old: App, new: App, id: Seq<char>)
    requires
        comment_deleted(old, new, id),
    ensures
        forall|k: int| 0 <= k < new.comments@.len() ==> (#[trigger] comments_view(new.comments@)[k]).id != id,
        forall|k: int| 0 <= k < old.comments@.len() && comments_view(old.comments@)[k].id != id
            ==> comments_view(new.comments@).contains(#[trigger] comments_view(old.comments@)[k]),
{
    broadcast use vstd::seq_lib::group_filter_ensures;
    let pred = |c: CommentV| c.id != id;
    let cs = comments_view(old.comments@);
    assert(comments_view(new.comments@) == cs.filter(pred));
    assert forall|k: int| 0 <= k < new.comments@.len() implies (#[trigger] comments_view(new.comments@)[k]).id != id by {
        assert(pred(cs.filter(pred)[k]));
    }
    assert forall|k: int| 0 <= k < old.comments@.len() && comments_view(old.comments@)[k].id != id
        implies comments_view(new.comments@).contains(#[trigger] comments_view(old.comments@)[k]) by {
        assert(pred(cs[k]));
    }
}

} // verus!
