//! The decisions of the terminal UI's event loop: what a normal-mode action
//! or a comment-form key does to the state, the context width a resize asks
//! for, and the records the UI saves and exports on exit.
use vstd::prelude::*;
use crate::config::{Config, MAX_CONTEXT_LINES};
use crate::markdown::MarkdownInput;
use crate::review::commit_range;
use crate::session::rolling_hash;
use crate::text::{chars_of, chars_eq, hex_digits};
use crate::tui::app::{
    App, ViewMode, anchor_set, char_erased, char_typed, comment_begun, comment_deleted, committed,
    cursor_moved, diffs_rebuilt, edit_begun, input_cancelled, persisted_mode, review_toggled,
    selected_comment_of, theme_cycled, view_reset,
};
use crate::tui::keybindings::Action;
use crate::types::{
    Comment, CommentCategory, CommentType, DiffResponse, FileChange, FileDiffV, ParsedFileDiff,
    ReviewMetadata, ReviewSession, comments_view, files_view,
};

verus! {

broadcast use vstd::string::group_string_axioms;

/// What the event loop does after an action.
#[derive(Debug, Clone, Copy, PartialEq, Eq, Structural)]
pub enum LoopEffect {
    /// Keep going.
    Continue,
    /// Leave the loop.
    Quit,
    /// The selected file changed to this list position.
    SelectFile(usize),
    /// Re-read the diff at this context width, then install it with
    /// [`apply_rediff`].
    Rediff(u32),
}

/// The context width after a change by `delta`, clamped to
/// `0..=MAX_CONTEXT_LINES`; `None` when it stays the same.
pub open spec fn next_context(current: u32, delta: int) -> Option<u32> {
    let n = current + delta;
    let c = if n < 0 { 0 } else if n > MAX_CONTEXT_LINES { MAX_CONTEXT_LINES as int } else { n };
    if c == current { None } else { Some(c as u32) }
}

/// The context width after a change by `delta` (see [`next_context`]).
pub fn context_step(current: u32, delta: i32) -> (r: Option<u32>)
    ensures
        r == next_context(current, delta as int),
{
    let n: i64 = current as i64 + delta as i64;
    let c: i64 = if n < 0 { 0 } else if n > MAX_CONTEXT_LINES as i64 { MAX_CONTEXT_LINES as i64 } else { n };
    if c == current as i64 { None } else { Some(c as u32) }
}

/// Whether `new` and `effect` are what a normal-mode `action` does in
/// state `old`.
pub open spec fn stepped(old: App, new: App, action: Action, effect: LoopEffect) -> bool {
    match action {
        Action::Quit => effect == LoopEffect::Quit && new == old,
        Action::NextFile => {
            let f = old.filtered_view();
            if f.len() > 0 {
                let i = if old.current_file_idx + 1 < f.len() { old.current_file_idx + 1 } else { f.len() - 1 };
                view_reset((App { current_file_idx: i as usize, ..old }), new) && effect == LoopEffect::SelectFile(i as usize)
            } else {
                new == old && effect == LoopEffect::Continue
            }
        },
        Action::PrevFile => {
            let i = if old.current_file_idx > 0 { old.current_file_idx - 1 } else { 0 };
            view_reset((App { current_file_idx: i as usize, ..old }), new) && effect == LoopEffect::SelectFile(i as usize)
        },
        Action::IncreaseContext => new == old && effect == match next_context(old.context_lines, 1) {
            Some(n) => LoopEffect::Rediff(n),
            None => LoopEffect::Continue,
        },
        Action::DecreaseContext => new == old && effect == match next_context(old.context_lines, -1) {
            Some(n) => LoopEffect::Rediff(n),
            None => LoopEffect::Continue,
        },
        _ => effect == LoopEffect::Continue && match action {
            Action::NextComment => {
                let n = old.comments@.len();
                new == (App {
                    current_comment_idx: if n == 0 {
                        old.current_comment_idx
                    } else if old.current_comment_idx + 1 < n {
                        (old.current_comment_idx + 1) as usize
                    } else {
                        (n - 1) as usize
                    },
                    ..old
                })
            },
            Action::PrevComment => new == (App {
                current_comment_idx: if old.current_comment_idx > 0 { (old.current_comment_idx - 1) as usize } else { 0 },
                ..old
            }),
            Action::CursorDown => cursor_moved(old, new, true),
            Action::CursorUp => cursor_moved(old, new, false),
            Action::CommentLine => comment_begun(old, new, CommentType::Line),
            Action::CommentRange => comment_begun(old, new, CommentType::Range),
            Action::CommentFile => comment_begun(old, new, CommentType::File),
            Action::CommentOverall => comment_begun(old, new, CommentType::Overall),
            Action::SetRangeAnchor => anchor_set(old, new),
            Action::EditComment => match selected_comment_of(old) {
                Some(id) => edit_begun(old, new, id),
                None => new == old,
            },
            Action::DeleteComment => match selected_comment_of(old) {
                Some(id) => comment_deleted(old, new, id),
                None => new == old,
            },
            Action::ToggleReviewed => match old.selected_view() {
                Some(i) => review_toggled(old, new, old.files@[i].0.path@),
                None => new == old,
            },
            Action::ToggleSidebar => new == (App { sidebar_collapsed: !old.sidebar_collapsed, ..old }),
            Action::CycleTheme => theme_cycled(old, new, true),
            Action::CycleThemeBack => theme_cycled(old, new, false),
            Action::ToggleViewMode => new == (App {
                view_mode: if old.view_mode == ViewMode::Split { ViewMode::Unified } else { ViewMode::Split },
                ..old
            }),
            Action::CloseForm => new == (App { range_anchor: None, ..old }),
            Action::ToggleHelp => new == (App { show_help: !old.show_help, ..old }),
            _ => new == old,
        },
    }
}

/// Performs a normal-mode action on the state and says what the event loop
/// does next (see [`stepped`]).
pub fn step(app: &mut App, action: Action) -> (effect: LoopEffect)
    ensures
        stepped(*old(app), *final(app), action, effect),
{
    match action {
        Action::Quit => LoopEffect::Quit,
        Action::NextFile => {
            let filtered = app.filtered_files();
            if filtered.len() > 0 {
                app.current_file_idx = if app.current_file_idx < filtered.len() - 1 {
                    app.current_file_idx + 1
                } else {
                    filtered.len() - 1
                };
                app.reset_diff_view();
                LoopEffect::SelectFile(app.current_file_idx)
            } else {
                LoopEffect::Continue
            }
        },
        Action::PrevFile => {
            app.current_file_idx = if app.current_file_idx > 0 { app.current_file_idx - 1 } else { 0 };
            app.reset_diff_view();
            LoopEffect::SelectFile(app.current_file_idx)
        },
        Action::NextComment => {
            let n = app.comments.len();
            if n > 0 {
                app.current_comment_idx = if app.current_comment_idx < n - 1 { app.current_comment_idx + 1 } else { n - 1 };
            }
            LoopEffect::Continue
        },
        Action::PrevComment => {
            app.current_comment_idx = if app.current_comment_idx > 0 { app.current_comment_idx - 1 } else { 0 };
            LoopEffect::Continue
        },
        Action::CursorDown => {
            app.move_cursor(true);
            LoopEffect::Continue
        },
        Action::CursorUp => {
            app.move_cursor(false);
            LoopEffect::Continue
        },
        Action::CommentLine => {
            app.begin_comment(CommentType::Line);
            LoopEffect::Continue
        },
        Action::CommentRange => {
            app.begin_comment(CommentType::Range);
            LoopEffect::Continue
        },
        Action::CommentFile => {
            app.begin_comment(CommentType::File);
            LoopEffect::Continue
        },
        Action::CommentOverall => {
            app.begin_comment(CommentType::Overall);
            LoopEffect::Continue
        },
        Action::SetRangeAnchor => {
            app.set_range_anchor();
            LoopEffect::Continue
        },
        Action::EditComment => {
            if let Some(id) = app.selected_comment_id() {
                app.begin_edit(id.as_str());
            }
            LoopEffect::Continue
        },
        Action::DeleteComment => {
            if let Some(id) = app.selected_comment_id() {
                app.delete_comment(id.as_str());
            }
            LoopEffect::Continue
        },
        Action::ToggleReviewed => {
            if let Some(path) = app.selected_file_path() {
                app.toggle_reviewed(path.as_str());
            }
            LoopEffect::Continue
        },
        Action::ToggleSidebar => {
            app.sidebar_collapsed = !app.sidebar_collapsed;
            LoopEffect::Continue
        },
        Action::CycleTheme => {
            app.cycle_theme(true);
            LoopEffect::Continue
        },
        Action::CycleThemeBack => {
            app.cycle_theme(false);
            LoopEffect::Continue
        },
        Action::IncreaseContext => match context_step(app.context_lines, 1) {
            Some(n) => LoopEffect::Rediff(n),
            None => LoopEffect::Continue,
        },
        Action::DecreaseContext => match context_step(app.context_lines, -1) {
            Some(n) => LoopEffect::Rediff(n),
            None => LoopEffect::Continue,
        },
        Action::ToggleViewMode => {
            app.view_mode = match app.view_mode {
                ViewMode::Split => ViewMode::Unified,
                _ => ViewMode::Split,
            };
            LoopEffect::Continue
        },
        Action::CloseForm => {
            app.range_anchor = None;
            LoopEffect::Continue
        },
        Action::ToggleHelp => {
            app.show_help = !app.show_help;
            LoopEffect::Continue
        },
        Action::NoOp => LoopEffect::Continue,
    }
}

/// Installs a diff re-read at context width `context_lines`.
pub fn apply_rediff(app: &mut App, context_lines: u32, files: Vec<FileChange>, parsed: Vec<ParsedFileDiff>)
    ensures
        diffs_rebuilt((App { context_lines, ..*old(app) }), *final(app), files@, files_view(parsed@)),
{
    app.context_lines = context_lines;
    app.rebuild_diffs(files, parsed);
}

/// A key pressed while the comment form owns the input.
#[derive(Debug, Clone, Copy, PartialEq, Eq, Structural)]
pub enum FormKey {
    Esc,
    Enter,
    Backspace,
    Char(char),
    /// Any other key.
    Other,
}

/// The category a digit key picks in the comment form.
pub open spec fn category_key(c: char) -> Option<CommentCategory> {
    if c == '1' {
        Some(CommentCategory::Fix)
    } else if c == '2' {
        Some(CommentCategory::Question)
    } else if c == '3' {
        Some(CommentCategory::Suggestion)
    } else if c == '4' {
        Some(CommentCategory::Nit)
    } else {
        None
    }
}

/// Handles a key press in the comment form: Esc cancels, Enter submits,
/// `1`-`4` pick the category, other characters are typed, Backspace erases.
pub fn form_key(app: &mut App, key: FormKey)
    ensures
        match key {
            FormKey::Esc => input_cancelled(*old(app), *final(app)),
            FormKey::Enter => exists|now: Seq<char>, new_id: Seq<char>| committed(*old(app), *final(app), now, new_id),
            FormKey::Backspace => char_erased(*old(app), *final(app)),
            FormKey::Char(c) => match category_key(c) {
                Some(cat) => *final(app) == (App { input_category: cat, ..*old(app) }),
                None => char_typed(*old(app), *final(app), c),
            },
            FormKey::Other => *final(app) == *old(app),
        },
{
    match key {
        FormKey::Esc => app.cancel_input(),
        FormKey::Enter => app.commit_pending_comment(),
        FormKey::Backspace => app.pop_input_char(),
        FormKey::Char(c) => {
            if c == '1' {
                app.input_category = CommentCategory::Fix;
            } else if c == '2' {
                app.input_category = CommentCategory::Question;
            } else if c == '3' {
                app.input_category = CommentCategory::Suggestion;
            } else if c == '4' {
                app.input_category = CommentCategory::Nit;
            } else {
                app.push_input_char(c);
            }
        },
        FormKey::Other => {},
    }
}

/// The preferences to save on exit: the app's theme and context width with
/// the saved icon set, when they differ from the saved preferences.
pub fn changed_preferences(app: &App, saved: &Config) -> (r: Option<Config>)
    ensures
        match r {
            Some(c) => c.theme@ == app.theme_id@ && c.icon_mode == saved.icon_mode
                && c.diff_context_lines == app.context_lines
                && (app.theme_id@ != saved.theme@ || app.context_lines != saved.diff_context_lines),
            None => app.theme_id@ == saved.theme@ && app.context_lines == saved.diff_context_lines,
        },
{
    let same_theme = chars_eq(&chars_of(app.theme_id.as_str()), &chars_of(saved.theme.as_str()));
    if same_theme && app.context_lines == saved.diff_context_lines {
        None
    } else {
        Some(Config { theme: app.theme_id.clone(), icon_mode: saved.icon_mode, diff_context_lines: app.context_lines })
    }
}

fn clone_comments(v: &Vec<Comment>) -> (r: Vec<Comment>)
    ensures
        r@ == v@,
{
    let mut r: Vec<Comment> = Vec::new();
    let mut i: usize = 0;
    while i < v.len()
        invariant
            i <= v@.len(),
            r@ == v@.take(i as int),
        decreases v@.len() - i,
    {
        r.push(v[i].clone());
        assert(v@.take(i + 1) =~= v@.take(i as int).push(v@[i as int]));
        i = i + 1;
    }
    assert(v@.take(i as int) =~= v@);
    r
}

fn clone_strings(v: &Vec<String>) -> (r: Vec<String>)
    ensures
        r@ == v@,
{
    let mut r: Vec<String> = Vec::new();
    let mut i: usize = 0;
    while i < v.len()
        invariant
            i <= v@.len(),
            r@ == v@.take(i as int),
        decreases v@.len() - i,
    {
        r.push(v[i].clone());
        assert(v@.take(i + 1) =~= v@.take(i as int).push(v@[i as int]));
        i = i + 1;
    }
    assert(v@.take(i as int) =~= v@);
    r
}

/// The session record of the app for the review of `base_ref..head_ref`,
/// written at time `now`: version 2, the range and the hash of its base, the
/// comments, review marks and stored view mode.
pub fn session_record(app: &App, base_ref: &str, head_ref: &str, repo_name: &str, now: String) -> (r: ReviewSession)
    ensures
        r.version == 2,
        r.commit_range@ == base_ref@ + ".."@ + head_ref@,
        r.repo_path@ == repo_name@,
        r.repo_path_hash@ == hex_digits(rolling_hash(vstd::utf8::encode_utf8(crate::tui::range_base(base_ref@ + ".."@ + head_ref@))), 8),
        r.comments@ == app.comments@,
        r.reviewed_files@ == app.reviewed_files@,
        r.view_mode@ == persisted_mode(app.view_mode),
        r.created_at@ == now@,
        r.last_accessed_at@ == now@,
{
    let range = commit_range(base_ref, head_ref);
    let hash = crate::tui::range_base_hash(range.as_str());
    ReviewSession {
        version: 2,
        commit_range: range,
        repo_path: String::from_str(repo_name),
        repo_path_hash: hash,
        comments: clone_comments(&app.comments),
        reviewed_files: clone_strings(&app.reviewed_files),
        view_mode: String::from_str(app.persistable_view_mode()),
        created_at: now.clone(),
        last_accessed_at: now,
    }
}

/// The parsed diffs of the files that have one, in order.
pub open spec fn present_diffs(files: Seq<(FileChange, Option<ParsedFileDiff>)>) -> Seq<FileDiffV>
    decreases files.len(),
{
    if files.len() == 0 {
        seq![]
    } else {
        present_diffs(files.drop_last()) + match files.last().1 {
            Some(d) => seq![d@],
            None => seq![],
        }
    }
}

/// The markdown export of the app's review of `base_ref..HEAD`, made at
/// time `now`: its comments, the diffs of its files, and metadata naming
/// the repository, the range and every file.
pub fn export_input(app: &App, repo_name: &str, base_ref: &str, now: String) -> (r: MarkdownInput)
    ensures
        r.comments@ == app.comments@,
        files_view(r.diff_data.files@) == present_diffs(app.files@),
        r.metadata.repo_name@ == repo_name@,
        r.metadata.commit_range@ == base_ref@ + ".."@ + "HEAD"@,
        r.metadata.base_ref@ == base_ref@,
        r.metadata.head_ref@ == "HEAD"@,
        r.metadata.files@ == app.files@.map_values(|p: (FileChange, Option<ParsedFileDiff>)| p.0),
        r.metadata.timestamp@ == now@,
        r.metadata.csrf_token@.len() == 0,
{
    let mut list: Vec<FileChange> = Vec::new();
    let mut diffs: Vec<ParsedFileDiff> = Vec::new();
    let mut i: usize = 0;
    while i < app.files.len()
        invariant
            i <= app.files@.len(),
            list@ == app.files@.take(i as int).map_values(|p: (FileChange, Option<ParsedFileDiff>)| p.0),
            files_view(diffs@) == present_diffs(app.files@.take(i as int)),
        decreases app.files@.len() - i,
    {
        let pair = &app.files[i];
        list.push(pair.0.clone());
        assert(app.files@.take(i + 1).drop_last() =~= app.files@.take(i as int));
        match &pair.1 {
            Some(d) => {
                diffs.push(d.clone());
                assert(files_view(diffs@) =~= present_diffs(app.files@.take(i as int)) + seq![d@]);
            },
            None => {
                assert(present_diffs(app.files@.take(i + 1)) =~= present_diffs(app.files@.take(i as int)));
            },
        }
        assert(list@ =~= app.files@.take(i + 1).map_values(|p: (FileChange, Option<ParsedFileDiff>)| p.0));
        i = i + 1;
    }
    assert(app.files@.take(i as int) =~= app.files@);
    let metadata = ReviewMetadata {
        repo_name: String::from_str(repo_name),
        commit_range: commit_range(base_ref, "HEAD"),
        base_ref: String::from_str(base_ref),
        head_ref: String::from_str("HEAD"),
        files: list,
        timestamp: now,
        csrf_token: String::new(),
    };
    MarkdownInput { comments: clone_comments(&app.comments), diff_data: DiffResponse { files: diffs }, metadata }
}

} // verus!
