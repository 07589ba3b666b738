use local_review::config::Config;
use local_review::tui::app::{App, Side, ViewMode};
use local_review::types::{
    Change, ChangeType, Comment, CommentCategory, CommentType, FileChange, FileStatus, Hunk,
    ParsedFileDiff,
};


fn cfg() -> Config {
    Config::default()
}

fn file(path: &str) -> FileChange {
    FileChange {
        path: path.into(),
        old_path: None,
        status: FileStatus::Modified,
        additions: 1,
        deletions: 1,
    }
}

fn diff(path: &str) -> ParsedFileDiff {
    ParsedFileDiff {
        old_path: path.into(),
        new_path: path.into(),
        status: FileStatus::Modified,
        additions: 1,
        deletions: 1,
        is_binary: false,
        is_large: false,
        hunks: vec![Hunk {
            old_start: 1,
            old_lines: 2,
            new_start: 1,
            new_lines: 2,
            content: String::new(),
            changes: vec![
                Change {
                    change_type: ChangeType::Normal,
                    old_line_number: Some(1),
                    new_line_number: Some(1),
                    content: "ctx".into(),
                },
                Change {
                    change_type: ChangeType::Insert,
                    old_line_number: None,
                    new_line_number: Some(2),
                    content: "added".into(),
                },
                Change {
                    change_type: ChangeType::Delete,
                    old_line_number: Some(2),
                    new_line_number: None,
                    content: "removed".into(),
                },
            ],
        }],
    }
}

fn app() -> App {
    App::new(vec![file("a.rs")], vec![diff("a.rs")], "HEAD".into(), &cfg())
}

#[test]
fn view_mode_persist_mapping() {
    let mut a = app();
    a.view_mode = ViewMode::Unified;
    assert_eq!(a.persistable_view_mode(), "unified");
    a.view_mode = ViewMode::CommentInput; // transient → never persisted
    assert_eq!(a.persistable_view_mode(), "split");
    a.set_view_mode_from_str("unified");
    assert_eq!(a.view_mode, ViewMode::Unified);
}

#[test]
fn cycle_theme_wraps_both_directions() {
    let mut a = app();
    a.theme_id = "default-dark".into();
    a.cycle_theme(false); // wrap to last
    assert_eq!(a.theme_id, "catppuccin-latte");
    a.cycle_theme(true); // wrap forward to first
    assert_eq!(a.theme_id, "default-dark");
}

#[test]
fn diff_rows_and_cursor_target() {
    let mut a = app();
    a.reset_diff_view();
    let rows = a.diff_rows();
    // 1 hunk header + 3 changes.
    assert_eq!(rows.iter().filter(|r| r.is_change()).count(), 3);
    // Cursor starts on the first change (the Normal ctx line, new side).
    assert_eq!(a.cursor_target(), Some((1, Side::New)));
    a.move_cursor(true); // insert row
    assert_eq!(a.cursor_target(), Some((2, Side::New)));
    a.move_cursor(true); // delete row → old side
    assert_eq!(a.cursor_target(), Some((2, Side::Old)));
}

#[test]
fn line_comment_targets_cursor() {
    let mut a = app();
    a.reset_diff_view();
    a.move_cursor(true); // insert line, new side, line 2
    a.begin_comment(CommentType::Line);
    a.input_buffer = "looks off".into();
    a.commit_pending_comment();
    assert_eq!(a.comments.len(), 1);
    let c = &a.comments[0];
    assert_eq!(c.comment_type, CommentType::Line);
    assert_eq!(c.start_line, Some(2));
    assert_eq!(c.side.as_deref(), Some("new"));
    assert_eq!(c.file_path.as_deref(), Some("a.rs"));
}

#[test]
fn range_comment_spans_anchor_to_cursor() {
    let mut a = app();
    a.reset_diff_view(); // cursor at line 1 new
    a.set_range_anchor();
    a.move_cursor(true); // line 2 new
    a.begin_comment(CommentType::Range);
    a.input_buffer = "range".into();
    a.commit_pending_comment();
    let c = &a.comments[0];
    assert_eq!(c.comment_type, CommentType::Range);
    assert_eq!(c.start_line, Some(1));
    assert_eq!(c.end_line, Some(2));
}

#[test]
fn file_and_overall_comments() {
    let mut a = app();
    a.begin_comment(CommentType::File);
    a.input_buffer = "whole file".into();
    a.commit_pending_comment();
    a.begin_comment(CommentType::Overall);
    a.input_buffer = "overall".into();
    a.commit_pending_comment();
    assert_eq!(a.comments[0].comment_type, CommentType::File);
    assert_eq!(a.comments[0].file_path.as_deref(), Some("a.rs"));
    assert_eq!(a.comments[1].comment_type, CommentType::Overall);
    assert!(a.comments[1].file_path.is_none());
}

#[test]
fn edit_and_delete_comment() {
    let mut a = app();
    a.reset_diff_view();
    a.begin_comment(CommentType::Line);
    a.input_buffer = "first".into();
    a.commit_pending_comment();
    let id = a.comments[0].id.clone();

    a.begin_edit(&id);
    assert_eq!(a.input_buffer, "first");
    a.input_buffer = "second".into();
    a.input_category = CommentCategory::Nit;
    a.commit_pending_comment();
    assert_eq!(a.comments.len(), 1);
    assert_eq!(a.comments[0].text, "second");
    assert_eq!(a.comments[0].category, CommentCategory::Nit);

    a.delete_comment(&id);
    assert!(a.comments.is_empty());
}

#[test]
fn get_comments_for_line_range_containment() {
    let mut a = app();
    a.comments.push(Comment {
        id: "1".into(),
        comment_type: CommentType::Range,
        category: CommentCategory::Fix,
        text: "r".into(),
        file_path: Some("a.rs".into()),
        start_line: Some(2),
        end_line: Some(5),
        side: Some("new".into()),
        created_at: "t".into(),
        updated_at: "t".into(),
    });
    assert_eq!(a.get_comments_for_line("a.rs", 3, Side::New).len(), 1);
    assert_eq!(a.get_comments_for_line("a.rs", 6, Side::New).len(), 0);
    assert_eq!(a.get_comments_for_line("a.rs", 3, Side::Old).len(), 0);
}

#[test]
fn push_and_pop_input_chars() {
    let mut a = app();
    a.push_input_char('x');
    a.push_input_char('é');
    assert_eq!(a.input_buffer, "xé");
    a.pop_input_char();
    assert_eq!(a.input_buffer, "x");
    a.pop_input_char();
    a.pop_input_char();
    assert_eq!(a.input_buffer, "");
}

#[test]
fn input_is_capped_at_max_chars() {
    let mut a = app();
    a.input_buffer = "a".repeat(2000);
    a.push_input_char('b');
    assert_eq!(a.input_buffer.chars().count(), 2000);
    assert!(!a.input_buffer.contains('b'));
}

#[test]
fn toggle_reviewed_round_trip() {
    let mut a = app();
    assert!(!a.is_reviewed("a.rs"));
    a.toggle_reviewed("a.rs");
    assert!(a.is_reviewed("a.rs"));
    a.toggle_reviewed("a.rs");
    assert!(!a.is_reviewed("a.rs"));
    assert!(a.reviewed_files.is_empty());
    a.reviewed_files = vec!["a.rs".into(), "b.rs".into(), "a.rs".into()];
    a.toggle_reviewed("a.rs");
    assert_eq!(a.reviewed_files, vec!["b.rs".to_string()]);
}

#[test]
fn filter_by_query_is_case_insensitive_and_by_status() {
    let mut a = App::new(
        vec![file("src/Main.RS"), file("docs/readme.md")],
        vec![],
        "HEAD".into(),
        &cfg(),
    );
    assert_eq!(a.filtered_files(), vec![0, 1]);
    a.search_query = "MAIN".into();
    assert_eq!(a.filtered_files(), vec![0]);
    a.search_query = "".into();
    a.filter_status = Some(FileStatus::Added);
    assert!(a.filtered_files().is_empty());
    assert_eq!(a.selected_file_index(), None);
    a.filter_status = Some(FileStatus::Modified);
    a.current_file_idx = 9;
    assert_eq!(a.selected_file_index(), Some(1));
    assert_eq!(a.selected_file_path().as_deref(), Some("docs/readme.md"));
}

#[test]
fn comment_count_and_sorted_order() {
    let mut a = app();
    let mk = |id: &str, t: CommentType, path: Option<&str>, line: Option<u32>| Comment {
        id: id.into(),
        comment_type: t,
        file_path: path.map(|p| p.to_string()),
        start_line: line,
        ..Default::default()
    };
    a.comments = vec![
        mk("1", CommentType::Line, Some("b.rs"), Some(5)),
        mk("2", CommentType::Overall, None, None),
        mk("3", CommentType::Line, Some("a.rs"), Some(9)),
        mk("4", CommentType::Line, Some("a.rs"), Some(2)),
        mk("5", CommentType::File, Some("a.rs"), None),
        mk("6", CommentType::Line, Some("a.rs"), Some(2)),
    ];
    assert_eq!(a.comment_count("a.rs"), 4);
    assert_eq!(a.comment_count("b.rs"), 1);
    assert_eq!(a.comment_count("c.rs"), 0);
    assert_eq!(a.sorted_comment_indices(), vec![1, 4, 3, 5, 2, 0]);
    a.current_comment_idx = 0;
    assert_eq!(a.selected_comment_id().as_deref(), Some("2"));
    a.current_comment_idx = 6;
    assert_eq!(a.selected_comment_id(), None);
}

#[test]
fn diff_rows_header_text() {
    let a = app();
    let rows = a.diff_rows();
    assert_eq!(rows.len(), 4);
    match &rows[0] {
        local_review::tui::app::DiffRow::HunkHeader(h) => assert_eq!(h, "@@ -1,2 +1,2 @@"),
        _ => panic!("first row is the hunk header"),
    }
    assert_eq!(App::change_row_indices(&rows), vec![1, 2, 3]);
}

#[test]
fn move_cursor_stops_at_ends_and_reset_goes_to_first_change() {
    let mut a = app();
    a.reset_diff_view();
    assert_eq!(a.diff_cursor, 1);
    a.move_cursor(false);
    assert_eq!(a.diff_cursor, 1);
    a.move_cursor(true);
    a.move_cursor(true);
    a.move_cursor(true);
    assert_eq!(a.diff_cursor, 3);
    a.diff_cursor = 0; // on the header row: the next change row is row 1
    a.move_cursor(true);
    assert_eq!(a.diff_cursor, 1);
    a.diff_cursor = 0; // nothing before: the first change row
    a.move_cursor(false);
    assert_eq!(a.diff_cursor, 1);
    a.diff_cursor = 9; // past the last: forward stays on the last, backward takes it
    a.move_cursor(true);
    assert_eq!(a.diff_cursor, 3);
    a.diff_cursor = 9;
    a.move_cursor(false);
    assert_eq!(a.diff_cursor, 3);
}

#[test]
fn blank_commit_cancels_and_rebuild_keeps_review_state() {
    let mut a = app();
    a.begin_comment(CommentType::Overall);
    a.input_buffer = "   ".into();
    a.commit_pending_comment();
    assert!(a.comments.is_empty());
    assert_eq!(a.view_mode, ViewMode::Split);
    assert!(a.pending_comment.is_none());
    a.reviewed_files.push("a.rs".into());
    a.diff_cursor = 3;
    a.rebuild_diffs(vec![file("a.rs")], vec![diff("a.rs")]);
    assert_eq!(a.diff_cursor, 3);
    assert_eq!(a.reviewed_files.len(), 1);
    a.rebuild_diffs(vec![file("a.rs")], vec![]);
    assert_eq!(a.diff_cursor, 0);
}

#[test]
fn commit_trims_text_and_edit_keeps_creation_time() {
    let mut a = app();
    a.begin_comment(CommentType::Overall);
    a.input_buffer = "  spaced out \n".into();
    a.commit_pending_comment();
    assert_eq!(a.comments[0].text, "spaced out");
    assert_eq!(a.comments[0].id.len(), 36);
    let created = a.comments[0].created_at.clone();
    let id = a.comments[0].id.clone();
    a.begin_edit(&id);
    assert_eq!(a.view_mode, ViewMode::CommentInput);
    a.input_buffer = "edited".into();
    a.commit_pending_comment();
    assert_eq!(a.comments[0].created_at, created);
    assert_eq!(a.comments[0].text, "edited");
}

#[test]
fn commit_at_uses_given_time_and_id() {
    let mut a = app();
    a.begin_comment(CommentType::File);
    a.input_buffer = "note".into();
    a.commit_pending_comment_at("2026-01-01T00:00:00Z".into(), "id-1".into());
    let c = &a.comments[0];
    assert_eq!(c.id, "id-1");
    assert_eq!(c.created_at, "2026-01-01T00:00:00Z");
    assert_eq!(c.updated_at, "2026-01-01T00:00:00Z");
    assert_eq!(c.category, CommentCategory::Fix);
}

#[test]
fn range_comment_needs_anchor_on_same_side() {
    let mut a = app();
    a.reset_diff_view(); // line 1, new side
    a.set_range_anchor();
    a.move_cursor(true);
    a.move_cursor(true); // delete row, old side, line 2
    a.begin_comment(CommentType::Range);
    let p = a.pending_comment.as_ref().unwrap();
    assert_eq!((p.start_line, p.end_line), (Some(2), Some(2)));
    assert_eq!(p.side.as_deref(), Some("old"));
}

#[test]
fn line_comment_without_target_keeps_form_closed() {
    let mut a = App::new(vec![file("a.rs")], vec![], "HEAD".into(), &cfg());
    a.input_buffer = "draft".into();
    a.begin_comment(CommentType::Line);
    assert!(a.pending_comment.is_none());
    assert_eq!(a.view_mode, ViewMode::Split);
    assert_eq!(a.input_buffer, "");
}
