use local_review::config::{Config, IconMode};
use local_review::tui::app::App;
use local_review::tui::control::{changed_preferences, context_step, export_input, form_key, session_record, step, FormKey, LoopEffect};
use local_review::tui::icons::{kind_for, FileIconKind, IconSet, UiGlyph};
use local_review::tui::keybindings::{action_for_event, action_for_key, Action, Key};
use local_review::tui::session_key;
use local_review::tui::sidebar::{status_color, status_symbol};
use local_review::tui::syntax::{bucket_for, highlight_buckets, spans_from_tokens, Bucket, SyntaxEngine};
use local_review::tui::theme::{blend, by_id, is_known, rgb, Color, ORDER};
use local_review::types::{ChangeType, CommentCategory, CommentType, FileChange, FileStatus};
use local_review::session;
use local_review::tui::app::PendingComment;
use local_review::tui::labels::{change_prefix, chars_left, diff_title, form_title, no_diff_message};


#[test]
fn classifies_known_extensions() {
    assert_eq!(kind_for("src/main.rs"), FileIconKind::Code);
    assert_eq!(kind_for("a/b/component.tsx"), FileIconKind::Code);
    assert_eq!(kind_for("package.json"), FileIconKind::Json);
    assert_eq!(kind_for("config.yaml"), FileIconKind::Config);
    assert_eq!(kind_for("deploy.sh"), FileIconKind::Terminal);
    assert_eq!(kind_for("schema.sql"), FileIconKind::Database);
    assert_eq!(kind_for("styles.css"), FileIconKind::Markup);
    assert_eq!(kind_for("README.md"), FileIconKind::Text);
}

#[test]
fn unknown_extension_is_generic() {
    assert_eq!(kind_for("binary.bin"), FileIconKind::Generic);
    assert_eq!(kind_for("noext"), FileIconKind::Generic);
    assert_eq!(kind_for("Makefile"), FileIconKind::Generic);
}

#[test]
fn extension_matching_is_case_insensitive() {
    assert_eq!(kind_for("SRC/Main.RS"), FileIconKind::Code);
    assert_eq!(kind_for("DATA.JSON"), FileIconKind::Json);
}

#[test]
fn dotted_paths_use_last_segment() {
    // A dot in a directory name must not confuse extension detection.
    assert_eq!(kind_for("my.dir/file.py"), FileIconKind::Code);
}

#[test]
fn every_mode_yields_nonempty_glyphs() {
    for mode in [IconMode::NerdFont, IconMode::Unicode, IconMode::Ascii] {
        let set = IconSet::new(mode);
        for kind in [
            FileIconKind::Code,
            FileIconKind::Json,
            FileIconKind::Config,
            FileIconKind::Terminal,
            FileIconKind::Database,
            FileIconKind::Markup,
            FileIconKind::Text,
            FileIconKind::Generic,
        ] {
            assert!(!set.file(kind).is_empty(), "empty file glyph for {:?}/{:?}", mode, kind);
        }
        for g in [
            UiGlyph::Reviewed,
            UiGlyph::Comment,
            UiGlyph::CategoryFix,
            UiGlyph::CategoryQuestion,
            UiGlyph::CategorySuggestion,
            UiGlyph::CategoryNit,
            UiGlyph::Cursor,
            UiGlyph::Expanded,
            UiGlyph::Collapsed,
            UiGlyph::ViewSplit,
            UiGlyph::ViewUnified,
            UiGlyph::RangeAnchor,
        ] {
            assert!(!set.ui(g).is_empty(), "empty ui glyph for {:?}/{:?}", mode, g);
        }
    }
}



#[test]
fn blend_matches_css_color_mix() {
    // success #3fb950 at 14% over bg #1e1e1e:
    //   R: round(0x3f*.14 + 0x1e*.86) = round(63*.14 + 30*.86) = round(8.82+25.8)=35 = 0x23
    //   G: round(0xb9*.14 + 0x1e*.86) = round(185*.14 + 30*.86)= round(25.9+25.8)=52 = 0x34
    //   B: round(0x50*.14 + 0x1e*.86) = round(80*.14 + 30*.86) = round(11.2+25.8)=37 = 0x25
    let got = blend(rgb(0x3fb950), 14, rgb(0x1e1e1e));
    assert_eq!(got, Color::Rgb(0x23, 0x34, 0x25));
}

#[test]
fn blend_endpoints() {
    let a = rgb(0x3fb950);
    let b = rgb(0x1e1e1e);
    assert_eq!(blend(a, 100, b), a);
    assert_eq!(blend(a, 0, b), b);
}

#[test]
fn by_id_fallback_for_unknown() {
    assert_eq!(by_id("nonsense"), by_id("default-dark"));
}

#[test]
fn by_id_migrates_legacy_ids() {
    assert_eq!(by_id("dark"), by_id("default-dark"));
    assert_eq!(by_id("light"), by_id("default-light"));
}

#[test]
fn all_six_themes_have_distinct_backgrounds() {
    let bgs: Vec<Color> = ORDER.iter().map(|id| by_id(id).bg).collect();
    for i in 0..bgs.len() {
        for j in (i + 1)..bgs.len() {
            assert_ne!(bgs[i], bgs[j], "themes {} and {} share a bg", ORDER[i], ORDER[j]);
        }
    }
}

#[test]
fn order_has_six_known_themes() {
    assert_eq!(ORDER.len(), 6);
    assert!(ORDER.iter().all(|id| is_known(id)));
}

#[test]
fn session_key_matches_web_convention() {
    // Web/server hash the base-ref segment of the range.
    let key = session_key("main", "feature");
    let expect_hash = session::hash_repo_path("main");
    assert_eq!(key, format!("local-review:{}:main..feature", expect_hash));
}

#[test]
fn session_key_hashes_up_to_first_dots() {
    let key = session_key("a..b", "c");
    assert_eq!(key, format!("local-review:{}:a..b..c", session::hash_repo_path("a")));
}

#[test]
fn theme_order_ids_are_distinct_and_known() {
    assert!(is_known("dark"));
    assert!(is_known("light"));
    assert!(!is_known("nonsense"));
    assert!(!is_known(""));
    assert_eq!(by_id("catppuccin-latte").bg, Color::Rgb(0xef, 0xf1, 0xf5));
    assert_eq!(rgb(0x123456), Color::Rgb(0x12, 0x34, 0x56));
}

#[test]
fn derived_backgrounds_blend_signal_over_bg() {
    let t = by_id("default-dark");
    assert_eq!(t.diff_code_insert_bg, blend(t.success, 14, t.bg));
    assert_eq!(t.diff_gutter_delete_bg, blend(t.danger, 22, t.bg));
    assert_eq!(t.diff_code_selected_bg, blend(t.warning, 18, t.bg));
    assert_eq!(t.diff_code_insert_bg, Color::Rgb(0x23, 0x34, 0x25));
}

#[test]
fn blend_leaves_non_rgb_unblended() {
    assert_eq!(blend(Color::Indexed(3), 50, rgb(0)), Color::Indexed(3));
    assert_eq!(blend(rgb(0xffffff), 50, Color::Reset), rgb(0xffffff));
    assert_eq!(blend(rgb(0xffffff), 50, rgb(0)), Color::Rgb(128, 128, 128));
}

#[test]
fn key_map_bindings() {
    assert_eq!(action_for_key(Key::Char('q')), Action::Quit);
    assert_eq!(action_for_key(Key::Char('n')), Action::NextFile);
    assert_eq!(action_for_key(Key::Char('+')), Action::IncreaseContext);
    assert_eq!(action_for_key(Key::Char('=')), Action::IncreaseContext);
    assert_eq!(action_for_key(Key::Char('x')), Action::DeleteComment);
    assert_eq!(action_for_key(Key::Delete), Action::DeleteComment);
    assert_eq!(action_for_key(Key::Esc), Action::CloseForm);
    assert_eq!(action_for_key(Key::Up), Action::CursorUp);
    assert_eq!(action_for_key(Key::Char('Z')), Action::NoOp);
    assert_eq!(action_for_key(Key::Other), Action::NoOp);
    assert_eq!(action_for_event(true, false, true, Key::Char('q')), Action::NoOp);
    assert_eq!(action_for_event(false, false, false, Key::Char('q')), Action::NoOp);
    assert_eq!(action_for_event(false, false, true, Key::Char('T')), Action::CycleThemeBack);
}

#[test]
fn status_marks_and_colors() {
    assert_eq!(status_symbol(&FileStatus::Added), "A");
    assert_eq!(status_symbol(&FileStatus::Copied), "C");
    let a = App::new(vec![], vec![], "HEAD".into(), &Config::default());
    let t = by_id("default-dark");
    assert_eq!(status_color(&FileStatus::Added, &a), t.success);
    assert_eq!(status_color(&FileStatus::Modified, &a), t.warning);
    assert_eq!(status_color(&FileStatus::Deleted, &a), t.danger);
    assert_eq!(status_color(&FileStatus::Renamed, &a), t.link);
}

#[test]
fn syntax_buckets() {
    assert_eq!(bucket_for(0x65, 0x73, 0x7e), Bucket::Comment);
    assert_eq!(bucket_for(0xbf, 0x61, 0x6a), Bucket::Variable);
    assert_eq!(bucket_for(1, 2, 3), Bucket::Plain);
    let t = by_id("default-dark");
    assert_eq!(Bucket::Keyword.color(&t), t.syntax_keyword);
    assert_eq!(Bucket::Plain.color(&t), t.text);
}

fn two_files() -> App {
    let f = |p: &str| FileChange { path: p.into(), old_path: None, status: FileStatus::Modified, additions: 0, deletions: 0 };
    App::new(vec![f("a.rs"), f("b.rs")], vec![], "HEAD".into(), &Config::default())
}

#[test]
fn loop_steps() {
    let mut a = two_files();
    assert_eq!(step(&mut a, Action::NextFile), LoopEffect::SelectFile(1));
    assert_eq!(step(&mut a, Action::NextFile), LoopEffect::SelectFile(1));
    assert_eq!(step(&mut a, Action::PrevFile), LoopEffect::SelectFile(0));
    assert_eq!(step(&mut a, Action::PrevFile), LoopEffect::SelectFile(0));
    assert_eq!(step(&mut a, Action::IncreaseContext), LoopEffect::Rediff(4));
    assert_eq!(a.context_lines, 3);
    a.context_lines = 20;
    assert_eq!(step(&mut a, Action::IncreaseContext), LoopEffect::Continue);
    a.context_lines = 0;
    assert_eq!(step(&mut a, Action::DecreaseContext), LoopEffect::Continue);
    assert_eq!(step(&mut a, Action::ToggleViewMode), LoopEffect::Continue);
    assert_eq!(a.view_mode, local_review::tui::app::ViewMode::Unified);
    step(&mut a, Action::ToggleReviewed);
    assert!(a.is_reviewed("a.rs"));
    step(&mut a, Action::ToggleHelp);
    assert!(a.show_help);
    step(&mut a, Action::CycleTheme);
    assert_eq!(a.theme_id, "catppuccin-mocha");
    assert_eq!(step(&mut a, Action::Quit), LoopEffect::Quit);
}

#[test]
fn context_steps_clamp() {
    assert_eq!(context_step(3, 1), Some(4));
    assert_eq!(context_step(0, -1), None);
    assert_eq!(context_step(20, 1), None);
    assert_eq!(context_step(25, 1), Some(20));
}

#[test]
fn form_keys() {
    let mut a = two_files();
    a.begin_comment(local_review::types::CommentType::Overall);
    form_key(&mut a, FormKey::Char('3'));
    assert_eq!(a.input_category, CommentCategory::Suggestion);
    form_key(&mut a, FormKey::Char('h'));
    form_key(&mut a, FormKey::Char('i'));
    form_key(&mut a, FormKey::Backspace);
    assert_eq!(a.input_buffer, "h");
    form_key(&mut a, FormKey::Enter);
    assert_eq!(a.comments.len(), 1);
    assert_eq!(a.comments[0].category, CommentCategory::Suggestion);
    a.begin_comment(local_review::types::CommentType::Overall);
    form_key(&mut a, FormKey::Esc);
    assert!(a.pending_comment.is_none());
}

#[test]
fn saved_records() {
    let mut a = two_files();
    let saved = Config::default();
    assert!(changed_preferences(&a, &saved).is_none());
    a.context_lines = 5;
    let c = changed_preferences(&a, &saved).unwrap();
    assert_eq!(c.diff_context_lines, 5);
    assert_eq!(c.theme, "default-dark");
    let s = session_record(&a, "main", "HEAD", "repo", "now".into());
    assert_eq!(s.version, 2);
    assert_eq!(s.commit_range, "main..HEAD");
    assert_eq!(s.repo_path_hash, session::hash_repo_path("main"));
    assert_eq!(s.view_mode, "split");
    let m = export_input(&a, "repo", "main", "now".into());
    assert_eq!(m.metadata.commit_range, "main..HEAD");
    assert_eq!(m.metadata.files.len(), 2);
    assert!(m.diff_data.files.is_empty());
}

#[test]
fn c_comments_the_anchored_range() {
    assert_eq!(action_for_event(false, false, true, Key::Char('c')), Action::CommentLine);
    assert_eq!(action_for_event(false, true, true, Key::Char('c')), Action::CommentRange);
    assert_eq!(action_for_event(false, true, true, Key::Char('v')), Action::SetRangeAnchor);
    assert_eq!(action_for_event(true, true, true, Key::Char('c')), Action::NoOp);
}

#[test]
fn plain_fallback_for_unknown_extension() {
    let engine = SyntaxEngine::new();
    let spans = highlight_buckets(&engine, "data.unknownext", "hello world", false);
    assert_eq!(spans.len(), 1);
    assert_eq!(spans[0].0, "hello world");
    assert_eq!(spans[0].1, Bucket::Plain);
}

#[test]
fn skip_forces_plain() {
    let engine = SyntaxEngine::new();
    let spans = highlight_buckets(&engine, "main.rs", "let x = 1;", true);
    assert_eq!(spans, vec![("let x = 1;".to_string(), Bucket::Plain)]);
}

#[test]
fn rust_is_recognized_and_tokenizes() {
    let engine = SyntaxEngine::new();
    let spans = highlight_buckets(&engine, "main.rs", "let x = 1;", false);
    assert!(!spans.is_empty());
    let joined: String = spans.iter().map(|(s, _)| s.as_str()).collect();
    assert_eq!(joined.trim_end(), "let x = 1;");
    // The keyword is recognised: more than one plain span.
    assert!(spans.len() > 1);
}

#[test]
fn tokens_take_their_colour_buckets() {
    let spans = spans_from_tokens("x", Some(vec![("let".to_string(), 0xb4, 0x8e, 0xad), (" x".to_string(), 1, 2, 3)]));
    assert_eq!(spans, vec![("let".to_string(), Bucket::Keyword), (" x".to_string(), Bucket::Plain)]);
    assert_eq!(spans_from_tokens("abc", None), vec![("abc".to_string(), Bucket::Plain)]);
}

#[test]
fn form_and_diff_panel_titles() {
    let line = PendingComment {
        kind: CommentType::Line,
        file_path: Some("a.rs".to_string()),
        start_line: Some(7),
        end_line: Some(7),
        side: Some("new".to_string()),
        editing_id: None,
    };
    assert_eq!(form_title(&Some(line.clone())), " Comment \u{b7} line 7 ");
    let range = PendingComment { kind: CommentType::Range, start_line: Some(3), end_line: Some(9), ..line.clone() };
    assert_eq!(form_title(&Some(range)), " Comment \u{b7} lines 3-9 ");
    let edit = PendingComment { editing_id: Some("id".to_string()), ..line.clone() };
    assert_eq!(form_title(&Some(edit)), " Edit Comment ");
    let file = PendingComment { kind: CommentType::File, ..line.clone() };
    assert_eq!(form_title(&Some(file)), " File Comment ");
    let overall = PendingComment { kind: CommentType::Overall, ..line };
    assert_eq!(form_title(&Some(overall)), " Overall Comment ");
    assert_eq!(form_title(&None), " Comment ");
    assert_eq!(chars_left("abc"), 1997);
    assert_eq!(chars_left(&"x".repeat(2500)), 0);
    assert_eq!(diff_title("src/a.rs", FileStatus::Modified, 3, 1, None), " src/a.rs [Modified] +3/-1 ");
    assert_eq!(diff_title("b.rs", FileStatus::Added, 10, 0, Some("v")), " b.rs [Added] +10/-0 v  ");
    assert_eq!(no_diff_message(FileStatus::Deleted), "File deleted");
    assert_eq!(no_diff_message(FileStatus::Modified), "Binary or empty diff");
    assert_eq!(change_prefix(ChangeType::Insert), "+");
    assert_eq!(change_prefix(ChangeType::Delete), "-");
    assert_eq!(change_prefix(ChangeType::Normal), " ");
}
