use local_review::config::{default_context_lines, default_theme, Config, IconMode, MAX_CONTEXT_LINES};

#[test]
fn default_values() {
    let c = Config::default();
    assert_eq!(c.theme, "default-dark");
    assert_eq!(c.icon_mode, IconMode::NerdFont);
    assert_eq!(c.diff_context_lines, 3);
}

#[test]
fn loaded_config_is_normalized() {
    let c = Config::loaded(Some(Config { theme: "x".into(), icon_mode: IconMode::Ascii, diff_context_lines: 999 }));
    assert_eq!(c.diff_context_lines, MAX_CONTEXT_LINES);
    assert_eq!(c.theme, "x");
    assert_eq!(c.icon_mode, IconMode::Ascii);
    let c = Config::loaded(Some(Config { theme: "y".into(), icon_mode: IconMode::Unicode, diff_context_lines: 7 }));
    assert_eq!(c.diff_context_lines, 7);
    assert_eq!(Config::loaded(None), Config::default());
}

#[test]
fn defaults_helpers() {
    assert_eq!(default_theme(), "default-dark");
    assert_eq!(default_context_lines(), 3);
    assert_eq!(IconMode::default(), IconMode::NerdFont);
}
