//! Shared user preferences for the terminal and web front ends: theme, icon
//! glyph set and diff context width.
use vstd::prelude::*;

verus! {

/// Which glyph vocabulary the terminal UI renders icons with.
#[derive(Debug, Clone, Copy, PartialEq, Eq, Structural)]
pub enum IconMode {
    /// Nerd Font glyphs (default); needs a patched terminal font.
    NerdFont,
    /// Widely supported Unicode symbols.
    Unicode,
    /// Plain ASCII.
    Ascii,
}

impl Default for IconMode {
    fn default() -> (r: Self)
        ensures
            r == IconMode::NerdFont,
    {
        IconMode::NerdFont
    }
}

/// Context lines of a unified diff when nothing else is configured.
pub const DEFAULT_CONTEXT_LINES: u32 = 3;

/// The largest accepted diff context width.
pub const MAX_CONTEXT_LINES: u32 = 20;

/// The theme used when none is configured.
pub fn default_theme() -> (r: String)
    ensures
        r@ == "default-dark"@,
{
    String::from_str("default-dark")
}

/// The context width used when none is configured.
pub fn default_context_lines() -> (r: u32)
    ensures
        r == DEFAULT_CONTEXT_LINES,
{
    DEFAULT_CONTEXT_LINES
}

/// User preferences.
#[derive(Debug, PartialEq, Eq)]
pub struct Config {
    /// Theme id; unknown ids fall back to `default-dark` when resolved.
    pub theme: String,
    pub icon_mode: IconMode,
    /// Unified diff context lines, at most [`MAX_CONTEXT_LINES`] once normalized.
    pub diff_context_lines: u32,
}

impl Clone for Config {
    fn clone(&self) -> (r: Self)
        ensures
            r == *self,
    {
        Config { theme: self.theme.clone(), icon_mode: self.icon_mode, diff_context_lines: self.diff_context_lines }
    }
}

impl Default for Config {
    fn default() -> (r: Self)
        ensures
            r.theme@ == "default-dark"@,
            r.icon_mode == IconMode::NerdFont,
            r.diff_context_lines == DEFAULT_CONTEXT_LINES,
    {
        Config { theme: default_theme(), icon_mode: IconMode::default(), diff_context_lines: DEFAULT_CONTEXT_LINES }
    }
}

impl Config {
    /// Clamps out-of-range values: the context width to at most
    /// [`MAX_CONTEXT_LINES`]. The theme is left for the theme registry to
    /// resolve.
    pub fn normalize(&mut self)
        ensures
            final(self).theme == old(self).theme,
            final(self).icon_mode == old(self).icon_mode,
            final(self).diff_context_lines == clamp_context(old(self).diff_context_lines),
    {
        if self.diff_context_lines > MAX_CONTEXT_LINES {
            self.diff_context_lines = MAX_CONTEXT_LINES;
        }
    }
}

impl Config {
    /// The preferences a load yields: the parsed file, normalized; the
    /// defaults when there was no file to read or it did not parse.
    pub fn loaded(parsed: Option<Config>) -> (r: Config)
        ensures
            match parsed {
                Some(c) => r.theme == c.theme && r.icon_mode == c.icon_mode
                    && r.diff_context_lines == clamp_context(c.diff_context_lines),
                None => r.theme@ == "default-dark"@ && r.icon_mode == IconMode::NerdFont
                    && r.diff_context_lines == DEFAULT_CONTEXT_LINES,
            },
    {
        match parsed {
            Some(mut c) => {
                c.normalize();
                c
            },
            None => Config::default(),
        }
    }
}

/// A context width clamped to at most [`MAX_CONTEXT_LINES`].
pub open spec fn clamp_context(lines: u32) -> u32 {
    if lines > MAX_CONTEXT_LINES { MAX_CONTEXT_LINES } else { lines }
}

/// Normalizing twice gives what normalizing once gives, a normalized context
/// width is never above the maximum, and one already in range is kept.
pub proof fn lemma_normalize_clamps(lines: u32)
    ensures
        clamp_context(clamp_context(lines)) == clamp_context(lines),
        clamp_context(lines) <= MAX_CONTEXT_LINES,
        lines <= MAX_CONTEXT_LINES ==> clamp_context(lines) == lines,
{
}

} // verus!
