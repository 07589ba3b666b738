//! Colour themes of the terminal UI. Each theme is a base palette of
//! semantic and syntax colours; the diff-row backgrounds are derived from it
//! by blending a signal colour over the background, as CSS `color-mix` does.
use vstd::prelude::*;
use crate::text::{chars_of, equals_str};

verus! {

/// A terminal colour.
#[derive(Debug, Clone, Copy, PartialEq, Eq, Structural)]
pub enum Color {
    /// The terminal's own default colour.
    Reset,
    /// An entry of the terminal's 256-colour table.
    Indexed(u8),
    /// A 24-bit colour.
    Rgb(u8, u8, u8),
}

/// The theme ids in display order, used for cycling.
pub const ORDER: [&'static str; 6] = [
    "default-dark",
    "catppuccin-mocha",
    "catppuccin-macchiato",
    "catppuccin-frappe",
    "default-light",
    "catppuccin-latte",
];

/// The theme used when none is configured.
pub const DEFAULT_THEME: &'static str = "default-dark";

/// A fully resolved theme: base semantic colours, the syntax colours and the
/// derived diff-row backgrounds.
#[derive(Debug, Clone, Copy, PartialEq, Eq, Structural)]
pub struct Theme {
    pub bg: Color,
    pub panel: Color,
    pub panel_hover: Color,
    pub border: Color,
    pub text: Color,
    pub text_dim: Color,
    pub text_muted: Color,
    pub accent: Color,
    pub link: Color,
    pub success: Color,
    pub danger: Color,
    pub warning: Color,
    pub on_accent: Color,
    pub selection_bg: Color,
    pub selection_text: Color,
    pub syntax_comment: Color,
    pub syntax_number: Color,
    pub syntax_string: Color,
    pub syntax_keyword: Color,
    pub syntax_function: Color,
    pub syntax_variable: Color,
    pub diff_gutter_insert_bg: Color,
    pub diff_gutter_delete_bg: Color,
    pub diff_gutter_selected_bg: Color,
    pub diff_code_insert_bg: Color,
    pub diff_code_delete_bg: Color,
    pub diff_code_insert_edit_bg: Color,
    pub diff_code_delete_edit_bg: Color,
    pub diff_code_selected_bg: Color,
}

/// The colour of a `0xRRGGBB` number.
pub open spec fn rgb_of(hex: u32) -> Color {
    Color::Rgb(((hex / 65536) % 256) as u8, ((hex / 256) % 256) as u8, (hex % 256) as u8)
}

/// The colour of a `0xRRGGBB` number.
pub fn rgb(hex: u32) -> (r: Color)
    ensures
        r == rgb_of(hex),
{
    Color::Rgb(((hex / 65536) % 256) as u8, ((hex / 256) % 256) as u8, (hex % 256) as u8)
}

/// One channel of `f` laid `p` percent over `b`, rounded to nearest.
pub open spec fn mix_channel(f: u8, b: u8, p: u8) -> u8 {
    ((f * p + b * (100 - p) + 50) / 100) as u8
}

/// `fg` laid `pct` percent over `bg`, channel by channel; a colour that is
/// not 24-bit on either side leaves `fg` unchanged.
pub open spec fn blend_of(fg: Color, pct: u8, bg: Color) -> Color {
    match (fg, bg) {
        (Color::Rgb(fr, fgr, fb), Color::Rgb(br, bgr, bb)) => Color::Rgb(
            mix_channel(fr, br, pct),
            mix_channel(fgr, bgr, pct),
            mix_channel(fb, bb, pct),
        ),
        _ => fg,
    }
}

fn mix(f: u8, b: u8, p: u8) -> (r: u8)
    requires
        p <= 100,
    ensures
        r == mix_channel(f, b, p),
        f * p + b * (100 - p) + 50 <= 25550,
{
    let p32 = p as u32;
    let q32 = 100 - p32;
    assert(f * p32 <= 255 * p32) by (nonlinear_arith)
        requires
            f <= 255,
    ;
    assert(b * q32 <= 255 * q32) by (nonlinear_arith)
        requires
            b <= 255,
    ;
    let v = ((f as u32) * p32 + (b as u32) * q32 + 50) / 100;
    v as u8
}

/// CSS `color-mix(in srgb, fg pct%, bg)`: a per-channel linear blend of `fg`
/// over `bg`, rounded to nearest. Colours that are not 24-bit are returned
/// unblended (`fg`).
pub fn blend(fg: Color, pct: u8, bg: Color) -> (r: Color)
    requires
        pct <= 100,
    ensures
        r == blend_of(fg, pct, bg),
{
    match (fg, bg) {
        (Color::Rgb(fr, fgr, fb), Color::Rgb(br, bgr, bb)) => Color::Rgb(
            mix(fr, br, pct),
            mix(fgr, bgr, pct),
            mix(fb, bb, pct),
        ),
        _ => fg,
    }
}

/// Blending at 100% gives the foreground, at 0% the background.
pub proof fn lemma_blend_endpoints(fg: Color, bg: Color)
    requires
        fg is Rgb,
        bg is Rgb,
    ensures
        blend_of(fg, 100, bg) == fg,
        blend_of(fg, 0, bg) == bg,
{
}

/// A base palette, as `0xRRGGBB` numbers, before derivation.
#[derive(Debug, Clone, Copy, PartialEq, Eq, Structural)]
pub struct Base {
    pub bg: u32,
    pub panel: u32,
    pub panel_hover: u32,
    pub border: u32,
    pub text: u32,
    pub text_dim: u32,
    pub text_muted: u32,
    pub accent: u32,
    pub link: u32,
    pub success: u32,
    pub danger: u32,
    pub warning: u32,
    pub on_accent: u32,
    pub selection_bg: u32,
    pub selection_text: u32,
    pub syntax_comment: u32,
    pub syntax_number: u32,
    pub syntax_string: u32,
    pub syntax_keyword: u32,
    pub syntax_function: u32,
    pub syntax_variable: u32,
}

/// The theme a palette resolves to: every base colour converted, and the
/// diff backgrounds blended over `bg` (insert and delete gutters at 22%,
/// the selected gutter at 18%, code rows at 14%, edited code at 30%, the
/// selected row at 18%).
pub open spec fn resolve_of(b: Base) -> Theme {
    let bg = rgb_of(b.bg);
    let success = rgb_of(b.success);
    let danger = rgb_of(b.danger);
    let warning = rgb_of(b.warning);
    Theme {
        bg,
        panel: rgb_of(b.panel),
        panel_hover: rgb_of(b.panel_hover),
        border: rgb_of(b.border),
        text: rgb_of(b.text),
        text_dim: rgb_of(b.text_dim),
        text_muted: rgb_of(b.text_muted),
        accent: rgb_of(b.accent),
        link: rgb_of(b.link),
        success,
        danger,
        warning,
        on_accent: rgb_of(b.on_accent),
        selection_bg: rgb_of(b.selection_bg),
        selection_text: rgb_of(b.selection_text),
        syntax_comment: rgb_of(b.syntax_comment),
        syntax_number: rgb_of(b.syntax_number),
        syntax_string: rgb_of(b.syntax_string),
        syntax_keyword: rgb_of(b.syntax_keyword),
        syntax_function: rgb_of(b.syntax_function),
        syntax_variable: rgb_of(b.syntax_variable),
        diff_gutter_insert_bg: blend_of(success, 22, bg),
        diff_gutter_delete_bg: blend_of(danger, 22, bg),
        diff_gutter_selected_bg: blend_of(warning, 18, bg),
        diff_code_insert_bg: blend_of(success, 14, bg),
        diff_code_delete_bg: blend_of(danger, 14, bg),
        diff_code_insert_edit_bg: blend_of(success, 30, bg),
        diff_code_delete_edit_bg: blend_of(danger, 30, bg),
        diff_code_selected_bg: blend_of(warning, 18, bg),
    }
}

impl Base {
    /// Resolves the palette into a theme.
    pub fn resolve(&self) -> (r: Theme)
        ensures
            r == resolve_of(*self),
    {
        let bg = rgb(self.bg);
        let success = rgb(self.success);
        let danger = rgb(self.danger);
        let warning = rgb(self.warning);
        Theme {
            bg,
            panel: rgb(self.panel),
            panel_hover: rgb(self.panel_hover),
            border: rgb(self.border),
            text: rgb(self.text),
            text_dim: rgb(self.text_dim),
            text_muted: rgb(self.text_muted),
            accent: rgb(self.accent),
            link: rgb(self.link),
            success,
            danger,
            warning,
            on_accent: rgb(self.on_accent),
            selection_bg: rgb(self.selection_bg),
            selection_text: rgb(self.selection_text),
            syntax_comment: rgb(self.syntax_comment),
            syntax_number: rgb(self.syntax_number),
            syntax_string: rgb(self.syntax_string),
            syntax_keyword: rgb(self.syntax_keyword),
            syntax_function: rgb(self.syntax_function),
            syntax_variable: rgb(self.syntax_variable),
            diff_gutter_insert_bg: blend(success, 22, bg),
            diff_gutter_delete_bg: blend(danger, 22, bg),
            diff_gutter_selected_bg: blend(warning, 18, bg),
            diff_code_insert_bg: blend(success, 14, bg),
            diff_code_delete_bg: blend(danger, 14, bg),
            diff_code_insert_edit_bg: blend(success, 30, bg),
            diff_code_delete_edit_bg: blend(danger, 30, bg),
            diff_code_selected_bg: blend(warning, 18, bg),
        }
    }
}

/// The base palette built from a palette table, whose 21 entries are, in
/// order: bg, panel, panel_hover, border, text, text_dim, text_muted, accent,
/// link, success, danger, warning, on_accent, selection_bg, selection_text,
/// and the syntax colours comment, number, string, keyword, function,
/// variable.
pub open spec fn base_of(t: Seq<u32>) -> Base {
    Base {
        bg: t[0], panel: t[1], panel_hover: t[2], border: t[3],
        text: t[4], text_dim: t[5], text_muted: t[6],
        accent: t[7], link: t[8], success: t[9], danger: t[10], warning: t[11],
        on_accent: t[12], selection_bg: t[13], selection_text: t[14],
        syntax_comment: t[15], syntax_number: t[16], syntax_string: t[17],
        syntax_keyword: t[18], syntax_function: t[19], syntax_variable: t[20],
    }
}

/// The base palette of a palette table (see [`base_of`] for the order).
pub fn base_from(t: &[u32; 21]) -> (r: Base)
    ensures
        r == base_of(t@),
{
    Base {
        bg: t[0], panel: t[1], panel_hover: t[2], border: t[3],
        text: t[4], text_dim: t[5], text_muted: t[6],
        accent: t[7], link: t[8], success: t[9], danger: t[10], warning: t[11],
        on_accent: t[12], selection_bg: t[13], selection_text: t[14],
        syntax_comment: t[15], syntax_number: t[16], syntax_string: t[17],
        syntax_keyword: t[18], syntax_function: t[19], syntax_variable: t[20],
    }
}

pub const DEFAULT_DARK: [u32; 21] = [
    0x1e1e1e, 0x252525, 0x383838, 0x333333,
    0xd4d4d4, 0xaaaaaa, 0x888888,
    0x569cd6, 0x388bfd, 0x3fb950, 0xf85149, 0xd29922,
    0xffffff, 0x264f78, 0x8bb9fe,
    0x6a9955, 0xb5cea8, 0xce9178, 0x569cd6, 0xdcdcaa, 0xd16969,
];

pub const DEFAULT_LIGHT: [u32; 21] = [
    0xffffff, 0xf6f8fa, 0xeaeef2, 0xd0d7de,
    0x24292f, 0x656d76, 0x656d76,
    0x0550ae, 0x0969da, 0x1a7f37, 0xcf222e, 0x9a6700,
    0xffffff, 0xddf4ff, 0x0550ae,
    0x6e7781, 0x0550ae, 0x0a3069, 0xcf222e, 0x8250df, 0x953800,
];

pub const CATPPUCCIN_MOCHA: [u32; 21] = [
    0x1e1e2e, 0x181825, 0x45475a, 0x313244,
    0xcdd6f4, 0xa6adc8, 0xa6adc8,
    0x89b4fa, 0x89b4fa, 0xa6e3a1, 0xf38ba8, 0xf9e2af,
    0x1e1e2e, 0x45475a, 0x89b4fa,
    0x6c7086, 0xfab387, 0xa6e3a1, 0xcba6f7, 0x89b4fa, 0xf38ba8,
];

pub const CATPPUCCIN_MACCHIATO: [u32; 21] = [
    0x24273a, 0x1e2030, 0x494d64, 0x363a4f,
    0xcad3f5, 0xa5adcb, 0xa5adcb,
    0x8aadf4, 0x8aadf4, 0xa6da95, 0xed8796, 0xeed49f,
    0x24273a, 0x494d64, 0x8aadf4,
    0x6e738d, 0xf5a97f, 0xa6da95, 0xc6a0f6, 0x8aadf4, 0xed8796,
];

pub const CATPPUCCIN_FRAPPE: [u32; 21] = [
    0x303446, 0x292c3c, 0x51576d, 0x414559,
    0xc6d0f5, 0xa5adce, 0xa5adce,
    0x8caaee, 0x8caaee, 0xa6d189, 0xe78284, 0xe5c890,
    0x303446, 0x51576d, 0x8caaee,
    0x737994, 0xef9f76, 0xa6d189, 0xca9ee6, 0x8caaee, 0xe78284,
];

pub const CATPPUCCIN_LATTE: [u32; 21] = [
    0xeff1f5, 0xe6e9ef, 0xccd0da, 0xccd0da,
    0x4c4f69, 0x6c6f85, 0x6c6f85,
    0x1e66f5, 0x1e66f5, 0x40a02b, 0xd20f39, 0xdf8e1d,
    0xeff1f5, 0xccd0da, 0x1e66f5,
    0x8c8fa1, 0xfe640b, 0x40a02b, 0x8839ef, 0x1e66f5, 0xd20f39,
];

/// The palette table of a canonical theme id; anything not listed is the
/// default dark palette.
pub open spec fn palette_of(id: Seq<char>) -> Seq<u32> {
    if id == "default-light"@ {
        DEFAULT_LIGHT@
    } else if id == "catppuccin-mocha"@ {
        CATPPUCCIN_MOCHA@
    } else if id == "catppuccin-macchiato"@ {
        CATPPUCCIN_MACCHIATO@
    } else if id == "catppuccin-frappe"@ {
        CATPPUCCIN_FRAPPE@
    } else if id == "catppuccin-latte"@ {
        CATPPUCCIN_LATTE@
    } else {
        DEFAULT_DARK@
    }
}

/// A theme id with the legacy `dark` and `light` names migrated to
/// `default-dark` and `default-light`.
pub open spec fn canonical_id(id: Seq<char>) -> Seq<char> {
    if id == "dark"@ {
        "default-dark"@
    } else if id == "light"@ {
        "default-light"@
    } else {
        id
    }
}

/// The theme an id resolves to.
pub open spec fn theme_of(id: Seq<char>) -> Theme {
    resolve_of(base_of(palette_of(canonical_id(id))))
}

/// Whether an id names a theme: one of [`ORDER`] or a legacy name.
pub open spec fn is_known_id(id: Seq<char>) -> bool {
    id == "dark"@ || id == "light"@ || exists|i: int| 0 <= i < 6 && #[trigger] ORDER@[i]@ == id
}

fn palette_for(id: &Vec<char>) -> (t: [u32; 21])
    ensures
        t@ == palette_of(id@),
{
    if equals_str(id, "default-light") {
        DEFAULT_LIGHT
    } else if equals_str(id, "catppuccin-mocha") {
        CATPPUCCIN_MOCHA
    } else if equals_str(id, "catppuccin-macchiato") {
        CATPPUCCIN_MACCHIATO
    } else if equals_str(id, "catppuccin-frappe") {
        CATPPUCCIN_FRAPPE
    } else if equals_str(id, "catppuccin-latte") {
        CATPPUCCIN_LATTE
    } else {
        DEFAULT_DARK
    }
}

/// The theme of an id: legacy `dark`/`light` are migrated, unknown ids fall
/// back to `default-dark`.
pub fn by_id(id: &str) -> (r: Theme)
    ensures
        r == theme_of(id@),
{
    let given = chars_of(id);
    let canonical = if equals_str(&given, "dark") {
        chars_of("default-dark")
    } else if equals_str(&given, "light") {
        chars_of("default-light")
    } else {
        given
    };
    let table = palette_for(&canonical);
    base_from(&table).resolve()
}

/// True when `id` names a theme (legacy names included).
pub fn is_known(id: &str) -> (r: bool)
    ensures
        r == is_known_id(id@),
{
    let given = chars_of(id);
    if equals_str(&given, "dark") || equals_str(&given, "light") {
        return true;
    }
    let mut i: usize = 0;
    while i < 6
        invariant
            i <= 6,
            given@ == id@,
            forall|j: int| 0 <= j < i ==> ORDER@[j]@ != id@,
        decreases 6 - i,
    {
        if equals_str(&given, ORDER[i]) {
            assert(ORDER@[i as int]@ == id@);
            return true;
        }
        i = i + 1;
    }
    false
}

proof fn lemma_canonical_fallbacks(id: Seq<char>)
    ensures
        canonical_id("dark"@) == canonical_id("default-dark"@),
        canonical_id("light"@) == canonical_id("default-light"@),
        !is_known_id(id) ==> palette_of(canonical_id(id)) == palette_of(canonical_id("default-dark"@)),
{
    reveal_strlit("dark");
    reveal_strlit("light");
    reveal_strlit("default-dark");
    reveal_strlit("default-light");
    reveal_strlit("catppuccin-mocha");
    reveal_strlit("catppuccin-macchiato");
    reveal_strlit("catppuccin-frappe");
    reveal_strlit("catppuccin-latte");
    assert("light"@.len() == 5);
    assert("dark"@.len() == 4);
    assert("light"@ != "dark"@);
    assert("default-light"@[8] == 'l');
    assert("default-dark"@[8] == 'd');
    assert("default-light"@ != "dark"@);
    assert("default-light"@ != "light"@);
    if !is_known_id(id) {
        assert(ORDER@[0]@ != id);
        assert(ORDER@[1]@ != id);
        assert(ORDER@[2]@ != id);
        assert(ORDER@[3]@ != id);
        assert(ORDER@[4]@ != id);
        assert(ORDER@[5]@ != id);
    }
}

/// The legacy names resolve as the themes they were renamed to, and an id
/// that names no theme resolves as `default-dark`.
pub proof fn lemma_theme_fallbacks(id: Seq<char>)
    ensures
        theme_of("dark"@) == theme_of("default-dark"@),
        theme_of("light"@) == theme_of("default-light"@),
        !is_known_id(id) ==> theme_of(id) == theme_of("default-dark"@),
{
    lemma_canonical_fallbacks(id);
}

} // verus!
