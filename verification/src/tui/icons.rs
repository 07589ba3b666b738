//! Icon glyphs for the terminal UI, in three vocabularies selectable in the
//! preferences.
use vstd::prelude::*;
use crate::config::IconMode;
use crate::text::{chars_of, equals_str, sub_chars};

verus! {

/// Broad file categories.
#[derive(Debug, Clone, Copy, PartialEq, Eq, Structural)]
pub enum FileIconKind {
    Code,
    Json,
    Config,
    Terminal,
    Database,
    Markup,
    Text,
    Generic,
}

/// The text after the last `c` of `s` (all of `s` when it holds no `c`).
pub open spec fn after_last(s: Seq<char>, c: char) -> Seq<char>
    decreases s.len(),
{
    if s.len() == 0 {
        s
    } else if s.last() == c {
        seq![]
    } else {
        after_last(s.drop_last(), c).push(s.last())
    }
}

/// ASCII upper-case letters mapped to lower case; other characters kept.
pub open spec fn ascii_lower(c: char) -> char {
    if 'A' <= c && c <= 'Z' { ((c as u32) + 32) as char } else { c }
}

/// A character mapped to ASCII lower case, as std's
/// `char::to_ascii_lowercase` maps it: `A`..=`Z` become `a`..=`z`, every
/// other character is kept.
fn to_ascii_lower(c: char) -> (r: char)
    ensures
        r == ascii_lower(c),
{
    if 'A' <= c && c <= 'Z' {
        let b = c as u8;
        assert(b == c as u32);
        ((b + 32) as u8) as char
    } else {
        c
    }
}

/// The extension of a path, in ASCII lower case: the text after the last
/// `.` of its last `/`-separated segment (the whole segment without a `.`).
pub open spec fn extension_of(path: Seq<char>) -> Seq<char> {
    after_last(after_last(path, '/'), '.').map_values(|c: char| ascii_lower(c))
}

/// The icon category of a lower-case extension.
pub open spec fn kind_of_ext(e: Seq<char>) -> FileIconKind {
    if e == "ts"@ || e == "tsx"@ || e == "js"@ || e == "jsx"@ || e == "mjs"@ || e == "cjs"@
        || e == "py"@ || e == "rs"@ || e == "go"@ || e == "java"@ || e == "rb"@ || e == "php"@
        || e == "c"@ || e == "h"@ || e == "cpp"@ || e == "hpp"@ || e == "cs"@ || e == "swift"@
        || e == "kt"@ {
        FileIconKind::Code
    } else if e == "json"@ {
        FileIconKind::Json
    } else if e == "yaml"@ || e == "yml"@ || e == "toml"@ || e == "ini"@ || e == "conf"@ || e == "env"@ {
        FileIconKind::Config
    } else if e == "sh"@ || e == "bash"@ || e == "zsh"@ || e == "fish"@ {
        FileIconKind::Terminal
    } else if e == "sql"@ {
        FileIconKind::Database
    } else if e == "css"@ || e == "scss"@ || e == "less"@ || e == "html"@ || e == "xml"@ || e == "svg"@ {
        FileIconKind::Markup
    } else if e == "md"@ || e == "mdx"@ || e == "txt"@ || e == "rst"@ {
        FileIconKind::Text
    } else {
        FileIconKind::Generic
    }
}

pub(crate) fn after_last_exec(s: &Vec<char>, c: char) -> (r: Vec<char>)
    ensures
        r@ == after_last(s@, c),
{
    let mut j = s.len();
    assert(s@.take(j as int) =~= s@);
    assert(s@ + s@.skip(j as int) =~= s@);
    while j > 0 && s[j - 1] != c
        invariant
            j <= s@.len(),
            after_last(s@, c) == after_last(s@.take(j as int), c) + s@.skip(j as int),
        decreases j,
    {
        proof {
            let t = s@.take(j as int);
            assert(t.drop_last() =~= s@.take(j - 1));
            assert(t.last() == s@[j - 1]);
            assert(after_last(t, c) == after_last(s@.take(j - 1), c).push(s@[j - 1]));
            assert(after_last(s@.take(j - 1), c).push(s@[j - 1]) + s@.skip(j as int) =~= after_last(s@.take(j - 1), c) + s@.skip(j - 1));
        }
        j = j - 1;
    }
    proof {
        let t = s@.take(j as int);
        if j > 0 {
            assert(t.last() == c);
            assert(after_last(t, c) =~= seq![]);
        } else {
            assert(t =~= seq![]);
        }
    }
    let r = sub_chars(s, j, s.len());
    assert(r@ =~= s@.skip(j as int));
    assert(after_last(s@, c) =~= r@);
    r
}

fn kind_of_ext_exec(e: &Vec<char>) -> (r: FileIconKind)
    ensures
        r == kind_of_ext(e@),
{
    if equals_str(e, "ts") || equals_str(e, "tsx") || equals_str(e, "js") || equals_str(e, "jsx")
        || equals_str(e, "mjs") || equals_str(e, "cjs") || equals_str(e, "py") || equals_str(e, "rs")
        || equals_str(e, "go") || equals_str(e, "java") || equals_str(e, "rb") || equals_str(e, "php")
        || equals_str(e, "c") || equals_str(e, "h") || equals_str(e, "cpp") || equals_str(e, "hpp")
        || equals_str(e, "cs") || equals_str(e, "swift") || equals_str(e, "kt") {
        FileIconKind::Code
    } else if equals_str(e, "json") {
        FileIconKind::Json
    } else if equals_str(e, "yaml") || equals_str(e, "yml") || equals_str(e, "toml") || equals_str(e, "ini")
        || equals_str(e, "conf") || equals_str(e, "env") {
        FileIconKind::Config
    } else if equals_str(e, "sh") || equals_str(e, "bash") || equals_str(e, "zsh") || equals_str(e, "fish") {
        FileIconKind::Terminal
    } else if equals_str(e, "sql") {
        FileIconKind::Database
    } else if equals_str(e, "css") || equals_str(e, "scss") || equals_str(e, "less") || equals_str(e, "html")
        || equals_str(e, "xml") || equals_str(e, "svg") {
        FileIconKind::Markup
    } else if equals_str(e, "md") || equals_str(e, "mdx") || equals_str(e, "txt") || equals_str(e, "rst") {
        FileIconKind::Text
    } else {
        FileIconKind::Generic
    }
}

/// Classifies a path by its extension (ASCII case-insensitively); anything
/// not listed is `Generic`.
pub fn kind_for(path: &str) -> (r: FileIconKind)
    ensures
        r == kind_of_ext(extension_of(path@)),
{
    let chars = chars_of(path);
    let segment = after_last_exec(&chars, '/');
    let ext = after_last_exec(&segment, '.');
    let mut lower: Vec<char> = Vec::new();
    let mut i: usize = 0;
    while i < ext.len()
        invariant
            i <= ext@.len(),
            lower@ == ext@.take(i as int).map_values(|c: char| ascii_lower(c)),
        decreases ext@.len() - i,
    {
        lower.push(to_ascii_lower(ext[i]));
        assert(ext@.take(i + 1).map_values(|c: char| ascii_lower(c)) =~= ext@.take(i as int).map_values(|c: char| ascii_lower(c)).push(ascii_lower(ext@[i as int])));
        i = i + 1;
    }
    assert(ext@.take(ext@.len() as int) =~= ext@);
    kind_of_ext_exec(&lower)
}

/// A UI affordance that needs a glyph.
#[derive(Debug, Clone, Copy, PartialEq, Eq, Structural)]
pub enum UiGlyph {
    Reviewed,
    Comment,
    CategoryFix,
    CategoryQuestion,
    CategorySuggestion,
    CategoryNit,
    Cursor,
    Expanded,
    Collapsed,
    ViewSplit,
    ViewUnified,
    RangeAnchor,
}

/// The glyph vocabulary of one [`IconMode`].
#[derive(Debug, Clone, Copy, PartialEq, Eq, Structural)]
pub struct IconSet {
    mode: IconMode,
}

/// The glyph of a file category in a mode.
pub open spec fn file_glyph(mode: IconMode, kind: FileIconKind) -> Seq<char> {
    match mode {
        IconMode::NerdFont => match kind {
            FileIconKind::Code => "\u{e796}"@,
            FileIconKind::Json => "\u{e60b}"@,
            FileIconKind::Config => "\u{e615}"@,
            FileIconKind::Terminal => "\u{f489}"@,
            FileIconKind::Database => "\u{f1c0}"@,
            FileIconKind::Markup => "\u{e736}"@,
            FileIconKind::Text => "\u{f0219}"@,
            FileIconKind::Generic => "\u{f0214}"@,
        },
        IconMode::Unicode => match kind {
            FileIconKind::Code => "\u{25c6}"@,
            FileIconKind::Json => "\u{2774}"@,
            FileIconKind::Config => "\u{2699}"@,
            FileIconKind::Terminal => "\u{276f}"@,
            FileIconKind::Database => "\u{25a4}"@,
            FileIconKind::Markup => "\u{25c8}"@,
            FileIconKind::Text => "\u{b6}"@,
            FileIconKind::Generic => "\u{25ad}"@,
        },
        IconMode::Ascii => match kind {
            FileIconKind::Code => "[]"@,
            FileIconKind::Json => "{}"@,
            FileIconKind::Config => "#"@,
            FileIconKind::Terminal => "$"@,
            FileIconKind::Database => "="@,
            FileIconKind::Markup => "<>"@,
            FileIconKind::Text => "\""@,
            FileIconKind::Generic => "*"@,
        },
    }
}

/// The glyph of a UI affordance in a mode.
pub open spec fn ui_glyph(mode: IconMode, glyph: UiGlyph) -> Seq<char> {
    match mode {
        IconMode::NerdFont => match glyph {
            UiGlyph::Reviewed => "\u{f00c}"@,
            UiGlyph::Comment => "\u{f075}"@,
            UiGlyph::CategoryFix => "\u{f188}"@,
            UiGlyph::CategoryQuestion => "\u{f059}"@,
            UiGlyph::CategorySuggestion => "\u{f0eb}"@,
            UiGlyph::CategoryNit => "\u{f0e5}"@,
            UiGlyph::Cursor => "\u{f054}"@,
            UiGlyph::Expanded => "\u{f078}"@,
            UiGlyph::Collapsed => "\u{f054}"@,
            UiGlyph::ViewSplit => "\u{f0db}"@,
            UiGlyph::ViewUnified => "\u{f039}"@,
            UiGlyph::RangeAnchor => "\u{f068}"@,
        },
        IconMode::Unicode => match glyph {
            UiGlyph::Reviewed => "\u{2713}"@,
            UiGlyph::Comment => "\u{1f4ac}"@,
            UiGlyph::CategoryFix => "\u{25cf}"@,
            UiGlyph::CategoryQuestion => "\u{25c6}"@,
            UiGlyph::CategorySuggestion => "\u{25c7}"@,
            UiGlyph::CategoryNit => "\u{25cb}"@,
            UiGlyph::Cursor => "\u{25b6}"@,
            UiGlyph::Expanded => "\u{25bc}"@,
            UiGlyph::Collapsed => "\u{25b6}"@,
            UiGlyph::ViewSplit => "\u{21d4}"@,
            UiGlyph::ViewUnified => "\u{2261}"@,
            UiGlyph::RangeAnchor => "\u{259a}"@,
        },
        IconMode::Ascii => match glyph {
            UiGlyph::Reviewed => "v"@,
            UiGlyph::Comment => "#"@,
            UiGlyph::CategoryFix => "!"@,
            UiGlyph::CategoryQuestion => "?"@,
            UiGlyph::CategorySuggestion => "+"@,
            UiGlyph::CategoryNit => "-"@,
            UiGlyph::Cursor => ">"@,
            UiGlyph::Expanded => "v"@,
            UiGlyph::Collapsed => ">"@,
            UiGlyph::ViewSplit => "||"@,
            UiGlyph::ViewUnified => "="@,
            UiGlyph::RangeAnchor => "|"@,
        },
    }
}

/// An ASCII character.
pub open spec fn is_ascii_char(c: char) -> bool {
    (c as u32) < 128
}

/// Every glyph of every mode is non-empty, and every glyph of the ASCII
/// mode is plain ASCII.
pub proof fn lemma_glyphs_nonempty(mode: IconMode, kind: FileIconKind, glyph: UiGlyph)
    ensures
        file_glyph(mode, kind).len() > 0,
        ui_glyph(mode, glyph).len() > 0,
        mode == IconMode::Ascii ==> forall|i: int| 0 <= i < file_glyph(mode, kind).len() ==> is_ascii_char(#[trigger] file_glyph(mode, kind)[i]),
        mode == IconMode::Ascii ==> forall|i: int| 0 <= i < ui_glyph(mode, glyph).len() ==> is_ascii_char(#[trigger] ui_glyph(mode, glyph)[i]),
{
    reveal_strlit("\u{e796}");
    reveal_strlit("\u{e60b}");
    reveal_strlit("\u{e615}");
    reveal_strlit("\u{f489}");
    reveal_strlit("\u{f1c0}");
    reveal_strlit("\u{e736}");
    reveal_strlit("\u{f0219}");
    reveal_strlit("\u{f0214}");
    reveal_strlit("\u{25c6}");
    reveal_strlit("\u{2774}");
    reveal_strlit("\u{2699}");
    reveal_strlit("\u{276f}");
    reveal_strlit("\u{25a4}");
    reveal_strlit("\u{25c8}");
    reveal_strlit("\u{b6}");
    reveal_strlit("\u{25ad}");
    reveal_strlit("[]");
    reveal_strlit("{}");
    reveal_strlit("#");
    reveal_strlit("$");
    reveal_strlit("=");
    reveal_strlit("<>");
    reveal_strlit("\"");
    reveal_strlit("*");
    reveal_strlit("\u{f00c}");
    reveal_strlit("\u{f075}");
    reveal_strlit("\u{f188}");
    reveal_strlit("\u{f059}");
    reveal_strlit("\u{f0eb}");
    reveal_strlit("\u{f0e5}");
    reveal_strlit("\u{f054}");
    reveal_strlit("\u{f078}");
    reveal_strlit("\u{f0db}");
    reveal_strlit("\u{f039}");
    reveal_strlit("\u{f068}");
    reveal_strlit("\u{2713}");
    reveal_strlit("\u{1f4ac}");
    reveal_strlit("\u{25cf}");
    reveal_strlit("\u{25c7}");
    reveal_strlit("\u{25cb}");
    reveal_strlit("\u{25b6}");
    reveal_strlit("\u{25bc}");
    reveal_strlit("\u{21d4}");
    reveal_strlit("\u{2261}");
    reveal_strlit("\u{259a}");
    reveal_strlit("v");
    reveal_strlit("!");
    reveal_strlit("?");
    reveal_strlit("+");
    reveal_strlit("-");
    reveal_strlit(">");
    reveal_strlit("||");
    reveal_strlit("|");
}

/// ASCII lower-case letters mapped to upper case; other characters kept.
pub open spec fn ascii_upper(c: char) -> char {
    if 'a' <= c && c <= 'z' { ((c as u32) - 32) as char } else { c }
}

proof fn lemma_after_last_map(s: Seq<char>, c: char, f: spec_fn(char) -> char)
    requires
        forall|x: char| (#[trigger] f(x) == c) == (x == c),
    ensures
        after_last(s.map_values(f), c) == after_last(s, c).map_values(f),
    decreases s.len(),
{
    if s.len() > 0 {
        lemma_after_last_map(s.drop_last(), c, f);
        assert(s.map_values(f).drop_last() =~= s.drop_last().map_values(f));
        assert(s.map_values(f).last() == f(s.last()));
        if s.last() != c {
            assert(after_last(s.drop_last(), c).push(s.last()).map_values(f) =~= after_last(s.drop_last(), c).map_values(f).push(f(s.last())));
        } else {
            assert(after_last(s, c).map_values(f) =~= seq![]);
        }
    }
}

proof fn lemma_after_last_suffix(x: Seq<char>, p: Seq<char>, c: char)
    requires
        !p.contains(c),
    ensures
        after_last(x + p, c) == after_last(x, c) + p,
    decreases p.len(),
{
    if p.len() == 0 {
        assert(x + p =~= x);
        assert(after_last(x, c) + p =~= after_last(x, c));
    } else {
        assert(!p.drop_last().contains(c)) by {
            if p.drop_last().contains(c) {
                let k = choose|k: int| 0 <= k < p.drop_last().len() && p.drop_last()[k] == c;
                assert(p[k] == c);
            }
        }
        assert(p[p.len() - 1] != c);
        lemma_after_last_suffix(x, p.drop_last(), c);
        assert((x + p).drop_last() =~= x + p.drop_last());
        assert((x + p).last() == p.last());
        assert(after_last(x, c) + p.drop_last() + seq![p.last()] =~= after_last(x, c) + p);
    }
}

/// A file's icon category ignores the case of its path and the directories
/// above it: upper-casing the path, or putting it under a directory, gives
/// the same category.
pub proof fn lemma_kind_ignores_case_and_directory(dir: Seq<char>, path: Seq<char>)
    ensures
        kind_of_ext(extension_of(path.map_values(|c: char| ascii_upper(c)))) == kind_of_ext(extension_of(path)),
        !path.contains('/') ==> kind_of_ext(extension_of(dir + seq!['/'] + path)) == kind_of_ext(extension_of(path)),
{
    let up = |c: char| ascii_upper(c);
    let low = |c: char| ascii_lower(c);
    assert forall|x: char| (#[trigger] up(x) == '/') == (x == '/') by {}
    assert forall|x: char| (#[trigger] up(x) == '.') == (x == '.') by {}
    let u = path.map_values(up);
    lemma_after_last_map(path, '/', up);
    let seg = after_last(path, '/');
    lemma_after_last_map(seg, '.', up);
    let e = after_last(seg, '.');
    assert forall|x: char| #[trigger] ascii_lower(ascii_upper(x)) == ascii_lower(x) by {
        if 'a' <= x && x <= 'z' {
            assert(ascii_upper(x) as u32 == (x as u32) - 32);
        }
    }
    assert(e.map_values(up).map_values(low) =~= e.map_values(low));
    assert(extension_of(u) == extension_of(path));
    if !path.contains('/') {
        let full = dir + seq!['/'] + path;
        lemma_after_last_suffix(dir + seq!['/'], path, '/');
        assert((dir + seq!['/']).drop_last() =~= dir);
        assert(after_last(dir + seq!['/'], '/') =~= seq![]);
        assert(after_last(seq![], '/') + path =~= path);
        lemma_after_last_suffix(seq![], path, '/');
        assert(seq![] + path =~= path);
        assert(after_last(seq![], '/') =~= seq![]);
        assert(after_last(full, '/') =~= after_last(path, '/'));
    }
}

impl IconSet {
    /// The mode of this glyph set.
    pub closed spec fn glyph_mode(&self) -> IconMode {
        self.mode
    }

    /// The glyph set of a mode.
    pub fn new(mode: IconMode) -> (r: Self)
        ensures
            r.glyph_mode() == mode,
    {
        IconSet { mode }
    }

    /// Glyph for a file category.
    pub fn file(&self, kind: FileIconKind) -> (r: &'static str)
        ensures
            r@ == file_glyph(self.glyph_mode(), kind),
    {
        match self.mode {
            IconMode::NerdFont => match kind {
                FileIconKind::Code => "\u{e796}",
                FileIconKind::Json => "\u{e60b}",
                FileIconKind::Config => "\u{e615}",
                FileIconKind::Terminal => "\u{f489}",
                FileIconKind::Database => "\u{f1c0}",
                FileIconKind::Markup => "\u{e736}",
                FileIconKind::Text => "\u{f0219}",
                FileIconKind::Generic => "\u{f0214}",
            },
            IconMode::Unicode => match kind {
                FileIconKind::Code => "\u{25c6}",
                FileIconKind::Json => "\u{2774}",
                FileIconKind::Config => "\u{2699}",
                FileIconKind::Terminal => "\u{276f}",
                FileIconKind::Database => "\u{25a4}",
                FileIconKind::Markup => "\u{25c8}",
                FileIconKind::Text => "\u{b6}",
                FileIconKind::Generic => "\u{25ad}",
            },
            IconMode::Ascii => match kind {
                FileIconKind::Code => "[]",
                FileIconKind::Json => "{}",
                FileIconKind::Config => "#",
                FileIconKind::Terminal => "$",
                FileIconKind::Database => "=",
                FileIconKind::Markup => "<>",
                FileIconKind::Text => "\"",
                FileIconKind::Generic => "*",
            },
        }
    }

    /// Glyph for a UI affordance.
    pub fn ui(&self, glyph: UiGlyph) -> (r: &'static str)
        ensures
            r@ == ui_glyph(self.glyph_mode(), glyph),
    {
        match self.mode {
            IconMode::NerdFont => match glyph {
                UiGlyph::Reviewed => "\u{f00c}",
                UiGlyph::Comment => "\u{f075}",
                UiGlyph::CategoryFix => "\u{f188}",
                UiGlyph::CategoryQuestion => "\u{f059}",
                UiGlyph::CategorySuggestion => "\u{f0eb}",
                UiGlyph::CategoryNit => "\u{f0e5}",
                UiGlyph::Cursor => "\u{f054}",
                UiGlyph::Expanded => "\u{f078}",
                UiGlyph::Collapsed => "\u{f054}",
                UiGlyph::ViewSplit => "\u{f0db}",
                UiGlyph::ViewUnified => "\u{f039}",
                UiGlyph::RangeAnchor => "\u{f068}",
            },
            IconMode::Unicode => match glyph {
                UiGlyph::Reviewed => "\u{2713}",
                UiGlyph::Comment => "\u{1f4ac}",
                UiGlyph::CategoryFix => "\u{25cf}",
                UiGlyph::CategoryQuestion => "\u{25c6}",
                UiGlyph::CategorySuggestion => "\u{25c7}",
                UiGlyph::CategoryNit => "\u{25cb}",
                UiGlyph::Cursor => "\u{25b6}",
                UiGlyph::Expanded => "\u{25bc}",
                UiGlyph::Collapsed => "\u{25b6}",
                UiGlyph::ViewSplit => "\u{21d4}",
                UiGlyph::ViewUnified => "\u{2261}",
                UiGlyph::RangeAnchor => "\u{259a}",
            },
            IconMode::Ascii => match glyph {
                UiGlyph::Reviewed => "v",
                UiGlyph::Comment => "#",
                UiGlyph::CategoryFix => "!",
                UiGlyph::CategoryQuestion => "?",
                UiGlyph::CategorySuggestion => "+",
                UiGlyph::CategoryNit => "-",
                UiGlyph::Cursor => ">",
                UiGlyph::Expanded => "v",
                UiGlyph::Collapsed => ">",
                UiGlyph::ViewSplit => "||",
                UiGlyph::ViewUnified => "=",
                UiGlyph::RangeAnchor => "|",
            },
        }
    }
}

} // verus!
