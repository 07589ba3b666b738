//! Syntax colours of the diff view: a token's colour from the probe
//! highlighting scheme is sorted into one of the theme's syntax colours.
use vstd::prelude::*;
use crate::text::{chars_of, string_of};
use crate::tui::icons::{after_last, after_last_exec};
use crate::tui::theme::{Color, Theme};

verus! {

/// Which syntax colour of the theme a token takes.
#[derive(Debug, Clone, Copy, PartialEq, Eq, Structural)]
pub enum Bucket {
    Comment,
    Keyword,
    String,
    Number,
    Function,
    Variable,
    Plain,
}

/// The bucket of a token by its colour in the base16-ocean dark scheme:
/// grey comments, purple keywords, green strings, orange numbers, blue
/// functions, red variables; any other colour is plain text.
pub open spec fn bucket_of(r: u8, g: u8, b: u8) -> Bucket {
    if r == 0x65 && g == 0x73 && b == 0x7e {
        Bucket::Comment
    } else if r == 0xb4 && g == 0x8e && b == 0xad {
        Bucket::Keyword
    } else if r == 0xa3 && g == 0xbe && b == 0x8c {
        Bucket::String
    } else if r == 0xd0 && g == 0x87 && b == 0x70 {
        Bucket::Number
    } else if r == 0x8f && g == 0xa1 && b == 0xb3 {
        Bucket::Function
    } else if r == 0xbf && g == 0x61 && b == 0x6a {
        Bucket::Variable
    } else {
        Bucket::Plain
    }
}

/// The bucket of a token colour (see [`bucket_of`]).
pub fn bucket_for(r: u8, g: u8, b: u8) -> (k: Bucket)
    ensures
        k == bucket_of(r, g, b),
{
    if r == 0x65 && g == 0x73 && b == 0x7e {
        Bucket::Comment
    } else if r == 0xb4 && g == 0x8e && b == 0xad {
        Bucket::Keyword
    } else if r == 0xa3 && g == 0xbe && b == 0x8c {
        Bucket::String
    } else if r == 0xd0 && g == 0x87 && b == 0x70 {
        Bucket::Number
    } else if r == 0x8f && g == 0xa1 && b == 0xb3 {
        Bucket::Function
    } else if r == 0xbf && g == 0x61 && b == 0x6a {
        Bucket::Variable
    } else {
        Bucket::Plain
    }
}

/// The theme colour of a bucket.
pub open spec fn bucket_color(k: Bucket, t: Theme) -> Color {
    match k {
        Bucket::Comment => t.syntax_comment,
        Bucket::Keyword => t.syntax_keyword,
        Bucket::String => t.syntax_string,
        Bucket::Number => t.syntax_number,
        Bucket::Function => t.syntax_function,
        Bucket::Variable => t.syntax_variable,
        Bucket::Plain => t.text,
    }
}

impl Bucket {
    /// The theme colour of this bucket.
    pub fn color(self, theme: &Theme) -> (r: Color)
        ensures
            r == bucket_color(self, *theme),
    {
        match self {
            Bucket::Comment => theme.syntax_comment,
            Bucket::Keyword => theme.syntax_keyword,
            Bucket::String => theme.syntax_string,
            Bucket::Number => theme.syntax_number,
            Bucket::Function => theme.syntax_function,
            Bucket::Variable => theme.syntax_variable,
            Bucket::Plain => theme.text,
        }
    }
}

/// syntect's set of syntax definitions.
#[verifier::external_type_specification]
#[verifier::external_body]
pub struct ExSyntaxSet(syntect::parsing::SyntaxSet);

/// syntect's set of colour schemes.
#[verifier::external_type_specification]
#[verifier::external_body]
pub struct ExSchemeSet(syntect::highlighting::ThemeSet);

/// The highlighting engine: syntect's default syntax definitions and the
/// base16-ocean dark scheme used only to classify tokens.
pub struct SyntaxEngine {
    set: syntect::parsing::SyntaxSet,
    schemes: syntect::highlighting::ThemeSet,
}

/// syntect `SyntaxSet::load_defaults_newlines`. Trusted for nothing beyond
/// its type.
#[verifier::external_body]
fn load_syntax_set() -> (r: syntect::parsing::SyntaxSet) {
    syntect::parsing::SyntaxSet::load_defaults_newlines()
}

/// syntect `ThemeSet::load_defaults`, the schemes syntect ships (among them
/// `base16-ocean.dark`). Trusted for nothing beyond its type.
#[verifier::external_body]
fn load_schemes() -> (r: syntect::highlighting::ThemeSet) {
    syntect::highlighting::ThemeSet::load_defaults()
}

impl SyntaxEngine {
    /// Loads syntect's default syntaxes and the probe scheme.
    pub fn new() -> (r: SyntaxEngine) {
        SyntaxEngine { set: load_syntax_set(), schemes: load_schemes() }
    }
}

/// The tokens syntect's default syntax for extension `ext` makes of `line`,
/// each with its foreground colour in the probe scheme (red, green, blue);
/// `None` when no syntax has that extension or highlighting fails.
pub uninterp spec fn probe_tokens(ext: Seq<char>, line: Seq<char>) -> Option<Seq<(Seq<char>, u8, u8, u8)>>;

/// The view of a token list.
pub open spec fn tokens_view(r: Option<Vec<(String, u8, u8, u8)>>) -> Option<Seq<(Seq<char>, u8, u8, u8)>> {
    match r {
        Some(v) => Some(v@.map_values(|t: (String, u8, u8, u8)| (t.0@, t.1, t.2, t.3))),
        None => None,
    }
}

/// syntect `SyntaxSet::find_syntax_by_extension`, then
/// `HighlightLines::highlight_line` with a fresh highlighter on the
/// `base16-ocean.dark` scheme, each token
/// taken with its foreground colour. Trusted: the result is
/// [`probe_tokens`] of the extension and the line (the engine is always
/// the defaults [`SyntaxEngine::new`] loads, so nothing else decides it).
#[verifier::external_body]
fn syntect_tokens(engine: &SyntaxEngine, ext: &str, line: &str) -> (r: Option<Vec<(String, u8, u8, u8)>>)
    ensures
        tokens_view(r) == probe_tokens(ext@, line@),
{
    let syntax = engine.set.find_syntax_by_extension(ext)?;
    let mut h = syntect::easy::HighlightLines::new(syntax, &engine.schemes.themes["base16-ocean.dark"]);
    match h.highlight_line(line, &engine.set) {
        Ok(ranges) => Some(
            ranges.into_iter().map(|(st, t)| (t.to_string(), st.foreground.r, st.foreground.g, st.foreground.b)).collect(),
        ),
        Err(_) => None,
    }
}

/// The view of highlighted spans.
pub open spec fn spans_view(v: Seq<(String, Bucket)>) -> Seq<(Seq<char>, Bucket)> {
    v.map_values(|t: (String, Bucket)| (t.0@, t.1))
}

/// The spans of a line from its tokens: each token with the bucket of its
/// colour; without tokens, the whole line as one plain span.
pub open spec fn spans_of_tokens(line: Seq<char>, tokens: Option<Seq<(Seq<char>, u8, u8, u8)>>) -> Seq<(Seq<char>, Bucket)> {
    match tokens {
        Some(ts) => ts.map_values(|t: (Seq<char>, u8, u8, u8)| (t.0, bucket_of(t.1, t.2, t.3))),
        None => seq![(line, Bucket::Plain)],
    }
}

/// The highlighted spans of a line of file `path`: plain when `skip` (large
/// or binary diffs), else the tokens of the syntax named by the text after
/// the path's last `.` (see [`spans_of_tokens`]).
pub open spec fn highlighted(path: Seq<char>, line: Seq<char>, skip: bool) -> Seq<(Seq<char>, Bucket)> {
    if skip {
        seq![(line, Bucket::Plain)]
    } else {
        spans_of_tokens(line, probe_tokens(after_last(path, '.'), line))
    }
}

/// Buckets the tokens of a line (see [`spans_of_tokens`]).
pub fn spans_from_tokens(line: &str, tokens: Option<Vec<(String, u8, u8, u8)>>) -> (r: Vec<(String, Bucket)>)
    ensures
        spans_view(r@) == spans_of_tokens(line@, tokens_view(tokens)),
{
    match tokens {
        None => {
            let mut r: Vec<(String, Bucket)> = Vec::new();
            r.push((line.to_string(), Bucket::Plain));
            assert(spans_view(r@) =~= seq![(line@, Bucket::Plain)]);
            r
        },
        Some(ts) => {
            let ghost tv = ts@.map_values(|t: (String, u8, u8, u8)| (t.0@, t.1, t.2, t.3));
            let mut r: Vec<(String, Bucket)> = Vec::new();
            let mut i: usize = 0;
            while i < ts.len()
                invariant
                    i <= ts@.len(),
                    tv == ts@.map_values(|t: (String, u8, u8, u8)| (t.0@, t.1, t.2, t.3)),
                    spans_view(r@) =~= tv.take(i as int).map_values(|t: (Seq<char>, u8, u8, u8)| (t.0, bucket_of(t.1, t.2, t.3))),
                decreases ts@.len() - i,
            {
                let t = &ts[i];
                let k = bucket_for(t.1, t.2, t.3);
                let text = t.0.clone();
                assert(text@ == t.0@);
                let ghost before = r@;
                r.push((text, k));
                assert(tv[i as int] == (t.0@, t.1, t.2, t.3));
                assert(tv.take(i + 1) =~= tv.take(i as int).push(tv[i as int]));
                assert(spans_view(r@) =~= spans_view(before).push((text@, k)));
                i = i + 1;
            }
            assert(tv.take(ts@.len() as int) =~= tv);
            r
        },
    }
}

/// The highlighted spans of a line of file `path` (see [`highlighted`]).
pub fn highlight_buckets(engine: &SyntaxEngine, path: &str, line: &str, skip: bool) -> (r: Vec<(String, Bucket)>)
    ensures
        spans_view(r@) == highlighted(path@, line@, skip),
{
    if skip {
        return spans_from_tokens(line, None);
    }
    let ext = string_of(&after_last_exec(&chars_of(path), '.'));
    let tokens = syntect_tokens(engine, ext.as_str(), line);
    spans_from_tokens(line, tokens)
}

} // verus!
