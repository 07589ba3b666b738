//! Where the review markdown is written by default.
use vstd::prelude::*;
use crate::text::{extend_str, string_of, has_prefix};

verus! {

/// The current UTC time as `%Y-%m-%dT%H-%M-%S` (chrono `Utc::now` and
/// `format`). Trusted: the text has that shape (see [`stamp_shape`]); which
/// date and time it shows depends on the clock and is not stated.
#[verifier::external_body]
fn utc_file_stamp() -> (r: String)
    ensures
        stamp_shape(r@),
{
    chrono::Utc::now().format("%Y-%m-%dT%H-%M-%S").to_string()
}

/// A character of a file time stamp.
pub open spec fn stamp_char(c: char) -> bool {
    ('0' <= c && c <= '9') || c == '-' || c == '+' || c == 'T'
}

/// An ASCII decimal digit.
pub open spec fn is_digit_char(c: char) -> bool {
    '0' <= c && c <= '9'
}

/// The text chrono writes for `%Y`: four digits for a year in `0..=9999`,
/// else a sign followed by at least four digits.
pub open spec fn year_text(y: Seq<char>) -> bool {
    ||| y.len() == 4 && forall|i: int| 0 <= i < 4 ==> is_digit_char(#[trigger] y[i])
    ||| y.len() >= 5 && (y[0] == '+' || y[0] == '-') && forall|i: int| 1 <= i < y.len() ==> is_digit_char(#[trigger] y[i])
}

/// The shape of `%Y-%m-%dT%H-%M-%S`: a year, then `-MM-DDTHH-MM-SS` with
/// two digits for each field.
pub open spec fn stamp_shape(s: Seq<char>) -> bool {
    let n = s.len();
    &&& n >= 19
    &&& year_text(s.take(n - 15))
    &&& s[n - 15] == '-' && s[n - 12] == '-' && s[n - 9] == 'T' && s[n - 6] == '-' && s[n - 3] == '-'
    &&& forall|i: int| n - 15 <= i < n && i != n - 15 && i != n - 12 && i != n - 9 && i != n - 6 && i != n - 3
        ==> is_digit_char(#[trigger] s[i])
}

/// A stamp of that shape holds only stamp characters.
proof fn lemma_stamp_shape_chars(s: Seq<char>)
    requires
        stamp_shape(s),
    ensures
        forall|i: int| 0 <= i < s.len() ==> stamp_char(#[trigger] s[i]),
{
    let n = s.len();
    assert forall|i: int| 0 <= i < s.len() implies stamp_char(#[trigger] s[i]) by {
        if i < n - 15 {
            assert(s.take(n - 15)[i] == s[i]);
        }
    }
}

/// The default output path for a review written at time stamp `stamp`:
/// `.local-review/<stamp>.md`.
pub fn output_path_for(stamp: &str) -> (r: String)
    ensures
        r@ == ".local-review/"@ + stamp@ + ".md"@,
{
    let mut out: Vec<char> = Vec::new();
    extend_str(&mut out, ".local-review/");
    extend_str(&mut out, stamp);
    extend_str(&mut out, ".md");
    string_of(&out)
}

/// The default output path, `.local-review/<UTC time>.md` with the time as
/// `%Y-%m-%dT%H-%M-%S`; the stamp holds no `:` so the name is valid on every
/// platform.
pub fn get_default_output_path() -> (r: String)
    ensures
        exists|stamp: Seq<char>| r@ == ".local-review/"@ + stamp + ".md"@ && #[trigger] stamp_shape(stamp),
{
    let stamp = utc_file_stamp();
    let r = output_path_for(stamp.as_str());
    assert(r@ == ".local-review/"@ + stamp@ + ".md"@);
    r
}

/// A default output path holds no `:` (a character some file systems
/// refuse).
pub proof fn lemma_default_path_has_no_colon(stamp: Seq<char>)
    requires
        stamp_shape(stamp),
    ensures
        !(".local-review/"@ + stamp + ".md"@).contains(':'),
{
    lemma_stamp_shape_chars(stamp);
    reveal_strlit(".local-review/");
    reveal_strlit(".md");
    let p = ".local-review/"@ + stamp + ".md"@;
    assert forall|i: int| 0 <= i < p.len() implies p[i] != ':' by {
        if i < 14 {
        } else if i < 14 + stamp.len() {
            assert(p[i] == stamp[i - 14]);
        } else {
        }
    }
}

} // verus!
