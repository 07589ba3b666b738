//! The terminal review UI: its state machine, key map, themes and glyphs.
pub mod app;
pub mod control;
pub mod icons;
pub mod labels;
pub mod keybindings;
pub mod sidebar;
pub mod syntax;
pub mod theme;

use vstd::prelude::*;
use crate::session::{hash_repo_path, rolling_hash, session_key_of, web_session_key};
use crate::text::{chars_of, chars_occur_at, hex_digits, occurs_at, string_of, sub_chars};
pub use crate::review::commit_range;

verus! {

/// The first position at or after `i` where `p` occurs in `s`.
pub open spec fn first_occurrence(s: Seq<char>, p: Seq<char>, i: int) -> Option<int>
    decreases s.len() + 1 - i,
{
    if i < 0 || i + p.len() > s.len() {
        None
    } else if occurs_at(s, p, i) {
        Some(i)
    } else {
        first_occurrence(s, p, i + 1)
    }
}

/// The part of a range before its first `..` (all of it without one).
pub open spec fn range_base(range: Seq<char>) -> Seq<char> {
    match first_occurrence(range, ".."@, 0) {
        Some(k) => range.subrange(0, k),
        None => range,
    }
}

fn first_occurrence_exec(s: &Vec<char>, p: &Vec<char>) -> (r: Option<usize>)
    ensures
        match r {
            Some(k) => first_occurrence(s@, p@, 0) == Some(k as int) && k + p@.len() <= s@.len(),
            None => first_occurrence(s@, p@, 0) is None,
        },
{
    if p.len() > s.len() {
        return None;
    }
    let last = s.len() - p.len();
    let mut i: usize = 0;
    while i < last
        invariant
            p@.len() <= s@.len(),
            last == s@.len() - p@.len(),
            i <= last,
            first_occurrence(s@, p@, 0) == first_occurrence(s@, p@, i as int),
        decreases last - i,
    {
        if chars_occur_at(s, p, i) {
            return Some(i);
        }
        i = i + 1;
    }
    if chars_occur_at(s, p, last) {
        return Some(last);
    }
    assert(first_occurrence(s@, p@, last + 1) is None);
    None
}

/// The hash a session of a range is filed under: [`rolling_hash`] of the
/// range's part before its first `..`, as 8 hexadecimal digits.
pub fn range_base_hash(range: &str) -> (r: String)
    ensures
        r@ == hex_digits(rolling_hash(vstd::utf8::encode_utf8(range_base(range@))), 8),
{
    let chars = chars_of(range);
    let dots = chars_of("..");
    let end = match first_occurrence_exec(&chars, &dots) {
        Some(k) => k,
        None => chars.len(),
    };
    let base = string_of(&sub_chars(&chars, 0, end));
    assert(base@ == range_base(range@));
    hash_repo_path(base.as_str())
}

/// The session key of a review of `base_ref..head_ref`: the key the web
/// server saves the same range under ([`web_session_key`]), the hash of the
/// range's part before its first `..`, and the range.
pub fn session_key(base_ref: &str, head_ref: &str) -> (r: String)
    ensures
        r@ == session_key_of(base_ref@ + ".."@ + head_ref@),
{
    let range = commit_range(base_ref, head_ref);
    web_session_key(range.as_str())
}

/// The terminal UI files a review of `base_ref..head_ref` under the key the
/// web server saves that range under, so either UI picks up the other's
/// session; that key hashes `base_ref` itself when `base_ref` holds no `..`
/// and does not end in `.` (so the range's first `..` is the separator).
pub proof fn lemma_shared_session_key(base_ref: Seq<char>, head_ref: Seq<char>)
    requires
        forall|i: int| 0 <= i < base_ref.len() && #[trigger] base_ref[i] == '.' ==> i + 1 < base_ref.len() && base_ref[i + 1] != '.',
    ensures
        session_key_of(base_ref + ".."@ + head_ref)
            == "local-review:"@ + hex_digits(rolling_hash(vstd::utf8::encode_utf8(base_ref)), 8) + ":"@ + base_ref + ".."@ + head_ref,
{
    reveal_strlit("..");
    assert(".."@ =~= seq!['.', '.']);
    let range = base_ref + ".."@ + head_ref;
    lemma_separator_first(base_ref, head_ref, 0);
    assert(range.subrange(0, base_ref.len() as int) =~= base_ref);
    assert(range_base(range) == base_ref);
    assert("local-review:"@ + hex_digits(rolling_hash(vstd::utf8::encode_utf8(base_ref)), 8) + ":"@ + range
        =~= "local-review:"@ + hex_digits(rolling_hash(vstd::utf8::encode_utf8(base_ref)), 8) + ":"@ + base_ref + ".."@ + head_ref);
}

proof fn lemma_separator_first(base: Seq<char>, head: Seq<char>, i: int)
    requires
        0 <= i <= base.len(),
        ".."@ == seq!['.', '.'],
        forall|k: int| 0 <= k < base.len() && #[trigger] base[k] == '.' ==> k + 1 < base.len() && base[k + 1] != '.',
    ensures
        first_occurrence(base + ".."@ + head, ".."@, i) == Some(base.len() as int),
    decreases base.len() - i,
{
    let range = base + ".."@ + head;
    if i < base.len() {
        assert(range[i] == base[i]);
        if i + 1 < base.len() {
            assert(range[i + 1] == base[i + 1]);
        } else {
            assert(range[i + 1] == '.');
        }
        if occurs_at(range, ".."@, i) {
            assert(range.subrange(i, i + 2)[0] == range[i]);
            assert(range.subrange(i, i + 2)[1] == range[i + 1]);
        }
        lemma_separator_first(base, head, i + 1);
    } else {
        assert(range.subrange(i, i + 2) =~= ".."@);
    }
}

} // verus!
