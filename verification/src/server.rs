//! Request checks of the review server: the CSRF check of mutating requests
//! and the guard of file requests.
use vstd::prelude::*;
use vstd::string::StringSliceAdditionalSpecFns;
use crate::text::{chars_of, decimal, extend_str, has_prefix, push_decimal, starts_with_str, string_of, chars_eq};

verus! {

broadcast use vstd::string::group_string_axioms;

/// What the CSRF check compares against: the session token and the port the
/// server listens on.
#[derive(Debug, Clone)]
pub struct CsrfState {
    pub token: String,
    pub port: u16,
}

/// Whether a request origin is the review server itself:
/// `http://127.0.0.1:<port>` or `http://localhost:<port>` (as a prefix).
pub open spec fn allowed_origin(origin: Seq<char>, port: u16) -> bool {
    origin.len() > 0 && (has_prefix(origin, "http://127.0.0.1:"@ + decimal(port as nat))
        || has_prefix(origin, "http://localhost:"@ + decimal(port as nat)))
}

/// The text of an optional header; empty when absent.
pub open spec fn header_text(h: Option<Seq<char>>) -> Seq<char> {
    match h {
        Some(t) => t,
        None => seq![],
    }
}

/// The view of an optional header.
pub open spec fn opt_header(h: Option<&str>) -> Option<Seq<char>> {
    match h {
        Some(t) => Some(t@),
        None => None,
    }
}

/// Whether a mutating request passes the CSRF check: its `Origin` header
/// (or, without one, its `Referer` header) names the review server, and its
/// `X-CSRF-Token` header is the session token. A header that is present but
/// not text is passed as empty.
pub fn csrf_allows(csrf: &CsrfState, origin: Option<&str>, referer: Option<&str>, token: Option<&str>) -> (r: bool)
    ensures
        r == ({
            let o = match origin {
                Some(t) => t@,
                None => header_text(opt_header(referer)),
            };
            allowed_origin(o, csrf.port) && header_text(opt_header(token)) == csrf.token@
        }),
{
    let o: Vec<char> = match origin {
        Some(t) => chars_of(t),
        None => match referer {
            Some(t) => chars_of(t),
            None => Vec::new(),
        },
    };
    let mut local: Vec<char> = Vec::new();
    extend_str(&mut local, "http://127.0.0.1:");
    push_decimal(&mut local, csrf.port as u64);
    let mut named: Vec<char> = Vec::new();
    extend_str(&mut named, "http://localhost:");
    push_decimal(&mut named, csrf.port as u64);
    let origin_ok = o.len() > 0 && (crate::text::chars_occur_at(&o, &local, 0) || crate::text::chars_occur_at(&o, &named, 0));
    if !origin_ok {
        return false;
    }
    let t: Vec<char> = match token {
        Some(t) => chars_of(t),
        None => Vec::new(),
    };
    let expected = chars_of(csrf.token.as_str());
    chars_eq(&t, &expected)
}

/// Seconds without a request after which the review server shuts itself
/// down: 30 minutes.
pub const IDLE_TIMEOUT_SECS: u64 = 1800;

/// How many times the server tries the next port when the one it tried is
/// in use.
pub const MAX_BIND_RETRIES: u16 = 3;

/// The port to try after `port` was found in use on attempt `attempt`
/// (counted from 0): the next port while retries remain, else none (the
/// error stands).
pub fn next_bind_port(port: u16, attempt: u16) -> (r: Option<u16>)
    requires
        attempt < MAX_BIND_RETRIES ==> port < u16::MAX,
    ensures
        r == (if attempt < MAX_BIND_RETRIES { Some((port + 1) as u16) } else { None::<u16> }),
{
    if attempt < MAX_BIND_RETRIES {
        Some(port + 1)
    } else {
        None
    }
}

/// `s` without its leading `/` characters.
pub open spec fn strip_leading_slashes(s: Seq<char>) -> Seq<char>
    decreases s.len(),
{
    if s.len() > 0 && s[0] == '/' {
        strip_leading_slashes(s.drop_first())
    } else {
        s
    }
}

/// The embedded asset a request path asks for: the path without its
/// leading slashes, or `index.html` for the root. (When that asset is
/// missing the frontend is served `index.html`.)
pub fn asset_candidate(uri_path: &str) -> (r: String)
    ensures
        r@ == (if strip_leading_slashes(uri_path@).len() == 0 { "index.html"@ } else { strip_leading_slashes(uri_path@) }),
{
    let chars = chars_of(uri_path);
    let mut i: usize = 0;
    assert(chars@.skip(0) =~= chars@);
    while i < chars.len() && chars[i] == '/'
        invariant
            i <= chars@.len(),
            strip_leading_slashes(chars@) == strip_leading_slashes(chars@.skip(i as int)),
        decreases chars@.len() - i,
    {
        assert(chars@.skip(i as int).drop_first() =~= chars@.skip(i + 1));
        i = i + 1;
    }
    if i < chars.len() {
        assert(chars@.skip(i as int)[0] == chars@[i as int]);
    }
    assert(strip_leading_slashes(chars@.skip(i as int)) == chars@.skip(i as int));
    if i == chars.len() {
        assert(chars@.skip(i as int).len() == 0);
        String::from_str("index.html")
    } else {
        let r = crate::text::string_of_range(&chars, i, chars.len());
        assert(r@ =~= chars@.skip(i as int));
        r
    }
}

/// What the file guard needs to know: the repository root that file
/// requests must stay inside.
#[derive(Debug, Clone)]
pub struct PathGuardState {
    pub repo_root: String,
}

/// The bytes of `/api/v1/file/`, the prefix of the file requests the guard
/// applies to.
pub const FILE_ROUTE_PREFIX: [u8; 13] = [47, 97, 112, 105, 47, 118, 49, 47, 102, 105, 108, 101, 47];

/// What the file guard does with a request path.
#[derive(Debug, PartialEq, Eq)]
pub enum GuardStep {
    /// Not a file request: let it through.
    Pass,
    /// Refused.
    Reject,
    /// A file request for this decoded path, to be let through only when it
    /// resolves inside the repository.
    Check(String),
}

/// The value of an ASCII hexadecimal digit.
pub open spec fn hex_value(b: u8) -> Option<u8> {
    if 48 <= b <= 57 {
        Some((b - 48) as u8)
    } else if 97 <= b <= 102 {
        Some((b - 97 + 10) as u8)
    } else if 65 <= b <= 70 {
        Some((b - 65 + 10) as u8)
    } else {
        None
    }
}

/// The value of an ASCII hexadecimal digit byte (`0`-`9`, `a`-`f`, `A`-`F`).
pub fn hex_digit(b: u8) -> (r: Option<u8>)
    ensures
        r == hex_value(b),
{
    if 48 <= b && b <= 57 {
        Some(b - 48)
    } else if 97 <= b && b <= 102 {
        Some(b - 97 + 10)
    } else if 65 <= b && b <= 70 {
        Some(b - 65 + 10)
    } else {
        None
    }
}

/// The bytes of `s[i..]` with each `%` followed by two hexadecimal digits
/// replaced by the byte they encode; everything else is kept.
pub open spec fn percent_decoded_from(s: Seq<u8>, i: int) -> Seq<u8>
    decreases s.len() - i,
{
    if i < 0 || i >= s.len() {
        seq![]
    } else if s[i] == 37 && i + 2 < s.len() && hex_value(s[i + 1]) is Some && hex_value(s[i + 2]) is Some {
        seq![(hex_value(s[i + 1])->0 * 16 + hex_value(s[i + 2])->0) as u8] + percent_decoded_from(s, i + 3)
    } else {
        seq![s[i]] + percent_decoded_from(s, i + 1)
    }
}

/// The text of a byte string read as UTF-8, each invalid sequence replaced
/// by U+FFFD, as std's `String::from_utf8_lossy` reads it.
pub uninterp spec fn utf8_lossy(bytes: Seq<u8>) -> Seq<char>;

/// std `String::from_utf8_lossy`. Trusted: the result is [`utf8_lossy`] of
/// the bytes, a function of the bytes alone; how invalid sequences are
/// replaced is not stated.
#[verifier::external_body]
fn string_from_utf8_lossy(bytes: &Vec<u8>) -> (r: String)
    ensures
        r@ == utf8_lossy(bytes@),
{
    String::from_utf8_lossy(bytes).into_owned()
}

fn decode_from(bytes: &[u8], start: usize) -> (r: Vec<u8>)
    requires
        start <= bytes@.len(),
    ensures
        r@ == percent_decoded_from(bytes@, start as int),
{
    let ghost b = bytes@;
    let mut out: Vec<u8> = Vec::new();
    let mut i: usize = start;
    while i < bytes.len()
        invariant
            start <= i <= bytes@.len(),
            b == bytes@,
            out@ + percent_decoded_from(b, i as int) == percent_decoded_from(b, start as int),
        decreases bytes@.len() - i,
    {
        if bytes[i] == 37 && bytes.len() >= 3 && i < bytes.len() - 2 {
            match (hex_digit(bytes[i + 1]), hex_digit(bytes[i + 2])) {
                (Some(hi), Some(lo)) => {
                    out.push(hi * 16 + lo);
                    assert(out@ + percent_decoded_from(b, i + 3) =~= percent_decoded_from(b, start as int));
                    i = i + 3;
                    continue;
                },
                _ => {},
            }
        }
        out.push(bytes[i]);
        assert(out@ + percent_decoded_from(b, i + 1) =~= percent_decoded_from(b, start as int));
        i = i + 1;
    }
    assert(out@ =~= percent_decoded_from(b, start as int));
    out
}

/// Decodes `%XX` escapes in a URL path (the text of the bytes, read as UTF-8
/// with invalid sequences replaced).
pub fn percent_decode(input: &str) -> (r: String)
    ensures
        r@ == utf8_lossy(percent_decoded_from(input.spec_bytes(), 0)),
{
    let out = decode_from(input.as_bytes(), 0);
    string_from_utf8_lossy(&out)
}

/// Whether the bytes `s` start with [`FILE_ROUTE_PREFIX`].
pub open spec fn is_file_route(s: Seq<u8>) -> bool {
    s.len() >= 13 && s.subrange(0, 13) == FILE_ROUTE_PREFIX@
}

/// What the file guard does with a request path: anything outside
/// [`FILE_ROUTE_PREFIX`] passes; a file path whose rest decodes to text
/// holding a NUL character is refused; any other is checked against the
/// repository.
pub fn guard_step(path: &str) -> (r: GuardStep)
    ensures
        ({
            let b = path.spec_bytes();
            let decoded = utf8_lossy(percent_decoded_from(b, 13));
            match r {
                GuardStep::Pass => !is_file_route(b),
                GuardStep::Reject => is_file_route(b) && decoded.contains('\0'),
                GuardStep::Check(d) => is_file_route(b) && !decoded.contains('\0') && d@ == decoded,
            }
        }),
{
    let bytes = path.as_bytes();
    if bytes.len() < 13 {
        return GuardStep::Pass;
    }
    let mut k: usize = 0;
    while k < 13
        invariant
            k <= 13,
            bytes@ == path.spec_bytes(),
            bytes@.len() >= 13,
            forall|j: int| 0 <= j < k ==> bytes@[j] == FILE_ROUTE_PREFIX@[j],
        decreases 13 - k,
    {
        if bytes[k] != FILE_ROUTE_PREFIX[k] {
            assert(bytes@.subrange(0, 13)[k as int] != FILE_ROUTE_PREFIX@[k as int]);
            return GuardStep::Pass;
        }
        k = k + 1;
    }
    assert(bytes@.subrange(0, 13) =~= FILE_ROUTE_PREFIX@);
    assert(is_file_route(path.spec_bytes()));
    let decoded = string_from_utf8_lossy(&decode_from(bytes, 13));
    let chars = chars_of(decoded.as_str());
    let mut i: usize = 0;
    while i < chars.len()
        invariant
            i <= chars@.len(),
            chars@ == decoded@,
            decoded@ == utf8_lossy(percent_decoded_from(path.spec_bytes(), 13)),
            is_file_route(path.spec_bytes()),
            forall|j: int| 0 <= j < i ==> chars@[j] != '\0',
        decreases chars@.len() - i,
    {
        if chars[i] == '\0' {
            assert(decoded@[i as int] == '\0');
            return GuardStep::Reject;
        }
        i = i + 1;
    }
    GuardStep::Check(decoded)
}

} // verus!
