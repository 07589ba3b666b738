//! Session keys and session file names, and the session expiry rule.
use vstd::prelude::*;
use vstd::string::StringSliceAdditionalSpecFns;
use crate::tui::{range_base, range_base_hash};
use crate::text::{chars_of, chars_occur_at, extend_str, has_prefix, push_hex, hex_digits, hex_char, starts_with_str, string_of};

verus! {

broadcast use vstd::string::group_string_axioms;

/// The 32-bit rolling hash of a byte string: `h = h * 31 + b` for each byte,
/// modulo 2^32 (the `String.hashCode` scheme the web client also uses).
pub open spec fn rolling_hash(bytes: Seq<u8>) -> nat
    decreases bytes.len(),
{
    if bytes.len() == 0 {
        0
    } else {
        ((rolling_hash(bytes.drop_last()) * 31 + bytes.last()) % 4294967296) as nat
    }
}

/// The short hash of a repository path: [`rolling_hash`] of its UTF-8 bytes
/// as 8 lower-case hexadecimal digits.
pub fn hash_repo_path(repo_path: &str) -> (r: String)
    ensures
        r@ == hex_digits(rolling_hash(repo_path.spec_bytes()), 8),
{
    let bytes = repo_path.as_bytes();
    let mut hash: u64 = 0;
    let mut i: usize = 0;
    while i < bytes.len()
        invariant
            i <= bytes@.len(),
            bytes@ == repo_path.spec_bytes(),
            hash as nat == rolling_hash(bytes@.take(i as int)),
            hash < 4294967296,
        decreases bytes@.len() - i,
    {
        assert(bytes@.take(i + 1).drop_last() =~= bytes@.take(i as int));
        hash = (hash * 31 + bytes[i] as u64) % 4294967296;
        i = i + 1;
    }
    assert(bytes@.take(bytes@.len() as int) =~= bytes@);
    let mut out: Vec<char> = Vec::new();
    push_hex(&mut out, hash, 8);
    assert(out@ =~= hex_digits(hash as nat, 8));
    string_of(&out)
}

/// The key of a review session: `local-review:<hash>:<range>`.
pub fn get_session_key(repo_path_hash: &str, commit_range: &str) -> (r: String)
    ensures
        r@ == "local-review:"@ + repo_path_hash@ + ":"@ + commit_range@,
{
    let mut out: Vec<char> = Vec::new();
    extend_str(&mut out, "local-review:");
    extend_str(&mut out, repo_path_hash);
    extend_str(&mut out, ":");
    extend_str(&mut out, commit_range);
    string_of(&out)
}

/// The session key of a commit range, shared by the web UI and the
/// terminal UI: `local-review:`, the hash of the range's base part (before
/// its first `..`), `:`, and the range.
pub open spec fn session_key_of(commit_range: Seq<char>) -> Seq<char> {
    "local-review:"@ + hex_digits(rolling_hash(vstd::utf8::encode_utf8(range_base(commit_range))), 8)
        + ":"@ + commit_range
}

/// The key under which the web review of `commit_range` saves its session
/// (see [`session_key_of`]).
pub fn web_session_key(commit_range: &str) -> (r: String)
    ensures
        r@ == session_key_of(commit_range@),
{
    let hash = range_base_hash(commit_range);
    get_session_key(hash.as_str(), commit_range)
}

/// The directory that holds session files, relative to the repository.
pub fn session_dir() -> (r: String)
    ensures
        r@ == ".local-review"@,
{
    String::from_str(".local-review")
}

/// The SHA-256 digest of a byte string.
pub uninterp spec fn sha256_digest(data: Seq<u8>) -> Seq<u8>;

/// SHA-256 of `data` (sha2 `Sha256::digest`). Trusted: the result is the
/// digest of `data`, 32 bytes long; which bytes they are is left to the
/// uninterpreted name `sha256_digest`.
#[verifier::external_body]
fn sha256(data: &[u8]) -> (r: Vec<u8>)
    ensures
        r@ == sha256_digest(data@),
        r@.len() == 32,
{
    <sha2::Sha256 as sha2::Digest>::digest(data).to_vec()
}

/// Lower-case hexadecimal encoding of a byte string, two digits per byte.
pub open spec fn hex_of_bytes(data: Seq<u8>) -> Seq<char>
    decreases data.len(),
{
    if data.len() == 0 {
        seq![]
    } else {
        hex_of_bytes(data.drop_last()) + seq![hex_char((data.last() / 16) as nat), hex_char((data.last() % 16) as nat)]
    }
}

/// Lower-case hexadecimal encoding (hex `encode`). Trusted: each byte
/// becomes its high then low nibble as a digit of `0123456789abcdef`.
#[verifier::external_body]
fn hex_encode(data: &[u8]) -> (r: String)
    ensures
        r@ == hex_of_bytes(data@),
{
    hex::encode(data)
}

/// The session file of a key: `.local-review/.session-<hex>.json`, where
/// `<hex>` encodes the first 6 bytes of the SHA-256 digest of the key.
pub fn session_path(key: &str) -> (r: String)
    ensures
        r@ == ".local-review/.session-"@ + hex_of_bytes(sha256_digest(key.spec_bytes()).take(6))
            + ".json"@,
{
    let digest = sha256(key.as_bytes());
    let mut head: Vec<u8> = Vec::new();
    let mut i: usize = 0;
    while i < 6
        invariant
            i <= 6,
            digest@.len() == 32,
            head@ == digest@.take(i as int),
        decreases 6 - i,
    {
        head.push(digest[i]);
        i = i + 1;
    }
    let hex = hex_encode(head.as_slice());
    let mut out: Vec<char> = Vec::new();
    extend_str(&mut out, ".local-review/.session-");
    extend_str(&mut out, hex.as_str());
    extend_str(&mut out, ".json");
    string_of(&out)
}

/// Sessions not accessed for longer than this many milliseconds (14 days)
/// are expired.
pub const EXPIRY_MS: i64 = 1209600000;

/// The instant an RFC 3339 date-time denotes, as whole seconds since the
/// Unix epoch and the nanoseconds past that second; `None` when the text is
/// not an RFC 3339 date-time.
pub uninterp spec fn rfc3339_instant(s: Seq<char>) -> Option<(int, int)>;

/// chrono `DateTime::parse_from_rfc3339`, then `timestamp` and
/// `timestamp_subsec_nanos`. Trusted: the result is [`rfc3339_instant`] of
/// the text, a function of the text alone (the offset it carries is part of
/// the text).
#[verifier::external_body]
fn parse_rfc3339_instant(s: &str) -> (r: Option<(i64, u32)>)
    ensures
        match r {
            Some(v) => rfc3339_instant(s@) == Some((v.0 as int, v.1 as int)),
            None => rfc3339_instant(s@) is None,
        },
{
    chrono::DateTime::parse_from_rfc3339(s).ok().map(|d| (d.timestamp(), d.timestamp_subsec_nanos()))
}

/// The current time as whole seconds since the Unix epoch and nanoseconds
/// past that second (chrono `Utc::now()`, `timestamp` and
/// `timestamp_subsec_nanos`). Trusted for nothing: it depends on the clock.
#[verifier::external_body]
fn utc_now_instant() -> (r: (i64, u32)) {
    let now = chrono::Utc::now();
    (now.timestamp(), now.timestamp_subsec_nanos())
}

/// Whether a session last accessed at `last` is expired at `now` (both
/// seconds and nanoseconds since the epoch): the time between them, counted
/// in whole milliseconds, is more than [`EXPIRY_MS`] (14 days).
pub open spec fn stale_at(last: (int, int), now: (int, int)) -> bool {
    (now.0 - last.0) * 1_000_000_000 + (now.1 - last.1) >= (14 * 24 * 60 * 60 * 1000 + 1) * 1_000_000
}

/// Whether a session whose `lastAccessedAt` is `last_accessed_at` is expired
/// at `now_secs` seconds and `now_nanos` nanoseconds after the epoch; `None`
/// when the stored time is not an RFC 3339 date-time (such a session is
/// ignored).
pub fn session_stale(last_accessed_at: &str, now_secs: i64, now_nanos: u32) -> (r: Option<bool>)
    ensures
        r == match rfc3339_instant(last_accessed_at@) {
            Some(t) => Some(stale_at(t, (now_secs as int, now_nanos as int))),
            None => None::<bool>,
        },
{
    match parse_rfc3339_instant(last_accessed_at) {
        Some((secs, nanos)) => {
            let elapsed: i128 = ((now_secs as i128) - (secs as i128)) * 1_000_000_000 + ((now_nanos as i128) - (nanos as i128));
            Some(elapsed >= ((EXPIRY_MS as i128) + 1) * 1_000_000)
        },
        None => None,
    }
}

/// Whether a session whose `lastAccessedAt` is `last_accessed_at` is expired
/// now; `None` exactly when the stored time is not an RFC 3339 date-time.
/// The answer for a readable time is [`session_stale`] at the clock's time.
pub fn session_stale_now(last_accessed_at: &str) -> (r: Option<bool>)
    ensures
        r is None <==> rfc3339_instant(last_accessed_at@) is None,
{
    let (secs, nanos) = utc_now_instant();
    session_stale(last_accessed_at, secs, nanos)
}

/// Whether a file name is that of a session file: `.session-` at the start
/// and `.json` at the end.
pub open spec fn session_file_name(name: Seq<char>) -> bool {
    has_prefix(name, ".session-"@) && name.len() >= 5 && name.subrange(name.len() - 5, name.len() as int) == ".json"@
}

/// Whether a directory entry is a session file (see [`session_file_name`]).
pub fn is_session_file(name: &str) -> (r: bool)
    ensures
        r == session_file_name(name@),
{
    let chars = chars_of(name);
    let suffix = chars_of(".json");
    proof {
        reveal_strlit(".json");
    }
    if !starts_with_str(&chars, ".session-") || chars.len() < 5 {
        return false;
    }
    chars_occur_at(&chars, &suffix, chars.len() - 5)
}

/// A lower-case hexadecimal digit.
pub open spec fn is_hex_char(c: char) -> bool {
    ('0' <= c && c <= '9') || ('a' <= c && c <= 'f')
}

proof fn lemma_hex_digits_shape(n: nat, width: nat)
    ensures
        hex_digits(n, width).len() == width,
        forall|i: int| 0 <= i < width ==> is_hex_char(#[trigger] hex_digits(n, width)[i]),
        n == 0 ==> forall|i: int| 0 <= i < width ==> #[trigger] hex_digits(n, width)[i] == '0',
    decreases width,
{
    if width > 0 {
        lemma_hex_digits_shape(n / 16, (width - 1) as nat);
    }
}

/// A repository path hash is always 8 lower-case hexadecimal digits, and
/// that of the empty path is `00000000`.
pub proof fn lemma_repo_hash_shape(bytes: Seq<u8>)
    ensures
        hex_digits(rolling_hash(bytes), 8).len() == 8,
        forall|i: int| 0 <= i < 8 ==> is_hex_char(#[trigger] hex_digits(rolling_hash(bytes), 8)[i]),
        bytes.len() == 0 ==> hex_digits(rolling_hash(bytes), 8) == "00000000"@,
{
    lemma_hex_digits_shape(rolling_hash(bytes), 8);
    if bytes.len() == 0 {
        reveal_strlit("00000000");
        assert(hex_digits(0, 8) =~= "00000000"@);
    }
}

} // verus!
