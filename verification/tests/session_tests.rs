use local_review::file_writer::{get_default_output_path, output_path_for};
use local_review::session::{
    get_session_key, hash_repo_path, is_session_file, session_dir, session_path, session_stale,
    EXPIRY_MS,
};
use local_review::session::web_session_key;

#[test]
fn hash_repo_path_is_deterministic() {
    assert_eq!(hash_repo_path("/some/repo"), hash_repo_path("/some/repo"));
}

#[test]
fn hash_repo_path_differs_for_different_inputs() {
    assert_ne!(hash_repo_path("a"), hash_repo_path("b"));
}

#[test]
fn hash_repo_path_returns_8_char_hex() {
    let hash = hash_repo_path("/some/repo/path");
    assert_eq!(hash.len(), 8);
    assert!(hash.chars().all(|c| c.is_ascii_hexdigit()));
}

#[test]
fn hash_repo_path_empty_is_all_zeroes() {
    assert_eq!(hash_repo_path(""), "00000000");
}

#[test]
fn get_session_key_uses_prefix() {
    assert_eq!(
        get_session_key("abcd1234", "abc..def"),
        "local-review:abcd1234:abc..def"
    );
}

#[test]
fn hash_repo_path_matches_rolling_hash_values() {
    // h = h * 31 + byte, modulo 2^32.
    assert_eq!(hash_repo_path("a"), "00000061");
    assert_eq!(hash_repo_path("ab"), format!("{:08x}", 97u32 * 31 + 98));
    assert_eq!(hash_repo_path("main"), format!("{:08x}", ((109u32 * 31 + 97) * 31 + 105) * 31 + 110));
    let long = "x".repeat(40);
    let mut h: u32 = 0;
    for b in long.bytes() {
        h = h.wrapping_mul(31).wrapping_add(b as u32);
    }
    assert_eq!(hash_repo_path(&long), format!("{:08x}", h));
}

#[test]
fn session_files_live_under_the_session_dir() {
    assert_eq!(session_dir(), ".local-review");
    let p = session_path("local-review:abcd1234:abc..def");
    assert!(p.starts_with(".local-review/.session-"));
    assert!(p.ends_with(".json"));
    assert_eq!(p.len(), ".local-review/.session-".len() + 12 + ".json".len());
    let hex = &p[".local-review/.session-".len()..p.len() - ".json".len()];
    assert!(hex.chars().all(|c| c.is_ascii_hexdigit() && !c.is_ascii_uppercase()));
    assert_ne!(session_path("a"), session_path("b"));
}

#[test]
fn session_path_uses_sha256_prefix() {
    // SHA-256("abc") starts ba7816bf8f01.
    assert_eq!(session_path("abc"), ".local-review/.session-ba7816bf8f01.json");
}

#[test]
fn expiry_is_fourteen_days() {
    assert_eq!(EXPIRY_MS, 14 * 24 * 60 * 60 * 1000);
    let secs = EXPIRY_MS / 1000;
    assert_eq!(session_stale("1970-01-01T00:00:00Z", secs, 0), Some(false));
    // Half a millisecond over is still 14 days in whole milliseconds.
    assert_eq!(session_stale("1970-01-01T00:00:00Z", secs, 500_000), Some(false));
    assert_eq!(session_stale("1970-01-01T00:00:00Z", secs, 1_000_000), Some(true));
    assert_eq!(session_stale("1970-01-01T00:00:00Z", 0, 0), Some(false));
    assert_eq!(session_stale("1970-01-01T00:00:00Z", -5, 0), Some(false));
    assert_eq!(session_stale("1970-01-01T00:00:00.000400Z", secs, 1_000_000), Some(false));
}

#[test]
fn session_file_names() {
    assert!(is_session_file(".session-abcdef012345.json"));
    assert!(!is_session_file("notes.json"));
    assert!(!is_session_file(".session-abc.txt"));
    assert!(!is_session_file(".session-"));
}

#[test]
fn default_path_starts_with_local_review() {
    let path = get_default_output_path();
    assert!(path.starts_with(".local-review/"));
}

#[test]
fn default_path_ends_with_md() {
    let path = get_default_output_path();
    assert!(path.ends_with(".md"));
}

#[test]
fn default_path_has_no_colons() {
    let path = get_default_output_path();
    assert!(!path.contains(':'));
}

#[test]
fn output_path_wraps_the_stamp() {
    assert_eq!(output_path_for("2026-01-02T03-04-05"), ".local-review/2026-01-02T03-04-05.md");
}

#[test]
fn session_staleness_follows_the_stored_time() {
    // 2026-01-01T00:00:00Z is 1767225600 s after the epoch.
    let t = 1_767_225_600i64;
    let day = 24 * 60 * 60i64;
    assert_eq!(session_stale("2026-01-01T00:00:00Z", t + 14 * day, 0), Some(false));
    assert_eq!(session_stale("2026-01-01T00:00:00Z", t + 14 * day, 1_000_000), Some(true));
    assert_eq!(session_stale("2026-01-01T02:00:00+02:00", t + 14 * day, 1_000_000), Some(true));
    assert_eq!(session_stale("not a time", t, 0), None);
}

#[test]
fn web_and_terminal_reviews_share_the_session_key() {
    let range = "main..feature";
    assert_eq!(web_session_key(range), format!("local-review:{}:main..feature", hash_repo_path("main")));
    assert_eq!(web_session_key(range), local_review::tui::session_key("main", "feature"));
    assert_eq!(web_session_key("abc123"), get_session_key(&hash_repo_path("abc123"), "abc123"));
}

#[test]
fn default_output_path_has_the_stamp_shape() {
    let path = get_default_output_path();
    let stamp = path.strip_prefix(".local-review/").unwrap().strip_suffix(".md").unwrap();
    let b = stamp.as_bytes();
    let n = b.len();
    assert!(n >= 19);
    assert_eq!(b[n - 15], b'-');
    assert_eq!(b[n - 12], b'-');
    assert_eq!(b[n - 9], b'T');
    assert_eq!(b[n - 6], b'-');
    assert_eq!(b[n - 3], b'-');
    for &i in &[n - 14, n - 13, n - 11, n - 10, n - 8, n - 7, n - 5, n - 4, n - 2, n - 1] {
        assert!(b[i].is_ascii_digit());
    }
}
