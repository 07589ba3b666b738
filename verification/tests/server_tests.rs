use local_review::server::{csrf_allows, guard_step, hex_digit, percent_decode, CsrfState, GuardStep, IDLE_TIMEOUT_SECS, next_bind_port};
use local_review::server::asset_candidate;

const TOKEN: &str = "test-csrf-token-123";
const PORT: u16 = 9876;

fn state() -> CsrfState {
    CsrfState { token: TOKEN.into(), port: PORT }
}

#[test]
fn passes_with_valid_token_and_origin_127_0_0_1() {
    assert!(csrf_allows(&state(), Some("http://127.0.0.1:9876"), None, Some(TOKEN)));
}

#[test]
fn passes_with_valid_token_and_origin_localhost() {
    assert!(csrf_allows(&state(), Some("http://localhost:9876"), None, Some(TOKEN)));
}

#[test]
fn rejects_invalid_token() {
    assert!(!csrf_allows(&state(), Some("http://127.0.0.1:9876"), None, Some("wrong-token")));
}

#[test]
fn rejects_missing_origin() {
    assert!(!csrf_allows(&state(), None, None, Some(TOKEN)));
}

#[test]
fn rejects_wrong_origin() {
    assert!(!csrf_allows(&state(), Some("http://evil.com"), None, Some(TOKEN)));
}

#[test]
fn accepts_referer_when_origin_missing() {
    assert!(csrf_allows(&state(), None, Some("http://127.0.0.1:9876/some/page"), Some(TOKEN)));
}

#[test]
fn origin_wins_over_referer_and_token_is_required() {
    assert!(!csrf_allows(&state(), Some("http://evil.com"), Some("http://127.0.0.1:9876/"), Some(TOKEN)));
    assert!(!csrf_allows(&state(), Some("http://127.0.0.1:9876"), None, None));
    assert!(!csrf_allows(&state(), Some("http://127.0.0.1:98"), None, Some(TOKEN)));
}

#[test]
fn rejects_paths_with_null_bytes() {
    assert_eq!(guard_step("/api/v1/file/src%00/etc/passwd"), GuardStep::Reject);
}

#[test]
fn skips_guard_for_non_file_routes() {
    assert_eq!(guard_step("/other"), GuardStep::Pass);
}

#[test]
fn file_routes_are_checked_after_decoding() {
    assert_eq!(guard_step("/api/v1/file/src/index.ts"), GuardStep::Check("src/index.ts".into()));
    assert_eq!(guard_step("/api/v1/file/src%5Cindex.ts"), GuardStep::Check("src\\index.ts".into()));
    assert_eq!(guard_step("/api/v1/file/a%20b"), GuardStep::Check("a b".into()));
}

#[test]
fn percent_decoding() {
    assert_eq!(percent_decode("a%20b"), "a b");
    assert_eq!(percent_decode("%41%7a"), "Az");
    assert_eq!(percent_decode("100%"), "100%");
    assert_eq!(percent_decode("%zz"), "%zz");
    assert_eq!(percent_decode("%4"), "%4");
    assert_eq!(percent_decode("%C3%A9"), "é");
    assert_eq!(percent_decode("%FF"), "\u{fffd}");
}

#[test]
fn hex_digits() {
    assert_eq!(hex_digit(b'0'), Some(0));
    assert_eq!(hex_digit(b'9'), Some(9));
    assert_eq!(hex_digit(b'a'), Some(10));
    assert_eq!(hex_digit(b'F'), Some(15));
    assert_eq!(hex_digit(b'g'), None);
}

#[test]
fn idle_timeout_source_uses_30_minutes() {
    assert_eq!(IDLE_TIMEOUT_SECS, 30 * 60);
}

#[test]
fn bind_retries_the_next_port_three_times() {
    assert_eq!(next_bind_port(8989, 0), Some(8990));
    assert_eq!(next_bind_port(8990, 1), Some(8991));
    assert_eq!(next_bind_port(8991, 2), Some(8992));
    assert_eq!(next_bind_port(8992, 3), None);
}

#[test]
fn asset_candidates() {
    assert_eq!(asset_candidate("/"), "index.html");
    assert_eq!(asset_candidate(""), "index.html");
    assert_eq!(asset_candidate("//assets/app.js"), "assets/app.js");
    assert_eq!(asset_candidate("/favicon.svg"), "favicon.svg");
}
