//! Parser for unified diffs in the format `git diff` prints.
//!
//! The input is split into lines as `str::lines` does; the lines are then fed
//! one by one to a small state machine (outside a file / in a file header /
//! in a file body) that builds one [`ParsedFileDiff`] per `diff --git` header.
use vstd::prelude::*;
use crate::text::{sub_chars, has_prefix, occurs_at, chars_occur_at, starts_with_str, equals_str, chars_of, string_of, string_of_range};
use crate::types::{Change, ChangeType, ChangeV, FileDiffV, FileStatus, Hunk, HunkV, ParsedFileDiff, changes_view, hunks_view, files_view};

verus! {

broadcast use vstd::seq_lib::group_seq_properties;

// ---------------------------------------------------------------------------
// Lines
// ---------------------------------------------------------------------------

/// `l` without one trailing carriage return.
pub open spec fn strip_cr(l: Seq<char>) -> Seq<char> {
    if l.len() > 0 && l.last() == '\r' { l.drop_last() } else { l }
}

/// The lines of `rest`, the first one starting with the already-read `cur`:
/// lines end at `'\n'` (a `"\r\n"` ending loses its `'\r'` too), and a final
/// line without terminator is kept only when it is not empty.
pub open spec fn lines_with(cur: Seq<char>, rest: Seq<char>) -> Seq<Seq<char>>
    decreases rest.len(),
{
    if rest.len() == 0 {
        if cur.len() == 0 { seq![] } else { seq![cur] }
    } else if rest[0] == '\n' {
        seq![strip_cr(cur)] + lines_with(seq![], rest.drop_first())
    } else {
        lines_with(cur.push(rest[0]), rest.drop_first())
    }
}

/// The lines of `s`, as `str::lines` yields them.
pub open spec fn split_lines(s: Seq<char>) -> Seq<Seq<char>> {
    lines_with(seq![], s)
}

/// The views of a vector of character vectors.
pub open spec fn lines_view(v: Seq<Vec<char>>) -> Seq<Seq<char>> {
    v.map_values(|l: Vec<char>| l@)
}

fn strip_cr_exec(l: Vec<char>) -> (r: Vec<char>)
    ensures
        r@ == strip_cr(l@),
{
    let mut l = l;
    if l.len() > 0 && l[l.len() - 1] == '\r' {
        l.pop();
    }
    l
}

/// Splits `s` into lines.
pub fn split_lines_exec(s: &Vec<char>) -> (lines: Vec<Vec<char>>)
    ensures
        lines_view(lines@) == split_lines(s@),
{
    let mut lines: Vec<Vec<char>> = Vec::new();
    let mut cur: Vec<char> = Vec::new();
    let mut i: usize = 0;
    while i < s.len()
        invariant
            i <= s@.len(),
            lines_view(lines@) + lines_with(cur@, s@.skip(i as int)) == split_lines(s@),
        decreases s@.len() - i,
    {
        let ghost rest = s@.skip(i as int);
        assert(rest.drop_first() =~= s@.skip(i + 1));
        if s[i] == '\n' {
            let done = strip_cr_exec(cur);
            proof {
                assert(lines_view(lines@.push(done)) =~= lines_view(lines@).push(done@));
            }
            lines.push(done);
            cur = Vec::new();
            assert(lines_view(lines@) + lines_with(cur@, s@.skip(i + 1)) =~= split_lines(s@));
        } else {
            cur.push(s[i]);
        }
        i = i + 1;
    }
    assert(s@.skip(i as int).len() == 0);
    if cur.len() > 0 {
        proof {
            assert(lines_view(lines@.push(cur)) =~= lines_view(lines@).push(cur@));
        }
        lines.push(cur);
        assert(lines_view(lines@) =~= split_lines(s@));
    } else {
        assert(lines_view(lines@) =~= split_lines(s@));
    }
    lines
}


// ---------------------------------------------------------------------------
// `diff --git a/<old> b/<new>` headers
// ---------------------------------------------------------------------------

/// `j` is the last position, at or after the `diff --git a/` prefix, where
/// `" b/"` occurs in `line`.
pub open spec fn is_last_b_at(line: Seq<char>, j: int) -> bool {
    &&& j >= "diff --git a/"@.len()
    &&& occurs_at(line, " b/"@, j)
    &&& forall|k: int| j < k ==> !occurs_at(line, " b/"@, k)
}

/// The two paths of a `diff --git a/(.*) b/(.*)` line; the first group is
/// greedy, so the split is at the last `" b/"`.
pub open spec fn diff_header(line: Seq<char>) -> Option<(Seq<char>, Seq<char>)> {
    if has_prefix(line, "diff --git a/"@) && exists|j: int| is_last_b_at(line, j) {
        let j = choose|j: int| is_last_b_at(line, j);
        Some((line.subrange("diff --git a/"@.len() as int, j), line.skip(j + " b/"@.len())))
    } else {
        None
    }
}

proof fn lemma_last_b_unique(line: Seq<char>, j1: int, j2: int)
    requires
        is_last_b_at(line, j1),
        is_last_b_at(line, j2),
    ensures
        j1 == j2,
{
}

/// Recognizes a `diff --git` header line and returns its two paths.
fn diff_header_exec(line: &Vec<char>) -> (r: Option<(Vec<char>, Vec<char>)>)
    ensures
        match r {
            Some((o, n)) => diff_header(line@) == Some((o@, n@)),
            None => diff_header(line@) is None,
        },
{
    if !starts_with_str(line, "diff --git a/") {
        return None;
    }
    let prefix_len = chars_of("diff --git a/").len();
    let sep = chars_of(" b/");
    proof {
        reveal_strlit(" b/");
    }
    let mut j = line.len();
    while j > prefix_len
        invariant
            prefix_len == "diff --git a/"@.len(),
            sep@ == " b/"@,
            prefix_len <= j <= line@.len() <= usize::MAX,
            has_prefix(line@, "diff --git a/"@),
            forall|k: int| j <= k ==> !occurs_at(line@, " b/"@, k),
        decreases j,
    {
        j = j - 1;
        if chars_occur_at(line, &sep, j) {
            assert(is_last_b_at(line@, j as int));
            assert(j + sep@.len() <= line@.len());
            let old_path = sub_chars(line, prefix_len, j);
            let sep_len = sep.len();
            assert(j + sep_len <= line@.len());
            let new_path = sub_chars(line, j + sep_len, line.len());
            proof {
                assert(has_prefix(line@, "diff --git a/"@));
                assert(exists|j: int| is_last_b_at(line@, j));
                let c = choose|c: int| is_last_b_at(line@, c);
                lemma_last_b_unique(line@, c, j as int);
                assert(new_path@ =~= line@.skip(j + " b/"@.len()));
                assert(old_path@ =~= line@.subrange("diff --git a/"@.len() as int, j as int));
                assert(diff_header(line@) == Some((old_path@, new_path@)));
            }
            return Some((old_path, new_path));
        }
    }
    assert(forall|c: int| !is_last_b_at(line@, c));
    None
}

// ---------------------------------------------------------------------------
// `@@ -a,b +c,d @@ text` hunk headers
// ---------------------------------------------------------------------------

/// An ASCII decimal digit.
pub open spec fn is_digit(c: char) -> bool {
    '0' <= c && c <= '9'
}

/// The value of an ASCII decimal digit.
pub open spec fn digit_value(c: char) -> nat {
    (c as int - '0' as int) as nat
}

/// The end of the run of digits of `s` that starts at `i`.
pub open spec fn digits_end(s: Seq<char>, i: int) -> int
    decreases s.len() - i,
{
    if 0 <= i < s.len() && is_digit(s[i]) { digits_end(s, i + 1) } else { i }
}

/// The decimal value of `s[i..j]`.
pub open spec fn digits_value(s: Seq<char>, i: int, j: int) -> nat
    decreases j - i,
{
    if j <= i { 0 } else { digits_value(s, i, j - 1) * 10 + digit_value(s[j - 1]) }
}

/// The number written at `i` (at least one digit) and where it ends.
pub open spec fn number_at(s: Seq<char>, i: int) -> Option<(nat, int)> {
    let e = digits_end(s, i);
    if e > i { Some((digits_value(s, i, e), e)) } else { None }
}

/// An optional `,N` count at `i`; when absent the count is 1.
pub open spec fn count_at(s: Seq<char>, i: int) -> Option<(nat, int)> {
    if 0 <= i < s.len() && s[i] == ',' { number_at(s, i + 1) } else { Some((1, i)) }
}

/// The fields of a hunk header line.
pub struct HunkHead {
    pub old_start: nat,
    pub old_lines: nat,
    pub new_start: nat,
    pub new_lines: nat,
    pub content: Seq<char>,
}

/// The fields of a line matching `^@@ -(\d+)(?:,(\d+))? \+(\d+)(?:,(\d+))? @@(.*)$`
/// (with ASCII digits), or `None`.
pub open spec fn hunk_header(s: Seq<char>) -> Option<HunkHead> {
    if !has_prefix(s, "@@ -"@) {
        None
    } else {
        match number_at(s, "@@ -"@.len() as int) {
            None => None,
            Some((a, p1)) => match count_at(s, p1) {
                None => None,
                Some((b, p2)) => if !occurs_at(s, " +"@, p2) {
                    None
                } else {
                    match number_at(s, p2 + " +"@.len()) {
                        None => None,
                        Some((c, p3)) => match count_at(s, p3) {
                            None => None,
                            Some((d, p4)) => if !occurs_at(s, " @@"@, p4) {
                                None
                            } else {
                                Some(HunkHead {
                                    old_start: a,
                                    old_lines: b,
                                    new_start: c,
                                    new_lines: d,
                                    content: s.skip(p4 + " @@"@.len()),
                                })
                            },
                        },
                    }
                },
            },
        }
    }
}

/// A number read by [`number_at_exec`]: where it ends, and its value when
/// that fits in a `u32`.
struct NumRead {
    end: usize,
    value: Option<u32>,
}

fn number_at_exec(s: &Vec<char>, i: usize) -> (r: Option<NumRead>)
    requires
        i <= s@.len(),
    ensures
        match r {
            None => number_at(s@, i as int) is None,
            Some(n) => number_at(s@, i as int) matches Some((v, e)) && e == n.end as int
                && n.end <= s@.len()
                && (n.value matches Some(x) ==> v == x as nat)
                && (n.value is None ==> v > u32::MAX),
        },
{
    let mut j = i;
    let mut value: Option<u32> = Some(0);
    while j < s.len() && '0' <= s[j] && s[j] <= '9'
        invariant
            i <= j <= s@.len(),
            digits_end(s@, i as int) == digits_end(s@, j as int),
            value matches Some(x) ==> x as nat == digits_value(s@, i as int, j as int),
            value is None ==> digits_value(s@, i as int, j as int) > u32::MAX,
        decreases s@.len() - j,
    {
        let d = (s[j] as u32) - ('0' as u32);
        value = match value {
            Some(x) => if x <= 429496729 && x * 10 <= 4294967295 - d { Some(x * 10 + d) } else { None },
            None => None,
        };
        j = j + 1;
    }
    if j == i {
        None
    } else {
        Some(NumRead { end: j, value })
    }
}


fn count_at_exec(s: &Vec<char>, i: usize) -> (r: Option<NumRead>)
    requires
        i <= s@.len(),
    ensures
        match r {
            None => count_at(s@, i as int) is None,
            Some(n) => count_at(s@, i as int) matches Some((v, e)) && e == n.end as int
                && n.end <= s@.len()
                && (n.value matches Some(x) ==> v == x as nat)
                && (n.value is None ==> v > u32::MAX),
        },
{
    if i < s.len() && s[i] == ',' {
        number_at_exec(s, i + 1)
    } else {
        Some(NumRead { end: i, value: Some(1) })
    }
}

/// The fields of a hunk header as read: each number is `None` when it does
/// not fit in a `u32`.
struct HeadRead {
    old_start: Option<u32>,
    old_lines: Option<u32>,
    new_start: Option<u32>,
    new_lines: Option<u32>,
    content: Vec<char>,
}

/// `n` is read as `v` (`None` when `v` does not fit in a `u32`).
spec fn read_as(n: Option<u32>, v: nat) -> bool {
    &&& (n matches Some(x) ==> v == x as nat)
    &&& (n is None ==> v > u32::MAX)
}

fn hunk_header_exec(s: &Vec<char>) -> (r: Option<HeadRead>)
    ensures
        match r {
            None => hunk_header(s@) is None,
            Some(h) => hunk_header(s@) matches Some(hh) && read_as(h.old_start, hh.old_start)
                && read_as(h.old_lines, hh.old_lines) && read_as(h.new_start, hh.new_start)
                && read_as(h.new_lines, hh.new_lines) && h.content@ == hh.content,
        },
{
    let slen = s.len();
    if !starts_with_str(s, "@@ -") {
        return None;
    }
    let p0 = chars_of("@@ -").len();
    let a = match number_at_exec(s, p0) {
        None => { return None; },
        Some(n) => n,
    };
    let b = match count_at_exec(s, a.end) {
        None => { return None; },
        Some(n) => n,
    };
    let plus = chars_of(" +");
    if !chars_occur_at(s, &plus, b.end) {
        return None;
    }
    let c = match number_at_exec(s, b.end + plus.len()) {
        None => { return None; },
        Some(n) => n,
    };
    let d = match count_at_exec(s, c.end) {
        None => { return None; },
        Some(n) => n,
    };
    let close = chars_of(" @@");
    if !chars_occur_at(s, &close, d.end) {
        return None;
    }
    let content = sub_chars(s, d.end + close.len(), s.len());
    assert(content@ =~= s@.skip(d.end + " @@"@.len()));
    Some(HeadRead {
        old_start: a.value,
        old_lines: b.value,
        new_start: c.value,
        new_lines: d.value,
        content,
    })
}


// ---------------------------------------------------------------------------
// File status and binary markers
// ---------------------------------------------------------------------------

/// The status named by the first header line that names one.
pub open spec fn status_in_header(header: Seq<Seq<char>>) -> Option<FileStatus>
    decreases header.len(),
{
    if header.len() == 0 {
        None
    } else if has_prefix(header[0], "new file mode"@) {
        Some(FileStatus::Added)
    } else if has_prefix(header[0], "deleted file mode"@) {
        Some(FileStatus::Deleted)
    } else if has_prefix(header[0], "rename from"@) {
        Some(FileStatus::Renamed)
    } else if has_prefix(header[0], "copy from"@) {
        Some(FileStatus::Copied)
    } else {
        status_in_header(header.drop_first())
    }
}

/// A file's status: from its header lines, else from a `/dev/null` side.
pub open spec fn status_of(header: Seq<Seq<char>>, old_path: Seq<char>, new_path: Seq<char>) -> FileStatus {
    match status_in_header(header) {
        Some(st) => st,
        None => if old_path == "/dev/null"@ {
            FileStatus::Added
        } else if new_path == "/dev/null"@ {
            FileStatus::Deleted
        } else {
            FileStatus::Modified
        },
    }
}

/// A line announcing binary content.
pub open spec fn is_binary_marker(line: Seq<char>) -> bool {
    has_prefix(line, "Binary files"@) || has_prefix(line, "GIT binary patch"@)
}

/// Some line announces binary content.
pub open spec fn has_binary_marker(lines: Seq<Seq<char>>) -> bool {
    exists|k: int| 0 <= k < lines.len() && is_binary_marker(lines[k])
}

/// Status of a file from its header lines and its final paths.
fn detect_status(header: &Vec<Vec<char>>, old_path: &Vec<char>, new_path: &Vec<char>) -> (r: FileStatus)
    ensures
        r == status_of(lines_view(header@), old_path@, new_path@),
{
    let ghost h = lines_view(header@);
    let mut i: usize = 0;
    while i < header.len()
        invariant
            i <= header@.len(),
            h == lines_view(header@),
            status_in_header(h) == status_in_header(h.skip(i as int)),
        decreases header@.len() - i,
    {
        let line = &header[i];
        assert(h.skip(i as int)[0] == line@);
        assert(h.skip(i as int).drop_first() =~= h.skip(i + 1));
        if starts_with_str(line, "new file mode") {
            return FileStatus::Added;
        }
        if starts_with_str(line, "deleted file mode") {
            return FileStatus::Deleted;
        }
        if starts_with_str(line, "rename from") {
            return FileStatus::Renamed;
        }
        if starts_with_str(line, "copy from") {
            return FileStatus::Copied;
        }
        i = i + 1;
    }
    assert(h.skip(i as int).len() == 0);
    if equals_str(old_path, "/dev/null") {
        return FileStatus::Added;
    }
    if equals_str(new_path, "/dev/null") {
        return FileStatus::Deleted;
    }
    FileStatus::Modified
}

/// Whether a line announces binary content.
fn is_binary_marker_exec(line: &Vec<char>) -> (r: bool)
    ensures
        r == is_binary_marker(line@),
{
    starts_with_str(line, "Binary files") || starts_with_str(line, "GIT binary patch")
}

/// Whether some line announces binary content.
fn is_binary_diff(lines: &Vec<Vec<char>>) -> (r: bool)
    ensures
        r == has_binary_marker(lines_view(lines@)),
{
    let mut i: usize = 0;
    while i < lines.len()
        invariant
            i <= lines@.len(),
            forall|k: int| 0 <= k < i ==> !is_binary_marker(lines_view(lines@)[k]),
        decreases lines@.len() - i,
    {
        if is_binary_marker_exec(&lines[i]) {
            assert(is_binary_marker(lines_view(lines@)[i as int]));
            return true;
        }
        i = i + 1;
    }
    false
}

// ---------------------------------------------------------------------------
// Header lines that rename a side
// ---------------------------------------------------------------------------

/// The argument of a `<prefix>(.+)` line.
pub open spec fn line_arg(line: Seq<char>, prefix: Seq<char>) -> Option<Seq<char>> {
    if has_prefix(line, prefix) && line.len() > prefix.len() {
        Some(line.skip(prefix.len() as int))
    } else {
        None
    }
}

/// The path a `--- ` / `+++ ` marker line names (`/dev/null`, or a path
/// after the `a/` / `b/` prefix); `cur` when the line names none.
pub open spec fn marker_path(line: Seq<char>, marker: Seq<char>, side: Seq<char>, cur: Seq<char>) -> Seq<char> {
    if has_prefix(line, marker) {
        let p = line.skip(marker.len() as int);
        if p == "/dev/null"@ {
            "/dev/null"@
        } else if has_prefix(p, side) {
            p.skip(side.len() as int)
        } else {
            cur
        }
    } else {
        cur
    }
}

/// The old path after reading header line `line`.
pub open spec fn header_old(line: Seq<char>, old_path: Seq<char>) -> Seq<char> {
    let renamed = match line_arg(line, "rename from "@) {
        Some(p) => p,
        None => old_path,
    };
    marker_path(line, "--- "@, "a/"@, renamed)
}

/// The new path after reading header line `line`.
pub open spec fn header_new(line: Seq<char>, new_path: Seq<char>) -> Seq<char> {
    let renamed = match line_arg(line, "rename to "@) {
        Some(p) => p,
        None => new_path,
    };
    marker_path(line, "+++ "@, "b/"@, renamed)
}

fn line_arg_exec(line: &Vec<char>, prefix: &str) -> (r: Option<Vec<char>>)
    ensures
        match r {
            Some(a) => line_arg(line@, prefix@) == Some(a@),
            None => line_arg(line@, prefix@) is None,
        },
{
    let p = chars_of(prefix);
    if chars_occur_at(line, &p, 0) && line.len() > p.len() {
        assert(line@.subrange(0, p@.len() as int) == p@);
        let a = sub_chars(line, p.len(), line.len());
        assert(a@ =~= line@.skip(p@.len() as int));
        Some(a)
    } else {
        None
    }
}

fn marker_path_exec(line: &Vec<char>, marker: &str, side: &str, cur: Vec<char>) -> (r: Vec<char>)
    ensures
        r@ == marker_path(line@, marker@, side@, cur@),
{
    let m = chars_of(marker);
    if !chars_occur_at(line, &m, 0) {
        return cur;
    }
    let p = sub_chars(line, m.len(), line.len());
    assert(p@ =~= line@.skip(marker@.len() as int));
    if equals_str(&p, "/dev/null") {
        return chars_of("/dev/null");
    }
    let sd = chars_of(side);
    if chars_occur_at(&p, &sd, 0) {
        let q = sub_chars(&p, sd.len(), p.len());
        assert(q@ =~= p@.skip(side@.len() as int));
        q
    } else {
        cur
    }
}

fn header_old_exec(line: &Vec<char>, old_path: Vec<char>) -> (r: Vec<char>)
    ensures
        r@ == header_old(line@, old_path@),
{
    let renamed = match line_arg_exec(line, "rename from ") {
        Some(p) => p,
        None => old_path,
    };
    marker_path_exec(line, "--- ", "a/", renamed)
}

fn header_new_exec(line: &Vec<char>, new_path: Vec<char>) -> (r: Vec<char>)
    ensures
        r@ == header_new(line@, new_path@),
{
    let renamed = match line_arg_exec(line, "rename to ") {
        Some(p) => p,
        None => new_path,
    };
    marker_path_exec(line, "+++ ", "b/", renamed)
}


// ---------------------------------------------------------------------------
// The line machine
// ---------------------------------------------------------------------------

/// A hunk whose change lines are still being read.
pub struct OpenHunk {
    pub head: HunkHead,
    pub changes: Seq<ChangeV>,
    pub old_line: nat,
    pub new_line: nat,
}

/// The part of a file read after its header.
pub struct BodyS {
    pub old_path: Seq<char>,
    pub new_path: Seq<char>,
    pub status: FileStatus,
    pub binary: bool,
    pub hunks: Seq<HunkV>,
    pub open: Option<OpenHunk>,
    pub adds: nat,
    pub dels: nat,
}

/// Where the parser stands between two lines.
pub enum ParseState {
    /// Before the first `diff --git` header.
    Outside,
    /// In the extended header lines of a file.
    Header { old_path: Seq<char>, new_path: Seq<char>, header: Seq<Seq<char>> },
    /// In the hunks of a file.
    Body { body: BodyS },
}

/// The finished hunk of an open one.
pub open spec fn hunk_of(o: OpenHunk) -> HunkV {
    HunkV {
        old_start: o.head.old_start,
        old_lines: o.head.old_lines,
        new_start: o.head.new_start,
        new_lines: o.head.new_lines,
        content: o.head.content,
        changes: o.changes,
    }
}

/// `hunks` with the open hunk, if any, appended.
pub open spec fn close_hunk(hunks: Seq<HunkV>, open: Option<OpenHunk>) -> Seq<HunkV> {
    match open {
        Some(o) => hunks.push(hunk_of(o)),
        None => hunks,
    }
}

/// The body that follows a file's header.
pub open spec fn body_of(old_path: Seq<char>, new_path: Seq<char>, header: Seq<Seq<char>>, marker: bool) -> BodyS {
    BodyS {
        old_path,
        new_path,
        status: status_of(header, old_path, new_path),
        binary: has_binary_marker(header) || marker,
        hunks: seq![],
        open: None,
        adds: 0,
        dels: 0,
    }
}


/// The finished file of a body; `None` when its change count overflows a `u32`.
pub open spec fn finish(b: BodyS) -> Option<FileDiffV> {
    if b.adds + b.dels > u32::MAX {
        None
    } else {
        Some(FileDiffV {
            old_path: if b.old_path == "/dev/null"@ { b.new_path } else { b.old_path },
            new_path: if b.new_path == "/dev/null"@ { b.old_path } else { b.new_path },
            hunks: close_hunk(b.hunks, b.open),
            status: b.status,
            additions: b.adds,
            deletions: b.dels,
            is_binary: b.binary,
            is_large: b.adds + b.dels > 10000,
        })
    }
}

/// A hunk header's numbers all fit in a `u32`.
pub open spec fn head_fits(h: HunkHead) -> bool {
    h.old_start <= u32::MAX && h.old_lines <= u32::MAX && h.new_start <= u32::MAX
        && h.new_lines <= u32::MAX
}

/// A change line of the open hunk, with the line numbers it gets.
pub open spec fn change_of(kind: ChangeType, line: Seq<char>, o: OpenHunk) -> ChangeV {
    ChangeV {
        change_type: kind,
        old_line_number: if kind == ChangeType::Insert { None } else { Some(o.old_line) },
        new_line_number: if kind == ChangeType::Delete { None } else { Some(o.new_line) },
        content: line.drop_first(),
    }
}

/// The body after reading a line that is not a `diff --git` header; `None`
/// when a number overflows a `u32`.
pub open spec fn body_line(b: BodyS, line: Seq<char>) -> Option<BodyS> {
    match hunk_header(line) {
        Some(h) => if !head_fits(h) {
            None
        } else {
            Some(BodyS {
                hunks: close_hunk(b.hunks, b.open),
                open: Some(OpenHunk { head: h, changes: seq![], old_line: h.old_start, new_line: h.new_start }),
                ..b
            })
        },
        None => match b.open {
            None => Some(b),
            Some(o) => if line == "\\ No newline at end of file"@ {
                Some(b)
            } else if has_prefix(line, "+"@) {
                if o.new_line >= u32::MAX || b.adds >= u32::MAX {
                    None
                } else {
                    Some(BodyS {
                        open: Some(OpenHunk {
                            changes: o.changes.push(change_of(ChangeType::Insert, line, o)),
                            new_line: o.new_line + 1,
                            ..o
                        }),
                        adds: b.adds + 1,
                        ..b
                    })
                }
            } else if has_prefix(line, "-"@) {
                if o.old_line >= u32::MAX || b.dels >= u32::MAX {
                    None
                } else {
                    Some(BodyS {
                        open: Some(OpenHunk {
                            changes: o.changes.push(change_of(ChangeType::Delete, line, o)),
                            old_line: o.old_line + 1,
                            ..o
                        }),
                        dels: b.dels + 1,
                        ..b
                    })
                }
            } else if has_prefix(line, " "@) {
                if o.old_line >= u32::MAX || o.new_line >= u32::MAX {
                    None
                } else {
                    Some(BodyS {
                        open: Some(OpenHunk {
                            changes: o.changes.push(change_of(ChangeType::Normal, line, o)),
                            old_line: o.old_line + 1,
                            new_line: o.new_line + 1,
                            ..o
                        }),
                        ..b
                    })
                }
            } else {
                Some(BodyS { hunks: close_hunk(b.hunks, b.open), open: None, ..b })
            },
        },
    }
}

/// Rank of a state, for the one step that reads no line (header to body).
pub open spec fn state_rank(st: ParseState) -> nat {
    match st {
        ParseState::Header { .. } => 1,
        _ => 0,
    }
}

/// The files of `lines[i..]`, read from state `st` after files `acc`;
/// `None` when a number overflows a `u32`.
pub open spec fn parse_from(lines: Seq<Seq<char>>, i: int, st: ParseState, acc: Seq<FileDiffV>) -> Option<Seq<FileDiffV>>
    decreases lines.len() - i, state_rank(st),
{
    if i < 0 || i >= lines.len() {
        match st {
            ParseState::Outside => Some(acc),
            ParseState::Header { old_path, new_path, header } => match finish(body_of(old_path, new_path, header, false)) {
                Some(f) => Some(acc.push(f)),
                None => None,
            },
            ParseState::Body { body } => match finish(body) {
                Some(f) => Some(acc.push(f)),
                None => None,
            },
        }
    } else {
        let line = lines[i];
        match st {
            ParseState::Outside => match diff_header(line) {
                Some((o, n)) => parse_from(lines, i + 1, ParseState::Header { old_path: o, new_path: n, header: seq![] }, acc),
                None => parse_from(lines, i + 1, ParseState::Outside, acc),
            },
            ParseState::Header { old_path, new_path, header } => {
                if diff_header(line) is Some || hunk_header(line) is Some {
                    parse_from(lines, i, ParseState::Body { body: body_of(old_path, new_path, header, false) }, acc)
                } else if is_binary_marker(line) {
                    parse_from(lines, i + 1, ParseState::Body { body: body_of(old_path, new_path, header, true) }, acc)
                } else {
                    parse_from(
                        lines,
                        i + 1,
                        ParseState::Header {
                            old_path: header_old(line, old_path),
                            new_path: header_new(line, new_path),
                            header: header.push(line),
                        },
                        acc,
                    )
                }
            },
            ParseState::Body { body } => match diff_header(line) {
                Some((o, n)) => match finish(body) {
                    Some(f) => parse_from(lines, i + 1, ParseState::Header { old_path: o, new_path: n, header: seq![] }, acc.push(f)),
                    None => None,
                },
                None => match body_line(body, line) {
                    Some(b2) => parse_from(lines, i + 1, ParseState::Body { body: b2 }, acc),
                    None => None,
                },
            },
        }
    }
}

/// The files of a unified diff; `None` when one of its numbers (a hunk
/// header number, a line number or a change count) overflows a `u32`.
pub open spec fn parse_diff_spec(raw: Seq<char>) -> Option<Seq<FileDiffV>> {
    parse_from(split_lines(raw), 0, ParseState::Outside, seq![])
}


// ---------------------------------------------------------------------------
// The line machine, executable
// ---------------------------------------------------------------------------

struct OpenExec {
    old_start: u32,
    old_lines: u32,
    new_start: u32,
    new_lines: u32,
    content: Vec<char>,
    changes: Vec<Change>,
    old_line: u32,
    new_line: u32,
}

spec fn open_view(o: OpenExec) -> OpenHunk {
    OpenHunk {
        head: HunkHead {
            old_start: o.old_start as nat,
            old_lines: o.old_lines as nat,
            new_start: o.new_start as nat,
            new_lines: o.new_lines as nat,
            content: o.content@,
        },
        changes: changes_view(o.changes@),
        old_line: o.old_line as nat,
        new_line: o.new_line as nat,
    }
}

spec fn opt_open_view(o: Option<OpenExec>) -> Option<OpenHunk> {
    match o {
        Some(x) => Some(open_view(x)),
        None => None,
    }
}

struct BodyExec {
    old_path: Vec<char>,
    new_path: Vec<char>,
    status: FileStatus,
    binary: bool,
    hunks: Vec<Hunk>,
    open: Option<OpenExec>,
    adds: u32,
    dels: u32,
}

spec fn body_view(b: BodyExec) -> BodyS {
    BodyS {
        old_path: b.old_path@,
        new_path: b.new_path@,
        status: b.status,
        binary: b.binary,
        hunks: hunks_view(b.hunks@),
        open: opt_open_view(b.open),
        adds: b.adds as nat,
        dels: b.dels as nat,
    }
}

enum StateExec {
    Outside,
    Header { old_path: Vec<char>, new_path: Vec<char>, header: Vec<Vec<char>> },
    Body { body: BodyExec },
}

spec fn state_view(st: StateExec) -> ParseState {
    match st {
        StateExec::Outside => ParseState::Outside,
        StateExec::Header { old_path, new_path, header } => ParseState::Header {
            old_path: old_path@,
            new_path: new_path@,
            header: lines_view(header@),
        },
        StateExec::Body { body } => ParseState::Body { body: body_view(body) },
    }
}

fn hunk_from_open(o: OpenExec) -> (h: Hunk)
    ensures
        h@ == hunk_of(open_view(o)),
{
    Hunk {
        old_start: o.old_start,
        old_lines: o.old_lines,
        new_start: o.new_start,
        new_lines: o.new_lines,
        content: string_of(&o.content),
        changes: o.changes,
    }
}

fn close_exec(hunks: &mut Vec<Hunk>, open: Option<OpenExec>)
    ensures
        hunks_view(final(hunks)@) == close_hunk(hunks_view(old(hunks)@), opt_open_view(open)),
{
    match open {
        Some(o) => {
            let h = hunk_from_open(o);
            hunks.push(h);
            assert(hunks_view(hunks@) =~= hunks_view(old(hunks)@).push(h@));
        },
        None => {},
    }
}

fn body_of_exec(old_path: Vec<char>, new_path: Vec<char>, header: Vec<Vec<char>>, marker: bool) -> (b: BodyExec)
    ensures
        body_view(b) == body_of(old_path@, new_path@, lines_view(header@), marker),
{
    let status = detect_status(&header, &old_path, &new_path);
    let binary = is_binary_diff(&header) || marker;
    let b = BodyExec {
        old_path,
        new_path,
        status,
        binary,
        hunks: Vec::new(),
        open: None,
        adds: 0,
        dels: 0,
    };
    assert(hunks_view(b.hunks@) =~= seq![]);
    b
}

fn finish_exec(b: BodyExec) -> (f: Option<ParsedFileDiff>)
    ensures
        match f {
            Some(f) => finish(body_view(b)) == Some(f@),
            None => finish(body_view(b)) is None,
        },
{
    let ghost bv = body_view(b);
    if b.adds > 4294967295 - b.dels {
        return None;
    }
    let total = b.adds + b.dels;
    let old_is_null = equals_str(&b.old_path, "/dev/null");
    let new_is_null = equals_str(&b.new_path, "/dev/null");
    let old_path = if old_is_null { string_of(&b.new_path) } else { string_of(&b.old_path) };
    let new_path = if new_is_null { string_of(&b.old_path) } else { string_of(&b.new_path) };
    let mut hunks = b.hunks;
    close_exec(&mut hunks, b.open);
    Some(ParsedFileDiff {
        old_path,
        new_path,
        hunks,
        status: b.status,
        additions: b.adds,
        deletions: b.dels,
        is_binary: b.binary,
        is_large: total > 10000,
    })
}

fn change_exec(kind: ChangeType, line: &Vec<char>, old_line: u32, new_line: u32) -> (c: Change)
    requires
        line@.len() > 0,
    ensures
        c@.change_type == kind,
        c@.old_line_number == (if kind == ChangeType::Insert { None } else { Some(old_line as nat) }),
        c@.new_line_number == (if kind == ChangeType::Delete { None } else { Some(new_line as nat) }),
        c@.content == line@.drop_first(),
{
    let content = string_of_range(line, 1, line.len());
    assert(content@ =~= line@.drop_first());
    Change {
        change_type: kind,
        old_line_number: if kind == ChangeType::Insert { None } else { Some(old_line) },
        new_line_number: if kind == ChangeType::Delete { None } else { Some(new_line) },
        content,
    }
}

fn body_line_exec(b: BodyExec, line: &Vec<char>) -> (r: Option<BodyExec>)
    ensures
        match r {
            Some(r) => body_line(body_view(b), line@) == Some(body_view(r)),
            None => body_line(body_view(b), line@) is None,
        },
{
    let ghost bv = body_view(b);
    match hunk_header_exec(line) {
        Some(h) => {
            let (a, bl, c, d) = match (h.old_start, h.old_lines, h.new_start, h.new_lines) {
                (Some(a), Some(bl), Some(c), Some(d)) => (a, bl, c, d),
                _ => {
                    return None;
                },
            };
            let mut hunks = b.hunks;
            close_exec(&mut hunks, b.open);
            let o = OpenExec {
                old_start: a,
                old_lines: bl,
                new_start: c,
                new_lines: d,
                content: h.content,
                changes: Vec::new(),
                old_line: a,
                new_line: c,
            };
            assert(changes_view(o.changes@) =~= seq![]);
            Some(BodyExec { hunks, open: Some(o), ..b })
        },
        None => {
            match b.open {
                None => Some(BodyExec { open: None, ..b }),
                Some(o) => {
                    if equals_str(line, "\\ No newline at end of file") {
                        Some(BodyExec { open: Some(o), ..b })
                    } else if starts_with_str(line, "+") {
                        proof { reveal_strlit("+"); }
                        if o.new_line == 4294967295 || b.adds == 4294967295 {
                            return None;
                        }
                        let ch = change_exec(ChangeType::Insert, line, o.old_line, o.new_line);
                        let mut changes = o.changes;
                        changes.push(ch);
                        assert(changes_view(changes@) =~= changes_view(o.changes@).push(ch@));
                        let o2 = OpenExec { changes, new_line: o.new_line + 1, ..o };
                        Some(BodyExec { open: Some(o2), adds: b.adds + 1, ..b })
                    } else if starts_with_str(line, "-") {
                        proof { reveal_strlit("-"); }
                        if o.old_line == 4294967295 || b.dels == 4294967295 {
                            return None;
                        }
                        let ch = change_exec(ChangeType::Delete, line, o.old_line, o.new_line);
                        let mut changes = o.changes;
                        changes.push(ch);
                        assert(changes_view(changes@) =~= changes_view(o.changes@).push(ch@));
                        let o2 = OpenExec { changes, old_line: o.old_line + 1, ..o };
                        Some(BodyExec { open: Some(o2), dels: b.dels + 1, ..b })
                    } else if starts_with_str(line, " ") {
                        proof { reveal_strlit(" "); }
                        if o.old_line == 4294967295 || o.new_line == 4294967295 {
                            return None;
                        }
                        let ch = change_exec(ChangeType::Normal, line, o.old_line, o.new_line);
                        let mut changes = o.changes;
                        changes.push(ch);
                        assert(changes_view(changes@) =~= changes_view(o.changes@).push(ch@));
                        let o2 = OpenExec { changes, old_line: o.old_line + 1, new_line: o.new_line + 1, ..o };
                        Some(BodyExec { open: Some(o2), ..b })
                    } else {
                        let mut hunks = b.hunks;
                        close_exec(&mut hunks, Some(o));
                        Some(BodyExec { hunks, open: None, ..b })
                    }
                },
            }
        },
    }
}


/// Parses a unified diff into one entry per `diff --git` header, or `None`
/// when one of its numbers (a hunk header number, a line number reached inside
/// a hunk, or a file's change count) overflows a `u32`.
pub fn try_parse_diff(raw: &str) -> (files: Option<Vec<ParsedFileDiff>>)
    ensures
        match files {
            Some(f) => parse_diff_spec(raw@) == Some(files_view(f@)),
            None => parse_diff_spec(raw@) is None,
        },
{
    let chars = chars_of(raw);
    let lines = split_lines_exec(&chars);
    let ghost lv = lines_view(lines@);
    let mut files: Vec<ParsedFileDiff> = Vec::new();
    let mut state = StateExec::Outside;
    let mut i: usize = 0;
    proof {
        assert(files_view(files@) =~= seq![]);
    }
    while i < lines.len()
        invariant
            i <= lines@.len(),
            lv == lines_view(lines@),
            lv == split_lines(raw@),
            parse_from(lv, i as int, state_view(state), files_view(files@)) == parse_diff_spec(raw@),
        decreases lines@.len() - i,
    {
        let line = &lines[i];
        assert(lv[i as int] == line@);
        let header = diff_header_exec(line);
        // A header section ends at a file or hunk header; the line is then
        // read again as the first line of the body.
        let cur = match state {
            StateExec::Header { old_path, new_path, header: hdr } => {
                if header.is_some() || hunk_header_exec(line).is_some() {
                    StateExec::Body { body: body_of_exec(old_path, new_path, hdr, false) }
                } else {
                    StateExec::Header { old_path, new_path, header: hdr }
                }
            },
            other => other,
        };
        assert(parse_from(lv, i as int, state_view(cur), files_view(files@)) == parse_diff_spec(raw@));
        state = match cur {
            StateExec::Outside => match header {
                Some((o, n)) => {
                    let empty: Vec<Vec<char>> = Vec::new();
                    assert(lines_view(empty@) =~= seq![]);
                    StateExec::Header { old_path: o, new_path: n, header: empty }
                },
                None => StateExec::Outside,
            },
            StateExec::Header { old_path, new_path, header: hdr } => {
                if is_binary_marker_exec(line) {
                    StateExec::Body { body: body_of_exec(old_path, new_path, hdr, true) }
                } else {
                    let o = header_old_exec(line, old_path);
                    let n = header_new_exec(line, new_path);
                    let mut hdr = hdr;
                    let ghost before = lines_view(hdr@);
                    hdr.push(line.clone());
                    assert(lines_view(hdr@) =~= before.push(line@));
                    StateExec::Header { old_path: o, new_path: n, header: hdr }
                }
            },
            StateExec::Body { body } => match header {
                Some((o, n)) => {
                    let f = match finish_exec(body) {
                        Some(f) => f,
                        None => { return None; },
                    };
                    let ghost before = files_view(files@);
                    files.push(f);
                    assert(files_view(files@) =~= before.push(f@));
                    let empty: Vec<Vec<char>> = Vec::new();
                    assert(lines_view(empty@) =~= seq![]);
                    StateExec::Header { old_path: o, new_path: n, header: empty }
                },
                None => match body_line_exec(body, line) {
                    Some(b) => StateExec::Body { body: b },
                    None => { return None; },
                },
            },
        };
        i = i + 1;
    }
    let last = match state {
        StateExec::Outside => { return Some(files); },
        StateExec::Header { old_path, new_path, header: hdr } => body_of_exec(old_path, new_path, hdr, false),
        StateExec::Body { body } => body,
    };
    match finish_exec(last) {
        Some(f) => {
            let ghost before = files_view(files@);
            files.push(f);
            assert(files_view(files@) =~= before.push(f@));
            Some(files)
        },
        None => None,
    }
}

/// Parses a unified diff into one entry per `diff --git` header.
///
/// Input before the first header is ignored. Within a file, the extended
/// header lines (`rename from`, `--- a/...`, `+++ b/...`, ...) set the paths
/// and status; a `Binary files ...` or `GIT binary patch` line marks the file
/// binary; each `@@ ... @@` header opens a hunk whose `+`, `-` and ` ` lines
/// become numbered changes (`\ No newline at end of file` is skipped, any other
/// line ends the hunk). A `/dev/null` side takes the other side's path, and a
/// file with more than 10000 changed lines is flagged large.
///
/// The input must not hold a number that overflows a `u32`.
pub fn parse_diff(raw: &str) -> (files: Vec<ParsedFileDiff>)
    requires
        parse_diff_spec(raw@) is Some,
    ensures
        parse_diff_spec(raw@) == Some(files_view(files@)),
{
    match try_parse_diff(raw) {
        Some(f) => f,
        None => Vec::new(),
    }
}

// ---------------------------------------------------------------------------
// Laws
// ---------------------------------------------------------------------------

/// How many changes of `cs` are of kind `k`.
pub open spec fn count_kind(cs: Seq<ChangeV>, k: ChangeType) -> nat
    decreases cs.len(),
{
    if cs.len() == 0 {
        0
    } else {
        count_kind(cs.drop_last(), k) + if cs.last().change_type == k { 1nat } else { 0nat }
    }
}

/// How many changes of the hunks `hs` are of kind `k`.
pub open spec fn hunks_count(hs: Seq<HunkV>, k: ChangeType) -> nat
    decreases hs.len(),
{
    if hs.len() == 0 {
        0
    } else {
        hunks_count(hs.drop_last(), k) + count_kind(hs.last().changes, k)
    }
}

/// A file's line counts are those of its changes: additions are its
/// inserted lines, deletions its deleted lines, and the file is large
/// exactly when it changes more than 10000 lines.
pub open spec fn counts_agree(f: FileDiffV) -> bool {
    &&& f.additions == hunks_count(f.hunks, ChangeType::Insert)
    &&& f.deletions == hunks_count(f.hunks, ChangeType::Delete)
    &&& f.is_large == (f.additions + f.deletions > 10000)
}

spec fn body_counts(b: BodyS) -> bool {
    &&& b.adds == hunks_count(close_hunk(b.hunks, b.open), ChangeType::Insert)
    &&& b.dels == hunks_count(close_hunk(b.hunks, b.open), ChangeType::Delete)
}

spec fn state_counts(st: ParseState) -> bool {
    match st {
        ParseState::Body { body } => body_counts(body),
        _ => true,
    }
}

proof fn lemma_push_hunk_counts(hs: Seq<HunkV>, h: HunkV, k: ChangeType)
    ensures
        hunks_count(hs.push(h), k) == hunks_count(hs, k) + count_kind(h.changes, k),
{
    assert(hs.push(h).drop_last() =~= hs);
}

proof fn lemma_push_change_count(cs: Seq<ChangeV>, c: ChangeV, k: ChangeType)
    ensures
        count_kind(cs.push(c), k) == count_kind(cs, k) + if c.change_type == k { 1nat } else { 0nat },
{
    assert(cs.push(c).drop_last() =~= cs);
}

proof fn lemma_body_line_counts(b: BodyS, line: Seq<char>)
    requires
        body_counts(b),
        body_line(b, line) is Some,
    ensures
        body_counts(body_line(b, line)->0),
{
    let b2 = body_line(b, line)->0;
    match hunk_header(line) {
        Some(h) => {
            let closed = close_hunk(b.hunks, b.open);
            let o = OpenHunk { head: h, changes: seq![], old_line: h.old_start, new_line: h.new_start };
            lemma_push_hunk_counts(closed, hunk_of(o), ChangeType::Insert);
            lemma_push_hunk_counts(closed, hunk_of(o), ChangeType::Delete);
        },
        None => match b.open {
            None => {},
            Some(o) => {
                if line == "\\ No newline at end of file"@ {
                } else if has_prefix(line, "+"@) || has_prefix(line, "-"@) || has_prefix(line, " "@) {
                    let o2 = b2.open->0;
                    lemma_push_hunk_counts(b.hunks, hunk_of(o), ChangeType::Insert);
                    lemma_push_hunk_counts(b.hunks, hunk_of(o), ChangeType::Delete);
                    lemma_push_hunk_counts(b.hunks, hunk_of(o2), ChangeType::Insert);
                    lemma_push_hunk_counts(b.hunks, hunk_of(o2), ChangeType::Delete);
                    let c = o2.changes.last();
                    assert(o2.changes == o.changes.push(c));
                    lemma_push_change_count(o.changes, c, ChangeType::Insert);
                    lemma_push_change_count(o.changes, c, ChangeType::Delete);
                } else {
                }
            },
        },
    }
}

proof fn lemma_parse_from_counts(lines: Seq<Seq<char>>, i: int, st: ParseState, acc: Seq<FileDiffV>)
    requires
        state_counts(st),
        forall|k: int| 0 <= k < acc.len() ==> counts_agree(#[trigger] acc[k]),
    ensures
        parse_from(lines, i, st, acc) matches Some(fs) ==> forall|k: int| 0 <= k < fs.len() ==> counts_agree(#[trigger] fs[k]),
    decreases lines.len() - i, state_rank(st),
{
    if i < 0 || i >= lines.len() {
        match st {
            ParseState::Outside => {},
            ParseState::Header { old_path, new_path, header } => {
                let b = body_of(old_path, new_path, header, false);
                if finish(b) is Some {
                    assert forall|k: int| 0 <= k < acc.push(finish(b)->0).len() implies counts_agree(#[trigger] acc.push(finish(b)->0)[k]) by {
                        if k < acc.len() {
                            assert(acc.push(finish(b)->0)[k] == acc[k]);
                        }
                    }
                }
            },
            ParseState::Body { body } => {
                if finish(body) is Some {
                    let f = finish(body)->0;
                    assert(counts_agree(f));
                    assert forall|k: int| 0 <= k < acc.push(f).len() implies counts_agree(#[trigger] acc.push(f)[k]) by {
                        if k < acc.len() {
                            assert(acc.push(f)[k] == acc[k]);
                        }
                    }
                }
            },
        }
    } else {
        let line = lines[i];
        match st {
            ParseState::Outside => match diff_header(line) {
                Some((o, n)) => {
                    lemma_parse_from_counts(lines, i + 1, ParseState::Header { old_path: o, new_path: n, header: seq![] }, acc);
                },
                None => {
                    lemma_parse_from_counts(lines, i + 1, ParseState::Outside, acc);
                },
            },
            ParseState::Header { old_path, new_path, header } => {
                if diff_header(line) is Some || hunk_header(line) is Some {
                    lemma_parse_from_counts(lines, i, ParseState::Body { body: body_of(old_path, new_path, header, false) }, acc);
                } else if is_binary_marker(line) {
                    lemma_parse_from_counts(lines, i + 1, ParseState::Body { body: body_of(old_path, new_path, header, true) }, acc);
                } else {
                    lemma_parse_from_counts(
                        lines,
                        i + 1,
                        ParseState::Header {
                            old_path: header_old(line, old_path),
                            new_path: header_new(line, new_path),
                            header: header.push(line),
                        },
                        acc,
                    );
                }
            },
            ParseState::Body { body } => match diff_header(line) {
                Some((o, n)) => {
                    if finish(body) is Some {
                        let f = finish(body)->0;
                        assert(counts_agree(f));
                        assert forall|k: int| 0 <= k < acc.push(f).len() implies counts_agree(#[trigger] acc.push(f)[k]) by {
                            if k < acc.len() {
                                assert(acc.push(f)[k] == acc[k]);
                            }
                        }
                        lemma_parse_from_counts(lines, i + 1, ParseState::Header { old_path: o, new_path: n, header: seq![] }, acc.push(f));
                    }
                },
                None => {
                    if body_line(body, line) is Some {
                        lemma_body_line_counts(body, line);
                        lemma_parse_from_counts(lines, i + 1, ParseState::Body { body: body_line(body, line)->0 }, acc);
                    }
                },
            },
        }
    }
}

/// Every parsed file's counts are those of its changes: its additions are
/// its inserted lines and its deletions its deleted lines; it is flagged
/// large exactly when it changes more than 10000 lines.
pub proof fn lemma_parse_counts(raw: Seq<char>)
    ensures
        parse_diff_spec(raw) matches Some(fs) ==> forall|k: int| 0 <= k < fs.len() ==> counts_agree(#[trigger] fs[k]),
{
    lemma_parse_from_counts(split_lines(raw), 0, ParseState::Outside, seq![]);
}

/// How many of `lines[i..]` are `diff --git` headers.
pub open spec fn headers_from(lines: Seq<Seq<char>>, i: int) -> nat
    decreases lines.len() - i,
{
    if i < 0 || i >= lines.len() {
        0
    } else {
        headers_from(lines, i + 1) + if diff_header(lines[i]) is Some { 1nat } else { 0nat }
    }
}

proof fn lemma_parse_from_headers(lines: Seq<Seq<char>>, i: int, st: ParseState, acc: Seq<FileDiffV>)
    requires
        0 <= i,
    ensures
        parse_from(lines, i, st, acc) matches Some(fs) ==> fs.len() == acc.len() + headers_from(lines, i)
            + if st is Outside { 0nat } else { 1nat },
    decreases lines.len() - i, state_rank(st),
{
    if i < lines.len() {
        let line = lines[i];
        match st {
            ParseState::Outside => match diff_header(line) {
                Some((o, n)) => {
                    lemma_parse_from_headers(lines, i + 1, ParseState::Header { old_path: o, new_path: n, header: seq![] }, acc);
                },
                None => {
                    lemma_parse_from_headers(lines, i + 1, ParseState::Outside, acc);
                },
            },
            ParseState::Header { old_path, new_path, header } => {
                if diff_header(line) is Some || hunk_header(line) is Some {
                    lemma_parse_from_headers(lines, i, ParseState::Body { body: body_of(old_path, new_path, header, false) }, acc);
                } else if is_binary_marker(line) {
                    lemma_parse_from_headers(lines, i + 1, ParseState::Body { body: body_of(old_path, new_path, header, true) }, acc);
                } else {
                    lemma_parse_from_headers(
                        lines,
                        i + 1,
                        ParseState::Header {
                            old_path: header_old(line, old_path),
                            new_path: header_new(line, new_path),
                            header: header.push(line),
                        },
                        acc,
                    );
                }
            },
            ParseState::Body { body } => match diff_header(line) {
                Some((o, n)) => {
                    if finish(body) is Some {
                        lemma_parse_from_headers(lines, i + 1, ParseState::Header { old_path: o, new_path: n, header: seq![] }, acc.push(finish(body)->0));
                    }
                },
                None => {
                    if body_line(body, line) is Some {
                        lemma_parse_from_headers(lines, i + 1, ParseState::Body { body: body_line(body, line)->0 }, acc);
                    }
                },
            },
        }
    }
}

/// One file is parsed per `diff --git` header line: input before the first
/// header adds none, and every header starts exactly one.
pub proof fn lemma_one_file_per_header(raw: Seq<char>)
    ensures
        parse_diff_spec(raw) matches Some(fs) ==> fs.len() == headers_from(split_lines(raw), 0),
{
    lemma_parse_from_headers(split_lines(raw), 0, ParseState::Outside, seq![]);
}

/// The positions of the `diff --git` header lines of `lines[i..]`, in order.
pub open spec fn header_positions(lines: Seq<Seq<char>>, i: int) -> Seq<int>
    decreases lines.len() - i,
{
    if i < 0 || i >= lines.len() {
        seq![]
    } else if diff_header(lines[i]) is Some {
        seq![i] + header_positions(lines, i + 1)
    } else {
        header_positions(lines, i + 1)
    }
}

/// Where the section of the `k`-th header ends: at the next header, or at
/// the end of the input.
pub open spec fn section_end(lines: Seq<Seq<char>>, hp: Seq<int>, k: int) -> int {
    if k + 1 < hp.len() { hp[k + 1] } else { lines.len() as int }
}

/// What parsing the lines from a header at `start` up to `end` alone gives.
pub open spec fn section_files(lines: Seq<Seq<char>>, start: int, end: int) -> Option<Seq<FileDiffV>> {
    parse_from(lines.take(end), start, ParseState::Outside, seq![])
}

#[verifier::spinoff_prover]
#[verifier::rlimit(40)]
proof fn lemma_header_positions(lines: Seq<Seq<char>>, i: int)
    requires
        0 <= i <= lines.len(),
    ensures
        forall|m: int| 0 <= m < header_positions(lines, i).len() ==> i <= #[trigger] header_positions(lines, i)[m] < lines.len()
            && diff_header(lines[header_positions(lines, i)[m]]) is Some,
        forall|m: int, n: int| 0 <= m < n < header_positions(lines, i).len() ==> header_positions(lines, i)[m] < header_positions(lines, i)[n],
        forall|j: int| i <= j < lines.len() && diff_header(#[trigger] lines[j]) is Some ==> header_positions(lines, i).contains(j),
    decreases lines.len() - i,
{
    if i < lines.len() {
        lemma_header_positions(lines, i + 1);
        let rest = header_positions(lines, i + 1);
        if diff_header(lines[i]) is Some {
            let hp = seq![i] + rest;
            assert(header_positions(lines, i) == hp);
            assert forall|m: int| 0 <= m < hp.len() implies i <= #[trigger] hp[m] < lines.len() && diff_header(lines[hp[m]]) is Some by {
                if m > 0 { assert(hp[m] == rest[m - 1]); }
            }
            assert forall|m: int, n: int| 0 <= m < n < hp.len() implies hp[m] < hp[n] by {
                assert(hp[n] == rest[n - 1]);
                if m > 0 { assert(hp[m] == rest[m - 1]); }
            }
            assert forall|j: int| i <= j < lines.len() && diff_header(#[trigger] lines[j]) is Some implies hp.contains(j) by {
                if j == i {
                    assert(hp[0] == i);
                } else {
                    let m = choose|m: int| 0 <= m < rest.len() && rest[m] == j;
                    assert(hp[m + 1] == j);
                }
            }
        }
    }
}

#[verifier::spinoff_prover]
#[verifier::rlimit(40)]
proof fn lemma_acc_free(lines: Seq<Seq<char>>, i: int, st: ParseState, acc: Seq<FileDiffV>)
    requires
        0 <= i,
    ensures
        parse_from(lines, i, st, acc) == match parse_from(lines, i, st, seq![]) {
            Some(r) => Some(acc + r),
            None => None::<Seq<FileDiffV>>,
        },
    decreases lines.len() - i, state_rank(st),
{
    if i >= lines.len() {
        match st {
            ParseState::Outside => { assert(acc + seq![] =~= acc); },
            ParseState::Header { old_path, new_path, header } => {
                if finish(body_of(old_path, new_path, header, false)) is Some {
                    assert(acc + seq![].push(finish(body_of(old_path, new_path, header, false))->0) =~= acc.push(finish(body_of(old_path, new_path, header, false))->0));
                }
            },
            ParseState::Body { body } => {
                if finish(body) is Some {
                    assert(acc + seq![].push(finish(body)->0) =~= acc.push(finish(body)->0));
                }
            },
        }
    } else {
        let line = lines[i];
        match st {
            ParseState::Outside => match diff_header(line) {
                Some((o, n)) => {
                    lemma_acc_free(lines, i + 1, ParseState::Header { old_path: o, new_path: n, header: seq![] }, acc);
                },
                None => {
                    lemma_acc_free(lines, i + 1, ParseState::Outside, acc);
                },
            },
            ParseState::Header { old_path, new_path, header } => {
                if diff_header(line) is Some || hunk_header(line) is Some {
                    lemma_acc_free(lines, i, ParseState::Body { body: body_of(old_path, new_path, header, false) }, acc);
                } else if is_binary_marker(line) {
                    lemma_acc_free(lines, i + 1, ParseState::Body { body: body_of(old_path, new_path, header, true) }, acc);
                } else {
                    lemma_acc_free(
                        lines,
                        i + 1,
                        ParseState::Header {
                            old_path: header_old(line, old_path),
                            new_path: header_new(line, new_path),
                            header: header.push(line),
                        },
                        acc,
                    );
                }
            },
            ParseState::Body { body } => match diff_header(line) {
                Some((o, n)) => {
                    if finish(body) is Some {
                        let f = finish(body)->0;
                        let h = ParseState::Header { old_path: o, new_path: n, header: seq![] };
                        lemma_acc_free(lines, i + 1, h, acc.push(f));
                        lemma_acc_free(lines, i + 1, h, seq![f]);
                        match parse_from(lines, i + 1, h, seq![]) {
                            Some(r) => {
                                assert(acc.push(f) + r =~= acc + (seq![f] + r));
                            },
                            None => {},
                        }
                    }
                },
                None => {
                    if body_line(body, line) is Some {
                        lemma_acc_free(lines, i + 1, ParseState::Body { body: body_line(body, line)->0 }, acc);
                    }
                },
            },
        }
    }
}

#[verifier::spinoff_prover]
#[verifier::rlimit(40)]
proof fn lemma_truncate(lines: Seq<Seq<char>>, i: int, e: int, st: ParseState, acc: Seq<FileDiffV>)
    requires
        0 <= i <= e <= lines.len(),
        forall|j: int| i <= j < e ==> diff_header(#[trigger] lines[j]) is None,
        e < lines.len() ==> diff_header(lines[e]) is Some,
    ensures
        parse_from(lines, i, st, acc) == match parse_from(lines.take(e), i, st, acc) {
            Some(a2) => parse_from(lines, e, ParseState::Outside, a2),
            None => None::<Seq<FileDiffV>>,
        },
    decreases e - i, state_rank(st),
{
    let t = lines.take(e);
    if e == lines.len() {
        assert(t =~= lines);
        match parse_from(lines, i, st, acc) {
            Some(a2) => { assert(parse_from(lines, e, ParseState::Outside, a2) == Some(a2)); },
            None => {},
        }
    } else if i == e {
        let line = lines[e];
        match st {
            ParseState::Outside => {},
            ParseState::Header { old_path, new_path, header } => {
                let b = body_of(old_path, new_path, header, false);
                assert(parse_from(lines, e, st, acc) == parse_from(lines, e, ParseState::Body { body: b }, acc));
            },
            ParseState::Body { body } => {},
        }
    } else {
        let line = lines[i];
        assert(t[i] == line);
        assert(diff_header(line) is None);
        match st {
            ParseState::Outside => {
                lemma_truncate(lines, i + 1, e, ParseState::Outside, acc);
            },
            ParseState::Header { old_path, new_path, header } => {
                if hunk_header(line) is Some {
                    lemma_truncate(lines, i, e, ParseState::Body { body: body_of(old_path, new_path, header, false) }, acc);
                } else if is_binary_marker(line) {
                    lemma_truncate(lines, i + 1, e, ParseState::Body { body: body_of(old_path, new_path, header, true) }, acc);
                } else {
                    lemma_truncate(
                        lines,
                        i + 1,
                        e,
                        ParseState::Header {
                            old_path: header_old(line, old_path),
                            new_path: header_new(line, new_path),
                            header: header.push(line),
                        },
                        acc,
                    );
                }
            },
            ParseState::Body { body } => {
                if body_line(body, line) is Some {
                    lemma_truncate(lines, i + 1, e, ParseState::Body { body: body_line(body, line)->0 }, acc);
                }
            },
        }
    }
}

proof fn lemma_outside_without_headers(lines: Seq<Seq<char>>, i: int, acc: Seq<FileDiffV>)
    requires
        0 <= i <= lines.len(),
        forall|j: int| i <= j < lines.len() ==> diff_header(#[trigger] lines[j]) is None,
    ensures
        parse_from(lines, i, ParseState::Outside, acc) == Some(acc),
    decreases lines.len() - i,
{
    if i < lines.len() {
        assert(diff_header(lines[i]) is None);
        lemma_outside_without_headers(lines, i + 1, acc);
    }
}

proof fn lemma_no_headers_count(lines: Seq<Seq<char>>, i: int)
    requires
        0 <= i,
        forall|j: int| i <= j < lines.len() ==> diff_header(#[trigger] lines[j]) is None,
    ensures
        headers_from(lines, i) == 0,
    decreases lines.len() - i,
{
    if i < lines.len() {
        assert(diff_header(lines[i]) is None);
        lemma_no_headers_count(lines, i + 1);
    }
}

#[verifier::spinoff_prover]
#[verifier::rlimit(40)]
proof fn lemma_sections(lines: Seq<Seq<char>>, k: int, acc: Seq<FileDiffV>)
    requires
        0 <= k < header_positions(lines, 0).len(),
    ensures
        ({
            let hp = header_positions(lines, 0);
            parse_from(lines, hp[k], ParseState::Outside, acc) matches Some(fs) ==> {
                &&& fs.len() == acc.len() + hp.len() - k
                &&& forall|m: int| k <= m < hp.len() ==> section_files(lines, hp[m], section_end(lines, hp, m))
                    == Some(seq![#[trigger] fs[acc.len() + m - k]])
            }
        }),
    decreases header_positions(lines, 0).len() - k,
{
    let hp = header_positions(lines, 0);
    lemma_header_positions(lines, 0);
    let start = hp[k];
    let e = section_end(lines, hp, k);
    let t = lines.take(e);
    let (o, n) = diff_header(lines[start])->0;
    let h = ParseState::Header { old_path: o, new_path: n, header: seq![] };
    assert(start < e <= lines.len()) by {
        if k + 1 < hp.len() {
            assert(hp[k] < hp[k + 1]);
        }
    }
    // No header strictly inside the section.
    assert forall|j: int| start + 1 <= j < e implies diff_header(#[trigger] lines[j]) is None by {
        if diff_header(lines[j]) is Some {
            let m = choose|m: int| 0 <= m < hp.len() && hp[m] == j;
            if m <= k {
                if m < k { assert(hp[m] < hp[k]); }
            } else if m == k + 1 {
            } else {
                assert(hp[k + 1] < hp[m]);
            }
        }
    }
    assert(e < lines.len() ==> diff_header(lines[e]) is Some);
    assert(parse_from(lines, start, ParseState::Outside, acc) == parse_from(lines, start + 1, h, acc));
    lemma_truncate(lines, start + 1, e, h, acc);
    // The section alone.
    assert(t[start] == lines[start]);
    assert(section_files(lines, start, e) == parse_from(t, start + 1, h, seq![]));
    assert forall|j: int| start + 1 <= j < t.len() implies diff_header(#[trigger] t[j]) is None by {
        assert(t[j] == lines[j]);
    }
    lemma_no_headers_count(t, start + 1);
    lemma_parse_from_headers(t, start + 1, h, seq![]);
    lemma_acc_free(t, start + 1, h, acc);
    match parse_from(t, start + 1, h, seq![]) {
        Some(r) => {
            assert(r.len() == 1);
            let f = r[0];
            assert(r =~= seq![f]);
            let a2 = acc + r;
            assert(a2 =~= acc.push(f));
            assert(parse_from(t, start + 1, h, acc) == Some(a2));
            assert(section_files(lines, start, e) == Some(seq![f]));
            assert(parse_from(lines, start, ParseState::Outside, acc) == parse_from(lines, e, ParseState::Outside, a2));
            if k + 1 < hp.len() {
                assert(e == hp[k + 1]);
                lemma_sections(lines, k + 1, a2);
                lemma_acc_free(lines, hp[k + 1], ParseState::Outside, a2);
                match parse_from(lines, hp[k + 1], ParseState::Outside, a2) {
                    Some(fs) => {
                        let rest = parse_from(lines, hp[k + 1], ParseState::Outside, seq![])->0;
                        assert(fs == a2 + rest);
                        assert(fs[acc.len() as int] == f);
                        assert forall|m: int| k <= m < hp.len() implies section_files(lines, hp[m], section_end(lines, hp, m))
                            == Some(seq![#[trigger] fs[acc.len() + m - k]]) by {
                            if m > k {
                                assert(a2.len() + m - (k + 1) == acc.len() + m - k);
                            }
                        }
                    },
                    None => {},
                }
            } else {
                assert(e == lines.len());
                assert(parse_from(lines, e, ParseState::Outside, a2) == Some(a2));
                let fs = a2;
                assert(fs[acc.len() as int] == f);
                assert forall|m: int| k <= m < hp.len() implies section_files(lines, hp[m], section_end(lines, hp, m))
                    == Some(seq![#[trigger] fs[acc.len() + m - k]]) by {
                    assert(m == k);
                }
            }
        },
        None => {
            assert(parse_from(t, start + 1, h, acc) is None);
        },
    }
}

/// The parsed files follow the `diff --git` header lines one for one and
/// in input order: the `k`-th file is what the `k`-th header's section
/// (from that header up to the next one, or to the end) gives on its own.
#[verifier::spinoff_prover]
#[verifier::rlimit(40)]
pub proof fn lemma_files_follow_headers(raw: Seq<char>)
    ensures
        ({
            let lines = split_lines(raw);
            let hp = header_positions(lines, 0);
            parse_diff_spec(raw) matches Some(fs) ==> {
                &&& fs.len() == hp.len()
                &&& forall|k: int| 0 <= k < hp.len() ==> section_files(lines, hp[k], section_end(lines, hp, k))
                    == Some(seq![#[trigger] fs[k]])
            }
        }),
{
    let lines = split_lines(raw);
    let hp = header_positions(lines, 0);
    lemma_header_positions(lines, 0);
    if hp.len() == 0 {
        assert forall|j: int| 0 <= j < lines.len() implies diff_header(#[trigger] lines[j]) is None by {
            if diff_header(lines[j]) is Some {
                assert(hp.contains(j));
            }
        }
        lemma_outside_without_headers(lines, 0, seq![]);
    } else {
        let e = hp[0];
        assert forall|j: int| 0 <= j < e implies diff_header(#[trigger] lines[j]) is None by {
            if diff_header(lines[j]) is Some {
                let m = choose|m: int| 0 <= m < hp.len() && hp[m] == j;
                if m > 0 { assert(hp[0] < hp[m]); }
            }
        }
        lemma_truncate(lines, 0, e, ParseState::Outside, seq![]);
        let t = lines.take(e);
        assert forall|j: int| 0 <= j < t.len() implies diff_header(#[trigger] t[j]) is None by {
            assert(t[j] == lines[j]);
        }
        lemma_outside_without_headers(t, 0, seq![]);
        assert(parse_from(lines, 0, ParseState::Outside, seq![]) == parse_from(lines, e, ParseState::Outside, seq![]));
        lemma_sections(lines, 0, seq![]);
        match parse_from(lines, e, ParseState::Outside, seq![]) {
            Some(fs) => {
                assert forall|k: int| 0 <= k < hp.len() implies section_files(lines, hp[k], section_end(lines, hp, k))
                    == Some(seq![#[trigger] fs[k]]) by {
                    assert(Seq::<FileDiffV>::empty().len() + k - 0 == k);
                }
            },
            None => {},
        }
    }
}

/// How many of `lines[i..e)` are hunk header lines (`@@ -a,b +c,d @@`).
pub open spec fn hunk_lines(lines: Seq<Seq<char>>, i: int, e: int) -> nat
    decreases e - i,
{
    if i < 0 || i >= e || i >= lines.len() {
        0
    } else {
        hunk_lines(lines, i + 1, e) + if hunk_header(lines[i]) is Some { 1nat } else { 0nat }
    }
}

/// How many hunks a state has read so far.
spec fn hunks_read(st: ParseState) -> nat {
    match st {
        ParseState::Body { body } => close_hunk(body.hunks, body.open).len(),
        _ => 0,
    }
}

proof fn lemma_body_line_hunks(b: BodyS, line: Seq<char>)
    requires
        body_line(b, line) is Some,
    ensures
        close_hunk(body_line(b, line)->0.hunks, body_line(b, line)->0.open).len()
            == close_hunk(b.hunks, b.open).len() + if hunk_header(line) is Some { 1nat } else { 0nat },
{
}

#[verifier::spinoff_prover]
#[verifier::rlimit(40)]
proof fn lemma_hunks_counted(lines: Seq<Seq<char>>, i: int, st: ParseState, acc: Seq<FileDiffV>)
    requires
        0 <= i,
        !(st is Outside),
        forall|j: int| i <= j < lines.len() ==> diff_header(#[trigger] lines[j]) is None,
    ensures
        parse_from(lines, i, st, acc) matches Some(fs) ==> fs.len() == acc.len() + 1
            && fs.last().hunks.len() == hunks_read(st) + hunk_lines(lines, i, lines.len() as int),
    decreases lines.len() - i, state_rank(st),
{
    if i < lines.len() {
        let line = lines[i];
        assert(diff_header(line) is None);
        match st {
            ParseState::Outside => {},
            ParseState::Header { old_path, new_path, header } => {
                if hunk_header(line) is Some {
                    lemma_hunks_counted(lines, i, ParseState::Body { body: body_of(old_path, new_path, header, false) }, acc);
                } else if is_binary_marker(line) {
                    lemma_hunks_counted(lines, i + 1, ParseState::Body { body: body_of(old_path, new_path, header, true) }, acc);
                } else {
                    lemma_hunks_counted(
                        lines,
                        i + 1,
                        ParseState::Header {
                            old_path: header_old(line, old_path),
                            new_path: header_new(line, new_path),
                            header: header.push(line),
                        },
                        acc,
                    );
                }
            },
            ParseState::Body { body } => {
                if body_line(body, line) is Some {
                    lemma_body_line_hunks(body, line);
                    lemma_hunks_counted(lines, i + 1, ParseState::Body { body: body_line(body, line)->0 }, acc);
                }
            },
        }
    }
}

proof fn lemma_hunk_lines_take(lines: Seq<Seq<char>>, i: int, e: int)
    requires
        0 <= i <= e <= lines.len(),
    ensures
        hunk_lines(lines.take(e), i, e) == hunk_lines(lines, i, e),
    decreases e - i,
{
    if i < e {
        assert(lines.take(e)[i] == lines[i]);
        lemma_hunk_lines_take(lines, i + 1, e);
    }
}

/// Every hunk header line of a file's section opens one hunk of that file:
/// the `k`-th parsed file has as many hunks as there are `@@ ... @@` lines
/// between its `diff --git` header and the next one (or the end).
#[verifier::spinoff_prover]
#[verifier::rlimit(40)]
pub proof fn lemma_hunk_per_header(raw: Seq<char>)
    ensures
        ({
            let lines = split_lines(raw);
            let hp = header_positions(lines, 0);
            parse_diff_spec(raw) matches Some(fs) ==> forall|k: int| 0 <= k < fs.len() ==>
                (#[trigger] fs[k]).hunks.len() == hunk_lines(lines, hp[k] + 1, section_end(lines, hp, k))
        }),
{
    let lines = split_lines(raw);
    let hp = header_positions(lines, 0);
    lemma_files_follow_headers(raw);
    lemma_header_positions(lines, 0);
    match parse_diff_spec(raw) {
        Some(fs) => {
            assert forall|k: int| 0 <= k < fs.len() implies
                (#[trigger] fs[k]).hunks.len() == hunk_lines(lines, hp[k] + 1, section_end(lines, hp, k)) by {
                let start = hp[k];
                let e = section_end(lines, hp, k);
                let t = lines.take(e);
                assert(start < e <= lines.len()) by {
                    if k + 1 < hp.len() {
                        assert(hp[k] < hp[k + 1]);
                    }
                }
                assert forall|j: int| start + 1 <= j < t.len() implies diff_header(#[trigger] t[j]) is None by {
                    assert(t[j] == lines[j]);
                    if diff_header(lines[j]) is Some {
                        let m = choose|m: int| 0 <= m < hp.len() && hp[m] == j;
                        if m <= k {
                            if m < k { assert(hp[m] < hp[k]); }
                        } else if m == k + 1 {
                        } else {
                            assert(hp[k + 1] < hp[m]);
                        }
                    }
                }
                let (o, n) = diff_header(lines[start])->0;
                let h = ParseState::Header { old_path: o, new_path: n, header: seq![] };
                assert(t[start] == lines[start]);
                assert(section_files(lines, start, e) == parse_from(t, start + 1, h, seq![]));
                lemma_hunks_counted(t, start + 1, h, seq![]);
                lemma_hunk_lines_take(lines, start + 1, e);
                assert(parse_from(t, start + 1, h, seq![]) == Some(seq![fs[k]]));
                assert(seq![fs[k]].last() == fs[k]);
            }
        },
        None => {},
    }
}

/// The changes `cs` of a hunk starting at old line `old_start` and new line
/// `new_start` are numbered consecutively: every change but an insertion
/// has the next old line number, every change but a deletion the next new
/// line number, and the others have none.
pub open spec fn numbered_from(cs: Seq<ChangeV>, old_start: nat, new_start: nat) -> bool {
    forall|j: int| 0 <= j < cs.len() ==> {
        &&& (#[trigger] cs[j]).old_line_number == if cs[j].change_type == ChangeType::Insert {
            None
        } else {
            Some((old_start + j - count_kind(cs.take(j), ChangeType::Insert)) as nat)
        }
        &&& cs[j].new_line_number == if cs[j].change_type == ChangeType::Delete {
            None
        } else {
            Some((new_start + j - count_kind(cs.take(j), ChangeType::Delete)) as nat)
        }
    }
}

/// Every hunk of a file numbers its changes consecutively from its header.
pub open spec fn hunks_numbered(hs: Seq<HunkV>) -> bool {
    forall|k: int| 0 <= k < hs.len() ==> numbered_from((#[trigger] hs[k]).changes, hs[k].old_start, hs[k].new_start)
}

spec fn open_numbered(o: OpenHunk) -> bool {
    &&& numbered_from(o.changes, o.head.old_start, o.head.new_start)
    &&& o.old_line == o.head.old_start + o.changes.len() - count_kind(o.changes, ChangeType::Insert)
    &&& o.new_line == o.head.new_start + o.changes.len() - count_kind(o.changes, ChangeType::Delete)
}

spec fn body_numbered(b: BodyS) -> bool {
    &&& hunks_numbered(b.hunks)
    &&& (b.open matches Some(o) ==> open_numbered(o))
}

spec fn state_numbered(st: ParseState) -> bool {
    match st {
        ParseState::Body { body } => body_numbered(body),
        _ => true,
    }
}

proof fn lemma_count_kind_le(cs: Seq<ChangeV>, k: ChangeType)
    ensures
        count_kind(cs, k) <= cs.len(),
    decreases cs.len(),
{
    if cs.len() > 0 {
        lemma_count_kind_le(cs.drop_last(), k);
    }
}

proof fn lemma_push_hunk_numbered(hs: Seq<HunkV>, h: HunkV)
    requires
        hunks_numbered(hs),
        numbered_from(h.changes, h.old_start, h.new_start),
    ensures
        hunks_numbered(hs.push(h)),
{
    assert forall|k: int| 0 <= k < hs.push(h).len() implies numbered_from((#[trigger] hs.push(h)[k]).changes, hs.push(h)[k].old_start, hs.push(h)[k].new_start) by {
        if k < hs.len() {
            assert(hs.push(h)[k] == hs[k]);
        }
    }
}

proof fn lemma_close_numbered(b: BodyS)
    requires
        body_numbered(b),
    ensures
        hunks_numbered(close_hunk(b.hunks, b.open)),
{
    if let Some(o) = b.open {
        lemma_push_hunk_numbered(b.hunks, hunk_of(o));
    }
}

proof fn lemma_push_change_numbered(o: OpenHunk, c: ChangeV)
    requires
        open_numbered(o),
        c.old_line_number == if c.change_type == ChangeType::Insert { None } else { Some(o.old_line) },
        c.new_line_number == if c.change_type == ChangeType::Delete { None } else { Some(o.new_line) },
    ensures
        numbered_from(o.changes.push(c), o.head.old_start, o.head.new_start),
{
    let cs = o.changes;
    let ps = cs.push(c);
    lemma_count_kind_le(cs, ChangeType::Insert);
    lemma_count_kind_le(cs, ChangeType::Delete);
    assert forall|j: int| 0 <= j < ps.len() implies {
        &&& (#[trigger] ps[j]).old_line_number == if ps[j].change_type == ChangeType::Insert {
            None
        } else {
            Some((o.head.old_start + j - count_kind(ps.take(j), ChangeType::Insert)) as nat)
        }
        &&& ps[j].new_line_number == if ps[j].change_type == ChangeType::Delete {
            None
        } else {
            Some((o.head.new_start + j - count_kind(ps.take(j), ChangeType::Delete)) as nat)
        }
    } by {
        if j < cs.len() {
            assert(ps.take(j) =~= cs.take(j));
            assert(ps[j] == cs[j]);
        } else {
            assert(ps.take(j) =~= cs);
        }
    }
}

proof fn lemma_body_line_numbered(b: BodyS, line: Seq<char>)
    requires
        body_numbered(b),
        body_line(b, line) is Some,
    ensures
        body_numbered(body_line(b, line)->0),
{
    let b2 = body_line(b, line)->0;
    match hunk_header(line) {
        Some(h) => {
            lemma_close_numbered(b);
            let o = b2.open->0;
            assert(o.changes.len() == 0);
        },
        None => match b.open {
            None => {},
            Some(o) => {
                if line == "\\ No newline at end of file"@ {
                } else if has_prefix(line, "+"@) || has_prefix(line, "-"@) || has_prefix(line, " "@) {
                    let o2 = b2.open->0;
                    let c = o2.changes.last();
                    assert(o2.changes == o.changes.push(c));
                    lemma_push_change_numbered(o, c);
                    lemma_push_change_count(o.changes, c, ChangeType::Insert);
                    lemma_push_change_count(o.changes, c, ChangeType::Delete);
                    lemma_count_kind_le(o.changes, ChangeType::Insert);
                    lemma_count_kind_le(o.changes, ChangeType::Delete);
                } else {
                    lemma_close_numbered(b);
                }
            },
        },
    }
}

proof fn lemma_push_file_numbered(acc: Seq<FileDiffV>, f: FileDiffV)
    requires
        forall|k: int| 0 <= k < acc.len() ==> hunks_numbered(#[trigger] acc[k].hunks),
        hunks_numbered(f.hunks),
    ensures
        forall|k: int| 0 <= k < acc.push(f).len() ==> hunks_numbered(#[trigger] acc.push(f)[k].hunks),
{
    assert forall|k: int| 0 <= k < acc.push(f).len() implies hunks_numbered(#[trigger] acc.push(f)[k].hunks) by {
        if k < acc.len() {
            assert(acc.push(f)[k] == acc[k]);
        }
    }
}

proof fn lemma_parse_from_numbered(lines: Seq<Seq<char>>, i: int, st: ParseState, acc: Seq<FileDiffV>)
    requires
        state_numbered(st),
        forall|k: int| 0 <= k < acc.len() ==> hunks_numbered(#[trigger] acc[k].hunks),
    ensures
        parse_from(lines, i, st, acc) matches Some(fs) ==> forall|k: int| 0 <= k < fs.len() ==> hunks_numbered(#[trigger] fs[k].hunks),
    decreases lines.len() - i, state_rank(st),
{
    if i < 0 || i >= lines.len() {
        match st {
            ParseState::Outside => {},
            ParseState::Header { old_path, new_path, header } => {
                let b = body_of(old_path, new_path, header, false);
                if finish(b) is Some {
                    lemma_close_numbered(b);
                    lemma_push_file_numbered(acc, finish(b)->0);
                }
            },
            ParseState::Body { body } => {
                if finish(body) is Some {
                    lemma_close_numbered(body);
                    lemma_push_file_numbered(acc, finish(body)->0);
                }
            },
        }
    } else {
        let line = lines[i];
        match st {
            ParseState::Outside => match diff_header(line) {
                Some((o, n)) => {
                    lemma_parse_from_numbered(lines, i + 1, ParseState::Header { old_path: o, new_path: n, header: seq![] }, acc);
                },
                None => {
                    lemma_parse_from_numbered(lines, i + 1, ParseState::Outside, acc);
                },
            },
            ParseState::Header { old_path, new_path, header } => {
                if diff_header(line) is Some || hunk_header(line) is Some {
                    lemma_parse_from_numbered(lines, i, ParseState::Body { body: body_of(old_path, new_path, header, false) }, acc);
                } else if is_binary_marker(line) {
                    lemma_parse_from_numbered(lines, i + 1, ParseState::Body { body: body_of(old_path, new_path, header, true) }, acc);
                } else {
                    lemma_parse_from_numbered(
                        lines,
                        i + 1,
                        ParseState::Header {
                            old_path: header_old(line, old_path),
                            new_path: header_new(line, new_path),
                            header: header.push(line),
                        },
                        acc,
                    );
                }
            },
            ParseState::Body { body } => match diff_header(line) {
                Some((o, n)) => {
                    if finish(body) is Some {
                        lemma_close_numbered(body);
                        lemma_push_file_numbered(acc, finish(body)->0);
                        lemma_parse_from_numbered(lines, i + 1, ParseState::Header { old_path: o, new_path: n, header: seq![] }, acc.push(finish(body)->0));
                    }
                },
                None => {
                    if body_line(body, line) is Some {
                        lemma_body_line_numbered(body, line);
                        lemma_parse_from_numbered(lines, i + 1, ParseState::Body { body: body_line(body, line)->0 }, acc);
                    }
                },
            },
        }
    }
}

/// In every parsed hunk the changes are numbered consecutively from the
/// hunk header's start lines (see [`numbered_from`]).
pub proof fn lemma_parse_line_numbers(raw: Seq<char>)
    ensures
        parse_diff_spec(raw) matches Some(fs) ==> forall|k: int| 0 <= k < fs.len() ==> hunks_numbered(#[trigger] fs[k].hunks),
{
    lemma_parse_from_numbered(split_lines(raw), 0, ParseState::Outside, seq![]);
}

} // verus!
