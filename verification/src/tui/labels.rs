//! The texts the terminal UI draws around the diff and the comment form:
//! panel titles, the characters-left count and the row prefixes.
use vstd::prelude::*;
use crate::text::{decimal, extend_str, push_decimal, string_of};
use crate::tui::app::{PendingComment, MAX_COMMENT_CHARS};
use crate::types::{ChangeType, CommentType, FileStatus};

verus! {

/// The line of an optional line number (0 when absent).
pub open spec fn line_or_zero(l: Option<u32>) -> nat {
    match l {
        Some(n) => n as nat,
        None => 0,
    }
}

/// The title of the comment form: `Edit Comment` while editing, else the
/// comment's kind with its line or lines.
pub open spec fn form_title_of(p: Option<PendingComment>) -> Seq<char> {
    match p {
        None => " Comment "@,
        Some(p) => if p.editing_id is Some {
            " Edit Comment "@
        } else {
            match p.kind {
                CommentType::Line => " Comment \u{b7} line "@ + decimal(line_or_zero(p.start_line)) + " "@,
                CommentType::Range => " Comment \u{b7} lines "@ + decimal(line_or_zero(p.start_line)) + "-"@
                    + decimal(line_or_zero(p.end_line)) + " "@,
                CommentType::File => " File Comment "@,
                CommentType::Overall => " Overall Comment "@,
            }
        },
    }
}

fn line_or_zero_exec(l: Option<u32>) -> (r: u64)
    ensures
        r == line_or_zero(l),
{
    match l {
        Some(n) => n as u64,
        None => 0,
    }
}

/// The title of the comment form (see [`form_title_of`]).
pub fn form_title(pending: &Option<PendingComment>) -> (r: String)
    ensures
        r@ == form_title_of(*pending),
{
    match pending {
        None => String::from_str(" Comment "),
        Some(p) => {
            if p.editing_id.is_some() {
                return String::from_str(" Edit Comment ");
            }
            match p.kind {
                CommentType::Line => {
                    let mut v: Vec<char> = Vec::new();
                    extend_str(&mut v, " Comment \u{b7} line ");
                    push_decimal(&mut v, line_or_zero_exec(p.start_line));
                    extend_str(&mut v, " ");
                    string_of(&v)
                },
                CommentType::Range => {
                    let mut v: Vec<char> = Vec::new();
                    extend_str(&mut v, " Comment \u{b7} lines ");
                    push_decimal(&mut v, line_or_zero_exec(p.start_line));
                    extend_str(&mut v, "-");
                    push_decimal(&mut v, line_or_zero_exec(p.end_line));
                    extend_str(&mut v, " ");
                    string_of(&v)
                },
                CommentType::File => String::from_str(" File Comment "),
                CommentType::Overall => String::from_str(" Overall Comment "),
            }
        },
    }
}

/// How many more characters the comment form takes: the limit less the
/// text's length, and none once the limit is reached.
pub fn chars_left(buffer: &str) -> (r: usize)
    ensures
        r == (if buffer@.len() >= MAX_COMMENT_CHARS { 0 } else { MAX_COMMENT_CHARS - buffer@.len() }),
{
    let n = crate::text::chars_of(buffer).len();
    if n >= MAX_COMMENT_CHARS { 0 } else { MAX_COMMENT_CHARS - n }
}

/// The name of a file status.
pub open spec fn status_name(s: FileStatus) -> Seq<char> {
    match s {
        FileStatus::Added => "Added"@,
        FileStatus::Modified => "Modified"@,
        FileStatus::Deleted => "Deleted"@,
        FileStatus::Renamed => "Renamed"@,
        FileStatus::Copied => "Copied"@,
    }
}

/// The title of the diff panel: ` <path> [<status>] +<additions>/-<deletions> `,
/// with the reviewed glyph (spaced) before the last space when given.
pub open spec fn diff_title_of(path: Seq<char>, status: FileStatus, additions: u32, deletions: u32, reviewed: Option<Seq<char>>) -> Seq<char> {
    " "@ + path + " ["@ + status_name(status) + "] +"@ + decimal(additions as nat) + "/-"@ + decimal(deletions as nat)
        + match reviewed {
        Some(g) => " "@ + g + " "@,
        None => seq![],
    } + " "@
}

/// The title of the diff panel (see [`diff_title_of`]).
pub fn diff_title(path: &str, status: FileStatus, additions: u32, deletions: u32, reviewed: Option<&str>) -> (r: String)
    ensures
        r@ == diff_title_of(path@, status, additions, deletions, match reviewed {
            Some(g) => Some(g@),
            None => None,
        }),
{
    let mut v: Vec<char> = Vec::new();
    extend_str(&mut v, " ");
    extend_str(&mut v, path);
    extend_str(&mut v, " [");
    match status {
        FileStatus::Added => extend_str(&mut v, "Added"),
        FileStatus::Modified => extend_str(&mut v, "Modified"),
        FileStatus::Deleted => extend_str(&mut v, "Deleted"),
        FileStatus::Renamed => extend_str(&mut v, "Renamed"),
        FileStatus::Copied => extend_str(&mut v, "Copied"),
    }
    extend_str(&mut v, "] +");
    push_decimal(&mut v, additions as u64);
    extend_str(&mut v, "/-");
    push_decimal(&mut v, deletions as u64);
    match reviewed {
        Some(g) => {
            extend_str(&mut v, " ");
            extend_str(&mut v, g);
            extend_str(&mut v, " ");
        },
        None => {},
    }
    extend_str(&mut v, " ");
    string_of(&v)
}

/// What the diff panel says of a file without a diff: a deleted file, or a
/// binary or empty diff.
pub fn no_diff_message(status: FileStatus) -> (r: &'static str)
    ensures
        r@ == (if status == FileStatus::Deleted { "File deleted"@ } else { "Binary or empty diff"@ }),
{
    if status == FileStatus::Deleted { "File deleted" } else { "Binary or empty diff" }
}

/// The marker before a diff row's text: `+` for an insertion, `-` for a
/// deletion, a space for context.
pub fn change_prefix(kind: ChangeType) -> (r: &'static str)
    ensures
        r@ == match kind {
            ChangeType::Insert => "+"@,
            ChangeType::Delete => "-"@,
            ChangeType::Normal => " "@,
        },
{
    match kind {
        ChangeType::Insert => "+",
        ChangeType::Delete => "-",
        ChangeType::Normal => " ",
    }
}

} // verus!
