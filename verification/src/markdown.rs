//! Markdown export of review comments, with the diff lines they point at.
use vstd::prelude::*;
use crate::text::{chars_eq, chars_lt, chars_lt_exec, push_piece, append_pieces, chars_of, equals_str, extend_chars, extend_str, join, join_exec, char_lines,
    string_of, sub_chars, push_decimal, decimal, collapse_blank_lines, collapse_blank_lines_exec,
    trim_end, trim_end_exec};
use crate::types::{ChangeType, ChangeV, Comment, CommentCategory, CommentType, CommentV,
    DiffResponse, FileDiffV, HunkV, ReviewMetadata, comments_view, files_view, hunks_view,
    changes_view};

verus! {

broadcast use vstd::seq_lib::group_seq_properties;

// ---------------------------------------------------------------------------
// Languages
// ---------------------------------------------------------------------------

/// The code-fence language of a file extension (with its dot).
pub open spec fn language_of_ext(ext: Seq<char>) -> Seq<char> {
    if ext == ".ts"@ || ext == ".tsx"@ {
        "typescript"@
    } else if ext == ".js"@ || ext == ".jsx"@ {
        "javascript"@
    } else if ext == ".py"@ {
        "python"@
    } else if ext == ".go"@ {
        "go"@
    } else if ext == ".rs"@ {
        "rust"@
    } else if ext == ".java"@ {
        "java"@
    } else if ext == ".rb"@ {
        "ruby"@
    } else if ext == ".css"@ {
        "css"@
    } else if ext == ".html"@ {
        "html"@
    } else if ext == ".json"@ {
        "json"@
    } else if ext == ".md"@ {
        "markdown"@
    } else if ext == ".sh"@ {
        "bash"@
    } else if ext == ".yml"@ || ext == ".yaml"@ {
        "yaml"@
    } else {
        ""@
    }
}

/// `j` is the position of the last `'.'` of `s`.
pub open spec fn is_last_dot(s: Seq<char>, j: int) -> bool {
    &&& 0 <= j < s.len()
    &&& s[j] == '.'
    &&& forall|k: int| j < k < s.len() ==> s[k] != '.'
}

/// The code-fence language of a path: that of the text from its last `'.'`
/// on; empty when the path has no `'.'` or the extension is not known.
pub open spec fn language_of(path: Seq<char>) -> Seq<char> {
    if exists|j: int| is_last_dot(path, j) {
        language_of_ext(path.skip(choose|j: int| is_last_dot(path, j)))
    } else {
        ""@
    }
}

fn language_of_ext_exec(ext: &Vec<char>) -> (r: &'static str)
    ensures
        r@ == language_of_ext(ext@),
{
    if equals_str(ext, ".ts") || equals_str(ext, ".tsx") {
        "typescript"
    } else if equals_str(ext, ".js") || equals_str(ext, ".jsx") {
        "javascript"
    } else if equals_str(ext, ".py") {
        "python"
    } else if equals_str(ext, ".go") {
        "go"
    } else if equals_str(ext, ".rs") {
        "rust"
    } else if equals_str(ext, ".java") {
        "java"
    } else if equals_str(ext, ".rb") {
        "ruby"
    } else if equals_str(ext, ".css") {
        "css"
    } else if equals_str(ext, ".html") {
        "html"
    } else if equals_str(ext, ".json") {
        "json"
    } else if equals_str(ext, ".md") {
        "markdown"
    } else if equals_str(ext, ".sh") {
        "bash"
    } else if equals_str(ext, ".yml") || equals_str(ext, ".yaml") {
        "yaml"
    } else {
        ""
    }
}

/// The code-fence language of the characters of a path.
fn language_of_chars(path: &Vec<char>) -> (r: &'static str)
    ensures
        r@ == language_of(path@),
{
    let mut j = path.len();
    while j > 0
        invariant
            j <= path@.len(),
            forall|k: int| j <= k < path@.len() ==> path@[k] != '.',
        decreases j,
    {
        j = j - 1;
        if path[j] == '.' {
            assert(is_last_dot(path@, j as int));
            proof {
                let c = choose|c: int| is_last_dot(path@, c);
                assert(c == j);
            }
            let ext = sub_chars(path, j, path.len());
            assert(ext@ =~= path@.skip(j as int));
            return language_of_ext_exec(&ext);
        }
    }
    assert(forall|c: int| !is_last_dot(path@, c));
    ""
}

/// The code-fence language for a file path, from its extension (`""` when
/// the extension is not one of the known ones).
pub fn detect_language(file_path: &str) -> (r: &'static str)
    ensures
        r@ == language_of(file_path@),
{
    let path = chars_of(file_path);
    language_of_chars(&path)
}

// ---------------------------------------------------------------------------
// Code context of a line comment
// ---------------------------------------------------------------------------

/// The first file whose new or old path is `path`.
pub open spec fn first_file(files: Seq<FileDiffV>, path: Seq<char>) -> Option<FileDiffV>
    decreases files.len(),
{
    if files.len() == 0 {
        None
    } else if files[0].new_path == path || files[0].old_path == path {
        Some(files[0])
    } else {
        first_file(files.drop_first(), path)
    }
}

/// The side a comment targets; `"new"` by default.
pub open spec fn side_or_new(side: Option<Seq<char>>) -> Seq<char> {
    match side {
        Some(s) => s,
        None => "new"@,
    }
}

/// The line number of a change on `side` (the new side unless `side` is `"old"`).
pub open spec fn line_on(c: ChangeV, side: Seq<char>) -> Option<nat> {
    if side == "old"@ { c.old_line_number } else { c.new_line_number }
}

/// Whether a change belongs to the code shown for lines `start..=end` of `side`:
/// it has a line there, and is not a deletion shown on the new side nor an
/// insertion shown on the old side.
pub open spec fn shown(c: ChangeV, start: nat, end: nat, side: Seq<char>) -> bool {
    &&& line_on(c, side) matches Some(n) && start <= n && n <= end
    &&& !(side == "new"@ && c.change_type == ChangeType::Delete)
    &&& !(side == "old"@ && c.change_type == ChangeType::Insert)
}

/// The contents of the changes of `cs` shown for lines `start..=end`.
pub open spec fn shown_in_changes(cs: Seq<ChangeV>, start: nat, end: nat, side: Seq<char>) -> Seq<Seq<char>>
    decreases cs.len(),
{
    if cs.len() == 0 {
        seq![]
    } else {
        shown_in_changes(cs.drop_last(), start, end, side) + if shown(cs.last(), start, end, side) {
            seq![cs.last().content]
        } else {
            seq![]
        }
    }
}

/// The contents of the changes of `hs` shown for lines `start..=end`.
pub open spec fn shown_in_hunks(hs: Seq<HunkV>, start: nat, end: nat, side: Seq<char>) -> Seq<Seq<char>>
    decreases hs.len(),
{
    if hs.len() == 0 {
        seq![]
    } else {
        shown_in_hunks(hs.drop_last(), start, end, side) + shown_in_changes(hs.last().changes, start, end, side)
    }
}

/// The fenced code block for lines `start..=end` of `path`, if the diff shows
/// any of them.
pub open spec fn code_context(path: Seq<char>, start: nat, end: nat, side: Option<Seq<char>>, files: Seq<FileDiffV>) -> Option<Seq<char>> {
    match first_file(files, path) {
        None => None,
        Some(f) => {
            let lines = shown_in_hunks(f.hunks, start, end, side_or_new(side));
            if lines.len() == 0 {
                None
            } else {
                Some("```"@ + language_of(path) + "\n"@ + join(lines, "\n"@) + "\n```"@)
            }
        },
    }
}


/// The code a comment points at is located by the line numbers of its own
/// side: for side `old`, the shown lines are exactly the contents, in
/// order, of the changes that are not insertions and whose old line number
/// lies in `start..=end`; for side `new`, those that are not deletions and
/// whose new line number lies there.
pub proof fn lemma_context_follows_side(cs: Seq<ChangeV>, start: nat, end: nat)
    ensures
        shown_in_changes(cs, start, end, "old"@) == cs.filter(|c: ChangeV|
            c.change_type != ChangeType::Insert && (c.old_line_number matches Some(n) && start <= n && n <= end))
            .map_values(|c: ChangeV| c.content),
        shown_in_changes(cs, start, end, "new"@) == cs.filter(|c: ChangeV|
            c.change_type != ChangeType::Delete && (c.new_line_number matches Some(n) && start <= n && n <= end))
            .map_values(|c: ChangeV| c.content),
    decreases cs.len(),
{
    reveal_strlit("old");
    reveal_strlit("new");
    assert("old"@[0] != "new"@[0]);
    let po = |c: ChangeV| c.change_type != ChangeType::Insert && (c.old_line_number matches Some(n) && start <= n && n <= end);
    let pn = |c: ChangeV| c.change_type != ChangeType::Delete && (c.new_line_number matches Some(n) && start <= n && n <= end);
    let content = |c: ChangeV| c.content;
    if cs.len() == 0 {
        assert(cs.filter(po) =~= seq![]) by { reveal(Seq::filter); }
        assert(cs.filter(pn) =~= seq![]) by { reveal(Seq::filter); }
    } else {
        lemma_context_follows_side(cs.drop_last(), start, end);
        let c = cs.last();
        assert(cs.drop_last().push(c) =~= cs);
        cs.drop_last().lemma_filter_push(c, po);
        cs.drop_last().lemma_filter_push(c, pn);
        let fo = cs.drop_last().filter(po);
        let fnw = cs.drop_last().filter(pn);
        assert(fo.push(c).map_values(content) =~= fo.map_values(content) + seq![c.content]);
        assert(fnw.push(c).map_values(content) =~= fnw.map_values(content) + seq![c.content]);
        assert(fo.map_values(content) + seq![] =~= fo.map_values(content));
        assert(fnw.map_values(content) + seq![] =~= fnw.map_values(content));
        assert(shown(c, start, end, "old"@) == po(c));
        assert(shown(c, start, end, "new"@) == pn(c));
    }
}

proof fn lemma_hunks_follow_side(hs: Seq<HunkV>, start: nat, end: nat)
    ensures
        shown_in_hunks(hs, start, end, "old"@) == hs.map_values(|h: HunkV| h.changes).flatten().filter(|c: ChangeV|
            c.change_type != ChangeType::Insert && (c.old_line_number matches Some(n) && start <= n && n <= end))
            .map_values(|c: ChangeV| c.content),
        shown_in_hunks(hs, start, end, "new"@) == hs.map_values(|h: HunkV| h.changes).flatten().filter(|c: ChangeV|
            c.change_type != ChangeType::Delete && (c.new_line_number matches Some(n) && start <= n && n <= end))
            .map_values(|c: ChangeV| c.content),
    decreases hs.len(),
{
    let po = |c: ChangeV| c.change_type != ChangeType::Insert && (c.old_line_number matches Some(n) && start <= n && n <= end);
    let pn = |c: ChangeV| c.change_type != ChangeType::Delete && (c.new_line_number matches Some(n) && start <= n && n <= end);
    let content = |c: ChangeV| c.content;
    let ch = |h: HunkV| h.changes;
    let all = hs.map_values(ch);
    all.lemma_flatten_and_flatten_alt_are_equivalent();
    if hs.len() == 0 {
        assert(all.flatten_alt() =~= seq![]);
        assert(seq![].filter(po) =~= Seq::<ChangeV>::empty()) by { reveal(Seq::filter); }
        assert(Seq::<ChangeV>::empty().filter(pn) =~= Seq::<ChangeV>::empty()) by { reveal(Seq::filter); }
    } else {
        let init = hs.drop_last();
        lemma_hunks_follow_side(init, start, end);
        let ai = init.map_values(ch);
        ai.lemma_flatten_and_flatten_alt_are_equivalent();
        assert(all.drop_last() =~= ai);
        assert(all.last() == hs.last().changes);
        assert(all.flatten_alt() == ai.flatten_alt() + hs.last().changes);
        lemma_context_follows_side(hs.last().changes, start, end);
        let a = ai.flatten_alt();
        let b = hs.last().changes;
        Seq::filter_distributes_over_add(a, b, po);
        Seq::filter_distributes_over_add(a, b, pn);
        assert((a.filter(po) + b.filter(po)).map_values(content) =~= a.filter(po).map_values(content) + b.filter(po).map_values(content));
        assert((a.filter(pn) + b.filter(pn)).map_values(content) =~= a.filter(pn).map_values(content) + b.filter(pn).map_values(content));
    }
}

/// The code block of a comment shows the lines of its own side: for side
/// `old`, the contents of every change of the file's hunks (in order) that
/// is not an insertion and whose old line number lies in `start..=end`; for
/// side `new`, or no side, those that are not deletions and whose new line
/// number lies there; and no block when none does.
pub proof fn lemma_code_context_follows_side(path: Seq<char>, start: nat, end: nat, files: Seq<FileDiffV>)
    ensures
        code_context(path, start, end, Some("old"@), files) == match first_file(files, path) {
            None => None,
            Some(f) => {
                let ls = f.hunks.map_values(|h: HunkV| h.changes).flatten().filter(|c: ChangeV|
                    c.change_type != ChangeType::Insert && (c.old_line_number matches Some(n) && start <= n && n <= end))
                    .map_values(|c: ChangeV| c.content);
                if ls.len() == 0 { None } else { Some("```"@ + language_of(path) + "\n"@ + join(ls, "\n"@) + "\n```"@) }
            },
        },
        code_context(path, start, end, Some("new"@), files) == code_context(path, start, end, None, files),
        code_context(path, start, end, None, files) == match first_file(files, path) {
            None => None,
            Some(f) => {
                let ls = f.hunks.map_values(|h: HunkV| h.changes).flatten().filter(|c: ChangeV|
                    c.change_type != ChangeType::Delete && (c.new_line_number matches Some(n) && start <= n && n <= end))
                    .map_values(|c: ChangeV| c.content);
                if ls.len() == 0 { None } else { Some("```"@ + language_of(path) + "\n"@ + join(ls, "\n"@) + "\n```"@) }
            },
        },
{
    match first_file(files, path) {
        None => {},
        Some(f) => { lemma_hunks_follow_side(f.hunks, start, end); },
    }
}

fn shown_exec(c: &crate::types::Change, start: u32, end: u32, side: &Vec<char>) -> (r: bool)
    ensures
        r == shown(c@, start as nat, end as nat, side@),
{
    let is_old = equals_str(side, "old");
    let is_new = equals_str(side, "new");
    let line = if is_old { c.old_line_number } else { c.new_line_number };
    match line {
        None => false,
        Some(n) => {
            if n < start || n > end {
                false
            } else if is_new && c.change_type == ChangeType::Delete {
                false
            } else if is_old && c.change_type == ChangeType::Insert {
                false
            } else {
                true
            }
        },
    }
}

pub(crate) fn find_file(files: &Vec<crate::types::ParsedFileDiff>, path: &String) -> (r: Option<usize>)
    ensures
        match r {
            Some(k) => k < files@.len() && first_file(files_view(files@), path@) == Some(files_view(files@)[k as int]),
            None => first_file(files_view(files@), path@) is None,
        },
{
    let ghost fv = files_view(files@);
    let mut k: usize = 0;
    while k < files.len()
        invariant
            k <= files@.len(),
            fv == files_view(files@),
            first_file(fv, path@) == first_file(fv.skip(k as int), path@),
        decreases files@.len() - k,
    {
        assert(fv.skip(k as int)[0] == fv[k as int]);
        if files[k].new_path == *path || files[k].old_path == *path {
            return Some(k);
        }
        assert(fv.skip(k as int).drop_first() =~= fv.skip(k + 1));
        k = k + 1;
    }
    assert(fv.skip(k as int).len() == 0);
    None
}

/// The fenced code block showing lines `start..=end` of `file_path` on
/// `side` (the new side by default), taken from the first diff file with that
/// new or old path; `None` when no such line is in the diff.
fn extract_code_context(
    file_path: &String,
    start_line: u32,
    end_line: u32,
    side: &Option<String>,
    diff_data: &DiffResponse,
) -> (r: Option<String>)
    ensures
        match r {
            Some(b) => code_context(file_path@, start_line as nat, end_line as nat, crate::types::opt_str(*side), files_view(diff_data.files@)) == Some(b@),
            None => code_context(file_path@, start_line as nat, end_line as nat, crate::types::opt_str(*side), files_view(diff_data.files@)) is None,
        },
{
    let files = &diff_data.files;
    let ghost fv = files_view(files@);
    let k = match find_file(files, file_path) {
        Some(k) => k,
        None => { return None; },
    };
    let file = &files[k];
    let side_chars = match side {
        Some(s) => chars_of(s.as_str()),
        None => chars_of("new"),
    };
    let ghost sd = crate::types::opt_str(*side);
    assert(side_chars@ == side_or_new(sd));
    let ghost hs = hunks_view(file.hunks@);
    let mut lines: Vec<Vec<char>> = Vec::new();
    let mut h: usize = 0;
    while h < file.hunks.len()
        invariant
            h <= file.hunks@.len(),
            hs == hunks_view(file.hunks@),
            char_lines(lines@) == shown_in_hunks(hs.take(h as int), start_line as nat, end_line as nat, side_chars@),
        decreases file.hunks@.len() - h,
    {
        let changes = &file.hunks[h].changes;
        let ghost cs = changes_view(changes@);
        let ghost before = char_lines(lines@);
        let mut c: usize = 0;
        while c < changes.len()
            invariant
                c <= changes@.len(),
                cs == changes_view(changes@),
                char_lines(lines@) == before + shown_in_changes(cs.take(c as int), start_line as nat, end_line as nat, side_chars@),
            decreases changes@.len() - c,
        {
            let ghost prev = char_lines(lines@);
            assert(cs.take(c + 1).drop_last() =~= cs.take(c as int));
            if shown_exec(&changes[c], start_line, end_line, &side_chars) {
                let content = chars_of(changes[c].content.as_str());
                lines.push(content);
                assert(char_lines(lines@) =~= prev.push(content@));
            }
            c = c + 1;
        }
        assert(cs.take(changes@.len() as int) =~= cs);
        assert(hs.take(h + 1).drop_last() =~= hs.take(h as int));
        h = h + 1;
    }
    assert(hs.take(file.hunks@.len() as int) =~= hs);
    if lines.len() == 0 {
        return None;
    }
    let mut out: Vec<char> = Vec::new();
    extend_str(&mut out, "```");
    let path_chars = chars_of(file_path.as_str());
    extend_str(&mut out, language_of_chars(&path_chars));
    out.push('\n');
    let body = join_exec(&lines, '\n');
    extend_chars(&mut out, &body);
    extend_str(&mut out, "\n```");
    proof {
        reveal_strlit("\n");
        assert("\n"@ =~= seq!['\n']);
        assert(out@ =~= "```"@ + language_of(file_path@) + "\n"@ + join(char_lines(lines@), "\n"@) + "\n```"@);
    }
    Some(string_of(&out))
}


// ---------------------------------------------------------------------------
// Comments
// ---------------------------------------------------------------------------

/// The label of a category.
pub open spec fn category_name(c: CommentCategory) -> Seq<char> {
    match c {
        CommentCategory::Fix => "fix"@,
        CommentCategory::Question => "question"@,
        CommentCategory::Suggestion => "suggestion"@,
        CommentCategory::Nit => "nit"@,
    }
}

/// The markdown list item of a comment: `- [category] text`.
pub open spec fn comment_item(c: CommentV) -> Seq<char> {
    "- ["@ + category_name(c.category) + "] "@ + c.text
}

fn format_comment(c: &Comment) -> (r: Vec<char>)
    ensures
        r@ == comment_item(c@),
{
    let mut r: Vec<char> = Vec::new();
    extend_str(&mut r, "- [");
    let name = match c.category {
        CommentCategory::Fix => "fix",
        CommentCategory::Question => "question",
        CommentCategory::Suggestion => "suggestion",
        CommentCategory::Nit => "nit",
    };
    extend_str(&mut r, name);
    extend_str(&mut r, "] ");
    extend_str(&mut r, c.text.as_str());
    r
}

/// The file a comment is grouped under (empty when it names none).
pub open spec fn path_key(c: CommentV) -> Seq<char> {
    match c.file_path {
        Some(p) => p,
        None => seq![],
    }
}

/// Which comments a selection keeps.
pub enum Pick {
    /// Overall comments.
    Overall,
    /// Comments other than overall ones, grouped under the given file.
    InFile(Seq<char>),
    /// File-level comments.
    FileLevel,
    /// Line and range comments.
    LineOrRange,
}

/// Whether selection `p` keeps comment `c`.
pub open spec fn picks(p: Pick, c: CommentV) -> bool {
    match p {
        Pick::Overall => c.comment_type == CommentType::Overall,
        Pick::InFile(k) => c.comment_type != CommentType::Overall && path_key(c) == k,
        Pick::FileLevel => c.comment_type == CommentType::File,
        Pick::LineOrRange => c.comment_type == CommentType::Line || c.comment_type == CommentType::Range,
    }
}

/// The comments of `cs` that `p` keeps, in order.
pub open spec fn select(cs: Seq<CommentV>, p: Pick) -> Seq<CommentV>
    decreases cs.len(),
{
    if cs.len() == 0 {
        seq![]
    } else {
        select(cs.drop_last(), p) + if picks(p, cs.last()) { seq![cs.last()] } else { seq![] }
    }
}

/// Selections, executable (the file of `InFile` as characters).
enum PickExec {
    Overall,
    InFile(Vec<char>),
    FileLevel,
    LineOrRange,
}

spec fn pick_view(p: PickExec) -> Pick {
    match p {
        PickExec::Overall => Pick::Overall,
        PickExec::InFile(k) => Pick::InFile(k@),
        PickExec::FileLevel => Pick::FileLevel,
        PickExec::LineOrRange => Pick::LineOrRange,
    }
}

fn picks_exec(p: &PickExec, c: &Comment) -> (r: bool)
    ensures
        r == picks(pick_view(*p), c@),
{
    match p {
        PickExec::Overall => c.comment_type == CommentType::Overall,
        PickExec::InFile(k) => {
            if c.comment_type == CommentType::Overall {
                false
            } else {
                let key = match &c.file_path {
                    Some(fp) => chars_of(fp.as_str()),
                    None => Vec::new(),
                };
                assert(key@ =~= path_key(c@));
                chars_eq(&key, k)
            }
        },
        PickExec::FileLevel => c.comment_type == CommentType::File,
        PickExec::LineOrRange => c.comment_type == CommentType::Line || c.comment_type == CommentType::Range,
    }
}

fn select_exec(cs: &Vec<Comment>, p: &PickExec) -> (r: Vec<Comment>)
    ensures
        comments_view(r@) == select(comments_view(cs@), pick_view(*p)),
{
    let ghost cv = comments_view(cs@);
    let mut r: Vec<Comment> = Vec::new();
    let mut i: usize = 0;
    while i < cs.len()
        invariant
            i <= cs@.len(),
            cv == comments_view(cs@),
            comments_view(r@) == select(cv.take(i as int), pick_view(*p)),
        decreases cs@.len() - i,
    {
        assert(cv.take(i + 1).drop_last() =~= cv.take(i as int));
        if picks_exec(p, &cs[i]) {
            let c = cs[i].clone();
            let ghost prev = comments_view(r@);
            r.push(c);
            assert(comments_view(r@) =~= prev.push(c@));
        }
        i = i + 1;
    }
    assert(cv.take(cs@.len() as int) =~= cv);
    r
}

// ---------------------------------------------------------------------------
// Ordering of files and of line comments
// ---------------------------------------------------------------------------

/// `keys` with `k` inserted before the first key greater than it, unless
/// `k` is met first.
pub open spec fn insert_key(keys: Seq<Seq<char>>, k: Seq<char>) -> Seq<Seq<char>>
    decreases keys.len(),
{
    if keys.len() == 0 {
        seq![k]
    } else if keys[0] == k {
        keys
    } else if chars_lt(k, keys[0]) {
        seq![k] + keys
    } else {
        seq![keys[0]] + insert_key(keys.drop_first(), k)
    }
}

/// The files that the comments other than overall ones are grouped under,
/// each once, in string order.
pub open spec fn file_keys(cs: Seq<CommentV>) -> Seq<Seq<char>>
    decreases cs.len(),
{
    if cs.len() == 0 {
        seq![]
    } else if cs.last().comment_type == CommentType::Overall {
        file_keys(cs.drop_last())
    } else {
        insert_key(file_keys(cs.drop_last()), path_key(cs.last()))
    }
}

fn insert_key_exec(keys: &mut Vec<Vec<char>>, k: Vec<char>)
    ensures
        char_lines(final(keys)@) == insert_key(char_lines(old(keys)@), k@),
{
    let ghost ks = char_lines(keys@);
    let mut j: usize = 0;
    assert(ks.skip(0) =~= ks);
    assert(ks.take(0) + ks.skip(0) =~= ks);
    while j < keys.len()
        invariant
            j <= keys@.len(),
            ks == char_lines(keys@),
            ks == char_lines(old(keys)@),
            insert_key(ks, k@) == ks.take(j as int) + insert_key(ks.skip(j as int), k@),
        decreases keys@.len() - j,
    {
        let ghost rest = ks.skip(j as int);
        assert(rest[0] == keys@[j as int]@);
        if chars_eq(&keys[j], &k) {
            assert(ks.take(j as int) + rest =~= ks);
            return;
        }
        if chars_lt_exec(&k, &keys[j]) {
            keys.insert(j, k);
            assert(char_lines(keys@) =~= ks.take(j as int) + (seq![k@] + rest));
            return;
        }
        assert(rest.drop_first() =~= ks.skip(j + 1));
        assert(ks.take(j + 1) =~= ks.take(j as int) + seq![rest[0]]);
        j = j + 1;
    }
    let ghost before = char_lines(keys@);
    keys.push(k);
    assert(char_lines(keys@) =~= before.push(k@));
    assert(ks.take(j as int) =~= ks);
}

fn file_keys_exec(cs: &Vec<Comment>) -> (r: Vec<Vec<char>>)
    ensures
        char_lines(r@) == file_keys(comments_view(cs@)),
{
    let ghost cv = comments_view(cs@);
    let mut keys: Vec<Vec<char>> = Vec::new();
    let mut i: usize = 0;
    assert(char_lines(keys@) =~= seq![]);
    while i < cs.len()
        invariant
            i <= cs@.len(),
            cv == comments_view(cs@),
            char_lines(keys@) == file_keys(cv.take(i as int)),
        decreases cs@.len() - i,
    {
        assert(cv.take(i + 1).drop_last() =~= cv.take(i as int));
        if cs[i].comment_type != CommentType::Overall {
            let key = match &cs[i].file_path {
                Some(fp) => chars_of(fp.as_str()),
                None => Vec::new(),
            };
            assert(key@ =~= path_key(cv[i as int]));
            insert_key_exec(&mut keys, key);
        }
        i = i + 1;
    }
    assert(cv.take(cs@.len() as int) =~= cv);
    keys
}

/// The first line of a comment's range (0 when unset).
pub open spec fn start_of(c: CommentV) -> nat {
    match c.start_line {
        Some(n) => n,
        None => 0,
    }
}

/// The last line of a comment's range (its first line when unset).
pub open spec fn end_of(c: CommentV) -> nat {
    match c.end_line {
        Some(n) => n,
        None => start_of(c),
    }
}

/// `s` with `c` inserted after every comment that starts no later than it.
pub open spec fn insert_by_start(s: Seq<CommentV>, c: CommentV) -> Seq<CommentV>
    decreases s.len(),
{
    if s.len() == 0 {
        seq![c]
    } else if start_of(s[0]) > start_of(c) {
        seq![c] + s
    } else {
        seq![s[0]] + insert_by_start(s.drop_first(), c)
    }
}

/// `cs` stably sorted by first line.
pub open spec fn sort_by_start(cs: Seq<CommentV>) -> Seq<CommentV>
    decreases cs.len(),
{
    if cs.len() == 0 {
        seq![]
    } else {
        insert_by_start(sort_by_start(cs.drop_last()), cs.last())
    }
}

/// Whether comments are in non-decreasing order of first line.
pub open spec fn sorted_by_start(s: Seq<CommentV>) -> bool {
    forall|i: int, j: int| 0 <= i < j < s.len() ==> start_of(s[i]) <= start_of(s[j])
}

/// Where [`insert_by_start`] puts its comment.
spec fn insert_pos(s: Seq<CommentV>, c: CommentV) -> nat
    decreases s.len(),
{
    if s.len() == 0 || start_of(s[0]) > start_of(c) {
        0
    } else {
        insert_pos(s.drop_first(), c) + 1
    }
}

proof fn lemma_insert_shape(s: Seq<CommentV>, c: CommentV)
    ensures
        insert_pos(s, c) <= s.len(),
        insert_by_start(s, c) == s.insert(insert_pos(s, c) as int, c),
        forall|j: int| 0 <= j < insert_pos(s, c) ==> start_of(#[trigger] s[j]) <= start_of(c),
        insert_pos(s, c) < s.len() ==> start_of(s[insert_pos(s, c) as int]) > start_of(c),
    decreases s.len(),
{
    if s.len() == 0 {
        assert(seq![c] =~= s.insert(0, c));
    } else if start_of(s[0]) > start_of(c) {
        assert(seq![c] + s =~= s.insert(0, c));
    } else {
        let t = s.drop_first();
        lemma_insert_shape(t, c);
        let k = insert_pos(t, c);
        assert(seq![s[0]] + t.insert(k as int, c) =~= s.insert(k + 1 as int, c));
        assert forall|j: int| 0 <= j < k + 1 implies start_of(#[trigger] s[j]) <= start_of(c) by {
            if j > 0 {
                assert(s[j] == t[j - 1]);
            }
        }
        if k + 1 < s.len() {
            assert(s[(k + 1) as int] == t[k as int]);
        }
    }
}

/// The line and range comments of a file section are listed by first line:
/// [`sort_by_start`] puts comments in non-decreasing order of first line,
/// and keeps each comment exactly as often as it was given.
pub proof fn lemma_line_comments_by_start(cs: Seq<CommentV>)
    ensures
        sorted_by_start(sort_by_start(cs)),
        sort_by_start(cs).to_multiset() == cs.to_multiset(),
        sort_by_start(cs).len() == cs.len(),
    decreases cs.len(),
{
    broadcast use vstd::seq_lib::group_to_multiset_ensures;
    if cs.len() > 0 {
        let s = sort_by_start(cs.drop_last());
        let c = cs.last();
        lemma_line_comments_by_start(cs.drop_last());
        lemma_insert_shape(s, c);
        let k = insert_pos(s, c) as int;
        let r = s.insert(k, c);
        assert(sort_by_start(cs) == r);
        assert forall|i: int, j: int| 0 <= i < j < r.len() implies start_of(r[i]) <= start_of(r[j]) by {
            if j < k {
                assert(r[i] == s[i] && r[j] == s[j]);
            } else if j == k {
                assert(r[i] == s[i]);
            } else if i < k {
                assert(r[i] == s[i] && r[j] == s[j - 1]);
                assert(start_of(s[k]) > start_of(c));
                if k < j - 1 {
                    assert(start_of(s[k]) <= start_of(s[j - 1]));
                }
            } else if i == k {
                assert(r[j] == s[j - 1]);
                assert(start_of(s[k]) > start_of(c));
                if k < j - 1 {
                    assert(start_of(s[k]) <= start_of(s[j - 1]));
                }
            } else {
                assert(r[i] == s[i - 1] && r[j] == s[j - 1]);
            }
        }
        assert(cs.drop_last().push(c) =~= cs);
        assert(r.to_multiset() == s.to_multiset().insert(c));
    }
}

fn start_exec(c: &Comment) -> (r: u32)
    ensures
        r as nat == start_of(c@),
{
    match c.start_line {
        Some(n) => n,
        None => 0,
    }
}

fn insert_by_start_exec(s: &mut Vec<Comment>, c: Comment)
    ensures
        comments_view(final(s)@) == insert_by_start(comments_view(old(s)@), c@),
{
    let ghost sv = comments_view(s@);
    let key = start_exec(&c);
    let mut j: usize = 0;
    assert(sv.skip(0) =~= sv);
    assert(sv.take(0) + sv.skip(0) =~= sv);
    while j < s.len()
        invariant
            j <= s@.len(),
            sv == comments_view(s@),
            sv == comments_view(old(s)@),
            key as nat == start_of(c@),
            insert_by_start(sv, c@) == sv.take(j as int) + insert_by_start(sv.skip(j as int), c@),
        decreases s@.len() - j,
    {
        let ghost rest = sv.skip(j as int);
        assert(rest[0] == s@[j as int]@);
        if start_exec(&s[j]) > key {
            s.insert(j, c);
            assert(comments_view(s@) =~= sv.take(j as int) + (seq![c@] + rest));
            return;
        }
        assert(rest.drop_first() =~= sv.skip(j + 1));
        assert(sv.take(j + 1) =~= sv.take(j as int) + seq![rest[0]]);
        j = j + 1;
    }
    let ghost before = comments_view(s@);
    s.push(c);
    assert(comments_view(s@) =~= before.push(c@));
    assert(sv.take(j as int) =~= sv);
}

fn sort_by_start_exec(cs: &Vec<Comment>) -> (r: Vec<Comment>)
    ensures
        comments_view(r@) == sort_by_start(comments_view(cs@)),
{
    let ghost cv = comments_view(cs@);
    let mut r: Vec<Comment> = Vec::new();
    let mut i: usize = 0;
    assert(comments_view(r@) =~= seq![]);
    while i < cs.len()
        invariant
            i <= cs@.len(),
            cv == comments_view(cs@),
            comments_view(r@) == sort_by_start(cv.take(i as int)),
        decreases cs@.len() - i,
    {
        assert(cv.take(i + 1).drop_last() =~= cv.take(i as int));
        insert_by_start_exec(&mut r, cs[i].clone());
        i = i + 1;
    }
    assert(cv.take(cs@.len() as int) =~= cv);
    r
}


// ---------------------------------------------------------------------------
// The document
// ---------------------------------------------------------------------------

/// The heading of a line or range comment.
pub open spec fn line_heading(c: CommentV) -> Seq<char> {
    if c.comment_type == CommentType::Range && end_of(c) > start_of(c) {
        "### Lines "@ + decimal(start_of(c)) + "-"@ + decimal(end_of(c))
    } else {
        "### Line "@ + decimal(start_of(c))
    }
}

/// The lines of a line or range comment on file `key`: heading, blank, the
/// code it points at (when the diff shows it), the item, blank.
pub open spec fn line_block(c: CommentV, key: Seq<char>, files: Seq<FileDiffV>) -> Seq<Seq<char>> {
    seq![line_heading(c), seq![]] + match code_context(key, start_of(c), end_of(c), c.side, files) {
        Some(b) => seq![b],
        None => seq![],
    } + seq![comment_item(c), seq![]]
}

/// The blocks of the line and range comments `lc` on file `key`.
pub open spec fn line_blocks(lc: Seq<CommentV>, key: Seq<char>, files: Seq<FileDiffV>) -> Seq<Seq<char>>
    decreases lc.len(),
{
    if lc.len() == 0 {
        seq![]
    } else {
        line_blocks(lc.drop_last(), key, files) + line_block(lc.last(), key, files)
    }
}

/// The list items of comments.
pub open spec fn items(cs: Seq<CommentV>) -> Seq<Seq<char>> {
    cs.map_values(|c: CommentV| comment_item(c))
}

/// The section of file `key`: its heading, its file-level comments, then its
/// line and range comments by first line.
pub open spec fn file_section(key: Seq<char>, cs: Seq<CommentV>, files: Seq<FileDiffV>) -> Seq<Seq<char>> {
    let fc = select(cs, Pick::InFile(key));
    let fl = select(fc, Pick::FileLevel);
    let lc = sort_by_start(select(fc, Pick::LineOrRange));
    seq!["## "@ + key, seq![]] + (if fl.len() > 0 {
        seq!["### File-level"@, seq![]] + items(fl) + seq![seq![]]
    } else {
        seq![]
    }) + line_blocks(lc, key, files)
}

/// A file's section lists its line and range comments by first line: after
/// the heading and the file-level comments come the blocks of a list that
/// holds exactly the file's line and range comments, in non-decreasing
/// order of first line.
pub proof fn lemma_file_section_by_line(key: Seq<char>, cs: Seq<CommentV>, files: Seq<FileDiffV>)
    ensures
        exists|lc: Seq<CommentV>| {
            &&& sorted_by_start(lc)
            &&& lc.to_multiset() == select(select(cs, Pick::InFile(key)), Pick::LineOrRange).to_multiset()
            &&& #[trigger] file_section(key, cs, files) == seq!["## "@ + key, seq![]] + ({
                let fl = select(select(cs, Pick::InFile(key)), Pick::FileLevel);
                if fl.len() > 0 {
                    seq!["### File-level"@, seq![]] + items(fl) + seq![seq![]]
                } else {
                    seq![]
                }
            }) + line_blocks(lc, key, files)
        },
{
    let lc = sort_by_start(select(select(cs, Pick::InFile(key)), Pick::LineOrRange));
    lemma_line_comments_by_start(select(select(cs, Pick::InFile(key)), Pick::LineOrRange));
    assert(sorted_by_start(lc));
}

/// The sections of the files `keys`, in order.
pub open spec fn file_sections(keys: Seq<Seq<char>>, cs: Seq<CommentV>, files: Seq<FileDiffV>) -> Seq<Seq<char>>
    decreases keys.len(),
{
    if keys.len() == 0 {
        seq![]
    } else {
        file_sections(keys.drop_last(), cs, files) + file_section(keys.last(), cs, files)
    }
}

/// The overall section (empty without overall comments).
pub open spec fn overall_section(ov: Seq<CommentV>) -> Seq<Seq<char>> {
    if ov.len() > 0 {
        seq!["## Overall"@, seq![]] + items(ov) + seq![seq![]]
    } else {
        seq![]
    }
}

/// The lines of the document before clean-up.
pub open spec fn markdown_lines(cs: Seq<CommentV>, files: Seq<FileDiffV>) -> Seq<Seq<char>> {
    seq!["# Code Review Comments"@, seq![]] + overall_section(select(cs, Pick::Overall))
        + file_sections(file_keys(cs), cs, files)
}

/// The markdown export of comments `cs` over the diff `files`: a fixed
/// message without comments; otherwise the document's lines joined with
/// line feeds, runs of three line feeds collapsed to two, trailing white
/// space dropped, and one final line feed.
pub open spec fn markdown(cs: Seq<CommentV>, files: Seq<FileDiffV>) -> Seq<char> {
    if cs.len() == 0 {
        "# Code Review Comments\n\nNo comments.\n"@
    } else {
        trim_end(collapse_blank_lines(join(markdown_lines(cs, files), "\n"@))).push('\n')
    }
}

fn line_heading_exec(c: &Comment) -> (r: Vec<char>)
    ensures
        r@ == line_heading(c@),
{
    let start = start_exec(c);
    let end = match c.end_line {
        Some(n) => n,
        None => start,
    };
    let mut r: Vec<char> = Vec::new();
    if c.comment_type == CommentType::Range && end > start {
        extend_str(&mut r, "### Lines ");
        push_decimal(&mut r, start as u64);
        extend_str(&mut r, "-");
        push_decimal(&mut r, end as u64);
    } else {
        extend_str(&mut r, "### Line ");
        push_decimal(&mut r, start as u64);
    }
    r
}

fn line_block_exec(c: &Comment, key: &String, diff_data: &DiffResponse) -> (r: Vec<Vec<char>>)
    ensures
        char_lines(r@) == line_block(c@, key@, files_view(diff_data.files@)),
{
    let mut r: Vec<Vec<char>> = Vec::new();
    assert(char_lines(r@) =~= seq![]);
    push_piece(&mut r, line_heading_exec(c));
    push_piece(&mut r, Vec::new());
    let start = start_exec(c);
    let end = match c.end_line {
        Some(n) => n,
        None => start,
    };
    let ghost head = char_lines(r@);
    match extract_code_context(key, start, end, &c.side, diff_data) {
        Some(block) => {
            push_piece(&mut r, chars_of(block.as_str()));
        },
        None => {},
    }
    let ghost mid = char_lines(r@);
    push_piece(&mut r, format_comment(c));
    push_piece(&mut r, Vec::new());
    assert(char_lines(r@) =~= line_block(c@, key@, files_view(diff_data.files@)));
    r
}

fn items_exec(cs: &Vec<Comment>) -> (r: Vec<Vec<char>>)
    ensures
        char_lines(r@) == items(comments_view(cs@)),
{
    let ghost cv = comments_view(cs@);
    let mut r: Vec<Vec<char>> = Vec::new();
    let mut i: usize = 0;
    while i < cs.len()
        invariant
            i <= cs@.len(),
            cv == comments_view(cs@),
            char_lines(r@) == items(cv.take(i as int)),
        decreases cs@.len() - i,
    {
        push_piece(&mut r, format_comment(&cs[i]));
        assert(items(cv.take(i + 1)) =~= items(cv.take(i as int)).push(comment_item(cv[i as int])));
        i = i + 1;
    }
    assert(cv.take(cs@.len() as int) =~= cv);
    r
}

fn file_section_exec(key: &Vec<char>, cs: &Vec<Comment>, diff_data: &DiffResponse) -> (r: Vec<Vec<char>>)
    ensures
        char_lines(r@) == file_section(key@, comments_view(cs@), files_view(diff_data.files@)),
{
    let ghost files = files_view(diff_data.files@);
    let fc = select_exec(cs, &PickExec::InFile(key.clone()));
    let fl = select_exec(&fc, &PickExec::FileLevel);
    let lr = select_exec(&fc, &PickExec::LineOrRange);
    let lc = sort_by_start_exec(&lr);
    let mut r: Vec<Vec<char>> = Vec::new();
    let mut heading: Vec<char> = Vec::new();
    extend_str(&mut heading, "## ");
    extend_chars(&mut heading, key);
    assert(char_lines(r@) =~= seq![]);
    push_piece(&mut r, heading);
    push_piece(&mut r, Vec::new());
    let ghost after_heading = char_lines(r@);
    if fl.len() > 0 {
        push_piece(&mut r, chars_of("### File-level"));
        push_piece(&mut r, Vec::new());
        append_pieces(&mut r, items_exec(&fl));
        push_piece(&mut r, Vec::new());
    }
    let ghost before_lines = char_lines(r@);
    let key_string = string_of(key);
    let ghost lcv = comments_view(lc@);
    let mut i: usize = 0;
    while i < lc.len()
        invariant
            i <= lc@.len(),
            lcv == comments_view(lc@),
            key_string@ == key@,
            char_lines(r@) == before_lines + line_blocks(lcv.take(i as int), key@, files),
            files == files_view(diff_data.files@),
        decreases lc@.len() - i,
    {
        let block = line_block_exec(&lc[i], &key_string, diff_data);
        append_pieces(&mut r, block);
        assert(lcv.take(i + 1).drop_last() =~= lcv.take(i as int));
        i = i + 1;
    }
    assert(lcv.take(lc@.len() as int) =~= lcv);
    assert(char_lines(r@) =~= file_section(key@, comments_view(cs@), files));
    r
}

/// The markdown export of a review: an overall section, then one section
/// per commented file in path order, each with its file-level comments and
/// its line and range comments by first line, each of those with the code
/// it points at when the diff shows it.
pub struct MarkdownInput {
    pub comments: Vec<Comment>,
    pub diff_data: DiffResponse,
    pub metadata: ReviewMetadata,
}

/// Renders the review comments of `input` as markdown (see [`markdown`]).
pub fn generate_markdown(input: &MarkdownInput) -> (r: String)
    ensures
        r@ == markdown(comments_view(input.comments@), files_view(input.diff_data.files@)),
{
    let cs = &input.comments;
    let ghost cv = comments_view(cs@);
    let ghost files = files_view(input.diff_data.files@);
    if cs.len() == 0 {
        return String::from_str("# Code Review Comments\n\nNo comments.\n");
    }
    let mut parts: Vec<Vec<char>> = Vec::new();
    assert(char_lines(parts@) =~= seq![]);
    push_piece(&mut parts, chars_of("# Code Review Comments"));
    push_piece(&mut parts, Vec::new());
    let overall = select_exec(cs, &PickExec::Overall);
    if overall.len() > 0 {
        push_piece(&mut parts, chars_of("## Overall"));
        push_piece(&mut parts, Vec::new());
        append_pieces(&mut parts, items_exec(&overall));
        push_piece(&mut parts, Vec::new());
    }
    let ghost before_files = char_lines(parts@);
    assert(before_files =~= seq!["# Code Review Comments"@, seq![]] + overall_section(select(cv, Pick::Overall)));
    let keys = file_keys_exec(cs);
    let ghost kv = char_lines(keys@);
    let mut k: usize = 0;
    while k < keys.len()
        invariant
            k <= keys@.len(),
            kv == char_lines(keys@),
            kv == file_keys(cv),
            cv == comments_view(cs@),
            files == files_view(input.diff_data.files@),
            char_lines(parts@) == before_files + file_sections(kv.take(k as int), cv, files),
        decreases keys@.len() - k,
    {
        let section = file_section_exec(&keys[k], cs, &input.diff_data);
        append_pieces(&mut parts, section);
        assert(kv.take(k + 1).drop_last() =~= kv.take(k as int));
        k = k + 1;
    }
    assert(kv.take(keys@.len() as int) =~= kv);
    assert(char_lines(parts@) =~= markdown_lines(cv, files));
    let joined = join_exec(&parts, '\n');
    let mut out = collapse_blank_lines_exec(&joined);
    trim_end_exec(&mut out);
    out.push('\n');
    proof {
        reveal_strlit("\n");
        assert("\n"@ =~= seq!['\n']);
    }
    string_of(&out)
}

} // verus!
