//! The review data model: comments, parsed diffs, review metadata and session
//! records, with their mathematical views.
use vstd::prelude::*;

verus! {

/// What a comment is attached to.
#[derive(Debug, Clone, Copy, PartialEq, Eq, Structural)]
pub enum CommentType {
    Line,
    Range,
    File,
    Overall,
}

/// The intent of a comment: a fix, a question, a suggestion or a nit.
#[derive(Debug, Clone, Copy, PartialEq, Eq, Structural)]
pub enum CommentCategory {
    Fix,
    Question,
    Suggestion,
    Nit,
}

/// How a file changed between the two sides of a diff.
#[derive(Debug, Clone, Copy, PartialEq, Eq, Structural)]
pub enum FileStatus {
    Added,
    Modified,
    Deleted,
    Renamed,
    Copied,
}

/// Kind of one diff line.
#[derive(Debug, Clone, Copy, PartialEq, Eq, Structural)]
pub enum ChangeType {
    Insert,
    Delete,
    Normal,
}

/// Kind of a node in the sidebar file tree.
#[derive(Debug, Clone, Copy, PartialEq, Eq, Structural)]
pub enum TreeNodeType {
    File,
    Directory,
}

/// The view of an optional string.
pub open spec fn opt_str(o: Option<String>) -> Option<Seq<char>> {
    match o {
        Some(s) => Some(s@),
        None => None,
    }
}

/// The view of an optional line number.
pub open spec fn opt_nat(o: Option<u32>) -> Option<nat> {
    match o {
        Some(n) => Some(n as nat),
        None => None,
    }
}

/// A copy of an optional string.
pub fn clone_opt_string(o: &Option<String>) -> (r: Option<String>)
    ensures
        r == *o,
        opt_str(r) == opt_str(*o),
{
    match o {
        Some(s) => Some(s.clone()),
        None => None,
    }
}

/// A review comment.
#[derive(Debug, PartialEq)]
pub struct Comment {
    pub id: String,
    pub comment_type: CommentType,
    pub category: CommentCategory,
    pub text: String,
    pub file_path: Option<String>,
    pub start_line: Option<u32>,
    pub end_line: Option<u32>,
    pub side: Option<String>,
    pub created_at: String,
    pub updated_at: String,
}

/// The mathematical value of a [`Comment`].
pub struct CommentV {
    pub id: Seq<char>,
    pub comment_type: CommentType,
    pub category: CommentCategory,
    pub text: Seq<char>,
    pub file_path: Option<Seq<char>>,
    pub start_line: Option<nat>,
    pub end_line: Option<nat>,
    pub side: Option<Seq<char>>,
    pub created_at: Seq<char>,
    pub updated_at: Seq<char>,
}

impl View for Comment {
    type V = CommentV;

    open spec fn view(&self) -> CommentV {
        CommentV {
            id: self.id@,
            comment_type: self.comment_type,
            category: self.category,
            text: self.text@,
            file_path: opt_str(self.file_path),
            start_line: opt_nat(self.start_line),
            end_line: opt_nat(self.end_line),
            side: opt_str(self.side),
            created_at: self.created_at@,
            updated_at: self.updated_at@,
        }
    }
}

impl Clone for Comment {
    fn clone(&self) -> (r: Self)
        ensures
            r == *self,
    {
        Comment {
            id: self.id.clone(),
            comment_type: self.comment_type,
            category: self.category,
            text: self.text.clone(),
            file_path: clone_opt_string(&self.file_path),
            start_line: self.start_line,
            end_line: self.end_line,
            side: clone_opt_string(&self.side),
            created_at: self.created_at.clone(),
            updated_at: self.updated_at.clone(),
        }
    }
}

impl Default for Comment {
    /// An empty fix line comment with no target.
    fn default() -> (r: Self)
        ensures
            r.id@.len() == 0,
            r.comment_type == CommentType::Line,
            r.category == CommentCategory::Fix,
            r.text@.len() == 0,
            r.file_path is None,
            r.start_line is None,
            r.end_line is None,
            r.side is None,
            r.created_at@.len() == 0,
            r.updated_at@.len() == 0,
    {
        Comment {
            id: String::new(),
            comment_type: CommentType::Line,
            category: CommentCategory::Fix,
            text: String::new(),
            file_path: None,
            start_line: None,
            end_line: None,
            side: None,
            created_at: String::new(),
            updated_at: String::new(),
        }
    }
}

/// The views of a sequence of comments.
pub open spec fn comments_view(s: Seq<Comment>) -> Seq<CommentV> {
    s.map_values(|c: Comment| c@)
}

/// Options resolved from the command line (or from an agent's tool call).
#[derive(Debug, PartialEq)]
pub struct CliOptions {
    pub port: u16,
    pub base: Option<String>,
    pub no_open: bool,
    pub output: Option<String>,
    pub commits: Option<[String; 2]>,
    pub staged: bool,
    pub unstaged: bool,
    pub working: bool,
    pub fetch: bool,
    pub tui: bool,
    pub all: bool,
    /// Resolved unified diff context lines (CLI `-U` > config > default 3).
    pub context: u32,
    pub frontend_dir: Option<String>,
}

impl Default for CliOptions {
    /// All flags off, no refs or paths, port and context 0.
    fn default() -> (r: Self)
        ensures
            r.port == 0,
            r.base is None,
            !r.no_open,
            r.output is None,
            r.commits is None,
            !r.staged && !r.unstaged && !r.working && !r.fetch && !r.tui && !r.all,
            r.context == 0,
            r.frontend_dir is None,
    {
        CliOptions {
            port: 0,
            base: None,
            no_open: false,
            output: None,
            commits: None,
            staged: false,
            unstaged: false,
            working: false,
            fetch: false,
            tui: false,
            all: false,
            context: 0,
            frontend_dir: None,
        }
    }
}

/// One changed file as listed in the review metadata.
#[derive(Debug, PartialEq)]
pub struct FileChange {
    pub path: String,
    pub old_path: Option<String>,
    pub status: FileStatus,
    pub additions: u32,
    pub deletions: u32,
}

impl Clone for FileChange {
    fn clone(&self) -> (r: Self)
        ensures
            r == *self,
    {
        FileChange {
            path: self.path.clone(),
            old_path: clone_opt_string(&self.old_path),
            status: self.status,
            additions: self.additions,
            deletions: self.deletions,
        }
    }
}

/// Header data of a review.
#[derive(Debug, Clone, PartialEq)]
pub struct ReviewMetadata {
    pub repo_name: String,
    pub commit_range: String,
    pub base_ref: String,
    pub head_ref: String,
    pub files: Vec<FileChange>,
    pub timestamp: String,
    pub csrf_token: String,
}

/// All parsed file diffs of a review.
#[derive(Debug, Clone, PartialEq)]
pub struct DiffResponse {
    pub files: Vec<ParsedFileDiff>,
}

/// One file of a parsed unified diff.
#[derive(Debug, PartialEq)]
pub struct ParsedFileDiff {
    pub old_path: String,
    pub new_path: String,
    pub hunks: Vec<Hunk>,
    pub status: FileStatus,
    pub additions: u32,
    pub deletions: u32,
    pub is_binary: bool,
    pub is_large: bool,
}

/// One hunk of a parsed file diff.
#[derive(Debug, PartialEq)]
pub struct Hunk {
    pub old_start: u32,
    pub old_lines: u32,
    pub new_start: u32,
    pub new_lines: u32,
    pub content: String,
    pub changes: Vec<Change>,
}

/// One line of a hunk.
#[derive(Debug, PartialEq)]
pub struct Change {
    pub change_type: ChangeType,
    pub old_line_number: Option<u32>,
    pub new_line_number: Option<u32>,
    pub content: String,
}

/// The mathematical value of a [`Change`].
pub struct ChangeV {
    pub change_type: ChangeType,
    pub old_line_number: Option<nat>,
    pub new_line_number: Option<nat>,
    pub content: Seq<char>,
}

/// The mathematical value of a [`Hunk`].
pub struct HunkV {
    pub old_start: nat,
    pub old_lines: nat,
    pub new_start: nat,
    pub new_lines: nat,
    pub content: Seq<char>,
    pub changes: Seq<ChangeV>,
}

/// The mathematical value of a [`ParsedFileDiff`].
pub struct FileDiffV {
    pub old_path: Seq<char>,
    pub new_path: Seq<char>,
    pub hunks: Seq<HunkV>,
    pub status: FileStatus,
    pub additions: nat,
    pub deletions: nat,
    pub is_binary: bool,
    pub is_large: bool,
}

impl View for Change {
    type V = ChangeV;

    open spec fn view(&self) -> ChangeV {
        ChangeV {
            change_type: self.change_type,
            old_line_number: opt_nat(self.old_line_number),
            new_line_number: opt_nat(self.new_line_number),
            content: self.content@,
        }
    }
}

impl Clone for Change {
    fn clone(&self) -> (r: Self)
        ensures
            r == *self,
    {
        Change {
            change_type: self.change_type,
            old_line_number: self.old_line_number,
            new_line_number: self.new_line_number,
            content: self.content.clone(),
        }
    }
}

impl Clone for Hunk {
    fn clone(&self) -> (r: Self)
        ensures
            r@ == self@,
    {
        let changes = self.changes.clone();
        assert(changes_view(changes@) =~= changes_view(self.changes@));
        Hunk {
            old_start: self.old_start,
            old_lines: self.old_lines,
            new_start: self.new_start,
            new_lines: self.new_lines,
            content: self.content.clone(),
            changes,
        }
    }
}

impl Clone for ParsedFileDiff {
    fn clone(&self) -> (r: Self)
        ensures
            r@ == self@,
    {
        let hunks = self.hunks.clone();
        assert(hunks_view(hunks@) =~= hunks_view(self.hunks@));
        ParsedFileDiff {
            old_path: self.old_path.clone(),
            new_path: self.new_path.clone(),
            hunks,
            status: self.status,
            additions: self.additions,
            deletions: self.deletions,
            is_binary: self.is_binary,
            is_large: self.is_large,
        }
    }
}

/// The views of a sequence of changes.
pub open spec fn changes_view(s: Seq<Change>) -> Seq<ChangeV> {
    s.map_values(|c: Change| c@)
}

impl View for Hunk {
    type V = HunkV;

    open spec fn view(&self) -> HunkV {
        HunkV {
            old_start: self.old_start as nat,
            old_lines: self.old_lines as nat,
            new_start: self.new_start as nat,
            new_lines: self.new_lines as nat,
            content: self.content@,
            changes: changes_view(self.changes@),
        }
    }
}

/// The views of a sequence of hunks.
pub open spec fn hunks_view(s: Seq<Hunk>) -> Seq<HunkV> {
    s.map_values(|h: Hunk| h@)
}

impl View for ParsedFileDiff {
    type V = FileDiffV;

    open spec fn view(&self) -> FileDiffV {
        FileDiffV {
            old_path: self.old_path@,
            new_path: self.new_path@,
            hunks: hunks_view(self.hunks@),
            status: self.status,
            additions: self.additions as nat,
            deletions: self.deletions as nat,
            is_binary: self.is_binary,
            is_large: self.is_large,
        }
    }
}

/// The views of a sequence of file diffs.
pub open spec fn files_view(s: Seq<ParsedFileDiff>) -> Seq<FileDiffV> {
    s.map_values(|f: ParsedFileDiff| f@)
}

/// Body of the web UI's "finish review" request.
#[derive(Debug, Clone, PartialEq)]
pub struct FinishRequest {
    pub comments: Vec<Comment>,
    pub reviewed_files: Vec<String>,
    pub metadata: FinishMetadata,
    pub _csrf: String,
}

/// Metadata sent along with a finished review.
#[derive(Debug, Clone, PartialEq)]
pub struct FinishMetadata {
    pub commit_range: String,
    pub timestamp: String,
}

/// Reply to a finished review.
#[derive(Debug, Clone, PartialEq)]
pub struct FinishResponse {
    pub success: bool,
    pub output_path: String,
    pub markdown: String,
}

/// A session snapshot posted by the web UI.
#[derive(Debug, Clone, PartialEq)]
pub struct SessionBackup {
    pub session: ReviewSession,
    pub _csrf: String,
}

/// Persisted per-range review state.
#[derive(Debug, Clone, PartialEq)]
pub struct ReviewSession {
    pub version: u32,
    pub commit_range: String,
    pub repo_path: String,
    pub repo_path_hash: String,
    pub comments: Vec<Comment>,
    pub reviewed_files: Vec<String>,
    pub view_mode: String,
    pub created_at: String,
    pub last_accessed_at: String,
}

/// The web UI's stored preferences.
#[derive(Debug, Clone, PartialEq)]
pub struct UserPreferences {
    pub theme: String,
}

/// A node of the sidebar file tree.
#[derive(Debug, PartialEq)]
pub struct FileTreeNode {
    pub name: String,
    pub path: String,
    pub node_type: TreeNodeType,
    pub children: Option<Vec<FileTreeNode>>,
    pub status: Option<FileStatus>,
    pub additions: Option<u32>,
    pub deletions: Option<u32>,
    pub is_reviewed: bool,
    pub comment_count: u32,
}

} // verus!
