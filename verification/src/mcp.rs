//! The review-target arguments of the agent tool interface and the rules
//! that turn them into review options.
use vstd::prelude::*;
use crate::cli::{DEFAULT_PORT, out_of_range_message, validate_port};
use crate::text::{chars_of, equals_str, extend_str, string_of};
use crate::types::{CliOptions, opt_str};

verus! {

/// Review-target selection of the `start_review` tool. Every field is
/// optional; nothing given reviews the last pushed commit against `HEAD`.
#[derive(Debug)]
pub struct StartReviewArgs {
    /// `staged`, `unstaged`, `working`, `all` or `commits`.
    pub mode: Option<String>,
    /// Base ref to diff against.
    pub base: Option<String>,
    /// Base commit (needed by mode `commits`).
    pub commit1: Option<String>,
    /// Head commit of mode `commits` (`HEAD` by default).
    pub commit2: Option<String>,
    /// Unified diff context lines (the configured width by default).
    pub context: Option<u32>,
    /// Fetch before resolving the range.
    pub fetch: Option<bool>,
    /// Include untracked files (mode `all` only).
    pub include_untracked: Option<bool>,
    /// The TCP port the review server listens on (1-65535; 8989 by default).
    pub port: Option<u16>,
    /// Do not open a browser.
    pub no_open: Option<bool>,
    /// Where to also write the review markdown.
    pub output: Option<String>,
    /// Serve the frontend from this directory.
    pub frontend_dir: Option<String>,
}

impl Default for StartReviewArgs {
    /// Nothing given.
    fn default() -> (r: Self)
        ensures
            r.mode is None && r.base is None && r.commit1 is None && r.commit2 is None,
            r.context is None && r.fetch is None && r.include_untracked is None && r.port is None,
            r.no_open is None && r.output is None && r.frontend_dir is None,
    {
        StartReviewArgs {
            mode: None,
            base: None,
            commit1: None,
            commit2: None,
            context: None,
            fetch: None,
            include_untracked: None,
            port: None,
            no_open: None,
            output: None,
            frontend_dir: None,
        }
    }
}

/// Why tool arguments are refused.
#[derive(Debug, PartialEq, Eq)]
pub enum ArgsError {
    /// The port is outside `1..=65535`; the message says so.
    Port(String),
    /// Mode `commits` without `commit1`.
    MissingCommit1,
    /// A mode that is not one of the five.
    UnknownMode(String),
    /// A working-tree mode (`staged`, `unstaged`, `working` or `all`)
    /// together with `commit1` or `commit2`, which the command line refuses
    /// too; it carries the mode.
    ModeWithCommits(String),
}

/// The message of a refusal.
pub open spec fn args_error_message(e: ArgsError) -> Seq<char> {
    match e {
        ArgsError::Port(m) => m@,
        ArgsError::MissingCommit1 => "mode \"commits\" requires commit1"@,
        ArgsError::UnknownMode(m) => "unknown mode \""@ + m@ + "\"; expected staged|unstaged|working|all|commits"@,
        ArgsError::ModeWithCommits(m) => "mode \""@ + m@ + "\" cannot be combined with commit1/commit2"@,
    }
}

impl ArgsError {
    /// The message of the refusal.
    pub fn message(&self) -> (r: String)
        ensures
            r@ == args_error_message(*self),
    {
        match self {
            ArgsError::Port(m) => m.clone(),
            ArgsError::MissingCommit1 => String::from_str("mode \"commits\" requires commit1"),
            ArgsError::UnknownMode(m) => {
                let mut v: Vec<char> = Vec::new();
                extend_str(&mut v, "unknown mode \"");
                extend_str(&mut v, m.as_str());
                extend_str(&mut v, "\"; expected staged|unstaged|working|all|commits");
                string_of(&v)
            },
            ArgsError::ModeWithCommits(m) => {
                let mut v: Vec<char> = Vec::new();
                extend_str(&mut v, "mode \"");
                extend_str(&mut v, m.as_str());
                extend_str(&mut v, "\" cannot be combined with commit1/commit2");
                string_of(&v)
            },
        }
    }
}

/// Whether a mode name is one of the five review modes.
pub open spec fn known_mode(m: Seq<char>) -> bool {
    m == "staged"@ || m == "unstaged"@ || m == "working"@ || m == "all"@ || m == "commits"@
}

proof fn lemma_mode_names_distinct()
    ensures
        "staged"@ != "unstaged"@ && "staged"@ != "working"@ && "staged"@ != "all"@ && "staged"@ != "commits"@,
        "unstaged"@ != "working"@ && "unstaged"@ != "all"@ && "unstaged"@ != "commits"@,
        "working"@ != "all"@ && "working"@ != "commits"@,
        "all"@ != "commits"@,
{
    reveal_strlit("staged");
    reveal_strlit("unstaged");
    reveal_strlit("working");
    reveal_strlit("all");
    reveal_strlit("commits");
    assert("staged"@.len() == 6);
    assert("unstaged"@.len() == 8);
    assert("working"@.len() == 7);
    assert("all"@.len() == 3);
    assert("commits"@.len() == 7);
    assert("working"@[0] != "commits"@[0]);
}

impl StartReviewArgs {
    /// Turns tool arguments into review options under the command line's
    /// rules. Refused, in this order of checking: a port outside
    /// `1..=65535`, an unknown mode, a working-tree mode together with
    /// `commit1` or `commit2` (as the command line refuses a mode flag with
    /// positional commits), and mode `commits` without `commit1`.
    pub fn into_options(self, default_context: u32) -> (r: Result<CliOptions, ArgsError>)
        ensures
            ({
                let mode = opt_str(self.mode);
                if self.port is Some && !(1 <= self.port->0 <= 65535) {
                    r matches Err(ArgsError::Port(m)) && m@ == out_of_range_message(self.port->0 as nat)
                } else if mode is Some && !known_mode(mode->0) {
                    r matches Err(ArgsError::UnknownMode(n)) && n@ == mode->0
                } else if mode is Some && mode != Some("commits"@) && (self.commit1 is Some || self.commit2 is Some) {
                    r matches Err(ArgsError::ModeWithCommits(n)) && n@ == mode->0
                } else if mode == Some("commits"@) && self.commit1 is None {
                    r == Err::<CliOptions, ArgsError>(ArgsError::MissingCommit1)
                } else {
                    r matches Ok(o) && {
                        &&& o.port == match self.port {
                            Some(p) => p,
                            None => DEFAULT_PORT,
                        }
                        &&& o.context == match self.context {
                            Some(c) => c,
                            None => default_context,
                        }
                        &&& opt_str(o.base) == opt_str(self.base)
                        &&& o.fetch == (self.fetch == Some(true))
                        &&& o.no_open == (self.no_open == Some(true))
                        &&& opt_str(o.output) == opt_str(self.output)
                        &&& opt_str(o.frontend_dir) == opt_str(self.frontend_dir)
                        &&& o.staged == (mode == Some("staged"@))
                        &&& o.unstaged == (mode == Some("unstaged"@))
                        &&& o.working == (mode == Some("working"@))
                        &&& o.all == (mode == Some("all"@))
                        &&& !o.tui
                        &&& crate::cli::opt_commits(o.commits) == if mode == Some("commits"@) {
                            Some((opt_str(self.commit1)->0, match opt_str(self.commit2) {
                                Some(c) => c,
                                None => "HEAD"@,
                            }))
                        } else {
                            None
                        }
                    }
                }
            }),
    {
        proof {
            lemma_mode_names_distinct();
        }
        let port = match self.port {
            Some(p) => match validate_port(p as usize) {
                Ok(v) => v,
                Err(m) => {
                    return Err(ArgsError::Port(m));
                },
            },
            None => DEFAULT_PORT,
        };
        let mut opts = CliOptions {
            port,
            base: self.base,
            no_open: match self.no_open {
                Some(b) => b,
                None => false,
            },
            output: self.output,
            commits: None,
            staged: false,
            unstaged: false,
            working: false,
            fetch: match self.fetch {
                Some(b) => b,
                None => false,
            },
            tui: false,
            all: false,
            context: match self.context {
                Some(c) => c,
                None => default_context,
            },
            frontend_dir: self.frontend_dir,
        };
        let has_commits = self.commit1.is_some() || self.commit2.is_some();
        match self.mode {
            None => {},
            Some(m) => {
                let chars = chars_of(m.as_str());
                let tree_mode = equals_str(&chars, "staged") || equals_str(&chars, "unstaged")
                    || equals_str(&chars, "working") || equals_str(&chars, "all");
                if tree_mode && has_commits {
                    return Err(ArgsError::ModeWithCommits(m));
                }
                if equals_str(&chars, "staged") {
                    opts.staged = true;
                } else if equals_str(&chars, "unstaged") {
                    opts.unstaged = true;
                } else if equals_str(&chars, "working") {
                    opts.working = true;
                } else if equals_str(&chars, "all") {
                    opts.all = true;
                } else if equals_str(&chars, "commits") {
                    let c1 = match self.commit1 {
                        Some(c) => c,
                        None => {
                            return Err(ArgsError::MissingCommit1);
                        },
                    };
                    let c2 = match self.commit2 {
                        Some(c) => c,
                        None => String::from_str("HEAD"),
                    };
                    opts.commits = Some([c1, c2]);
                } else {
                    return Err(ArgsError::UnknownMode(m));
                }
            },
        }
        Ok(opts)
    }
}

} // verus!
