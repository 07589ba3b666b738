//! Command-line options: the port syntax and the rules that turn parsed
//! arguments into review options.
use vstd::prelude::*;
use crate::diff_parser::{digit_value, digits_value, is_digit};
use crate::text::{chars_of, decimal, extend_str, push_decimal, string_of};
use crate::types::{CliOptions, opt_str};

verus! {

/// The command line as parsed: two optional positional commits and the
/// flags.
#[derive(Debug)]
pub struct Cli {
    /// Base commit (defaults to the last pushed commit).
    pub commit1: Option<String>,
    /// Head commit (defaults to `HEAD`).
    pub commit2: Option<String>,
    /// The TCP port the review server listens on (the next free one is taken when it is busy).
    pub port: u16,
    /// Base ref to diff against.
    pub base: Option<String>,
    /// Whether to open a browser (`--no-open` clears it).
    pub open: bool,
    /// Where to write the review markdown.
    pub output: Option<String>,
    pub staged: bool,
    pub unstaged: bool,
    pub working: bool,
    pub fetch: bool,
    pub tui: bool,
    /// Unified diff context lines; overrides the configured width.
    pub context: Option<u32>,
    pub all: bool,
    /// Serve the frontend from this directory.
    pub frontend_dir: Option<String>,
}

/// The port the review server listens on when none is given.
pub const DEFAULT_PORT: u16 = 8989;

/// The value of an unsigned decimal number in std's syntax: an optional `+`
/// and one or more ASCII digits; `None` for anything else.
pub open spec fn unsigned_value(s: Seq<char>) -> Option<nat> {
    let d = unsigned_digits(s);
    if d.len() > 0 && all_digits(d) {
        Some(digits_value(d, 0, d.len() as int))
    } else {
        None
    }
}

/// `s` without a leading `+`.
pub open spec fn unsigned_digits(s: Seq<char>) -> Seq<char> {
    if s.len() > 0 && s[0] == '+' { s.drop_first() } else { s }
}

/// Every character of `d` is an ASCII digit.
pub open spec fn all_digits(d: Seq<char>) -> bool {
    forall|i: int| 0 <= i < d.len() ==> #[trigger] is_digit(d[i])
}

/// The message for a port outside `1..=65535`.
pub open spec fn out_of_range_message(port: nat) -> Seq<char> {
    "port not in range 1-65535, got "@ + decimal(port)
}

/// The message for text that is not a port number.
pub open spec fn not_a_port_message(s: Seq<char>) -> Seq<char> {
    "`"@ + s + "` isn't a port number"@
}

/// Accepts a port in `1..=65535`.
pub fn validate_port(port: usize) -> (r: Result<u16, String>)
    ensures
        match r {
            Ok(p) => 1 <= port <= 65535 && p == port,
            Err(m) => !(1 <= port <= 65535) && m@ == out_of_range_message(port as nat),
        },
{
    if 1 <= port && port <= 65535 {
        Ok(port as u16)
    } else {
        let mut m: Vec<char> = Vec::new();
        extend_str(&mut m, "port not in range 1-65535, got ");
        push_decimal(&mut m, port as u64);
        Err(string_of(&m))
    }
}

/// The value of `s` in std's unsigned decimal syntax, when it is at most
/// `max`; `None` when `s` is not such a number or exceeds `max`.
pub fn parse_unsigned(s: &Vec<char>, max: u64) -> (r: Option<u64>)
    ensures
        match r {
            Some(v) => unsigned_value(s@) == Some(v as nat) && v <= max,
            None => unsigned_value(s@) matches Some(v) ==> v > max,
        },
{
    let start: usize = if s.len() > 0 && s[0] == '+' { 1 } else { 0 };
    let ghost d = unsigned_digits(s@);
    assert(d =~= s@.skip(start as int));
    if start >= s.len() {
        return None;
    }
    let mut value: Option<u64> = Some(0);
    let mut i: usize = start;
    while i < s.len()
        invariant
            start <= i <= s@.len(),
            start < s@.len(),
            d == s@.skip(start as int),
            d == unsigned_digits(s@),
            forall|k: int| 0 <= k < i - start ==> #[trigger] is_digit(d[k]),
            value matches Some(v) ==> v as nat == digits_value(d, 0, i - start) && v <= max,
            value is None ==> digits_value(d, 0, i - start) > max,
        decreases s@.len() - i,
    {
        let c = s[i];
        if !('0' <= c && c <= '9') {
            assert(!is_digit(d[i - start]));
            return None;
        }
        let digit = (c as u32 - '0' as u32) as u64;
        assert(digit as nat == digit_value(d[i - start]));
        proof {
            assert(digits_value(d, 0, i - start + 1) == digits_value(d, 0, i - start) * 10 + digit_value(d[i - start]));
        }
        value = match value {
            Some(v) => if digit <= max && v <= (max - digit) / 10 {
                assert(v * 10 + digit <= max) by (nonlinear_arith)
                    requires
                        v <= (max - digit) / 10,
                        digit <= max,
                ;
                Some(v * 10 + digit)
            } else {
                if digit <= max {
                    assert(v * 10 + digit > max) by (nonlinear_arith)
                        requires
                            v > (max - digit) / 10,
                            digit <= max,
                    ;
                }
                None
            },
            None => None,
        };
        i = i + 1;
    }
    value
}

/// Parses a `--port` value: a number in `1..=65535`. Text that is not a
/// number (or one too large for a `usize`) is refused as not a port number.
pub fn port_in_range(s: &str) -> (r: Result<u16, String>)
    ensures
        match unsigned_value(s@) {
            Some(v) => if v > usize::MAX {
                r is Err && r->Err_0@ == not_a_port_message(s@)
            } else if 1 <= v <= 65535 {
                r is Ok && r->Ok_0 == v
            } else {
                r is Err && r->Err_0@ == out_of_range_message(v)
            },
            None => r is Err && r->Err_0@ == not_a_port_message(s@),
        },
{
    let chars = chars_of(s);
    match parse_unsigned(&chars, usize::MAX as u64) {
        Some(port) => validate_port(port as usize),
        None => {
            let mut m: Vec<char> = Vec::new();
            extend_str(&mut m, "`");
            extend_str(&mut m, s);
            extend_str(&mut m, "` isn't a port number");
            Err(string_of(&m))
        },
    }
}

/// Why a command line is refused.
#[derive(Debug, Clone, Copy, PartialEq, Eq, Structural)]
pub enum CliError {
    /// More than one of `--staged`, `--unstaged`, `--working`, `--all`.
    ModesExclusive,
    /// A mode flag together with positional commits.
    ModeWithCommits,
}

/// The message of a refusal.
pub open spec fn cli_error_message(e: CliError) -> Seq<char> {
    match e {
        CliError::ModesExclusive => "--staged, --unstaged, --working, and --all are mutually exclusive"@,
        CliError::ModeWithCommits => "--staged, --unstaged, --working, and --all cannot be combined with positional commits"@,
    }
}

impl CliError {
    /// The message of the refusal.
    pub fn message(&self) -> (r: String)
        ensures
            r@ == cli_error_message(*self),
    {
        match self {
            CliError::ModesExclusive => String::from_str("--staged, --unstaged, --working, and --all are mutually exclusive"),
            CliError::ModeWithCommits => String::from_str("--staged, --unstaged, --working, and --all cannot be combined with positional commits"),
        }
    }
}

/// How many of the mode flags are set.
pub open spec fn mode_count(staged: bool, unstaged: bool, working: bool, all: bool) -> nat {
    (if staged { 1nat } else { 0nat }) + (if unstaged { 1nat } else { 0nat }) + (if working { 1nat } else { 0nat })
        + (if all { 1nat } else { 0nat })
}

/// The refusal a command line earns, if any.
pub open spec fn cli_error(cli: Cli) -> Option<CliError> {
    let n = mode_count(cli.staged, cli.unstaged, cli.working, cli.all);
    if n > 1 {
        Some(CliError::ModesExclusive)
    } else if n > 0 && (cli.commit1 is Some || cli.commit2 is Some) {
        Some(CliError::ModeWithCommits)
    } else {
        None
    }
}

/// The commit pair of the positional commits: both when both are given, the
/// first with `HEAD` when only the first is; none otherwise.
pub open spec fn commits_of(c1: Option<Seq<char>>, c2: Option<Seq<char>>) -> Option<(Seq<char>, Seq<char>)> {
    match c1 {
        Some(a) => match c2 {
            Some(b) => Some((a, b)),
            None => Some((a, "HEAD"@)),
        },
        None => None,
    }
}

/// The view of an optional commit pair.
pub open spec fn opt_commits(o: Option<[String; 2]>) -> Option<(Seq<char>, Seq<char>)> {
    match o {
        Some(c) => Some((c@[0]@, c@[1]@)),
        None => None,
    }
}

/// Turns a parsed command line into review options. More than one mode flag,
/// or a mode flag with positional commits, is refused; the context width is
/// the command line's, else `default_context`.
pub fn cli_to_options(cli: Cli, default_context: u32) -> (r: Result<CliOptions, CliError>)
    ensures
        match r {
            Err(e) => cli_error(cli) == Some(e),
            Ok(o) => {
                &&& cli_error(cli) is None
                &&& o.port == cli.port
                &&& opt_str(o.base) == opt_str(cli.base)
                &&& o.no_open == !cli.open
                &&& opt_str(o.output) == opt_str(cli.output)
                &&& opt_commits(o.commits) == commits_of(opt_str(cli.commit1), opt_str(cli.commit2))
                &&& o.staged == cli.staged
                &&& o.unstaged == cli.unstaged
                &&& o.working == cli.working
                &&& o.fetch == cli.fetch
                &&& o.tui == cli.tui
                &&& o.all == cli.all
                &&& o.context == match cli.context {
                    Some(c) => c,
                    None => default_context,
                }
                &&& opt_str(o.frontend_dir) == opt_str(cli.frontend_dir)
            },
        },
{
    let mut mode_flags: u32 = 0;
    if cli.staged {
        mode_flags = mode_flags + 1;
    }
    if cli.unstaged {
        mode_flags = mode_flags + 1;
    }
    if cli.working {
        mode_flags = mode_flags + 1;
    }
    if cli.all {
        mode_flags = mode_flags + 1;
    }
    if mode_flags > 1 {
        return Err(CliError::ModesExclusive);
    }
    if mode_flags > 0 && (cli.commit1.is_some() || cli.commit2.is_some()) {
        return Err(CliError::ModeWithCommits);
    }
    let commits = match cli.commit1 {
        Some(a) => match cli.commit2 {
            Some(b) => Some([a, b]),
            None => Some([a, String::from_str("HEAD")]),
        },
        None => None,
    };
    Ok(CliOptions {
        port: cli.port,
        base: cli.base,
        no_open: !cli.open,
        output: cli.output,
        commits,
        staged: cli.staged,
        unstaged: cli.unstaged,
        working: cli.working,
        fetch: cli.fetch,
        tui: cli.tui,
        all: cli.all,
        context: match cli.context {
            Some(c) => c,
            None => default_context,
        },
        frontend_dir: cli.frontend_dir,
    })
}

/// A command line is refused exactly when two mode flags are set, or one
/// together with a positional commit; the review modes are then mutually
/// exclusive in every accepted command line.
pub proof fn lemma_modes_exclusive(cli: Cli)
    ensures
        cli_error(cli) is None ==> mode_count(cli.staged, cli.unstaged, cli.working, cli.all) <= 1,
        cli_error(cli) is None && mode_count(cli.staged, cli.unstaged, cli.working, cli.all) == 1
            ==> cli.commit1 is None && cli.commit2 is None,
{
}

} // verus!
