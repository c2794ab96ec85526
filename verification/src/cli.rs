//! Command-line options of the client, read as tmux's getopt reads them.
//!
//! Options come first, each group after a `-`: the flags `C`, `N`, `V` and
//! the ignored `2`, `D`, `l`, `u`, `v`, and `f`, `L`, `S`, `c`, which take a
//! value from the rest of their group or from the next argument. The first
//! argument that does not start with `-`, or the one after `--`, starts the
//! command.

use vstd::prelude::*;
use crate::text::{push_all, push_char, str_chars, string_from_chars, chars_range};

verus! {

/// Parsed CLI options.
#[derive(Debug)]
pub struct ClientOptions {
    pub socket_name: String,
    pub socket_path: Option<String>,
    pub config_file: Option<String>,
    pub shell_command: Option<String>,
    pub no_start_server: bool,
    /// Control mode (-C flag, tmux -CC).
    pub control_mode: bool,
    /// Index into the original args where the command starts.
    pub command_start: usize,
}

/// Result of successfully parsing CLI arguments.
#[derive(Debug)]
pub enum ParseResult {
    Run(ClientOptions),
    Version,
}

/// Errors of the command line.
#[derive(Debug, Clone, Copy, PartialEq, Eq, Structural)]
pub enum ParseError {
    /// An option that takes a value came last, without one.
    MissingArgument(char),
    /// A character that is no option.
    UnknownOption(char),
}

/// The options as plain values, without the command start.
pub struct OptionsView {
    pub socket_name: Seq<char>,
    pub socket_path: Option<Seq<char>>,
    pub config_file: Option<Seq<char>>,
    pub shell_command: Option<Seq<char>>,
    pub no_start_server: bool,
    pub control_mode: bool,
}

/// What parsing comes to.
pub enum ParseOutcome {
    /// Run with these options; the command starts at this argument.
    Run(OptionsView, int),
    /// Print the version.
    Version,
    /// Refused.
    Error(ParseError),
}

/// The view of an optional string.
pub open spec fn opt_view(s: Option<String>) -> Option<Seq<char>> {
    match s {
        Some(v) => Some(v@),
        None => None,
    }
}

/// The options of `o` as plain values.
pub open spec fn options_view(o: ClientOptions) -> OptionsView {
    OptionsView {
        socket_name: o.socket_name@,
        socket_path: opt_view(o.socket_path),
        config_file: opt_view(o.config_file),
        shell_command: opt_view(o.shell_command),
        no_start_server: o.no_start_server,
        control_mode: o.control_mode,
    }
}

/// The options before any argument: socket `default`, nothing else set.
pub open spec fn default_options() -> OptionsView {
    OptionsView {
        socket_name: seq!['d', 'e', 'f', 'a', 'u', 'l', 't'],
        socket_path: None,
        config_file: None,
        shell_command: None,
        no_start_server: false,
        control_mode: false,
    }
}

/// The character that an unknown option is reported as: the first byte of
/// its UTF-8 encoding, read as a Latin-1 character (the character itself
/// when it is ASCII).
pub open spec fn option_byte_char(c: char) -> char {
    let v = c as u32;
    let b: u32 = if v < 0x80 {
        v
    } else if v < 0x800 {
        (0xC0 + v / 64) as u32
    } else if v < 0x10000 {
        (0xE0 + v / 4096) as u32
    } else {
        (0xF0 + v / 262144) as u32
    };
    b as char
}

/// `--`
pub open spec fn double_dash() -> Seq<char> {
    seq!['-', '-']
}

/// `o` with the value of option `c` (one of `f`, `L`, `S`, `c`) set to `v`.
pub open spec fn with_value(o: OptionsView, c: char, v: Seq<char>) -> OptionsView {
    if c == 'f' {
        OptionsView { config_file: Some(v), ..o }
    } else if c == 'L' {
        OptionsView { socket_name: v, ..o }
    } else if c == 'S' {
        OptionsView { socket_path: Some(v), ..o }
    } else {
        OptionsView { shell_command: Some(v), ..o }
    }
}

/// Whether option `c` takes a value.
pub open spec fn takes_value(c: char) -> bool {
    c == 'f' || c == 'L' || c == 'S' || c == 'c'
}

/// Whether `c` is a flag that is accepted and ignored.
pub open spec fn ignored_flag(c: char) -> bool {
    c == '2' || c == 'D' || c == 'l' || c == 'u' || c == 'v'
}

/// Parsing from argument `i`, at character `j` of it (`j == 0`: at its
/// start), with the options `o` read so far.
pub open spec fn parse_at(args: Seq<Seq<char>>, i: int, j: int, o: OptionsView) -> ParseOutcome
    decreases args.len() - i, args[i].len() + 1 - j,
{
    if i < 0 || i >= args.len() {
        ParseOutcome::Run(o, i)
    } else {
        let a = args[i];
        if j <= 0 {
            if !(a.len() > 0 && a[0] == '-') {
                ParseOutcome::Run(o, i)
            } else if a == double_dash() {
                ParseOutcome::Run(o, i + 1)
            } else {
                parse_at(args, i, 1, o)
            }
        } else if j >= a.len() {
            parse_at(args, i + 1, 0, o)
        } else {
            let c = a[j];
            if c == 'C' {
                parse_at(args, i, j + 1, OptionsView { control_mode: true, ..o })
            } else if ignored_flag(c) {
                parse_at(args, i, j + 1, o)
            } else if c == 'N' {
                parse_at(args, i, j + 1, OptionsView { no_start_server: true, ..o })
            } else if c == 'V' {
                ParseOutcome::Version
            } else if takes_value(c) {
                if j + 1 < a.len() {
                    parse_at(args, i + 1, 0, with_value(o, c, a.subrange(j + 1, a.len() as int)))
                } else if i + 1 < args.len() {
                    parse_at(args, i + 2, 0, with_value(o, c, args[i + 1]))
                } else {
                    ParseOutcome::Error(ParseError::MissingArgument(c))
                }
            } else {
                ParseOutcome::Error(ParseError::UnknownOption(option_byte_char(c)))
            }
        }
    }
}

/// What parsing the arguments `args` (the program name first) comes to.
pub open spec fn parse_outcome(args: Seq<Seq<char>>) -> ParseOutcome {
    parse_at(args, 1, 0, default_options())
}

/// The character an unknown option is reported as.
fn option_char(c: char) -> (r: char)
    ensures
        r == option_byte_char(c),
{
    let v = c as u32;
    let b: u32 = if v < 0x80 {
        v
    } else if v < 0x800 {
        0xC0 + v / 64
    } else if v < 0x10000 {
        0xE0 + v / 4096
    } else {
        0xF0 + v / 262144
    };
    assert(b < 256) by {
        assert(v <= 0x10FFFF);
    }
    let byte = b as u8;
    byte as char
}

/// A copy of a string.
fn copy_string(s: &String) -> (r: String)
    ensures
        r@ == s@,
{
    s.clone()
}

/// Parse rmux CLI arguments (matches tmux getopt behavior).
pub fn parse_args(args: &[String]) -> (r: Result<ParseResult, ParseError>)
    ensures
        match parse_outcome(args@.map_values(|s: String| s@)) {
            ParseOutcome::Run(o, start) => r matches Ok(ParseResult::Run(opts))
                && options_view(opts) == o && opts.command_start == start,
            ParseOutcome::Version => r matches Ok(ParseResult::Version),
            ParseOutcome::Error(e) => r == Err::<ParseResult, ParseError>(e),
        },
{
    let ghost av = args@.map_values(|s: String| s@);
    let mut opts = ClientOptions {
        socket_name: string_from_chars(&['d', 'e', 'f', 'a', 'u', 'l', 't']),
        socket_path: None,
        config_file: None,
        shell_command: None,
        no_start_server: false,
        control_mode: false,
        command_start: 0,
    };
    proof {
        assert(opts.socket_name@ =~= default_options().socket_name);
    }
    let n = args.len();
    let mut i: usize = 1;
    let mut j: usize = 0;
    let mut cur: Vec<char> = Vec::new();
    while i < n
        invariant
            n == args@.len(),
            av == args@.map_values(|s: String| s@),
            1 <= i,
            i < n && j > 0 ==> cur@ == av[i as int] && j <= cur@.len(),
            parse_outcome(av) == parse_at(av, i as int, j as int, options_view(opts)),
        decreases n - i, (if i < n { av[i as int].len() } else { 0 }) + 1 - j,
    {
        if j == 0 {
            cur = str_chars(args[i].as_str());
            assert(cur@ == av[i as int]);
            let is_dd = cur.len() == 2 && cur[0] == '-' && cur[1] == '-';
            assert(is_dd == (cur@ == double_dash())) by {
                if cur@.len() == 2 && cur@[0] == '-' && cur@[1] == '-' {
                    assert(cur@ =~= double_dash());
                }
            }
            if !(cur.len() > 0 && cur[0] == '-') {
                opts.command_start = i;
                return Ok(ParseResult::Run(opts));
            }
            if is_dd {
                opts.command_start = i + 1;
                return Ok(ParseResult::Run(opts));
            }
            j = 1;
        } else if j >= cur.len() {
            i = i + 1;
            j = 0;
        } else {
            let c = cur[j];
            if c == 'C' {
                opts.control_mode = true;
                j = j + 1;
            } else if c == '2' || c == 'D' || c == 'l' || c == 'u' || c == 'v' {
                j = j + 1;
            } else if c == 'N' {
                opts.no_start_server = true;
                j = j + 1;
            } else if c == 'V' {
                return Ok(ParseResult::Version);
            } else if c == 'f' || c == 'L' || c == 'S' || c == 'c' {
                let value: String;
                let next: usize;
                if j + 1 < cur.len() {
                    let rest = chars_range(cur.as_slice(), j + 1, cur.len());
                    value = string_from_chars(rest.as_slice());
                    next = i + 1;
                } else if i + 1 < n {
                    value = copy_string(&args[i + 1]);
                    assert(value@ == av[i + 1]);
                    next = i + 2;
                } else {
                    return Err(ParseError::MissingArgument(c));
                }
                if c == 'f' {
                    opts.config_file = Some(value);
                } else if c == 'L' {
                    opts.socket_name = value;
                } else if c == 'S' {
                    opts.socket_path = Some(value);
                } else {
                    opts.shell_command = Some(value);
                }
                i = next;
                j = 0;
            } else {
                return Err(ParseError::UnknownOption(option_char(c)));
            }
        }
    }
    opts.command_start = i;
    Ok(ParseResult::Run(opts))
}

impl ParseError {
    /// The error's message, as the client prints it.
    pub fn message(&self) -> (r: String)
        ensures
            r@ == match self {
                ParseError::MissingArgument(c) => missing_argument_prefix().push(*c),
                ParseError::UnknownOption(c) => unknown_option_prefix().push(*c),
            },
    {
        match self {
            ParseError::MissingArgument(c) => {
                let mut s = String::new();
                push_all(&mut s, "option requires an argument -- ");
                proof {
                    reveal_strlit("option requires an argument -- ");
                }
                push_char(&mut s, *c);
                assert(s@ =~= missing_argument_prefix().push(*c));
                s
            },
            ParseError::UnknownOption(c) => {
                let mut s = String::new();
                push_all(&mut s, "unknown option -- ");
                proof {
                    reveal_strlit("unknown option -- ");
                }
                push_char(&mut s, *c);
                assert(s@ =~= unknown_option_prefix().push(*c));
                s
            },
        }
    }
}

/// `option requires an argument -- `
pub open spec fn missing_argument_prefix() -> Seq<char> {
    "option requires an argument -- "@
}

/// `unknown option -- `
pub open spec fn unknown_option_prefix() -> Seq<char> {
    "unknown option -- "@
}

/// An argument that is one flag accepted without effect on the command's
/// position: `-2`, `-u`, `-v`, `-l`, `-C` or `-D`.
pub open spec fn plain_flag_arg(a: Seq<char>) -> bool {
    a.len() == 2 && a[0] == '-' && (ignored_flag(a[1]) || a[1] == 'C')
}

/// An argument that starts a command: it does not start with `-`.
pub open spec fn command_arg(a: Seq<char>) -> bool {
    !(a.len() > 0 && a[0] == '-')
}

/// Flags before a command leave the command where it stands.
proof fn lemma_flags_then_command(args: Seq<Seq<char>>, i: int, k: int, o: OptionsView)
    requires
        1 <= i <= k < args.len(),
        forall|m: int| i <= m < k ==> plain_flag_arg(#[trigger] args[m]),
        command_arg(args[k]),
    ensures
        parse_at(args, i, 0, o) matches ParseOutcome::Run(_, s) && s == k,
    decreases k - i,
{
    if i < k {
        let a = args[i];
        assert(plain_flag_arg(a));
        assert(a != double_dash());
        let o2 = if a[1] == 'C' { OptionsView { control_mode: true, ..o } } else { o };
        assert(parse_at(args, i, 2, o2) == parse_at(args, i + 1, 0, o2));
        assert(parse_at(args, i, 1, o) == parse_at(args, i, 2, o2));
        lemma_flags_then_command(args, i + 1, k, o2);
    }
}

/// With only flags before it, the command starts at the first argument
/// after them.
pub proof fn law_command_start_after_flags(args: Seq<Seq<char>>, k: int)
    requires
        1 <= k < args.len(),
        forall|m: int| 1 <= m < k ==> plain_flag_arg(#[trigger] args[m]),
        command_arg(args[k]),
    ensures
        parse_outcome(args) matches ParseOutcome::Run(_, s) && s == k,
{
    lemma_flags_then_command(args, 1, k, default_options());
}

/// An option that takes a value, given as the next argument, gets exactly
/// that value, and the command starts after it.
pub proof fn law_option_value_roundtrip(prog: Seq<char>, c: char, v: Seq<char>, cmd: Seq<char>)
    requires
        takes_value(c),
        command_arg(cmd),
    ensures
        parse_outcome(seq![prog, seq!['-', c], v, cmd]) == ParseOutcome::Run(with_value(default_options(), c, v), 3),
{
    let args = seq![prog, seq!['-', c], v, cmd];
    let o = default_options();
    assert(args[1] != double_dash());
    assert(parse_at(args, 1, 1, o) == parse_at(args, 3, 0, with_value(o, c, v)));
    assert(parse_at(args, 3, 0, with_value(o, c, v)) == ParseOutcome::Run(with_value(o, c, v), 3));
}

} // verus!
