//! Small helpers shared by the command handlers.

use vstd::prelude::*;
use crate::command::CommandResult;
use crate::server::{command_error, ServerError};
use crate::text::{join, join_strings, parse_unsigned, parse_unsigned_chars, push_all, str_chars, strings_view, to_owned_string};

verus! {

/// An error with the message `m`.
pub fn err(m: &str) -> (e: ServerError)
    ensures
        e.msg() == m@,
{
    command_error(to_owned_string(m))
}

/// An error with the message `prefix` followed by `item`.
pub fn err_with(prefix: &str, item: &str) -> (e: ServerError)
    ensures
        e.msg() == prefix@ + item@,
{
    let mut m = to_owned_string(prefix);
    push_all(&mut m, item);
    command_error(m)
}

/// The lines joined by newlines, with a final newline.
pub open spec fn lines_text(lines: Seq<Seq<char>>) -> Seq<char> {
    join(lines, seq!['\n']) + seq!['\n']
}

/// The lines of `v` joined by newlines, with a final newline.
pub fn join_lines(v: &Vec<String>) -> (r: String)
    ensures
        r@ == lines_text(strings_view(v@)),
{
    let mut s = join_strings(v.as_slice(), "\n");
    proof {
        reveal_strlit("\n");
        assert("\n"@ =~= seq!['\n']);
    }
    push_all(&mut s, "\n");
    s
}

/// Output of a list: nothing for an empty list, else its lines.
pub open spec fn list_output(lines: Seq<Seq<char>>) -> Option<Seq<char>> {
    if lines.len() == 0 { None } else { Some(lines_text(lines)) }
}

/// `Ok` with no output for an empty list, else the lines as output.
pub fn list_result(v: &Vec<String>) -> (r: Result<CommandResult, ServerError>)
    ensures
        list_output(strings_view(v@)) is None ==> r matches Ok(CommandResult::Done),
        list_output(strings_view(v@)) matches Some(t) ==> (r matches Ok(CommandResult::Output(o)) && o@ == t),
{
    if v.len() == 0 {
        Ok(CommandResult::Done)
    } else {
        Ok(CommandResult::Output(join_lines(v)))
    }
}

/// The value `s.parse::<u32>()` gives, if any.
pub open spec fn parse_u32(s: Seq<char>) -> Option<u32> {
    match parse_unsigned(s, u32::MAX as int) {
        Some(n) => Some(n as u32),
        None => None,
    }
}

/// Parses a decimal `u32` as `str::parse` does.
pub fn parse_u32_str(s: &str) -> (r: Option<u32>)
    ensures
        r == parse_u32(s@),
{
    let cs = str_chars(s);
    match parse_unsigned_chars(cs.as_slice(), 0xffff_ffff) {
        Some(n) => Some(n as u32),
        None => None,
    }
}

/// The text before the first `:` of `s`, or all of `s`.
pub open spec fn before_colon(s: Seq<char>) -> Seq<char>
    decreases s.len(),
{
    if s.len() == 0 {
        s
    } else if s[0] == ':' {
        Seq::empty()
    } else {
        seq![s[0]] + before_colon(s.drop_first())
    }
}

/// The text before the first `:` of `s`, or all of `s` (a session name in a
/// `list-sessions` line).
pub fn name_before_colon(s: &str) -> (r: String)
    ensures
        r@ == before_colon(s@),
{
    let cs = str_chars(s);
    let mut out: Vec<char> = Vec::new();
    let mut i: usize = 0;
    assert(cs@.subrange(0, cs@.len() as int) =~= s@);
    assert(out@ + before_colon(s@) =~= before_colon(s@));
    while i < cs.len()
        invariant
            cs@ == s@,
            i <= cs@.len(),
            out@ + before_colon(cs@.subrange(i as int, cs@.len() as int)) == before_colon(s@),
        ensures
            i <= cs@.len(),
            out@ + before_colon(cs@.subrange(i as int, cs@.len() as int)) == before_colon(s@),
            i < cs@.len() ==> cs@[i as int] == ':',
        decreases cs@.len() - i,
    {
        if cs[i] == ':' {
            break;
        }
        proof {
            let rest = cs@.subrange(i as int, cs@.len() as int);
            assert(rest.drop_first() =~= cs@.subrange(i + 1, cs@.len() as int));
            assert(out@.push(cs@[i as int]) + before_colon(rest.drop_first()) =~= out@ + before_colon(rest));
        }
        out.push(cs[i]);
        i = i + 1;
    }
    proof {
        let rest = cs@.subrange(i as int, cs@.len() as int);
        if i < cs@.len() {
            assert(rest[0] == ':');
        } else {
            assert(rest.len() == 0);
        }
        assert(out@ + before_colon(rest) =~= out@);
    }
    crate::text::string_from_chars(out.as_slice())
}

} // verus!
