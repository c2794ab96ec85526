//! Configuration files in the tmux.conf syntax.
//!
//! Each line holds commands separated by `;`, with arguments split at blanks
//! and quoted with `"` or `'`; `#` starts a comment. A backslash at the end of
//! a line continues it on the next. `%if`/`%elif`/`%else`/`%endif` select
//! lines by a condition that a caller-supplied expander evaluates, `%hidden
//! NAME=VALUE` sets a variable, and `${NAME}` expands to a hidden variable or,
//! failing that, to an environment variable from the context.

use vstd::prelude::*;
use crate::assoc::assoc_get;
use crate::text::{
    chars_eq, chars_range, chars_starts_with, chars_trim, chars_trim_end, is_prefix, push_all, push_char,
    str_chars, str_eq, string_from_chars, strings_view, trim, trim_end,
};

verus! {

// ---------------------------------------------------------------------------
// Variable tables
// ---------------------------------------------------------------------------

/// A table of named string values. Setting a name again replaces what it
/// looks up to.
#[derive(Debug, Clone)]
pub struct VarTable {
    entries: Vec<(String, String)>,
}

impl View for VarTable {
    type V = Seq<(Seq<char>, Seq<char>)>;

    /// The assignments made, oldest first; a name looks up to its latest value.
    closed spec fn view(&self) -> Seq<(Seq<char>, Seq<char>)> {
        self.entries@.map_values(|e: (String, String)| (e.0@, e.1@))
    }
}

impl VarTable {
    /// An empty table.
    pub fn new() -> (r: Self)
        ensures
            r@ == Seq::<(Seq<char>, Seq<char>)>::empty(),
    {
        VarTable { entries: Vec::new() }
    }

    /// The value of `name`, if it was ever set.
    pub fn get(&self, name: &str) -> (r: Option<&String>)
        ensures
            match assoc_get(self@, name@) {
                Some(v) => r matches Some(s) && s@ == v,
                None => r is None,
            },
    {
        let mut i: usize = self.entries.len();
        assert(self@.subrange(0, i as int) =~= self@);
        while i > 0
            invariant
                i <= self@.len(),
                self@.len() == self.entries@.len(),
                assoc_get(self@, name@) == assoc_get(self@.subrange(0, i as int), name@),
            decreases i,
        {
            let ghost pre = self@.subrange(0, i as int);
            assert(pre.drop_last() =~= self@.subrange(0, i - 1));
            assert(pre.last() == self@[i - 1]);
            if str_eq(self.entries[i - 1].0.as_str(), name) {
                return Some(&self.entries[i - 1].1);
            }
            i = i - 1;
        }
        None
    }

    /// Sets `name` to `value`.
    pub fn insert(&mut self, name: String, value: String)
        ensures
            final(self)@ == old(self)@.push((name@, value@)),
    {
        self.entries.push((name, value));
        assert(self@ =~= old(self)@.push((name@, value@)));
    }
}

/// What `${name}` expands to: the hidden variable, else the environment
/// variable, else nothing.
pub open spec fn var_value(
    hidden: Seq<(Seq<char>, Seq<char>)>,
    env: Seq<(Seq<char>, Seq<char>)>,
    name: Seq<char>,
) -> Seq<char> {
    match assoc_get(hidden, name) {
        Some(v) => v,
        None => match assoc_get(env, name) {
            Some(v) => v,
            None => Seq::empty(),
        },
    }
}

// ---------------------------------------------------------------------------
// Lines and continuations
// ---------------------------------------------------------------------------

/// The views of a sequence of character vectors.
pub open spec fn lines_view(v: Seq<Vec<char>>) -> Seq<Seq<char>> {
    v.map_values(|l: Vec<char>| l@)
}

/// A line without the carriage return that ended it.
pub open spec fn strip_cr(l: Seq<char>) -> Seq<char> {
    if l.len() > 0 && l.last() == '\r' {
        l.drop_last()
    } else {
        l
    }
}

/// The lines of `s` from position `i` on, after the lines `done` and the
/// partial line `cur` that precede it: split at each `\n`, a `\r` before a
/// `\n` dropped, and a last line without `\n` kept when it is not empty (as
/// `str::lines` splits).
pub open spec fn lines_from(s: Seq<char>, i: int, done: Seq<Seq<char>>, cur: Seq<char>) -> Seq<Seq<char>>
    decreases s.len() - i,
{
    if i >= s.len() {
        if cur.len() > 0 {
            done.push(cur)
        } else {
            done
        }
    } else if s[i] == '\n' {
        lines_from(s, i + 1, done.push(strip_cr(cur)), Seq::empty())
    } else {
        lines_from(s, i + 1, done, cur.push(s[i]))
    }
}

/// The lines of `s`.
pub open spec fn text_lines(s: Seq<char>) -> Seq<Seq<char>> {
    lines_from(s, 0, Seq::empty(), Seq::empty())
}

/// A line, with trailing whitespace removed, that continues on the next: it
/// ends with a backslash that is not itself escaped.
pub open spec fn continues(t: Seq<char>) -> bool {
    t.len() >= 1 && t.last() == '\\' && !(t.len() >= 2 && t[t.len() - 2] == '\\')
}

/// The logical lines made of `ls` from index `i` on, after the lines `done`
/// and the pending joined text `cur`: a continued line adds its text up to
/// the backslash and the next line is appended to it.
pub open spec fn join_from(ls: Seq<Seq<char>>, i: int, done: Seq<Seq<char>>, cur: Seq<char>) -> Seq<Seq<char>>
    decreases ls.len() - i,
{
    if i >= ls.len() {
        if cur.len() > 0 {
            done.push(cur)
        } else {
            done
        }
    } else if continues(trim_end(ls[i])) {
        join_from(ls, i + 1, done, cur + trim_end(ls[i]).drop_last())
    } else {
        join_from(ls, i + 1, done.push(cur + ls[i]), Seq::empty())
    }
}

/// The logical lines of a configuration text.
pub open spec fn logical_lines(content: Seq<char>) -> Seq<Seq<char>> {
    join_from(text_lines(content), 0, Seq::empty(), Seq::empty())
}

/// Splits `s` into lines.
pub fn split_lines(s: &[char]) -> (r: Vec<Vec<char>>)
    ensures
        lines_view(r@) == text_lines(s@),
{
    let mut done: Vec<Vec<char>> = Vec::new();
    let mut cur: Vec<char> = Vec::new();
    let mut i: usize = 0;
    assert(lines_view(done@) =~= Seq::<Seq<char>>::empty());
    while i < s.len()
        invariant
            i <= s@.len(),
            text_lines(s@) == lines_from(s@, i as int, lines_view(done@), cur@),
        decreases s@.len() - i,
    {
        if s[i] == '\n' {
            let ghost before = lines_view(done@);
            let ghost c0 = cur@;
            if cur.len() > 0 && cur[cur.len() - 1] == '\r' {
                cur.pop();
            }
            assert(cur@ == strip_cr(c0));
            let line = cur;
            done.push(line);
            cur = Vec::new();
            assert(lines_view(done@) =~= before.push(strip_cr(c0)));
        } else {
            cur.push(s[i]);
        }
        i = i + 1;
    }
    if cur.len() > 0 {
        let ghost before = lines_view(done@);
        let ghost c0 = cur@;
        done.push(cur);
        assert(lines_view(done@) =~= before.push(c0));
    }
    done
}

/// Whether a line, with trailing whitespace removed, continues on the next.
fn line_continues(t: &[char]) -> (r: bool)
    ensures
        r == continues(t@),
{
    let n = t.len();
    n >= 1 && t[n - 1] == '\\' && !(n >= 2 && t[n - 2] == '\\')
}

/// Joins lines ending with a backslash to the next.
fn join_continuation_lines(content: &[char]) -> (r: Vec<Vec<char>>)
    ensures
        lines_view(r@) == logical_lines(content@),
{
    let lines = split_lines(content);
    let mut done: Vec<Vec<char>> = Vec::new();
    let mut cur: Vec<char> = Vec::new();
    let mut i: usize = 0;
    assert(lines_view(done@) =~= Seq::<Seq<char>>::empty());
    while i < lines.len()
        invariant
            i <= lines@.len(),
            logical_lines(content@) == join_from(lines_view(lines@), i as int, lines_view(done@), cur@),
        decreases lines@.len() - i,
    {
        let ghost ls = lines_view(lines@);
        assert(ls[i as int] == lines@[i as int]@);
        let t = chars_trim_end(lines[i].as_slice());
        if line_continues(t.as_slice()) {
            let mut j: usize = 0;
            let ghost c0 = cur@;
            while j < t.len() - 1
                invariant
                    t@.len() >= 1,
                    j + 1 <= t@.len(),
                    cur@ == c0 + t@.subrange(0, j as int),
                decreases t@.len() - j,
            {
                cur.push(t[j]);
                j = j + 1;
            }
            assert(t@.subrange(0, j as int) =~= t@.drop_last());
        } else {
            let ghost before = lines_view(done@);
            let ghost c0 = cur@;
            let mut j: usize = 0;
            while j < lines[i].len()
                invariant
                    i < lines@.len(),
                    j <= lines@[i as int]@.len(),
                    cur@ == c0 + lines@[i as int]@.subrange(0, j as int),
                decreases lines@[i as int]@.len() - j,
            {
                cur.push(lines[i][j]);
                j = j + 1;
            }
            assert(lines@[i as int]@.subrange(0, j as int) =~= lines@[i as int]@);
            let line = cur;
            done.push(line);
            cur = Vec::new();
            assert(lines_view(done@) =~= before.push(c0 + ls[i as int]));
        }
        i = i + 1;
    }
    if cur.len() > 0 {
        let ghost before = lines_view(done@);
        let ghost c0 = cur@;
        done.push(cur);
        assert(lines_view(done@) =~= before.push(c0));
    }
    done
}

// ---------------------------------------------------------------------------
// Arguments
// ---------------------------------------------------------------------------

/// The tokenizer's state: the arguments so far, the argument being read,
/// whether a double or single quote is open, and whether the argument being
/// read had quotes (so that an empty quoted argument is kept).
pub struct TokState {
    pub args: Seq<Seq<char>>,
    pub cur: Seq<char>,
    pub dq: bool,
    pub sq: bool,
    pub quoted: bool,
}

/// The arguments once the input ends.
pub open spec fn tok_finish(t: TokState) -> Seq<Seq<char>> {
    if t.cur.len() > 0 || t.quoted {
        t.args.push(t.cur)
    } else {
        t.args
    }
}

/// What a backslash followed by `n` stands for inside double quotes.
pub open spec fn dq_escape(n: char) -> Seq<char> {
    if n == '"' || n == '\\' || n == '$' || n == '`' {
        seq![n]
    } else if n == 'n' {
        seq!['\n']
    } else if n == 't' {
        seq!['\t']
    } else {
        seq!['\\', n]
    }
}

/// The arguments of `s` read from position `i` on in state `t`: blanks
/// separate arguments outside quotes, `#` outside quotes ends the input, a
/// backslash outside quotes takes the next character literally, inside
/// double quotes it escapes `"`, `\`, `$`, `` ` ``, `n` and `t`, and inside
/// single quotes everything is literal.
pub open spec fn tok_from(s: Seq<char>, i: int, t: TokState) -> Seq<Seq<char>>
    decreases s.len() - i,
{
    if i >= s.len() {
        tok_finish(t)
    } else {
        let c = s[i];
        let plain = !t.dq && !t.sq;
        if c == '#' && plain {
            tok_finish(t)
        } else if c == '"' && !t.sq {
            tok_from(s, i + 1, TokState { dq: !t.dq, quoted: true, ..t })
        } else if c == '\'' && !t.dq {
            tok_from(s, i + 1, TokState { sq: !t.sq, quoted: true, ..t })
        } else if c == '\\' && t.dq {
            if i + 1 < s.len() {
                tok_from(s, i + 2, TokState { cur: t.cur + dq_escape(s[i + 1]), ..t })
            } else {
                tok_finish(TokState { cur: t.cur.push('\\'), ..t })
            }
        } else if c == '\\' && plain {
            if i + 1 < s.len() {
                tok_from(s, i + 2, TokState { cur: t.cur.push(s[i + 1]), ..t })
            } else {
                tok_finish(t)
            }
        } else if (c == ' ' || c == '\t') && plain {
            if t.cur.len() > 0 || t.quoted {
                tok_from(s, i + 1, TokState { args: t.args.push(t.cur), cur: Seq::empty(), quoted: false, ..t })
            } else {
                tok_from(s, i + 1, t)
            }
        } else {
            tok_from(s, i + 1, TokState { cur: t.cur.push(c), ..t })
        }
    }
}

/// The arguments of a command text.
pub open spec fn tokenize(s: Seq<char>) -> Seq<Seq<char>> {
    tok_from(s, 0, TokState { args: Seq::empty(), cur: Seq::empty(), dq: false, sq: false, quoted: false })
}

/// Splits a command text into arguments, handling quotes.
fn tokenize_chars(s: &[char]) -> (r: Vec<String>)
    ensures
        strings_view(r@) == tokenize(s@),
{
    let n = s.len();
    let mut args: Vec<String> = Vec::new();
    let mut cur: Vec<char> = Vec::new();
    let mut dq = false;
    let mut sq = false;
    let mut quoted = false;
    let mut i: usize = 0;
    assert(strings_view(args@) =~= Seq::<Seq<char>>::empty());
    while i < n
        invariant
            n == s@.len(),
            i <= n,
            tokenize(s@) == tok_from(s@, i as int, TokState { args: strings_view(args@), cur: cur@, dq, sq, quoted }),
        decreases n - i,
    {
        let c = s[i];
        let plain = !dq && !sq;
        if c == '#' && plain {
            i = n;
        } else if c == '"' && !sq {
            dq = !dq;
            quoted = true;
            i = i + 1;
        } else if c == '\'' && !dq {
            sq = !sq;
            quoted = true;
            i = i + 1;
        } else if c == '\\' && dq {
            if i + 1 < n {
                let next = s[i + 1];
                let ghost c0 = cur@;
                if next == '"' || next == '\\' || next == '$' || next == '`' {
                    cur.push(next);
                } else if next == 'n' {
                    cur.push('\n');
                } else if next == 't' {
                    cur.push('\t');
                } else {
                    cur.push('\\');
                    cur.push(next);
                }
                assert(cur@ =~= c0 + dq_escape(next));
                i = i + 2;
            } else {
                cur.push('\\');
                i = n;
            }
        } else if c == '\\' && plain {
            if i + 1 < n {
                cur.push(s[i + 1]);
                i = i + 2;
            } else {
                i = n;
            }
        } else if (c == ' ' || c == '\t') && plain {
            if cur.len() > 0 || quoted {
                let ghost before = strings_view(args@);
                let arg = string_from_chars(cur.as_slice());
                args.push(arg);
                assert(strings_view(args@) =~= before.push(cur@));
                cur = Vec::new();
                quoted = false;
            }
            i = i + 1;
        } else {
            cur.push(c);
            i = i + 1;
        }
    }
    if cur.len() > 0 || quoted {
        let ghost before = strings_view(args@);
        let arg = string_from_chars(cur.as_slice());
        args.push(arg);
        assert(strings_view(args@) =~= before.push(cur@));
    }
    args
}

/// Tokenize a command string into arguments, handling quotes.
pub fn tokenize_command(input: &str) -> (r: Vec<String>)
    ensures
        strings_view(r@) == tokenize(input@),
{
    let s = str_chars(input);
    tokenize_chars(s.as_slice())
}

// ---------------------------------------------------------------------------
// Commands on a line
// ---------------------------------------------------------------------------

/// The pieces of `s` from position `i` on, split at each `;` outside quotes
/// and not escaped by a backslash; `start` is where the current piece began.
/// A double quote after a backslash does not open or close a quote; a
/// trailing empty piece is dropped.
pub open spec fn semi_from(s: Seq<char>, i: int, start: int, dq: bool, sq: bool, parts: Seq<Seq<char>>) -> Seq<Seq<char>>
    decreases s.len() - i,
{
    if i >= s.len() {
        if start < s.len() {
            parts.push(s.subrange(start, s.len() as int))
        } else {
            parts
        }
    } else {
        let c = s[i];
        if c == '"' && !sq && (i == 0 || s[i - 1] != '\\') {
            semi_from(s, i + 1, start, !dq, sq, parts)
        } else if c == '\'' && !dq {
            semi_from(s, i + 1, start, dq, !sq, parts)
        } else if c == '\\' && !sq && !dq {
            if i + 1 < s.len() {
                semi_from(s, i + 2, start, dq, sq, parts)
            } else {
                semi_from(s, s.len() as int, start, dq, sq, parts)
            }
        } else if c == ';' && !dq && !sq {
            semi_from(s, i + 1, i + 1, dq, sq, parts.push(s.subrange(start, i)))
        } else {
            semi_from(s, i + 1, start, dq, sq, parts)
        }
    }
}

/// The `;`-separated pieces of a line.
pub open spec fn semicolon_pieces(s: Seq<char>) -> Seq<Seq<char>> {
    semi_from(s, 0, 0, false, false, Seq::empty())
}

/// Split a line on unquoted, unescaped semicolons.
fn split_on_semicolons(s: &[char]) -> (r: Vec<Vec<char>>)
    ensures
        lines_view(r@) == semicolon_pieces(s@),
{
    let n = s.len();
    let mut parts: Vec<Vec<char>> = Vec::new();
    let mut start: usize = 0;
    let mut i: usize = 0;
    let mut dq = false;
    let mut sq = false;
    assert(lines_view(parts@) =~= Seq::<Seq<char>>::empty());
    while i < n
        invariant
            n == s@.len(),
            i <= n,
            start <= i,
            semicolon_pieces(s@) == semi_from(s@, i as int, start as int, dq, sq, lines_view(parts@)),
        decreases n - i,
    {
        let c = s[i];
        if c == '"' && !sq && (i == 0 || s[i - 1] != '\\') {
            dq = !dq;
            i = i + 1;
        } else if c == '\'' && !dq {
            sq = !sq;
            i = i + 1;
        } else if c == '\\' && !sq && !dq {
            if i + 1 < n {
                i = i + 2;
            } else {
                i = n;
            }
        } else if c == ';' && !dq && !sq {
            let ghost before = lines_view(parts@);
            let piece = chars_range(s, start, i);
            parts.push(piece);
            assert(lines_view(parts@) =~= before.push(s@.subrange(start as int, i as int)));
            i = i + 1;
            start = i;
        } else {
            i = i + 1;
        }
    }
    if start < n {
        let ghost before = lines_view(parts@);
        let piece = chars_range(s, start, n);
        parts.push(piece);
        assert(lines_view(parts@) =~= before.push(s@.subrange(start as int, n as int)));
    }
    parts
}

/// The commands of the pieces `ps` from index `i` on: each piece is trimmed,
/// skipped when empty or a comment, and split into arguments; commands with no
/// argument are dropped.
pub open spec fn piece_commands(ps: Seq<Seq<char>>, i: int, acc: Seq<Seq<Seq<char>>>) -> Seq<Seq<Seq<char>>>
    decreases ps.len() - i,
{
    if i >= ps.len() {
        acc
    } else {
        let p = trim(ps[i]);
        if p.len() == 0 || p[0] == '#' || tokenize(p).len() == 0 {
            piece_commands(ps, i + 1, acc)
        } else {
            piece_commands(ps, i + 1, acc.push(tokenize(p)))
        }
    }
}

/// The commands of one (expanded) line.
pub open spec fn line_commands(line: Seq<char>) -> Seq<Seq<Seq<char>>> {
    piece_commands(semicolon_pieces(line), 0, Seq::empty())
}

/// The views of a list of commands.
pub open spec fn commands_view(v: Seq<Vec<String>>) -> Seq<Seq<Seq<char>>> {
    v.map_values(|c: Vec<String>| strings_view(c@))
}

/// Appends the commands of one line to `out`.
fn push_line_commands(line: &[char], out: &mut Vec<Vec<String>>)
    ensures
        commands_view(final(out)@) == commands_view(old(out)@) + line_commands(line@),
{
    let parts = split_on_semicolons(line);
    let ghost ps = lines_view(parts@);
    let ghost base = commands_view(out@);
    let mut i: usize = 0;
    assert(base + Seq::<Seq<Seq<char>>>::empty() =~= base);
    while i < parts.len()
        invariant
            i <= parts@.len(),
            ps == lines_view(parts@),
            ps == semicolon_pieces(line@),
            base == commands_view(old(out)@),
            commands_view(old(out)@) + line_commands(line@) == commands_view(out@)
                + piece_commands(ps, i as int, Seq::empty()),
        decreases parts@.len() - i,
    {
        assert(ps[i as int] == parts@[i as int]@);
        let p = chars_trim(parts[i].as_slice());
        let ghost acc = commands_view(out@);
        if p.len() > 0 && p[0] != '#' {
            let argv = tokenize_chars(p.as_slice());
            if argv.len() > 0 {
                let ghost t = strings_view(argv@);
                proof {
                    lemma_piece_commands_shift(ps, i as int + 1, Seq::empty(), seq![t]);
                    assert(seq![t] + Seq::<Seq<Seq<char>>>::empty() =~= Seq::<Seq<Seq<char>>>::empty().push(t));
                    assert(acc + (seq![t] + piece_commands(ps, i as int + 1, Seq::empty()))
                        =~= acc.push(t) + piece_commands(ps, i as int + 1, Seq::empty()));
                }
                out.push(argv);
                assert(commands_view(out@) =~= acc.push(t));
            }
        }
        i = i + 1;
    }
    assert(commands_view(out@) + Seq::<Seq<Seq<char>>>::empty() =~= commands_view(out@));
}

/// Running `piece_commands` from an accumulator appends to it.
proof fn lemma_piece_commands_shift(ps: Seq<Seq<char>>, i: int, acc: Seq<Seq<Seq<char>>>, pre: Seq<Seq<Seq<char>>>)
    ensures
        piece_commands(ps, i, pre + acc) == pre + piece_commands(ps, i, acc),
    decreases ps.len() - i,
{
    if i < ps.len() {
        let p = trim(ps[i]);
        if p.len() == 0 || p[0] == '#' || tokenize(p).len() == 0 {
            lemma_piece_commands_shift(ps, i + 1, acc, pre);
        } else {
            lemma_piece_commands_shift(ps, i + 1, acc.push(tokenize(p)), pre);
            assert((pre + acc).push(tokenize(p)) =~= pre + acc.push(tokenize(p)));
        }
    }
}

// ---------------------------------------------------------------------------
// Variables and `%hidden`
// ---------------------------------------------------------------------------

/// The text `s` from position `i` on with `${NAME}` references expanded,
/// appended to `out`; `name` holds the name read so far when inside `${`.
/// `${}` stays `${`, and an unclosed `${` stays as written.
pub open spec fn expand_from(
    s: Seq<char>,
    i: int,
    out: Seq<char>,
    name: Option<Seq<char>>,
    hidden: Seq<(Seq<char>, Seq<char>)>,
    env: Seq<(Seq<char>, Seq<char>)>,
) -> Seq<char>
    decreases s.len() - i,
{
    if i >= s.len() {
        match name {
            None => out,
            Some(n) => out + seq!['$', '{'] + n,
        }
    } else {
        match name {
            Some(n) => if s[i] == '}' {
                let v = if n.len() > 0 { var_value(hidden, env, n) } else { seq!['$', '{'] };
                expand_from(s, i + 1, out + v, None, hidden, env)
            } else {
                expand_from(s, i + 1, out, Some(n.push(s[i])), hidden, env)
            },
            None => if s[i] == '$' && i + 1 < s.len() && s[i + 1] == '{' {
                expand_from(s, i + 2, out, Some(Seq::empty()), hidden, env)
            } else {
                expand_from(s, i + 1, out.push(s[i]), None, hidden, env)
            },
        }
    }
}

/// `s` with its `${NAME}` references expanded.
pub open spec fn expand_text(
    s: Seq<char>,
    hidden: Seq<(Seq<char>, Seq<char>)>,
    env: Seq<(Seq<char>, Seq<char>)>,
) -> Seq<char> {
    expand_from(s, 0, Seq::empty(), None, hidden, env)
}

/// The position of the first `c` in `s` at or after `j`, or the length of `s`.
pub open spec fn first_from(s: Seq<char>, c: char, j: int) -> int
    decreases s.len() - j,
{
    if j >= s.len() {
        s.len() as int
    } else if s[j] == c {
        j
    } else {
        first_from(s, c, j + 1)
    }
}

/// A value that is a single quote character, which has no matching closing quote.
pub open spec fn lone_quote(v: Seq<char>) -> bool {
    v.len() == 1 && (v[0] == '"' || v[0] == '\'')
}

/// `v` without the quotes around it, when it starts and ends with the same quote.
pub open spec fn strip_quotes(v: Seq<char>) -> Seq<char> {
    if v.len() >= 2 && ((v[0] == '"' && v.last() == '"') || (v[0] == '\'' && v.last() == '\'')) {
        v.subrange(1, v.len() - 1)
    } else {
        v
    }
}

/// The name and value of `NAME=VALUE`: both trimmed, the value without its
/// quotes; nothing when there is no `=` or the name is empty.
pub open spec fn hidden_assignment(input: Seq<char>) -> Option<(Seq<char>, Seq<char>)> {
    let t = trim(input);
    let e = first_from(t, '=', 0);
    let name = trim(t.subrange(0, e));
    if e >= t.len() || name.len() == 0 {
        None
    } else {
        Some((name, strip_quotes(trim(t.subrange(e + 1, t.len() as int)))))
    }
}

/// An assignment whose value is a lone quote character.
pub open spec fn hidden_lone_quote(input: Seq<char>) -> bool {
    let t = trim(input);
    let e = first_from(t, '=', 0);
    e < t.len() && trim(t.subrange(0, e)).len() > 0 && lone_quote(trim(t.subrange(e + 1, t.len() as int)))
}

/// `v` without surrounding matching quotes.
fn strip_quotes_chars(v: Vec<char>) -> (r: Vec<char>)
    ensures
        r@ == strip_quotes(v@),
{
    let n = v.len();
    if n >= 2 && ((v[0] == '"' && v[n - 1] == '"') || (v[0] == '\'' && v[n - 1] == '\'')) {
        chars_range(v.as_slice(), 1, n - 1)
    } else {
        v
    }
}

/// Parse a `%hidden VAR=VALUE` assignment.
fn parse_hidden_assignment(input: &[char]) -> (r: Option<(Vec<char>, Vec<char>)>)
    ensures
        match hidden_assignment(input@) {
            None => r is None,
            Some(p) => r matches Some(q) && q.0@ == p.0 && q.1@ == p.1,
        },
{
    let t = chars_trim(input);
    let mut e: usize = 0;
    while e < t.len() && t[e] != '='
        invariant
            e <= t@.len(),
            first_from(t@, '=', 0) == first_from(t@, '=', e as int),
        decreases t@.len() - e,
    {
        e = e + 1;
    }
    if e >= t.len() {
        return None;
    }
    let head = chars_range(t.as_slice(), 0, e);
    let name = chars_trim(head.as_slice());
    if name.len() == 0 {
        return None;
    }
    let tail = chars_range(t.as_slice(), e + 1, t.len());
    let value = strip_quotes_chars(chars_trim(tail.as_slice()));
    Some((name, value))
}

// ---------------------------------------------------------------------------
// Conditions
// ---------------------------------------------------------------------------

/// What a condition hands to the expander: the expression trimmed and
/// without surrounding quotes.
pub open spec fn cond_text(expr: Seq<char>) -> Seq<char> {
    strip_quotes(trim(expr))
}

/// Whether an expander's output makes a condition true: it is neither empty nor `0`.
pub open spec fn truthy(out: Seq<char>) -> bool {
    out.len() > 0 && out != seq!['0']
}

/// Evaluates format strings for `%if` and `%elif` conditions.
pub trait FormatExpander {
    /// The expansion of `s`.
    fn expand(&self, s: &str) -> String;
}

/// An expander made from a closure.
struct FnExpander<F> {
    f: F,
}

impl<F: Fn(&str) -> String> FormatExpander for FnExpander<F> {
    fn expand(&self, s: &str) -> String {
        call_expander(&self.f, s)
    }
}

/// Calls a caller-supplied expander closure on `s`.
///
/// Trusted: calls the closure through `Fn::call`; what it returns is up to
/// the closure, so nothing is stated of the result.
#[verifier::external_body]
fn call_expander<F: Fn(&str) -> String>(f: &F, s: &str) -> String {
    f(s)
}

/// Context for config file parsing with conditional evaluation support.
pub struct ConfigContext {
    /// Hidden variables set by `%hidden VAR=VALUE`.
    pub hidden_vars: VarTable,
    /// The environment variables that `${VAR}` falls back to.
    pub env_vars: VarTable,
    format_expand: Option<Box<dyn FormatExpander>>,
}

impl ConfigContext {
    /// Whether a format expander is set for conditions.
    pub closed spec fn has_expander(&self) -> bool {
        self.format_expand is Some
    }

    /// The hidden variables' assignments.
    pub closed spec fn hidden(&self) -> Seq<(Seq<char>, Seq<char>)> {
        self.hidden_vars@
    }

    /// The environment table's entries.
    pub closed spec fn env(&self) -> Seq<(Seq<char>, Seq<char>)> {
        self.env_vars@
    }

    /// Sets a hidden variable, as a `%hidden` line does.
    pub fn set_hidden(&mut self, name: String, value: String)
        ensures
            final(self).hidden() == old(self).hidden().push((name@, value@)),
            final(self).env() == old(self).env(),
            final(self).has_expander() == old(self).has_expander(),
    {
        self.hidden_vars.insert(name, value);
    }

    /// The hidden variables, giving up the context.
    pub fn into_hidden_vars(self) -> (r: VarTable)
        ensures
            r@ == self.hidden(),
    {
        self.hidden_vars
    }

    /// Create a new empty config context (no format expansion, no environment).
    pub fn new() -> (r: Self)
        ensures
            r.hidden() == Seq::<(Seq<char>, Seq<char>)>::empty(),
            r.env() == Seq::<(Seq<char>, Seq<char>)>::empty(),
            !r.has_expander(),
    {
        ConfigContext { hidden_vars: VarTable::new(), env_vars: VarTable::new(), format_expand: None }
    }

    /// Set the format expander callback (used for `%if` condition evaluation).
    pub fn set_format_expand<F: Fn(&str) -> String + 'static>(&mut self, f: F)
        ensures
            final(self).has_expander(),
            final(self).hidden() == old(self).hidden(),
            final(self).env() == old(self).env(),
    {
        let b: Box<dyn FormatExpander> = Box::new(FnExpander { f });
        self.format_expand = Some(b);
    }

    /// Evaluate a `%if` condition: the expander's output on the condition
    /// text, which must be neither empty nor `0`; without an expander, whether
    /// the text is not empty. The second part is the expander's output, when
    /// there is an expander.
    fn eval_condition(&self, expr: &[char]) -> (r: (bool, Ghost<Option<Seq<char>>>))
        ensures
            (r.1@ is Some) == self.has_expander(),
            r.1@ matches Some(out) ==> r.0 == truthy(out),
            !self.has_expander() ==> r.0 == (cond_text(expr@).len() > 0),
    {
        let text = strip_quotes_chars(chars_trim(expr));
        match &self.format_expand {
            Some(e) => {
                let arg = string_from_chars(text.as_slice());
                let out = e.expand(arg.as_str());
                let oc = str_chars(out.as_str());
                let t = oc.len() > 0 && !(oc.len() == 1 && oc[0] == '0');
                proof {
                    if oc@.len() == 1 && oc@[0] == '0' {
                        assert(oc@ =~= seq!['0']);
                    }
                }
                (t, Ghost(Some(oc@)))
            },
            None => (text.len() > 0, Ghost(None)),
        }
    }

    /// Expand `${VAR}` references in a string: hidden variables first, then
    /// the environment table.
    fn expand_vars(&self, input: &[char]) -> (r: String)
        ensures
            r@ == expand_text(input@, self.hidden(), self.env()),
    {
        let n = input.len();
        let mut out = String::new();
        let mut in_name = false;
        let mut name: Vec<char> = Vec::new();
        let mut i: usize = 0;
        while i < n
            invariant
                n == input@.len(),
                i <= n,
                expand_text(input@, self.hidden_vars@, self.env_vars@) == expand_from(input@, i as int, out@,
                    if in_name { Some(name@) } else { None }, self.hidden_vars@, self.env_vars@),
            decreases n - i,
        {
            let c = input[i];
            if in_name {
                if c == '}' {
                    if name.len() > 0 {
                        let key = string_from_chars(name.as_slice());
                        match self.hidden_vars.get(key.as_str()) {
                            Some(v) => push_all(&mut out, v.as_str()),
                            None => match self.env_vars.get(key.as_str()) {
                                Some(v) => push_all(&mut out, v.as_str()),
                                None => {
                                    assert(out@ + Seq::<char>::empty() =~= out@);
                                },
                            },
                        }
                    } else {
                        let ghost o0 = out@;
                        push_char(&mut out, '$');
                        push_char(&mut out, '{');
                        assert(out@ =~= o0 + seq!['$', '{']);
                    }
                    in_name = false;
                    name = Vec::new();
                } else {
                    name.push(c);
                }
                i = i + 1;
            } else if c == '$' && i + 1 < n && input[i + 1] == '{' {
                in_name = true;
                name = Vec::new();
                i = i + 2;
            } else {
                push_char(&mut out, c);
                i = i + 1;
            }
        }
        if in_name {
            let ghost o0 = out@;
            push_char(&mut out, '$');
            push_char(&mut out, '{');
            let rest = string_from_chars(name.as_slice());
            push_all(&mut out, rest.as_str());
            assert(out@ =~= o0 + seq!['$', '{'] + name@);
        }
        out
    }
}

impl Default for ConfigContext {
    fn default() -> (r: Self)
        ensures
            r.hidden() == Seq::<(Seq<char>, Seq<char>)>::empty(),
            r.env() == Seq::<(Seq<char>, Seq<char>)>::empty(),
            !r.has_expander(),
    {
        Self::new()
    }
}

// ---------------------------------------------------------------------------
// Whole files
// ---------------------------------------------------------------------------

/// State for tracking nested `%if`/`%elif`/`%else`/`%endif` blocks.
#[derive(Clone, Copy)]
pub struct CondState {
    /// Whether any branch in this if/elif/else chain has been taken.
    pub any_taken: bool,
    /// Whether the current branch is active (lines should be emitted).
    pub active: bool,
}

/// The parser's state between lines: the commands so far, the open
/// conditional blocks, the hidden variables, and how many expander outputs
/// have been used.
pub struct ParseView {
    pub cmds: Seq<Seq<Seq<char>>>,
    pub stack: Seq<CondState>,
    pub vars: Seq<(Seq<char>, Seq<char>)>,
    pub k: nat,
}

/// Whether every open block is in an active branch.
pub open spec fn all_active(stack: Seq<CondState>) -> bool {
    forall|i: int| 0 <= i < stack.len() ==> #[trigger] stack[i].active
}

/// `%if `
pub open spec fn if_prefix() -> Seq<char> {
    seq!['%', 'i', 'f', ' ']
}

/// `%elif `
pub open spec fn elif_prefix() -> Seq<char> {
    seq!['%', 'e', 'l', 'i', 'f', ' ']
}

/// `%else`
pub open spec fn else_word() -> Seq<char> {
    seq!['%', 'e', 'l', 's', 'e']
}

/// `%endif`
pub open spec fn endif_word() -> Seq<char> {
    seq!['%', 'e', 'n', 'd', 'i', 'f']
}

/// `%hidden `
pub open spec fn hidden_prefix() -> Seq<char> {
    seq!['%', 'h', 'i', 'd', 'd', 'e', 'n', ' ']
}

/// The truth of condition `expr`: from the expander's output `answers[k]`
/// when there is an expander, else whether the condition text is not empty.
pub open spec fn cond_value(expr: Seq<char>, has_exp: bool, answers: Seq<Seq<char>>, k: nat) -> bool {
    if has_exp {
        truthy(answers[k as int])
    } else {
        cond_text(expr).len() > 0
    }
}

/// The number of expander outputs used after one more evaluation.
pub open spec fn after_eval(has_exp: bool, k: nat) -> nat {
    if has_exp {
        k + 1
    } else {
        k
    }
}

/// The state after one logical line. Blank lines and comments change
/// nothing; the directives open, switch and close conditional blocks (a
/// condition is evaluated only where its branch could be taken) and set
/// hidden variables in active branches; other lines in active branches have
/// their variables expanded and add their commands.
pub open spec fn line_step(
    st: ParseView,
    line: Seq<char>,
    answers: Seq<Seq<char>>,
    has_exp: bool,
    env: Seq<(Seq<char>, Seq<char>)>,
) -> ParseView {
    let t = trim(line);
    let n = st.stack.len();
    if t.len() == 0 || t[0] == '#' {
        st
    } else if is_prefix(if_prefix(), t) {
        if all_active(st.stack) {
            let r = cond_value(t.subrange(4, t.len() as int), has_exp, answers, st.k);
            ParseView { stack: st.stack.push(CondState { any_taken: r, active: r }), k: after_eval(has_exp, st.k), ..st }
        } else {
            ParseView { stack: st.stack.push(CondState { any_taken: true, active: false }), ..st }
        }
    } else if is_prefix(elif_prefix(), t) {
        if n == 0 {
            st
        } else if st.stack[n - 1].any_taken {
            ParseView { stack: st.stack.update(n - 1, CondState { any_taken: true, active: false }), ..st }
        } else if all_active(st.stack.drop_last()) {
            let r = cond_value(t.subrange(6, t.len() as int), has_exp, answers, st.k);
            ParseView {
                stack: st.stack.update(n - 1, CondState { any_taken: r, active: r }),
                k: after_eval(has_exp, st.k),
                ..st
            }
        } else {
            st
        }
    } else if t == else_word() {
        if n == 0 {
            st
        } else if st.stack[n - 1].any_taken {
            ParseView { stack: st.stack.update(n - 1, CondState { any_taken: true, active: false }), ..st }
        } else {
            ParseView {
                stack: st.stack.update(n - 1, CondState { any_taken: true, active: all_active(st.stack.drop_last()) }),
                ..st
            }
        }
    } else if t == endif_word() {
        if n == 0 {
            st
        } else {
            ParseView { stack: st.stack.drop_last(), ..st }
        }
    } else if is_prefix(hidden_prefix(), t) {
        if all_active(st.stack) {
            match hidden_assignment(t.subrange(8, t.len() as int)) {
                Some(p) => ParseView { vars: st.vars.push((p.0, expand_text(p.1, st.vars, env))), ..st },
                None => st,
            }
        } else {
            st
        }
    } else if !all_active(st.stack) {
        st
    } else {
        ParseView { cmds: st.cmds + line_commands(expand_text(t, st.vars, env)), ..st }
    }
}

/// Whether the line, in state `st`, evaluates a condition or a hidden value
/// that is a lone quote character, which has no matching closing quote.
pub open spec fn line_lone_quote(st: ParseView, line: Seq<char>) -> bool {
    let t = trim(line);
    let n = st.stack.len();
    if t.len() == 0 || t[0] == '#' {
        false
    } else if is_prefix(if_prefix(), t) {
        all_active(st.stack) && lone_quote(trim(t.subrange(4, t.len() as int)))
    } else if is_prefix(elif_prefix(), t) {
        n > 0 && !st.stack[n - 1].any_taken && all_active(st.stack.drop_last())
            && lone_quote(trim(t.subrange(6, t.len() as int)))
    } else if t == else_word() || t == endif_word() {
        false
    } else if is_prefix(hidden_prefix(), t) {
        all_active(st.stack) && hidden_lone_quote(t.subrange(8, t.len() as int))
    } else {
        false
    }
}

/// The state after the logical lines from index `i` on.
pub open spec fn config_run(
    lines: Seq<Seq<char>>,
    i: int,
    st: ParseView,
    answers: Seq<Seq<char>>,
    has_exp: bool,
    env: Seq<(Seq<char>, Seq<char>)>,
) -> ParseView
    decreases lines.len() - i,
{
    if i >= lines.len() {
        st
    } else {
        config_run(lines, i + 1, line_step(st, lines[i], answers, has_exp, env), answers, has_exp, env)
    }
}

/// Whether some line from index `i` on evaluates a lone quote.
pub open spec fn run_lone_quote(
    lines: Seq<Seq<char>>,
    i: int,
    st: ParseView,
    answers: Seq<Seq<char>>,
    has_exp: bool,
    env: Seq<(Seq<char>, Seq<char>)>,
) -> bool
    decreases lines.len() - i,
{
    if i >= lines.len() {
        false
    } else {
        line_lone_quote(st, lines[i])
            || run_lone_quote(lines, i + 1, line_step(st, lines[i], answers, has_exp, env), answers, has_exp, env)
    }
}

/// The state before the first line, with hidden variables `vars`.
pub open spec fn config_start(vars: Seq<(Seq<char>, Seq<char>)>) -> ParseView {
    ParseView { cmds: Seq::empty(), stack: Seq::empty(), vars, k: 0 }
}

/// Whether the first `n` open blocks are all in active branches.
fn blocks_active(stack: &Vec<CondState>, n: usize) -> (r: bool)
    requires
        n <= stack@.len(),
    ensures
        r == all_active(stack@.subrange(0, n as int)),
{
    let mut i: usize = 0;
    while i < n
        invariant
            n <= stack@.len(),
            i <= n,
            forall|j: int| 0 <= j < i ==> #[trigger] stack@[j].active,
        decreases n - i,
    {
        if !stack[i].active {
            assert(!stack@.subrange(0, n as int)[i as int].active);
            return false;
        }
        i = i + 1;
    }
    assert forall|j: int| 0 <= j < n implies #[trigger] stack@.subrange(0, n as int)[j].active by {
        assert(stack@.subrange(0, n as int)[j] == stack@[j]);
    }
    true
}

/// Processes one logical line. Returns the expander's output when a
/// condition was evaluated with an expander.
fn config_line(
    ctx: &mut ConfigContext,
    line: &[char],
    stack: &mut Vec<CondState>,
    cmds: &mut Vec<Vec<String>>,
    Ghost(k): Ghost<nat>,
) -> (out: Ghost<Option<Seq<char>>>)
    ensures
        final(ctx).env() == old(ctx).env(),
        final(ctx).has_expander() == old(ctx).has_expander(),
        out@ is Some ==> old(ctx).has_expander(),
        forall|answers: Seq<Seq<char>>| (out@ matches Some(o) ==> answers[k as int] == o) ==> #[trigger] line_step(
            ParseView { cmds: commands_view(old(cmds)@), stack: old(stack)@, vars: old(ctx).hidden(), k },
            line@,
            answers,
            old(ctx).has_expander(),
            old(ctx).env(),
        ) == (ParseView {
            cmds: commands_view(final(cmds)@),
            stack: final(stack)@,
            vars: final(ctx).hidden(),
            k: if out@ is Some { k + 1 } else { k },
        }),
{
    let t = chars_trim(line);
    let n = stack.len();
    if t.len() == 0 || t[0] == '#' {
        return Ghost(None);
    }
    let if_p: Vec<char> = vec!['%', 'i', 'f', ' '];
    let elif_p: Vec<char> = vec!['%', 'e', 'l', 'i', 'f', ' '];
    let else_w: Vec<char> = vec!['%', 'e', 'l', 's', 'e'];
    let endif_w: Vec<char> = vec!['%', 'e', 'n', 'd', 'i', 'f'];
    let hidden_p: Vec<char> = vec!['%', 'h', 'i', 'd', 'd', 'e', 'n', ' '];
    assert(if_p@ =~= if_prefix());
    assert(elif_p@ =~= elif_prefix());
    assert(else_w@ =~= else_word());
    assert(endif_w@ =~= endif_word());
    assert(hidden_p@ =~= hidden_prefix());
    assert(stack@.subrange(0, n as int) =~= stack@);
    if chars_starts_with(t.as_slice(), if_p.as_slice()) {
        if blocks_active(stack, n) {
            let expr = chars_range(t.as_slice(), 4, t.len());
            let (r, out) = ctx.eval_condition(expr.as_slice());
            stack.push(CondState { any_taken: r, active: r });
            return out;
        } else {
            stack.push(CondState { any_taken: true, active: false });
            return Ghost(None);
        }
    }
    if chars_starts_with(t.as_slice(), elif_p.as_slice()) {
        if n == 0 {
            return Ghost(None);
        }
        assert(stack@.subrange(0, n - 1) =~= stack@.drop_last());
        if stack[n - 1].any_taken {
            stack.set(n - 1, CondState { any_taken: true, active: false });
            return Ghost(None);
        }
        if blocks_active(stack, n - 1) {
            let expr = chars_range(t.as_slice(), 6, t.len());
            let (r, out) = ctx.eval_condition(expr.as_slice());
            stack.set(n - 1, CondState { any_taken: r, active: r });
            return out;
        }
        return Ghost(None);
    }
    if chars_eq(t.as_slice(), else_w.as_slice()) {
        if n == 0 {
            return Ghost(None);
        }
        assert(stack@.subrange(0, n - 1) =~= stack@.drop_last());
        if stack[n - 1].any_taken {
            stack.set(n - 1, CondState { any_taken: true, active: false });
        } else {
            let parent = blocks_active(stack, n - 1);
            stack.set(n - 1, CondState { any_taken: true, active: parent });
        }
        return Ghost(None);
    }
    if chars_eq(t.as_slice(), endif_w.as_slice()) {
        if n > 0 {
            stack.pop();
            assert(stack@ =~= old(stack)@.drop_last());
        }
        return Ghost(None);
    }
    if chars_starts_with(t.as_slice(), hidden_p.as_slice()) {
        if blocks_active(stack, n) {
            let rest = chars_range(t.as_slice(), 8, t.len());
            match parse_hidden_assignment(rest.as_slice()) {
                Some((name, value)) => {
                    let expanded = ctx.expand_vars(value.as_slice());
                    let key = string_from_chars(name.as_slice());
                    ctx.hidden_vars.insert(key, expanded);
                },
                None => {},
            }
        }
        return Ghost(None);
    }
    if !blocks_active(stack, n) {
        return Ghost(None);
    }
    let expanded = ctx.expand_vars(t.as_slice());
    let ec = str_chars(expanded.as_str());
    push_line_commands(ec.as_slice(), cmds);
    Ghost(None)
}

/// Parse a config file with a context for conditional evaluation and
/// variable expansion.
///
/// The expander's outputs are not known here: the commands are those of the
/// configuration under some sequence of outputs, one for each condition
/// evaluated with the expander, in order (each evaluation hands the
/// expander the condition text, see `cond_text`). Without an expander the
/// result is determined.
pub fn parse_config_with_context(content: &str, ctx: &mut ConfigContext) -> (r: Vec<Vec<String>>)
    requires
        forall|answers: Seq<Seq<char>>| !#[trigger] run_lone_quote(
            logical_lines(content@),
            0,
            config_start(old(ctx).hidden()),
            answers,
            old(ctx).has_expander(),
            old(ctx).env(),
        ),
    ensures
        final(ctx).env() == old(ctx).env(),
        final(ctx).has_expander() == old(ctx).has_expander(),
        exists|answers: Seq<Seq<char>>| {
            let v = #[trigger] config_run(
                logical_lines(content@),
                0,
                config_start(old(ctx).hidden()),
                answers,
                old(ctx).has_expander(),
                old(ctx).env(),
            );
            v.k == answers.len() && commands_view(r@) == v.cmds && final(ctx).hidden() == v.vars
        },
        !old(ctx).has_expander() ==> ({
            let v = config_run(
                logical_lines(content@),
                0,
                config_start(old(ctx).hidden()),
                Seq::empty(),
                false,
                old(ctx).env(),
            );
            commands_view(r@) == v.cmds && final(ctx).hidden() == v.vars
        }),
{
    let chars = str_chars(content);
    let lines = join_continuation_lines(chars.as_slice());
    let mut cmds: Vec<Vec<String>> = Vec::new();
    let mut stack: Vec<CondState> = Vec::new();
    let ghost ls = lines_view(lines@);
    let ghost h = ctx.has_expander();
    let ghost env = ctx.env();
    let ghost init = config_start(ctx.hidden());
    let ghost mut answers: Seq<Seq<char>> = Seq::empty();
    let mut i: usize = 0;
    assert(commands_view(cmds@) =~= Seq::<Seq<Seq<char>>>::empty());
    assert(stack@ =~= Seq::<CondState>::empty());
    while i < lines.len()
        invariant
            ls == lines_view(lines@),
            ls == logical_lines(content@),
            i <= ls.len(),
            h == old(ctx).has_expander(),
            env == old(ctx).env(),
            init == config_start(old(ctx).hidden()),
            ctx.has_expander() == h,
            ctx.env() == env,
            !h ==> answers.len() == 0,
            forall|more: Seq<Seq<char>>| #[trigger] config_run(ls, 0, init, answers + more, h, env) == config_run(
                ls,
                i as int,
                ParseView { cmds: commands_view(cmds@), stack: stack@, vars: ctx.hidden(), k: answers.len() },
                answers + more,
                h,
                env,
            ),
        decreases ls.len() - i,
    {
        let ghost st = ParseView { cmds: commands_view(cmds@), stack: stack@, vars: ctx.hidden(), k: answers.len() };
        assert(ls[i as int] == lines@[i as int]@);
        let out = config_line(ctx, lines[i].as_slice(), &mut stack, &mut cmds, Ghost(answers.len()));
        proof {
            let a2 = match out@ {
                Some(o) => answers.push(o),
                None => answers,
            };
            let st2 = ParseView { cmds: commands_view(cmds@), stack: stack@, vars: ctx.hidden(), k: a2.len() };
            assert forall|more2: Seq<Seq<char>>| #[trigger] config_run(ls, 0, init, a2 + more2, h, env) == config_run(
                ls,
                i as int + 1,
                st2,
                a2 + more2,
                h,
                env,
            ) by {
                let m = match out@ {
                    Some(o) => seq![o] + more2,
                    None => more2,
                };
                assert(answers + m =~= a2 + more2);
                assert(config_run(ls, 0, init, answers + m, h, env) == config_run(ls, i as int, st, answers + m, h, env));
                if let Some(o) = out@ {
                    assert((a2 + more2)[answers.len() as int] == o);
                }
            }
            answers = a2;
        }
        i = i + 1;
    }
    proof {
        assert(answers + Seq::<Seq<char>>::empty() =~= answers);
        assert(config_run(ls, 0, init, answers + Seq::<Seq<char>>::empty(), h, env) == config_run(
            ls,
            i as int,
            ParseView { cmds: commands_view(cmds@), stack: stack@, vars: ctx.hidden(), k: answers.len() },
            answers + Seq::<Seq<char>>::empty(),
            h,
            env,
        ));
        if !h {
            assert(answers =~= Seq::<Seq<char>>::empty());
        }
    }
    cmds
}

/// Parse a config file's content into a list of command argument vectors,
/// with no expander, no hidden variables and no environment.
pub fn parse_config_lines(content: &str) -> (r: Vec<Vec<String>>)
    requires
        forall|answers: Seq<Seq<char>>| !#[trigger] run_lone_quote(
            logical_lines(content@),
            0,
            config_start(Seq::empty()),
            answers,
            false,
            Seq::empty(),
        ),
    ensures
        commands_view(r@) == config_run(
            logical_lines(content@),
            0,
            config_start(Seq::empty()),
            Seq::empty(),
            false,
            Seq::empty(),
        ).cmds,
{
    let mut ctx = ConfigContext::new();
    parse_config_with_context(content, &mut ctx)
}

// ---------------------------------------------------------------------------
// Laws
// ---------------------------------------------------------------------------

/// The lines of a text without newline from position `i` on.
proof fn lemma_lines_no_newline(s: Seq<char>, i: int, done: Seq<Seq<char>>, cur: Seq<char>)
    requires
        0 <= i <= s.len(),
        forall|j: int| i <= j < s.len() ==> s[j] != '\n',
    ensures
        lines_from(s, i, done, cur) == (if (cur + s.subrange(i, s.len() as int)).len() > 0 {
            done.push(cur + s.subrange(i, s.len() as int))
        } else {
            done
        }),
    decreases s.len() - i,
{
    if i < s.len() {
        lemma_lines_no_newline(s, i + 1, done, cur.push(s[i]));
        assert(cur.push(s[i]) + s.subrange(i + 1, s.len() as int) =~= cur + s.subrange(i, s.len() as int));
    } else {
        assert(cur + s.subrange(i, s.len() as int) =~= cur);
    }
}

/// Removing trailing whitespace leaves a prefix, which keeps a first
/// character that is not whitespace.
proof fn lemma_trim_end_prefix(s: Seq<char>)
    ensures
        trim_end(s).len() <= s.len(),
        trim_end(s) == s.subrange(0, trim_end(s).len() as int),
        s.len() > 0 && !crate::text::is_ws(s[0]) ==> trim_end(s).len() >= 1,
    decreases s.len(),
{
    if s.len() > 0 && crate::text::is_ws(s.last()) {
        lemma_trim_end_prefix(s.drop_last());
        assert(s.drop_last().subrange(0, trim_end(s).len() as int) =~= s.subrange(0, trim_end(s).len() as int));
    } else {
        assert(s.subrange(0, s.len() as int) =~= s);
    }
}

/// A text made only of whitespace trims to nothing.
proof fn lemma_trim_blank(s: Seq<char>)
    requires
        forall|j: int| 0 <= j < s.len() ==> crate::text::is_ws(#[trigger] s[j]),
    ensures
        crate::text::trim_start(s).len() == 0,
        trim_end(s).len() == 0,
    decreases s.len(),
{
    if s.len() > 0 {
        lemma_trim_blank(s.drop_first());
        lemma_trim_blank(s.drop_last());
    }
}

/// A text starting with a character that is not whitespace trims, on the
/// left, to itself.
proof fn lemma_trim_start_keeps(s: Seq<char>)
    requires
        s.len() > 0,
        !crate::text::is_ws(s[0]),
    ensures
        crate::text::trim_start(s) == s,
{
}

/// A one-line text that starts with `#` is a comment: whatever the
/// variables, environment and expander outputs, it yields no command and
/// sets no variable.
pub proof fn law_comment_line_ignored(
    s: Seq<char>,
    vars: Seq<(Seq<char>, Seq<char>)>,
    answers: Seq<Seq<char>>,
    has_exp: bool,
    env: Seq<(Seq<char>, Seq<char>)>,
)
    requires
        s.len() > 0,
        s[0] == '#',
        forall|j: int| 0 <= j < s.len() ==> s[j] != '\n',
    ensures
        config_run(logical_lines(s), 0, config_start(vars), answers, has_exp, env) == config_start(vars),
{
    lemma_lines_no_newline(s, 0, Seq::empty(), Seq::empty());
    assert(Seq::<char>::empty() + s.subrange(0, s.len() as int) =~= s);
    let ls = text_lines(s);
    assert(ls =~= seq![s]);
    let t = trim_end(s);
    lemma_trim_end_prefix(s);
    let st = config_start(vars);
    if continues(t) {
        let c = Seq::<char>::empty() + t.drop_last();
        assert(c =~= t.drop_last());
        assert(t[0] == s[0]);
        assert(c.len() >= 1 && c[0] == '#');
        assert(join_from(ls, 1, Seq::empty(), c) == seq![c]);
        lemma_trim_start_keeps(c);
        lemma_trim_end_prefix(c);
        assert(trim(c)[0] == c[0]);
        assert(line_step(st, c, answers, has_exp, env) == st);
        assert(logical_lines(s) == seq![c]);
        assert(config_run(seq![c], 1, st, answers, has_exp, env) == st);
    } else {
        assert(Seq::<char>::empty() + s =~= s);
        assert(join_from(ls, 1, seq![s], Seq::empty()) == seq![s]);
        lemma_trim_start_keeps(s);
        lemma_trim_end_prefix(s);
        assert(trim(s)[0] == s[0]);
        assert(line_step(st, s, answers, has_exp, env) == st);
        assert(logical_lines(s) == seq![s]);
        assert(config_run(seq![s], 1, st, answers, has_exp, env) == st);
    }
}

/// A one-line text of blanks and tabs yields no command and sets no variable.
pub proof fn law_blank_line_ignored(
    s: Seq<char>,
    vars: Seq<(Seq<char>, Seq<char>)>,
    answers: Seq<Seq<char>>,
    has_exp: bool,
    env: Seq<(Seq<char>, Seq<char>)>,
)
    requires
        forall|j: int| 0 <= j < s.len() ==> s[j] == ' ' || s[j] == '\t',
    ensures
        config_run(logical_lines(s), 0, config_start(vars), answers, has_exp, env) == config_start(vars),
{
    lemma_lines_no_newline(s, 0, Seq::empty(), Seq::empty());
    assert(Seq::<char>::empty() + s.subrange(0, s.len() as int) =~= s);
    lemma_trim_blank(s);
    let st = config_start(vars);
    if s.len() > 0 {
        let ls = text_lines(s);
        assert(ls =~= seq![s]);
        assert(!continues(trim_end(s)));
        assert(Seq::<char>::empty() + s =~= s);
        assert(join_from(ls, 1, seq![s], Seq::empty()) == seq![s]);
        assert(trim_end(crate::text::trim_start(s)).len() == 0) by {
            lemma_trim_blank(crate::text::trim_start(s));
        }
        assert(line_step(st, s, answers, has_exp, env) == st);
        assert(logical_lines(s) == seq![s]);
        assert(config_run(seq![s], 1, st, answers, has_exp, env) == st);
    } else {
        assert(text_lines(s) =~= Seq::<Seq<char>>::empty());
        assert(logical_lines(s) =~= Seq::<Seq<char>>::empty());
    }
}

/// A line that trims to nothing or to a comment.
pub open spec fn ignorable_line(l: Seq<char>) -> bool {
    trim(l).len() == 0 || trim(l)[0] == '#'
}

proof fn lemma_ignorable_run(
    lines: Seq<Seq<char>>,
    i: int,
    st: ParseView,
    answers: Seq<Seq<char>>,
    has_exp: bool,
    env: Seq<(Seq<char>, Seq<char>)>,
)
    requires
        0 <= i,
        forall|k: int| 0 <= k < lines.len() ==> #[trigger] ignorable_line(lines[k]),
    ensures
        config_run(lines, i, st, answers, has_exp, env) == st,
    decreases lines.len() - i,
{
    if i < lines.len() {
        assert(ignorable_line(lines[i]));
        assert(line_step(st, lines[i], answers, has_exp, env) == st);
        lemma_ignorable_run(lines, i + 1, st, answers, has_exp, env);
    }
}

/// A configuration whose lines are all blank or comments, however many,
/// yields no command and sets no variable.
pub proof fn law_comment_lines_ignored(
    content: Seq<char>,
    vars: Seq<(Seq<char>, Seq<char>)>,
    answers: Seq<Seq<char>>,
    has_exp: bool,
    env: Seq<(Seq<char>, Seq<char>)>,
)
    requires
        forall|k: int| 0 <= k < logical_lines(content).len() ==> #[trigger] ignorable_line(logical_lines(content)[k]),
    ensures
        config_run(logical_lines(content), 0, config_start(vars), answers, has_exp, env) == config_start(vars),
{
    lemma_ignorable_run(logical_lines(content), 0, config_start(vars), answers, has_exp, env);
}

/// Text without `$` is left as it is by `${...}` expansion.
proof fn lemma_expand_plain(
    s: Seq<char>,
    i: int,
    out: Seq<char>,
    hidden: Seq<(Seq<char>, Seq<char>)>,
    env: Seq<(Seq<char>, Seq<char>)>,
)
    requires
        0 <= i <= s.len(),
        forall|j: int| 0 <= j < s.len() ==> s[j] != '$',
    ensures
        expand_from(s, i, out, None, hidden, env) == out + s.subrange(i, s.len() as int),
    decreases s.len() - i,
{
    if i < s.len() {
        lemma_expand_plain(s, i + 1, out.push(s[i]), hidden, env);
        assert(out.push(s[i]) + s.subrange(i + 1, s.len() as int) =~= out + s.subrange(i, s.len() as int));
    } else {
        assert(out + s.subrange(i, s.len() as int) =~= out);
    }
}

/// A name of capital letters and `_`, starting with a letter.
pub open spec fn var_name(n: Seq<char>) -> bool {
    n.len() > 0 && 'A' <= n[0] <= 'Z' && forall|j: int| 0 <= j < n.len() ==> ('A' <= #[trigger] n[j] <= 'Z' || n[j] == '_')
}

/// A value of lowercase letters.
pub open spec fn plain_value(v: Seq<char>) -> bool {
    v.len() > 0 && forall|j: int| 0 <= j < v.len() ==> 'a' <= #[trigger] v[j] <= 'z'
}

/// The line `%hidden NAME="value"`.
pub open spec fn hidden_line(name: Seq<char>, value: Seq<char>) -> Seq<char> {
    seq!['%', 'h', 'i', 'd', 'd', 'e', 'n', ' '] + name + seq!['=', '"'] + value + seq!['"']
}

/// The `%hidden NAME="value"` line, read in a state whose blocks are all
/// active, stores the value under the name.
#[verifier::spinoff_prover]
proof fn lemma_hidden_line_step(
    name: Seq<char>,
    value: Seq<char>,
    st: ParseView,
    answers: Seq<Seq<char>>,
    has_exp: bool,
    env: Seq<(Seq<char>, Seq<char>)>,
)
    requires
        var_name(name),
        plain_value(value),
        all_active(st.stack),
    ensures
        line_step(st, hidden_line(name, value), answers, has_exp, env) == (ParseView {
            vars: st.vars.push((name, value)),
            ..st
        }),
        trim(hidden_line(name, value)) == hidden_line(name, value),
        forall|j: int| 0 <= j < hidden_line(name, value).len() ==> hidden_line(name, value)[j] != '\n',
{
    let s = hidden_line(name, value);
    let nl = name.len() as int;
    let vl = value.len() as int;
    assert(s.len() == 8 + nl + 2 + vl + 1);
    assert forall|j: int| 0 <= j < s.len() implies s[j] != '\n' by {
        if 8 <= j < 8 + nl {
            assert(s[j] == name[j - 8]);
        } else if 8 + nl + 2 <= j < 8 + nl + 2 + vl {
            assert(s[j] == value[j - 8 - nl - 2]);
        }
    }
    assert(s.last() == '"');
    assert(trim_end(s) == s);
    assert(crate::text::trim_start(s) == s);
    assert(trim(s) == s);
    assert(s[1] == 'h');
    assert(!is_prefix(if_prefix(), s)) by {
        assert(s.subrange(0, 4)[1] == 'h');
    }
    assert(!is_prefix(elif_prefix(), s)) by {
        assert(s.subrange(0, 6)[1] == 'h');
    }
    assert(s != else_word() && s != endif_word()) by {
        if s == else_word() {
            assert(else_word()[1] == 'e');
        }
        if s == endif_word() {
            assert(endif_word()[1] == 'e');
        }
    }
    assert(s.subrange(0, 8) =~= hidden_prefix());
    assert(is_prefix(hidden_prefix(), s));
    let rest = s.subrange(8, s.len() as int);
    assert(rest =~= name + seq!['=', '"'] + value + seq!['"']);
    assert(rest[0] == name[0]);
    assert(!crate::text::is_ws(rest[0]));
    assert(rest.last() == '"');
    assert(crate::text::trim_start(rest) == rest);
    assert(trim_end(rest) == rest);
    assert(trim(rest) == rest);
    assert forall|j: int| 0 <= j < nl implies rest[j] != '=' by {
        assert(rest[j] == name[j]);
    }
    assert(first_from(rest, '=', 0) == nl) by {
        lemma_first_from_skip(rest, '=', 0, nl);
    }
    assert(rest.subrange(0, nl) =~= name);
    assert(crate::text::trim_start(name) == name);
    assert(!crate::text::is_ws(name.last()));
    assert(trim_end(name) == name);
    assert(trim(name) == name);
    let q = rest.subrange(nl + 1, rest.len() as int);
    assert(q =~= seq!['"'] + value + seq!['"']);
    assert(crate::text::trim_start(q) == q);
    assert(trim_end(q) == q);
    assert(strip_quotes(trim(q)) =~= value);
    assert(hidden_assignment(rest) == Some((name, value)));
    assert forall|j: int| 0 <= j < value.len() implies value[j] != '$' by {
        assert('a' <= value[j] <= 'z');
    }
    lemma_expand_no_dollar(value, st.vars, env);
}

/// A `%hidden NAME="value"` line stores the value, without its quotes,
/// under the name.
pub proof fn law_hidden_assignment_stored(
    name: Seq<char>,
    value: Seq<char>,
    vars: Seq<(Seq<char>, Seq<char>)>,
    answers: Seq<Seq<char>>,
    has_exp: bool,
    env: Seq<(Seq<char>, Seq<char>)>,
)
    requires
        var_name(name),
        plain_value(value),
    ensures
        config_run(logical_lines(hidden_line(name, value)), 0, config_start(vars), answers, has_exp, env).vars
            == vars.push((name, value)),
        config_run(logical_lines(hidden_line(name, value)), 0, config_start(vars), answers, has_exp, env).cmds.len()
            == 0,
{
    let s = hidden_line(name, value);
    let st = config_start(vars);
    assert(all_active(st.stack));
    lemma_hidden_line_step(name, value, st, answers, has_exp, env);
    lemma_lines_no_newline(s, 0, Seq::empty(), Seq::empty());
    assert(Seq::<char>::empty() + s.subrange(0, s.len() as int) =~= s);
    let ls = text_lines(s);
    assert(ls =~= seq![s]);
    assert(s.last() == '"');
    assert(trim_end(s) == s);
    assert(!continues(trim_end(s)));
    assert(Seq::<char>::empty() + s =~= s);
    assert(join_from(ls, 1, seq![s], Seq::empty()) == seq![s]);
    assert(logical_lines(s) == seq![s]);
    assert(config_run(seq![s], 1, line_step(st, s, answers, has_exp, env), answers, has_exp, env) == line_step(
        st,
        s,
        answers,
        has_exp,
        env,
    ));
}

/// Text without `$` from `i` to `j` is copied by `${...}` expansion.
proof fn lemma_expand_run(
    s: Seq<char>,
    i: int,
    j: int,
    out: Seq<char>,
    hidden: Seq<(Seq<char>, Seq<char>)>,
    env: Seq<(Seq<char>, Seq<char>)>,
)
    requires
        0 <= i <= j <= s.len(),
        forall|k: int| i <= k < j ==> s[k] != '$',
    ensures
        expand_from(s, i, out, None, hidden, env) == expand_from(s, j, out + s.subrange(i, j), None, hidden, env),
    decreases j - i,
{
    if i < j {
        lemma_expand_run(s, i + 1, j, out.push(s[i]), hidden, env);
        assert(out.push(s[i]) + s.subrange(i + 1, j) =~= out + s.subrange(i, j));
    } else {
        assert(out + s.subrange(i, j) =~= out);
    }
}

/// Inside `${`, text without `}` from `i` to `j` is part of the name.
proof fn lemma_expand_name_run(
    s: Seq<char>,
    i: int,
    j: int,
    out: Seq<char>,
    n: Seq<char>,
    hidden: Seq<(Seq<char>, Seq<char>)>,
    env: Seq<(Seq<char>, Seq<char>)>,
)
    requires
        0 <= i <= j <= s.len(),
        forall|k: int| i <= k < j ==> s[k] != '}',
    ensures
        expand_from(s, i, out, Some(n), hidden, env) == expand_from(s, j, out, Some(n + s.subrange(i, j)), hidden, env),
    decreases j - i,
{
    if i < j {
        lemma_expand_name_run(s, i + 1, j, out, n.push(s[i]), hidden, env);
        assert(n.push(s[i]) + s.subrange(i + 1, j) =~= n + s.subrange(i, j));
    } else {
        assert(n + s.subrange(i, j) =~= n);
    }
}

/// One more word at the end of blank-separated words.
proof fn lemma_spaced_push(ws: Seq<Seq<char>>, w: Seq<char>)
    requires
        ws.len() > 0,
    ensures
        spaced_words(ws.push(w)) == spaced_words(ws) + seq![' '] + w,
    decreases ws.len(),
{
    assert(ws.push(w).drop_first() =~= ws.drop_first().push(w));
    assert(ws.push(w)[0] == ws[0]);
    assert(spaced_words(ws.push(w)) == ws[0] + seq![' '] + spaced_words(ws.drop_first().push(w)));
    if ws.len() == 1 {
        assert(ws.drop_first().push(w) =~= seq![w]);
        assert(spaced_words(seq![w]) == w);
    } else {
        lemma_spaced_push(ws.drop_first(), w);
        assert(ws[0] + seq![' '] + (spaced_words(ws.drop_first()) + seq![' '] + w) =~= ws[0] + seq![' ']
            + spaced_words(ws.drop_first()) + seq![' '] + w);
    }
}

/// A `%hidden NAME="value"` line followed by a line of words ending with
/// `${NAME}`: the reference expands to the value, which ends the command.
#[verifier::spinoff_prover]
#[verifier::rlimit(40)]
pub proof fn law_var_interpolation(
    name: Seq<char>,
    value: Seq<char>,
    ws: Seq<Seq<char>>,
    vars: Seq<(Seq<char>, Seq<char>)>,
    answers: Seq<Seq<char>>,
    has_exp: bool,
    env: Seq<(Seq<char>, Seq<char>)>,
)
    requires
        var_name(name),
        plain_value(value),
        ws.len() > 0,
        forall|k: int| 0 <= k < ws.len() ==> #[trigger] plain_word(ws[k]),
        ws[0][0] != '%',
    ensures
        ({
            let content = hidden_line(name, value) + seq!['\n'] + spaced_words(ws) + seq![' ', '$', '{'] + name
                + seq!['}'];
            let end = config_run(logical_lines(content), 0, config_start(vars), answers, has_exp, env);
            &&& end.cmds == seq![ws.push(value)]
            &&& end.vars == vars.push((name, value))
        }),
{
    let l1 = hidden_line(name, value);
    let p = spaced_words(ws) + seq![' '];
    let l2 = p + seq!['$', '{'] + name + seq!['}'];
    let content = l1 + seq!['\n'] + l2;
    assert(content =~= hidden_line(name, value) + seq!['\n'] + spaced_words(ws) + seq![' ', '$', '{'] + name
        + seq!['}']);
    let st0 = config_start(vars);
    assert(all_active(st0.stack));
    lemma_hidden_line_step(name, value, st0, answers, has_exp, env);
    lemma_spaced_chars(ws);
    let n1 = l1.len() as int;
    let np = p.len() as int;
    let nn = name.len() as int;
    assert(l2.len() == np + 2 + nn + 1);
    assert forall|k: int| 0 <= k < n1 implies content[k] != '\n' by {
        assert(content[k] == l1[k]);
    }
    assert forall|k: int| n1 + 1 <= k < content.len() implies content[k] != '\n' by {
        let j = k - n1 - 1;
        assert(content[k] == l2[j]);
        if j < np - 1 {
            assert(l2[j] == spaced_words(ws)[j]);
            assert(word_char(spaced_words(ws)[j]) || spaced_words(ws)[j] == ' ');
        } else if np + 2 <= j < np + 2 + nn {
            assert(l2[j] == name[j - np - 2]);
        }
    }
    assert(content[n1] == '\n');
    lemma_lines_segment(content, 0, n1, Seq::empty(), Seq::empty());
    assert(Seq::<char>::empty() + content.subrange(0, n1) =~= l1);
    assert(l1.last() == '"');
    assert(strip_cr(l1) == l1);
    lemma_lines_no_newline(content, n1 + 1, seq![l1], Seq::empty());
    assert(Seq::<char>::empty() + content.subrange(n1 + 1, content.len() as int) =~= l2);
    assert(text_lines(content) == seq![l1, l2]);
    assert(l2[0] == ws[0][0]) by {
        assert(l2[0] == spaced_words(ws)[0]);
        if ws.len() > 1 {
            assert(spaced_words(ws) == ws[0] + seq![' '] + spaced_words(ws.drop_first()));
        }
    }
    assert(l2.last() == '}');
    lemma_trim_keeps(l1);
    lemma_trim_keeps(l2);
    let ls = seq![l1, l2];
    lemma_join_plain(ls, 0, Seq::empty());
    assert(Seq::<Seq<char>>::empty() + ls.subrange(0, 2) =~= ls);
    assert(logical_lines(content) == ls);
    let st1 = ParseView { vars: vars.push((name, value)), ..st0 };
    assert(!is_prefix(if_prefix(), l2)) by {
        if is_prefix(if_prefix(), l2) {
            assert(l2.subrange(0, 4)[0] == l2[0]);
        }
    }
    assert(!is_prefix(elif_prefix(), l2)) by {
        if is_prefix(elif_prefix(), l2) {
            assert(l2.subrange(0, 6)[0] == l2[0]);
        }
    }
    assert(!is_prefix(hidden_prefix(), l2)) by {
        if is_prefix(hidden_prefix(), l2) {
            assert(l2.subrange(0, 8)[0] == l2[0]);
        }
    }
    assert(l2 != else_word() && l2 != endif_word()) by {
        if l2 == else_word() {
            assert(else_word()[0] == '%');
        }
        if l2 == endif_word() {
            assert(endif_word()[0] == '%');
        }
    }
    assert(all_active(st1.stack));
    let h = vars.push((name, value));
    assert forall|k: int| 0 <= k < np implies l2[k] != '$' by {
        assert(l2[k] == p[k]);
        if k < np - 1 {
            assert(p[k] == spaced_words(ws)[k]);
            assert(word_char(spaced_words(ws)[k]) || spaced_words(ws)[k] == ' ');
        }
    }
    lemma_expand_run(l2, 0, np, Seq::empty(), h, env);
    assert(Seq::<char>::empty() + l2.subrange(0, np) =~= p);
    assert(l2[np] == '$' && l2[np + 1] == '{');
    assert(expand_from(l2, np, p, None, h, env) == expand_from(l2, np + 2, p, Some(Seq::empty()), h, env));
    assert forall|k: int| np + 2 <= k < np + 2 + nn implies l2[k] != '}' by {
        assert(l2[k] == name[k - np - 2]);
    }
    lemma_expand_name_run(l2, np + 2, np + 2 + nn, p, Seq::empty(), h, env);
    assert(Seq::<char>::empty() + l2.subrange(np + 2, np + 2 + nn) =~= name);
    assert(l2[np + 2 + nn] == '}');
    assert(var_value(h, env, name) == value);
    assert(expand_from(l2, np + 2 + nn, p, Some(name), h, env) == expand_from(l2, np + 3 + nn, p + value, None, h, env));
    assert(expand_from(l2, np + 3 + nn, p + value, None, h, env) == p + value);
    assert(expand_text(l2, h, env) == expand_from(l2, np, p, None, h, env));
    assert(expand_text(l2, h, env) == p + value);
    lemma_spaced_push(ws, value);
    assert(p + value =~= spaced_words(ws) + seq![' '] + value);
    let ws2 = ws.push(value);
    assert(plain_word(value)) by {
        assert forall|j: int| 0 <= j < value.len() implies word_char(#[trigger] value[j]) by {
            assert('a' <= value[j] <= 'z');
        }
    }
    assert forall|k: int| 0 <= k < ws2.len() implies #[trigger] plain_word(ws2[k]) by {
        if k < ws.len() {
            assert(ws2[k] == ws[k]);
        }
    }
    lemma_line_commands_words(ws2);
    assert(Seq::<Seq<Seq<char>>>::empty() + seq![ws2] =~= seq![ws2]);
    let st2 = ParseView { cmds: seq![ws2], ..st1 };
    assert(line_step(st1, l2, answers, has_exp, env) == st2);
    assert(config_run(ls, 2, st2, answers, has_exp, env) == st2);
    assert(config_run(ls, 1, st1, answers, has_exp, env) == st2);
}

/// `first_from` passes over positions that are not `c`.
proof fn lemma_first_from_skip(s: Seq<char>, c: char, k: int, e: int)
    requires
        0 <= k <= e < s.len(),
        s[e] == c,
        forall|j: int| 0 <= j < e ==> s[j] != c,
    ensures
        first_from(s, c, k) == e,
    decreases e - k,
{
    if k < e {
        lemma_first_from_skip(s, c, k + 1, e);
    }
}

/// A character that the tokenizer, the `;` splitter and `${...}` expansion
/// all take literally: no quote, backslash, `#`, `;`, `$` or whitespace.
pub open spec fn word_char(c: char) -> bool {
    c != '"' && c != '\'' && c != '\\' && c != '#' && c != ';' && c != '$' && !crate::text::is_ws(c)
}

/// A word of such characters.
pub open spec fn plain_word(w: Seq<char>) -> bool {
    w.len() > 0 && forall|j: int| 0 <= j < w.len() ==> word_char(#[trigger] w[j])
}

/// Words separated by single blanks.
pub open spec fn spaced_words(ws: Seq<Seq<char>>) -> Seq<char>
    decreases ws.len(),
{
    if ws.len() == 0 {
        Seq::empty()
    } else if ws.len() == 1 {
        ws[0]
    } else {
        ws[0] + seq![' '] + spaced_words(ws.drop_first())
    }
}

/// Plain characters go into the argument being read.
proof fn lemma_tok_plain_run(s: Seq<char>, i: int, j: int, t: TokState)
    requires
        0 <= i <= j <= s.len(),
        !t.dq && !t.sq,
        forall|k: int| i <= k < j ==> word_char(#[trigger] s[k]),
    ensures
        tok_from(s, i, t) == tok_from(s, j, TokState { cur: t.cur + s.subrange(i, j), ..t }),
    decreases j - i,
{
    if i < j {
        assert(word_char(s[i]));
        lemma_tok_plain_run(s, i + 1, j, TokState { cur: t.cur.push(s[i]), ..t });
        assert(t.cur.push(s[i]) + s.subrange(i + 1, j) =~= t.cur + s.subrange(i, j));
    } else {
        assert(t.cur + s.subrange(i, j) =~= t.cur);
    }
}

/// The words of a blank-separated text come out as its arguments.
proof fn lemma_tok_words(s: Seq<char>, i: int, t: TokState, ws: Seq<Seq<char>>)
    requires
        0 <= i <= s.len(),
        !t.dq && !t.sq && !t.quoted,
        t.cur.len() == 0,
        ws.len() > 0,
        forall|k: int| 0 <= k < ws.len() ==> #[trigger] plain_word(ws[k]),
        s.subrange(i, s.len() as int) == spaced_words(ws),
    ensures
        tok_from(s, i, t) == t.args + ws,
    decreases ws.len(),
{
    let w = ws[0];
    assert(plain_word(w));
    let e = i + w.len();
    if ws.len() == 1 {
        assert(s.len() == e);
    } else {
        assert(spaced_words(ws) == w + seq![' '] + spaced_words(ws.drop_first()));
    }
    assert forall|k: int| i <= k < e implies word_char(#[trigger] s[k]) by {
        assert(s.subrange(i, s.len() as int)[k - i] == s[k]);
        assert(spaced_words(ws)[k - i] == w[k - i]);
    }
    lemma_tok_plain_run(s, i, e, t);
    assert(s.subrange(i, e) =~= w) by {
        assert forall|k: int| 0 <= k < w.len() implies s.subrange(i, e)[k] == w[k] by {
            assert(s.subrange(i, s.len() as int)[k] == s[i + k]);
            assert(spaced_words(ws)[k] == w[k]);
        }
    }
    assert(t.cur + w =~= w);
    let t1 = TokState { cur: w, ..t };
    if ws.len() == 1 {
        assert(t.args + ws =~= t.args.push(w));
    } else {
        assert(s[e] == ' ') by {
            assert(s.subrange(i, s.len() as int)[w.len() as int] == s[e]);
            assert(spaced_words(ws)[w.len() as int] == ' ');
        }
        let t2 = TokState { args: t.args.push(w), cur: Seq::empty(), quoted: false, ..t1 };
        assert(tok_from(s, e, t1) == tok_from(s, e + 1, t2));
        assert(s.subrange(e + 1, s.len() as int) =~= spaced_words(ws.drop_first())) by {
            assert forall|k: int| 0 <= k < s.len() - (e + 1) implies s.subrange(e + 1, s.len() as int)[k]
                == spaced_words(ws.drop_first())[k] by {
                assert(s.subrange(i, s.len() as int)[w.len() + 1 + k] == s[e + 1 + k]);
            }
        }
        assert forall|k: int| 0 <= k < ws.drop_first().len() implies #[trigger] plain_word(ws.drop_first()[k]) by {
            assert(ws.drop_first()[k] == ws[k + 1]);
        }
        lemma_tok_words(s, e + 1, t2, ws.drop_first());
        assert(t.args.push(w) + ws.drop_first() =~= t.args + ws);
    }
}

/// The blank-separated words of a text that holds nothing else.
proof fn lemma_tokenize_words(ws: Seq<Seq<char>>)
    requires
        ws.len() > 0,
        forall|k: int| 0 <= k < ws.len() ==> #[trigger] plain_word(ws[k]),
    ensures
        tokenize(spaced_words(ws)) == ws,
{
    let s = spaced_words(ws);
    assert(s.subrange(0, s.len() as int) =~= s);
    let t0 = TokState { args: Seq::empty(), cur: Seq::empty(), dq: false, sq: false, quoted: false };
    lemma_tok_words(s, 0, t0, ws);
    assert(Seq::<Seq<char>>::empty() + ws =~= ws);
}

/// Every character of blank-separated plain words is a word character or a blank.
proof fn lemma_spaced_chars(ws: Seq<Seq<char>>)
    requires
        forall|k: int| 0 <= k < ws.len() ==> #[trigger] plain_word(ws[k]),
    ensures
        forall|j: int| 0 <= j < spaced_words(ws).len() ==> (word_char(#[trigger] spaced_words(ws)[j])
            || spaced_words(ws)[j] == ' '),
        ws.len() > 0 ==> spaced_words(ws).len() > 0 && word_char(spaced_words(ws)[0]) && word_char(
            spaced_words(ws).last(),
        ),
    decreases ws.len(),
{
    if ws.len() > 1 {
        assert forall|k: int| 0 <= k < ws.drop_first().len() implies #[trigger] plain_word(ws.drop_first()[k]) by {
            assert(ws.drop_first()[k] == ws[k + 1]);
        }
        lemma_spaced_chars(ws.drop_first());
        let w = ws[0];
        let r = spaced_words(ws.drop_first());
        assert(plain_word(w));
        assert forall|j: int| 0 <= j < spaced_words(ws).len() implies (word_char(#[trigger] spaced_words(ws)[j])
            || spaced_words(ws)[j] == ' ') by {
            if j < w.len() {
                assert(spaced_words(ws)[j] == w[j]);
            } else if j > w.len() {
                assert(spaced_words(ws)[j] == r[j - w.len() - 1]);
            }
        }
        assert(spaced_words(ws).last() == r.last());
    } else if ws.len() == 1 {
        assert(plain_word(ws[0]));
    }
}

/// A text without quotes, backslashes or `;` is one `;`-piece.
proof fn lemma_semi_plain(s: Seq<char>, i: int)
    requires
        0 <= i <= s.len(),
        s.len() > 0,
        forall|j: int| 0 <= j < s.len() ==> s[j] != '"' && s[j] != '\'' && s[j] != '\\' && s[j] != ';',
    ensures
        semi_from(s, i, 0, false, false, Seq::empty()) == seq![s],
    decreases s.len() - i,
{
    if i < s.len() {
        lemma_semi_plain(s, i + 1);
    } else {
        assert(s.subrange(0, s.len() as int) =~= s);
    }
}

/// A line of blank-separated plain words is one command of those words.
proof fn lemma_line_commands_words(ws: Seq<Seq<char>>)
    requires
        ws.len() > 0,
        forall|k: int| 0 <= k < ws.len() ==> #[trigger] plain_word(ws[k]),
    ensures
        line_commands(spaced_words(ws)) == seq![ws],
{
    let s = spaced_words(ws);
    lemma_spaced_chars(ws);
    assert forall|j: int| 0 <= j < s.len() implies s[j] != '"' && s[j] != '\'' && s[j] != '\\' && s[j] != ';' by {
        assert(word_char(s[j]) || s[j] == ' ');
    }
    lemma_semi_plain(s, 0);
    assert(crate::text::trim_start(s) == s);
    assert(trim_end(s) == s);
    assert(trim(s) == s);
    lemma_tokenize_words(ws);
    assert(piece_commands(seq![s], 1, seq![ws]) == seq![ws]);
    assert(Seq::<Seq<Seq<char>>>::empty().push(ws) =~= seq![ws]);
}

/// Text without `$` expands to itself.
proof fn lemma_expand_no_dollar(s: Seq<char>, hidden: Seq<(Seq<char>, Seq<char>)>, env: Seq<(Seq<char>, Seq<char>)>)
    requires
        forall|j: int| 0 <= j < s.len() ==> s[j] != '$',
    ensures
        expand_text(s, hidden, env) == s,
{
    lemma_expand_plain(s, 0, Seq::empty(), hidden, env);
    assert(Seq::<char>::empty() + s.subrange(0, s.len() as int) =~= s);
}

/// A one-line configuration of blank-separated plain words (the first not
/// starting with `%`) is the one command of those words.
pub proof fn law_simple_words_parsed(
    ws: Seq<Seq<char>>,
    vars: Seq<(Seq<char>, Seq<char>)>,
    answers: Seq<Seq<char>>,
    has_exp: bool,
    env: Seq<(Seq<char>, Seq<char>)>,
)
    requires
        ws.len() > 0,
        forall|k: int| 0 <= k < ws.len() ==> #[trigger] plain_word(ws[k]),
        ws[0][0] != '%',
    ensures
        config_run(logical_lines(spaced_words(ws)), 0, config_start(vars), answers, has_exp, env)
            == (ParseView { cmds: seq![ws], ..config_start(vars) }),
{
    let s = spaced_words(ws);
    lemma_spaced_chars(ws);
    assert forall|j: int| 0 <= j < s.len() implies s[j] != '\n' && s[j] != '$' by {
        assert(word_char(s[j]) || s[j] == ' ');
    }
    lemma_lines_no_newline(s, 0, Seq::empty(), Seq::empty());
    assert(Seq::<char>::empty() + s.subrange(0, s.len() as int) =~= s);
    let ls = text_lines(s);
    assert(ls =~= seq![s]);
    assert(trim_end(s) == s);
    assert(!continues(trim_end(s)));
    assert(Seq::<char>::empty() + s =~= s);
    assert(join_from(ls, 1, seq![s], Seq::empty()) == seq![s]);
    assert(logical_lines(s) == seq![s]);
    assert(crate::text::trim_start(s) == s);
    assert(trim(s) == s);
    let st = config_start(vars);
    assert(s[0] == ws[0][0]) by {
        if ws.len() > 1 {
            assert(s == ws[0] + seq![' '] + spaced_words(ws.drop_first()));
        }
    }
    assert(s[0] != '%');
    assert(!is_prefix(if_prefix(), s)) by {
        if is_prefix(if_prefix(), s) {
            assert(s.subrange(0, 4)[0] == s[0]);
        }
    }
    assert(!is_prefix(elif_prefix(), s)) by {
        if is_prefix(elif_prefix(), s) {
            assert(s.subrange(0, 6)[0] == s[0]);
        }
    }
    assert(!is_prefix(hidden_prefix(), s)) by {
        if is_prefix(hidden_prefix(), s) {
            assert(s.subrange(0, 8)[0] == s[0]);
        }
    }
    assert(s != else_word() && s != endif_word()) by {
        if s == else_word() {
            assert(else_word()[0] == '%');
        }
        if s == endif_word() {
            assert(endif_word()[0] == '%');
        }
    }
    assert(all_active(st.stack));
    lemma_expand_no_dollar(s, vars, env);
    lemma_line_commands_words(ws);
    assert(Seq::<Seq<Seq<char>>>::empty() + seq![ws] =~= seq![ws]);
    assert(line_step(st, s, answers, has_exp, env) == ParseView { cmds: seq![ws], ..st });
    assert(config_run(seq![s], 1, line_step(st, s, answers, has_exp, env), answers, has_exp, env) == line_step(
        st,
        s,
        answers,
        has_exp,
        env,
    ));
}

/// A line ending at a newline is split off, without a carriage return.
proof fn lemma_lines_segment(s: Seq<char>, i: int, j: int, done: Seq<Seq<char>>, cur: Seq<char>)
    requires
        0 <= i <= j < s.len(),
        s[j] == '\n',
        forall|k: int| i <= k < j ==> s[k] != '\n',
    ensures
        lines_from(s, i, done, cur) == lines_from(s, j + 1, done.push(strip_cr(cur + s.subrange(i, j))), Seq::empty()),
    decreases j - i,
{
    if i < j {
        lemma_lines_segment(s, i + 1, j, done, cur.push(s[i]));
        assert(cur.push(s[i]) + s.subrange(i + 1, j) =~= cur + s.subrange(i, j));
    } else {
        assert(cur + s.subrange(i, j) =~= cur);
    }
}

/// Lines none of which continues on the next are the logical lines.
proof fn lemma_join_plain(ls: Seq<Seq<char>>, i: int, done: Seq<Seq<char>>)
    requires
        0 <= i <= ls.len(),
        forall|k: int| 0 <= k < ls.len() ==> !continues(trim_end(#[trigger] ls[k])),
    ensures
        join_from(ls, i, done, Seq::empty()) == done + ls.subrange(i, ls.len() as int),
    decreases ls.len() - i,
{
    if i < ls.len() {
        assert(!continues(trim_end(ls[i])));
        assert(Seq::<char>::empty() + ls[i] =~= ls[i]);
        lemma_join_plain(ls, i + 1, done.push(ls[i]));
        assert(done.push(ls[i]) + ls.subrange(i + 1, ls.len() as int) =~= done + ls.subrange(i, ls.len() as int));
    } else {
        assert(done + ls.subrange(i, ls.len() as int) =~= done);
    }
}

/// A text whose first and last characters are not whitespace trims to itself.
proof fn lemma_trim_keeps(t: Seq<char>)
    requires
        t.len() > 0,
        !crate::text::is_ws(t[0]),
        !crate::text::is_ws(t.last()),
    ensures
        trim(t) == t,
        trim_end(t) == t,
{
}

/// The three lines of an `%if` block around a line of words.
#[verifier::spinoff_prover]
#[verifier::rlimit(40)]
proof fn lemma_if_block_lines(cond: Seq<char>, ws: Seq<Seq<char>>)
    requires
        plain_word(cond),
        ws.len() > 0,
        forall|k: int| 0 <= k < ws.len() ==> #[trigger] plain_word(ws[k]),
    ensures
        logical_lines(if_prefix() + cond + seq!['\n'] + spaced_words(ws) + seq!['\n'] + endif_word() + seq!['\n'])
            == seq![if_prefix() + cond, spaced_words(ws), endif_word()],
{
    let l1 = if_prefix() + cond;
    let l2 = spaced_words(ws);
    let l3 = endif_word();
    let content = l1 + seq!['\n'] + l2 + seq!['\n'] + l3 + seq!['\n'];
    lemma_spaced_chars(ws);
    let n1 = l1.len() as int;
    let n2 = l2.len() as int;
    let n3 = l3.len() as int;
    assert forall|k: int| 0 <= k < n1 implies content[k] != '\n' by {
        assert(content[k] == l1[k]);
        if k >= 4 {
            assert(l1[k] == cond[k - 4]);
        }
    }
    assert forall|k: int| n1 + 1 <= k < n1 + 1 + n2 implies content[k] != '\n' by {
        assert(content[k] == l2[k - n1 - 1]);
        assert(word_char(l2[k - n1 - 1]) || l2[k - n1 - 1] == ' ');
    }
    assert forall|k: int| n1 + 1 + n2 + 1 <= k < n1 + 1 + n2 + 1 + n3 implies content[k] != '\n' by {
        assert(content[k] == l3[k - n1 - n2 - 2]);
    }
    assert(content[n1] == '\n');
    assert(content[n1 + 1 + n2] == '\n');
    assert(content[n1 + n2 + 2 + n3] == '\n');
    assert(content.len() == n1 + n2 + n3 + 3);
    lemma_lines_segment(content, 0, n1, Seq::empty(), Seq::empty());
    assert(Seq::<char>::empty() + content.subrange(0, n1) =~= l1);
    assert(l1.last() == cond.last());
    assert(strip_cr(l1) == l1);
    lemma_lines_segment(content, n1 + 1, n1 + 1 + n2, seq![l1], Seq::empty());
    assert(Seq::<char>::empty() + content.subrange(n1 + 1, n1 + 1 + n2) =~= l2);
    assert(strip_cr(l2) == l2);
    lemma_lines_segment(content, n1 + n2 + 2, n1 + n2 + 2 + n3, seq![l1, l2], Seq::empty());
    assert(Seq::<char>::empty() + content.subrange(n1 + n2 + 2, n1 + n2 + 2 + n3) =~= l3);
    assert(strip_cr(l3) == l3);
    assert(seq![l1].push(l2) =~= seq![l1, l2]);
    assert(seq![l1, l2].push(l3) =~= seq![l1, l2, l3]);
    assert(text_lines(content) == seq![l1, l2, l3]);
    lemma_trim_keeps(l1);
    lemma_trim_keeps(l2);
    lemma_trim_keeps(l3);
    let ls = seq![l1, l2, l3];
    lemma_join_plain(ls, 0, Seq::empty());
    assert(Seq::<Seq<char>>::empty() + ls.subrange(0, 3) =~= ls);
}

/// `%if COND` followed by a line of words and `%endif`: the words are a
/// command exactly when the condition holds, that is when the expander's
/// output for it is neither empty nor `0`; the block is closed afterwards.
#[verifier::spinoff_prover]
#[verifier::rlimit(40)]
pub proof fn law_if_block(
    cond: Seq<char>,
    ws: Seq<Seq<char>>,
    vars: Seq<(Seq<char>, Seq<char>)>,
    answers: Seq<Seq<char>>,
    env: Seq<(Seq<char>, Seq<char>)>,
)
    requires
        plain_word(cond),
        ws.len() > 0,
        forall|k: int| 0 <= k < ws.len() ==> #[trigger] plain_word(ws[k]),
        ws[0][0] != '%',
    ensures
        ({
            let content = if_prefix() + cond + seq!['\n'] + spaced_words(ws) + seq!['\n'] + endif_word() + seq!['\n'];
            let end = config_run(logical_lines(content), 0, config_start(vars), answers, true, env);
            &&& end.cmds == (if truthy(answers[0]) { seq![ws] } else { Seq::empty() })
            &&& end.stack.len() == 0
            &&& end.vars == vars
        }),
{
    let l1 = if_prefix() + cond;
    let l2 = spaced_words(ws);
    let l3 = endif_word();
    lemma_if_block_lines(cond, ws);
    lemma_spaced_chars(ws);
    let ls = seq![l1, l2, l3];
    let n1 = l1.len() as int;
    assert(plain_word(cond));
    assert(l1.last() == cond.last());
    lemma_trim_keeps(l1);
    lemma_trim_keeps(l2);
    lemma_trim_keeps(l3);
    let st0 = config_start(vars);
    assert(l1.subrange(0, 4) =~= if_prefix());
    assert(is_prefix(if_prefix(), l1));
    assert(l1.subrange(4, n1) =~= cond);
    let r = truthy(answers[0]);
    let st1 = ParseView { stack: seq![CondState { any_taken: r, active: r }], k: 1, ..st0 };
    assert(Seq::<CondState>::empty().push(CondState { any_taken: r, active: r }) =~= seq![CondState { any_taken: r, active: r }]);
    assert(line_step(st0, l1, answers, true, env) == st1);
    assert(l2[0] == ws[0][0]) by {
        if ws.len() > 1 {
            assert(l2 == ws[0] + seq![' '] + spaced_words(ws.drop_first()));
        }
    }
    assert(!is_prefix(if_prefix(), l2)) by {
        if is_prefix(if_prefix(), l2) {
            assert(l2.subrange(0, 4)[0] == l2[0]);
        }
    }
    assert(!is_prefix(elif_prefix(), l2)) by {
        if is_prefix(elif_prefix(), l2) {
            assert(l2.subrange(0, 6)[0] == l2[0]);
        }
    }
    assert(!is_prefix(hidden_prefix(), l2)) by {
        if is_prefix(hidden_prefix(), l2) {
            assert(l2.subrange(0, 8)[0] == l2[0]);
        }
    }
    assert(l2 != else_word() && l2 != endif_word()) by {
        if l2 == else_word() {
            assert(else_word()[0] == '%');
        }
        if l2 == endif_word() {
            assert(endif_word()[0] == '%');
        }
    }
    assert(all_active(st1.stack) == r) by {
        assert(st1.stack[0].active == r);
        if r {
            assert forall|i: int| 0 <= i < st1.stack.len() implies #[trigger] st1.stack[i].active by {
                assert(i == 0);
            }
        }
    }
    assert forall|j: int| 0 <= j < l2.len() implies l2[j] != '$' by {
        assert(word_char(l2[j]) || l2[j] == ' ');
    }
    lemma_expand_no_dollar(l2, vars, env);
    lemma_line_commands_words(ws);
    assert(Seq::<Seq<Seq<char>>>::empty() + seq![ws] =~= seq![ws]);
    let st2 = if r { ParseView { cmds: seq![ws], ..st1 } } else { st1 };
    assert(line_step(st1, l2, answers, true, env) == st2);
    assert(!is_prefix(if_prefix(), l3)) by {
        if is_prefix(if_prefix(), l3) {
            assert(l3.subrange(0, 4)[1] == l3[1]);
        }
    }
    assert(!is_prefix(elif_prefix(), l3)) by {
        if is_prefix(elif_prefix(), l3) {
            assert(l3.subrange(0, 6)[2] == l3[2]);
        }
    }
    assert(l3 != else_word());
    assert(st2.stack.drop_last() =~= Seq::<CondState>::empty());
    let st3 = ParseView { stack: Seq::empty(), ..st2 };
    assert(line_step(st2, l3, answers, true, env) == st3);
    assert(config_run(ls, 3, st3, answers, true, env) == st3);
    assert(config_run(ls, 2, st2, answers, true, env) == st3);
    assert(config_run(ls, 1, st1, answers, true, env) == st3);
}

/// Whether a line is a `%if`, `%elif` or `%hidden` line whose value is a
/// lone quote character, whatever state the parser is in.
pub open spec fn line_has_lone_quote(line: Seq<char>) -> bool {
    let t = trim(line);
    if t.len() == 0 || t[0] == '#' {
        false
    } else if is_prefix(if_prefix(), t) {
        lone_quote(trim(t.subrange(4, t.len() as int)))
    } else if is_prefix(elif_prefix(), t) {
        lone_quote(trim(t.subrange(6, t.len() as int)))
    } else if t == else_word() || t == endif_word() {
        false
    } else if is_prefix(hidden_prefix(), t) {
        hidden_lone_quote(t.subrange(8, t.len() as int))
    } else {
        false
    }
}

/// A configuration none of whose lines has a lone quote never meets one,
/// whatever the parser's state and the expander's outputs.
pub proof fn lemma_no_lone_quote_run(
    lines: Seq<Seq<char>>,
    i: int,
    st: ParseView,
    answers: Seq<Seq<char>>,
    has_exp: bool,
    env: Seq<(Seq<char>, Seq<char>)>,
)
    requires
        0 <= i,
        forall|k: int| 0 <= k < lines.len() ==> !#[trigger] line_has_lone_quote(lines[k]),
    ensures
        !run_lone_quote(lines, i, st, answers, has_exp, env),
    decreases lines.len() - i,
{
    if i < lines.len() {
        assert(!line_has_lone_quote(lines[i]));
        assert(!line_lone_quote(st, lines[i]));
        lemma_no_lone_quote_run(lines, i + 1, line_step(st, lines[i], answers, has_exp, env), answers, has_exp, env);
    }
}

/// Whether `v` is a single quote character.
fn chars_lone_quote(v: &[char]) -> (r: bool)
    ensures
        r == lone_quote(v@),
{
    v.len() == 1 && (v[0] == '"' || v[0] == '\'')
}

/// Whether a line has a lone quote in a `%if`, `%elif` or `%hidden` value.
fn line_lone_quote_check(line: &[char]) -> (r: bool)
    ensures
        r == line_has_lone_quote(line@),
{
    let t = chars_trim(line);
    if t.len() == 0 || t[0] == '#' {
        return false;
    }
    let if_p: Vec<char> = vec!['%', 'i', 'f', ' '];
    let elif_p: Vec<char> = vec!['%', 'e', 'l', 'i', 'f', ' '];
    let else_w: Vec<char> = vec!['%', 'e', 'l', 's', 'e'];
    let endif_w: Vec<char> = vec!['%', 'e', 'n', 'd', 'i', 'f'];
    let hidden_p: Vec<char> = vec!['%', 'h', 'i', 'd', 'd', 'e', 'n', ' '];
    assert(if_p@ =~= if_prefix());
    assert(elif_p@ =~= elif_prefix());
    assert(else_w@ =~= else_word());
    assert(endif_w@ =~= endif_word());
    assert(hidden_p@ =~= hidden_prefix());
    if chars_starts_with(t.as_slice(), if_p.as_slice()) {
        let rest = chars_trim(chars_range(t.as_slice(), 4, t.len()).as_slice());
        return chars_lone_quote(rest.as_slice());
    }
    if chars_starts_with(t.as_slice(), elif_p.as_slice()) {
        let rest = chars_trim(chars_range(t.as_slice(), 6, t.len()).as_slice());
        return chars_lone_quote(rest.as_slice());
    }
    if chars_eq(t.as_slice(), else_w.as_slice()) || chars_eq(t.as_slice(), endif_w.as_slice()) {
        return false;
    }
    if !chars_starts_with(t.as_slice(), hidden_p.as_slice()) {
        return false;
    }
    let rest = chars_range(t.as_slice(), 8, t.len());
    let tt = chars_trim(rest.as_slice());
    let mut e: usize = 0;
    while e < tt.len() && tt[e] != '='
        invariant
            e <= tt@.len(),
            first_from(tt@, '=', 0) == first_from(tt@, '=', e as int),
        decreases tt@.len() - e,
    {
        e = e + 1;
    }
    if e >= tt.len() {
        return false;
    }
    let name = chars_trim(chars_range(tt.as_slice(), 0, e).as_slice());
    if name.len() == 0 {
        return false;
    }
    let value = chars_trim(chars_range(tt.as_slice(), e + 1, tt.len()).as_slice());
    chars_lone_quote(value.as_slice())
}

/// Whether no line of the configuration has a lone quote in a `%if`,
/// `%elif` or `%hidden` value (parsing such a value has no answer).
pub fn config_lone_quote_free(content: &str) -> (r: bool)
    ensures
        r == (forall|k: int| 0 <= k < logical_lines(content@).len() ==> !#[trigger] line_has_lone_quote(
            logical_lines(content@)[k],
        )),
{
    let cs = str_chars(content);
    let lines = join_continuation_lines(cs.as_slice());
    let mut i: usize = 0;
    while i < lines.len()
        invariant
            lines_view(lines@) == logical_lines(content@),
            i <= lines@.len(),
            forall|k: int| 0 <= k < i ==> !#[trigger] line_has_lone_quote(logical_lines(content@)[k]),
        decreases lines@.len() - i,
    {
        assert(lines_view(lines@)[i as int] == lines@[i as int]@);
        if line_lone_quote_check(lines[i].as_slice()) {
            return false;
        }
        i = i + 1;
    }
    true
}

} // verus!
