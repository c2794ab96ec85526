//! Window commands: new-window, kill-window, select-window, rename-window,
//! list-windows, swap-window, move-window, layouts, link-window and the
//! target resolution they share.

use vstd::prelude::*;
use crate::command::{
    flag_set, get_option, has_flag, option_value, positional_args, positionals, strs_view, CommandResult,
    CommandServer,
};
use crate::command::builtins::util::{before_colon, err, err_with, join_lines, name_before_colon, parse_u32, parse_u32_str};
use crate::server::ServerError;
use crate::text::{
    chars_split, chars_trim, join, join_strings, lemma_split_nonempty, parse_unsigned_chars, push_all, split_on,
    split_once, str_chars, str_split_once, string_from_chars, strings_view, to_owned_string, trim,
};

verus! {

// ---------------------------------------------------------------------------
// Target text
// ---------------------------------------------------------------------------

/// The field after the first `:` and before any second one
/// (`split(':').nth(1)`), when the text has a `:`.
pub open spec fn second_field(t: Seq<char>) -> Option<Seq<char>> {
    let p = split_on(t, ':');
    if p.len() > 1 { Some(p[1]) } else { None }
}

/// The field after the last `:` (`split(':').next_back()`).
pub open spec fn last_field(t: Seq<char>) -> Seq<char> {
    split_on(t, ':').last()
}

/// The `:`-separated fields of `t`.
fn colon_fields(t: &str) -> (r: Vec<String>)
    ensures
        strings_view(r@) == split_on(t@, ':'),
        r@.len() >= 1,
{
    let cs = str_chars(t);
    let parts = chars_split(cs.as_slice(), ':');
    proof {
        lemma_split_nonempty(t@, ':');
    }
    let mut r: Vec<String> = Vec::new();
    let mut i: usize = 0;
    while i < parts.len()
        invariant
            i <= parts@.len(),
            parts@.map_values(|v: Vec<char>| v@) == split_on(t@, ':'),
            r@.len() == i,
            forall|j: int| 0 <= j < i ==> #[trigger] r@[j]@ == parts@[j]@,
        decreases parts@.len() - i,
    {
        r.push(string_from_chars(parts[i].as_slice()));
        i = i + 1;
    }
    assert(strings_view(r@) =~= split_on(t@, ':')) by {
        assert forall|j: int| 0 <= j < r@.len() implies strings_view(r@)[j] == split_on(t@, ':')[j] by {
            assert(parts@.map_values(|v: Vec<char>| v@)[j] == parts@[j]@);
        }
    }
    r
}

/// The second `:`-separated field of `t`, if there is one.
pub fn second_field_of(t: &str) -> (r: Option<String>)
    ensures
        match second_field(t@) {
            Some(w) => r matches Some(s) && s@ == w,
            None => r is None,
        },
{
    let fields = colon_fields(t);
    if fields.len() > 1 {
        let w = fields[1].clone();
        Some(w)
    } else {
        None
    }
}

/// The last `:`-separated field of `t`.
pub fn last_field_of(t: &str) -> (r: String)
    ensures
        r@ == last_field(t@),
{
    let fields = colon_fields(t);
    fields[fields.len() - 1].clone()
}

/// Whether `t` holds a `:`.
pub fn has_colon(t: &str) -> (r: bool)
    ensures
        r == (split_once(t@, ':') is Some),
{
    match str_split_once(t, ':') {
        Some(_) => true,
        None => false,
    }
}

/// The last argument that does not start with `-` among the first `n`.
pub open spec fn last_plain_from(args: Seq<Seq<char>>, n: int) -> Option<Seq<char>>
    decreases n,
{
    if n <= 0 || n > args.len() {
        None
    } else if !(args[n - 1].len() > 0 && args[n - 1][0] == '-') {
        Some(args[n - 1])
    } else {
        last_plain_from(args, n - 1)
    }
}

/// The last argument that does not start with `-`.
pub open spec fn last_plain(args: Seq<Seq<char>>) -> Option<Seq<char>> {
    last_plain_from(args, args.len() as int)
}

/// The last argument that does not start with `-`, if any.
pub fn last_plain_arg(args: &[String]) -> (r: Option<&str>)
    ensures
        match last_plain(strings_view(args@)) {
            Some(v) => r matches Some(s) && s@ == v,
            None => r is None,
        },
{
    let ghost a = strings_view(args@);
    let mut n: usize = args.len();
    while n > 0
        invariant
            a == strings_view(args@),
            n <= args@.len(),
            last_plain(a) == last_plain_from(a, n as int),
        decreases n,
    {
        let s = args[n - 1].as_str();
        let cs = str_chars(s);
        assert(a[n - 1] == s@);
        if !(cs.len() > 0 && cs[0] == '-') {
            return Some(s);
        }
        n = n - 1;
    }
    None
}

/// The positional arguments joined by blanks, when there are any.
pub open spec fn joined_positionals(args: Seq<Seq<char>>, with_values: Seq<Seq<char>>) -> Option<Seq<char>> {
    let p = positionals(args, with_values);
    if p.len() == 0 { None } else { Some(join(p, " "@)) }
}

/// The shell command a command's positional arguments give, if any.
pub fn shell_command(args: &[String], with_values: &[&str]) -> (r: Option<String>)
    ensures
        match joined_positionals(strings_view(args@), strs_view(with_values@)) {
            Some(c) => r matches Some(s) && s@ == c,
            None => r is None,
        },
{
    let parts = positional_args(args, with_values);
    if parts.len() == 0 {
        return None;
    }
    let mut owned: Vec<String> = Vec::new();
    let mut i: usize = 0;
    while i < parts.len()
        invariant
            i <= parts@.len(),
            owned@.len() == i,
            forall|j: int| 0 <= j < i ==> #[trigger] owned@[j]@ == parts@[j]@,
        decreases parts@.len() - i,
    {
        owned.push(to_owned_string(parts[i]));
        i = i + 1;
    }
    assert(strings_view(owned@) =~= strs_view(parts@));
    Some(join_strings(owned.as_slice(), " "))
}

// ---------------------------------------------------------------------------
// Layout cycle
// ---------------------------------------------------------------------------

/// The layouts in the order next-layout walks them.
pub open spec fn layout_cycle() -> Seq<Seq<char>> {
    seq!["even-horizontal"@, "even-vertical"@, "main-horizontal"@, "main-vertical"@, "tiled"@]
}

/// The place of `name` in the cycle (the first place for an unknown name).
pub open spec fn cycle_index(name: Seq<char>) -> int {
    if name == layout_cycle()[0] {
        0
    } else if name == layout_cycle()[1] {
        1
    } else if name == layout_cycle()[2] {
        2
    } else if name == layout_cycle()[3] {
        3
    } else if name == layout_cycle()[4] {
        4
    } else {
        0
    }
}

/// The layout after `name` in the cycle.
pub open spec fn next_layout(name: Seq<char>) -> Seq<char> {
    layout_cycle()[(cycle_index(name) + 1) % 5]
}

/// The layout before `name` in the cycle.
pub open spec fn previous_layout(name: Seq<char>) -> Seq<char> {
    layout_cycle()[(cycle_index(name) + 4) % 5]
}

/// The five layout names of the cycle differ from each other.
proof fn lemma_layouts_distinct()
    ensures
        forall|i: int, j: int| 0 <= i < j < 5 ==> layout_cycle()[i] != layout_cycle()[j],
{
    reveal_strlit("even-horizontal");
    reveal_strlit("even-vertical");
    reveal_strlit("main-horizontal");
    reveal_strlit("main-vertical");
    reveal_strlit("tiled");
    assert(layout_cycle()[0][5] != layout_cycle()[1][5]);
    assert(layout_cycle()[0][0] != layout_cycle()[2][0]);
    assert(layout_cycle()[0][0] != layout_cycle()[3][0]);
    assert(layout_cycle()[0].len() != layout_cycle()[4].len());
    assert(layout_cycle()[1][0] != layout_cycle()[2][0]);
    assert(layout_cycle()[1][0] != layout_cycle()[3][0]);
    assert(layout_cycle()[1].len() != layout_cycle()[4].len());
    assert(layout_cycle()[2][5] != layout_cycle()[3][5]);
    assert(layout_cycle()[2].len() != layout_cycle()[4].len());
    assert(layout_cycle()[3].len() != layout_cycle()[4].len());
}

/// Each layout of the cycle sits at its own place.
proof fn lemma_cycle_index(i: int)
    requires
        0 <= i < 5,
    ensures
        cycle_index(layout_cycle()[i]) == i,
{
    lemma_layouts_distinct();
}

/// The layout one step from `current` along the cycle: forward for
/// next-layout, backward for previous-layout.
pub fn layout_step(current: &str, forward: bool) -> (r: &'static str)
    ensures
        forward ==> r@ == next_layout(current@),
        !forward ==> r@ == previous_layout(current@),
{
    let idx: usize = if crate::text::str_eq(current, "even-horizontal") {
        0
    } else if crate::text::str_eq(current, "even-vertical") {
        1
    } else if crate::text::str_eq(current, "main-horizontal") {
        2
    } else if crate::text::str_eq(current, "main-vertical") {
        3
    } else if crate::text::str_eq(current, "tiled") {
        4
    } else {
        0
    };
    assert(idx == cycle_index(current@));
    let j = if forward { (idx + 1) % 5 } else { (idx + 4) % 5 };
    if j == 0 {
        "even-horizontal"
    } else if j == 1 {
        "even-vertical"
    } else if j == 2 {
        "main-horizontal"
    } else if j == 3 {
        "main-vertical"
    } else {
        "tiled"
    }
}

/// previous-layout undoes next-layout, and next-layout undoes
/// previous-layout, for every layout of the cycle.
pub proof fn law_layout_cycle_roundtrip(name: Seq<char>)
    requires
        layout_cycle().contains(name),
    ensures
        previous_layout(next_layout(name)) == name,
        next_layout(previous_layout(name)) == name,
{
    let i = choose|i: int| 0 <= i < 5 && layout_cycle()[i] == name;
    lemma_cycle_index(i);
    lemma_cycle_index((i + 1) % 5);
    lemma_cycle_index((i + 4) % 5);
}

/// next-layout comes back to the layout it started from after five steps.
pub proof fn law_layout_cycle_period(name: Seq<char>)
    requires
        layout_cycle().contains(name),
    ensures
        next_layout(next_layout(next_layout(next_layout(next_layout(name))))) == name,
{
    let i = choose|i: int| 0 <= i < 5 && layout_cycle()[i] == name;
    lemma_cycle_index(i);
    lemma_cycle_index((i + 1) % 5);
    lemma_cycle_index((i + 2) % 5);
    lemma_cycle_index((i + 3) % 5);
    lemma_cycle_index((i + 4) % 5);
}

// ---------------------------------------------------------------------------
// Window lists
// ---------------------------------------------------------------------------

/// The window index a `list-windows` line starts with (`idx: name ...`).
pub open spec fn window_line_index(line: Seq<char>) -> Option<u32> {
    parse_u32(trim(before_colon(line)))
}

/// The window indices of `lines`, in order, other than `keep`.
pub open spec fn indices_except(lines: Seq<Seq<char>>, keep: u32) -> Seq<u32>
    decreases lines.len(),
{
    if lines.len() == 0 {
        Seq::empty()
    } else {
        let rest = indices_except(lines.drop_last(), keep);
        match window_line_index(lines.last()) {
            Some(n) => if n != keep { rest.push(n) } else { rest },
            None => rest,
        }
    }
}

/// The index at the start of a `list-windows` line.
pub fn window_index_of_line(line: &str) -> (r: Option<u32>)
    ensures
        r == window_line_index(line@),
{
    let name = name_before_colon(line);
    let cs = str_chars(name.as_str());
    let t = chars_trim(cs.as_slice());
    match parse_unsigned_chars(t.as_slice(), 0xffff_ffff) {
        Some(n) => Some(n as u32),
        None => None,
    }
}

/// The window indices of the lines other than `keep`.
pub fn window_indices_except(lines: &Vec<String>, keep: u32) -> (r: Vec<u32>)
    ensures
        r@ == indices_except(strings_view(lines@), keep),
{
    let ghost l = strings_view(lines@);
    let mut r: Vec<u32> = Vec::new();
    let mut i: usize = 0;
    while i < lines.len()
        invariant
            l == strings_view(lines@),
            i <= lines@.len(),
            r@ == indices_except(l.subrange(0, i as int), keep),
        decreases lines@.len() - i,
    {
        assert(l.subrange(0, i + 1).drop_last() =~= l.subrange(0, i as int));
        assert(l.subrange(0, i + 1).last() == lines@[i as int]@);
        match window_index_of_line(lines[i].as_str()) {
            Some(n) => {
                if n != keep {
                    r.push(n);
                }
            },
            None => {},
        }
        i = i + 1;
    }
    assert(l.subrange(0, l.len() as int) =~= l);
    r
}

// ---------------------------------------------------------------------------
// Target resolution
// ---------------------------------------------------------------------------

/// The error that resolving a window command's session ends with.
pub open spec fn session_error(args: Seq<Seq<char>>) -> Seq<char> {
    match option_value(args, "-t"@) {
        Some(t) => if split_once(t, ':') is Some {
            "session not found: "@ + before_colon(t)
        } else if parse_u32(t) is Some {
            "no current session"@
        } else {
            "session not found: "@ + t
        },
        None => "no current session"@,
    }
}

/// Resolves the session from `-t` (`session[:window]`, a session name, or a
/// bare window index of the current session) or the client's session.
pub fn resolve_session<S: CommandServer + ?Sized>(args: &[String], server: &S) -> (r: Result<u32, ServerError>)
    ensures
        r matches Err(e) ==> e.msg() == session_error(strings_view(args@)),
{
    match get_option(args, "-t") {
        Some(target) => {
            if has_colon(target) {
                let name = name_before_colon(target);
                match server.find_session_id(name.as_str()) {
                    Some(id) => Ok(id),
                    None => Err(err_with("session not found: ", name.as_str())),
                }
            } else if parse_u32_str(target).is_some() {
                match server.client_session_id() {
                    Some(id) => Ok(id),
                    None => Err(err("no current session")),
                }
            } else {
                match server.find_session_id(target) {
                    Some(id) => Ok(id),
                    None => Err(err_with("session not found: ", target)),
                }
            }
        },
        None => match server.client_session_id() {
            Some(id) => Ok(id),
            None => Err(err("no current session")),
        },
    }
}

/// The window index `-t` names: `Some(Ok(n))` for an index, `Some(Err(m))`
/// for an invalid one, `None` when the session's active window is meant.
pub open spec fn window_index_target(args: Seq<Seq<char>>) -> Option<Result<u32, Seq<char>>> {
    match option_value(args, "-t"@) {
        Some(t) => match second_field(t) {
            Some(w) => match parse_u32(w) {
                Some(n) => Some(Ok(n)),
                None => Some(Err("invalid window index: "@ + w)),
            },
            None => match parse_u32(t) {
                Some(n) => Some(Ok(n)),
                None => None,
            },
        },
        None => None,
    }
}

/// Resolves the window index from `-t`, or the session's (else the client's)
/// active window.
pub fn resolve_window_idx<S: CommandServer + ?Sized>(args: &[String], server: &S, session_id: u32) -> (r: Result<
    u32,
    ServerError,
>)
    ensures
        match window_index_target(strings_view(args@)) {
            Some(Ok(n)) => r matches Ok(m) && m == n,
            Some(Err(m)) => r matches Err(e) && e.msg() == m,
            None => r matches Err(e) ==> e.msg() == "no current window"@,
        },
{
    match get_option(args, "-t") {
        Some(target) => {
            match second_field_of(target) {
                Some(w) => {
                    return match parse_u32_str(w.as_str()) {
                        Some(n) => Ok(n),
                        None => Err(err_with("invalid window index: ", w.as_str())),
                    };
                },
                None => {
                    match parse_u32_str(target) {
                        Some(n) => {
                            return Ok(n);
                        },
                        None => {},
                    }
                },
            }
        },
        None => {},
    }
    match server.active_window_for(session_id) {
        Some(w) => Ok(w),
        None => match server.client_active_window() {
            Some(w) => Ok(w),
            None => Err(err("no current window")),
        },
    }
}

/// Resolves a `session:window` target, or a session name and its active window.
fn resolve_target_pair<S: CommandServer + ?Sized>(target: &str, server: &S) -> (r: Result<(u32, u32), ServerError>)
    ensures
        match split_once(target@, ':') {
            Some((s, w)) => {
                &&& r matches Err(e) ==> (e.msg() == "session not found: "@ + s || (parse_u32(w) is None && e.msg()
                    == "invalid window index: "@ + w))
                &&& r matches Ok((_, n)) ==> parse_u32(w) == Some(n)
            },
            None => r matches Err(e) ==> (e.msg() == "session not found: "@ + target@ || e.msg()
                == "no active window"@),
        },
{
    match str_split_once(target, ':') {
        Some((name, window_part)) => {
            let session_id = match server.find_session_id(name.as_str()) {
                Some(id) => id,
                None => {
                    return Err(err_with("session not found: ", name.as_str()));
                },
            };
            match parse_u32_str(window_part.as_str()) {
                Some(n) => Ok((session_id, n)),
                None => Err(err_with("invalid window index: ", window_part.as_str())),
            }
        },
        None => {
            let session_id = match server.find_session_id(target) {
                Some(id) => id,
                None => {
                    return Err(err_with("session not found: ", target));
                },
            };
            match server.active_window_for(session_id) {
                Some(w) => Ok((session_id, w)),
                None => Err(err("no active window")),
            }
        },
    }
}

// ---------------------------------------------------------------------------
// Commands
// ---------------------------------------------------------------------------

/// new-window [-abdkPS] [-e env] [-F format] [-n name] [-c start-directory]
///   [-t target-session] [shell-command]
///
/// Creates a window running the positional arguments as its command and,
/// unless `-d`, selects it.
pub fn cmd_new_window<S: CommandServer + ?Sized>(args: &[String], server: &mut S) -> (r: Result<CommandResult, ServerError>)
    ensures
        r matches Ok(res) ==> res is Done,
{
    let name = get_option(args, "-n");
    let session_id = resolve_session(args, server)?;
    let cwd: String = match get_option(args, "-c") {
        Some(dir) => to_owned_string(dir),
        None => server.default_cwd(),
    };
    let shell_cmd = shell_command(args, &["-n", "-c", "-t", "-e", "-F"]);
    let created = match &shell_cmd {
        Some(c) => server.create_window(session_id, name, cwd.as_str(), Some(c.as_str())),
        None => server.create_window(session_id, name, cwd.as_str(), None),
    };
    let (window_idx, _pane_id) = created?;
    if !has_flag(args, "-d") {
        server.select_window(session_id, window_idx)?;
    }
    Ok(CommandResult::Done)
}

/// kill-window [-a] [-t target-window]
///
/// Kills the target window, or with `-a` every other window of its session.
pub fn cmd_kill_window<S: CommandServer + ?Sized>(args: &[String], server: &mut S) -> (r: Result<CommandResult, ServerError>)
    ensures
        r matches Ok(res) ==> res is Done,
        window_index_target(strings_view(args@)) matches Some(Err(m)) ==> r is Err,
{
    let session_id = resolve_session(args, server)?;
    let window_idx = resolve_window_idx(args, server, session_id)?;
    if has_flag(args, "-a") {
        let windows = server.list_windows(session_id);
        let indices = window_indices_except(&windows, window_idx);
        let mut i: usize = 0;
        while i < indices.len()
            invariant
                i <= indices@.len(),
            decreases indices@.len() - i,
        {
            server.kill_window(session_id, indices[i])?;
            i = i + 1;
        }
    } else {
        server.kill_window(session_id, window_idx)?;
    }
    Ok(CommandResult::Done)
}

/// select-window [-lnpT] [-t target-window]
///
/// `-l` selects the last window, `-n` the next, `-p` the previous; `-T`
/// selects the last window when the target is already the active one.
pub fn cmd_select_window<S: CommandServer + ?Sized>(args: &[String], server: &mut S) -> (r: Result<CommandResult, ServerError>)
    ensures
        r matches Ok(res) ==> res is Done,
{
    let session_id = resolve_session(args, server)?;
    if has_flag(args, "-l") {
        server.last_window(session_id)?;
        return Ok(CommandResult::Done);
    }
    if has_flag(args, "-n") {
        server.next_window(session_id)?;
        return Ok(CommandResult::Done);
    }
    if has_flag(args, "-p") {
        server.previous_window(session_id)?;
        return Ok(CommandResult::Done);
    }
    if has_flag(args, "-T") {
        let window_idx = resolve_window_idx(args, server, session_id)?;
        let active = server.active_window_for(session_id);
        if active == Some(window_idx) {
            server.last_window(session_id)?;
            return Ok(CommandResult::Done);
        }
    }
    let window_idx = resolve_window_idx(args, server, session_id)?;
    server.select_window(session_id, window_idx)?;
    Ok(CommandResult::Done)
}

/// next-window [-a] [-t target-session]
pub fn cmd_next_window<S: CommandServer + ?Sized>(args: &[String], server: &mut S) -> (r: Result<CommandResult, ServerError>)
    ensures
        r matches Ok(res) ==> res is Done,
{
    let session_id = resolve_session(args, server)?;
    server.next_window(session_id)?;
    Ok(CommandResult::Done)
}

/// previous-window [-a] [-t target-session]
pub fn cmd_previous_window<S: CommandServer + ?Sized>(args: &[String], server: &mut S) -> (r: Result<
    CommandResult,
    ServerError,
>)
    ensures
        r matches Ok(res) ==> res is Done,
{
    let session_id = resolve_session(args, server)?;
    server.previous_window(session_id)?;
    Ok(CommandResult::Done)
}

/// last-window [-t target-session]
pub fn cmd_last_window<S: CommandServer + ?Sized>(args: &[String], server: &mut S) -> (r: Result<CommandResult, ServerError>)
    ensures
        r matches Ok(res) ==> res is Done,
{
    let session_id = resolve_session(args, server)?;
    server.last_window(session_id)?;
    Ok(CommandResult::Done)
}

/// rename-window [-t target-window] new-name
///
/// The new name is the last argument not starting with `-`.
pub fn cmd_rename_window<S: CommandServer + ?Sized>(args: &[String], server: &mut S) -> (r: Result<CommandResult, ServerError>)
    ensures
        r matches Ok(res) ==> res is Done,
        last_plain(strings_view(args@)) is None ==> r is Err,
{
    let session_id = resolve_session(args, server)?;
    let window_idx = resolve_window_idx(args, server, session_id)?;
    let new_name = match last_plain_arg(args) {
        Some(n) => n,
        None => {
            return Err(err("rename-window: missing name"));
        },
    };
    server.rename_window(session_id, window_idx, new_name)?;
    Ok(CommandResult::Done)
}

/// The output of a list: its lines, or `empty` when there are none.
fn list_or(lines: &Vec<String>, empty: &str) -> (r: Result<CommandResult, ServerError>)
    ensures
        lines@.len() == 0 ==> (r matches Ok(CommandResult::Output(o)) && o@ == empty@),
        lines@.len() > 0 ==> (r matches Ok(CommandResult::Output(o)) && o@ == crate::command::builtins::util::lines_text(
            strings_view(lines@),
        )),
{
    if lines.len() == 0 {
        Ok(CommandResult::Output(to_owned_string(empty)))
    } else {
        Ok(CommandResult::Output(join_lines(lines)))
    }
}

/// list-windows [-a] [-F format] [-f filter] [-t target-session]
///
/// Lists the windows of the session, or with `-a` of every session, each
/// line then led by the session's name.
pub fn cmd_list_windows<S: CommandServer + ?Sized>(args: &[String], server: &mut S) -> (r: Result<
    CommandResult,
    ServerError,
>)
    ensures
        r matches Ok(res) ==> res is Output,
        flag_set(strings_view(args@), "-a"@) ==> r is Ok,
{
    if has_flag(args, "-a") {
        let sessions = server.list_sessions();
        let mut output: Vec<String> = Vec::new();
        let mut i: usize = 0;
        while i < sessions.len()
            invariant
                i <= sessions@.len(),
            decreases sessions@.len() - i,
        {
            let name = name_before_colon(sessions[i].as_str());
            match server.find_session_id(name.as_str()) {
                Some(sid) => {
                    let windows = server.list_windows(sid);
                    let mut j: usize = 0;
                    while j < windows.len()
                        invariant
                            j <= windows@.len(),
                        decreases windows@.len() - j,
                    {
                        let mut line = name.clone();
                        push_all(&mut line, ": ");
                        push_all(&mut line, windows[j].as_str());
                        output.push(line);
                        j = j + 1;
                    }
                },
                None => {},
            }
            i = i + 1;
        }
        list_or(&output, "(no windows)\n")
    } else {
        let session_id = resolve_session(args, server)?;
        let windows = server.list_windows(session_id);
        list_or(&windows, "(no windows)\n")
    }
}

/// swap-window [-d] [-s src-window] [-t dst-window]
///
/// Swaps the two windows and, unless `-d`, selects the destination.
pub fn cmd_swap_window<S: CommandServer + ?Sized>(args: &[String], server: &mut S) -> (r: Result<CommandResult, ServerError>)
    ensures
        r matches Ok(res) ==> res is Done,
{
    let detached = has_flag(args, "-d");
    let session_id = resolve_session(args, server)?;
    let from_arg: Option<u32> = match get_option(args, "-s") {
        Some(s) => {
            let f = last_field_of(s);
            parse_u32_str(f.as_str())
        },
        None => None,
    };
    let src_idx = match from_arg {
        Some(n) => n,
        None => match server.active_window_for(session_id) {
            Some(n) => n,
            None => {
                return Err(err("no source window"));
            },
        },
    };
    let dst_idx = resolve_window_idx(args, server, session_id)?;
    server.swap_window(session_id, src_idx, dst_idx)?;
    if !detached {
        server.select_window(session_id, dst_idx)?;
    }
    Ok(CommandResult::Done)
}

/// move-window [-abdkr] [-s src-window] [-t dst-window]
///
/// Moves the `-s` window (default: the current one) to the `-t` place.
pub fn cmd_move_window<S: CommandServer + ?Sized>(args: &[String], server: &mut S) -> (r: Result<CommandResult, ServerError>)
    ensures
        r matches Ok(res) ==> res is Done,
{
    let src_session_id = match get_option(args, "-s") {
        Some(src) => {
            let name = name_before_colon(src);
            match server.find_session_id(name.as_str()) {
                Some(id) => id,
                None => {
                    return Err(err_with("session not found: ", name.as_str()));
                },
            }
        },
        None => match server.client_session_id() {
            Some(id) => id,
            None => {
                return Err(err("no current session"));
            },
        },
    };
    let from_arg: Option<u32> = match get_option(args, "-s") {
        Some(s) => match second_field_of(s) {
            Some(w) => parse_u32_str(w.as_str()),
            None => None,
        },
        None => None,
    };
    let src_idx = match from_arg {
        Some(n) => n,
        None => match server.active_window_for(src_session_id) {
            Some(n) => n,
            None => {
                return Err(err("no source window"));
            },
        },
    };
    let dst_session_id = resolve_session(args, server)?;
    let dst_idx = resolve_window_idx(args, server, dst_session_id)?;
    server.move_window(src_session_id, src_idx, dst_session_id, dst_idx)?;
    Ok(CommandResult::Done)
}

/// rotate-window [-DU] [-t target-window]
///
/// Rotates the panes of the window, upward with `-U`, else downward.
pub fn cmd_rotate_window<S: CommandServer + ?Sized>(args: &[String], server: &mut S) -> (r: Result<CommandResult, ServerError>)
    ensures
        r matches Ok(res) ==> res is Done,
{
    let session_id = resolve_session(args, server)?;
    let window_idx = resolve_window_idx(args, server, session_id)?;
    let reverse = has_flag(args, "-U");
    server.rotate_window(session_id, window_idx, reverse)?;
    Ok(CommandResult::Done)
}

/// Selects the layout one step along the cycle from the window's current one.
fn step_layout<S: CommandServer + ?Sized>(server: &mut S, session_id: u32, window_idx: u32, forward: bool) -> (r: Result<
    CommandResult,
    ServerError,
>)
    ensures
        r matches Ok(res) ==> res is Done,
{
    let current = server.current_layout_name(session_id, window_idx);
    let next = layout_step(current.as_str(), forward);
    server.select_layout(session_id, window_idx, next)?;
    Ok(CommandResult::Done)
}

/// select-layout [-Enop] [-t target-window] [layout-name]
///
/// `-n` and `-p` step along the layout cycle, `-E` spreads the panes evenly
/// (tiled); otherwise the named layout (default even-horizontal) is applied.
pub fn cmd_select_layout<S: CommandServer + ?Sized>(args: &[String], server: &mut S) -> (r: Result<CommandResult, ServerError>)
    ensures
        r matches Ok(res) ==> res is Done,
{
    let session_id = resolve_session(args, server)?;
    let window_idx = resolve_window_idx(args, server, session_id)?;
    if has_flag(args, "-n") {
        return step_layout(server, session_id, window_idx, true);
    }
    if has_flag(args, "-p") {
        return step_layout(server, session_id, window_idx, false);
    }
    if has_flag(args, "-E") {
        server.select_layout(session_id, window_idx, "tiled")?;
        return Ok(CommandResult::Done);
    }
    let positional = positional_args(args, &["-t"]);
    let layout_name: &str = if positional.len() > 0 { positional[0] } else { "even-horizontal" };
    server.select_layout(session_id, window_idx, layout_name)?;
    Ok(CommandResult::Done)
}

/// find-window [-CNrTZ] [-t target-session] match-string
///
/// Lists the windows matching the string; none matching is an error.
pub fn cmd_find_window<S: CommandServer + ?Sized>(args: &[String], server: &mut S) -> (r: Result<CommandResult, ServerError>)
    ensures
        r matches Ok(res) ==> res is Output,
        positionals(strings_view(args@), seq!["-t"@]).len() == 0 ==> r is Err,
{
    let session_id = resolve_session(args, server)?;
    let with_values: [&str; 1] = ["-t"];
    assert(strs_view(with_values@) =~= seq!["-t"@]);
    let positional = positional_args(args, &with_values);
    if positional.len() == 0 {
        return Err(err("find-window: missing match string"));
    }
    let pattern = positional[0];
    let results = server.find_windows(session_id, pattern);
    if results.len() == 0 {
        Err(err_with("no windows matching: ", pattern))
    } else {
        Ok(CommandResult::Output(join_lines(&results)))
    }
}

/// next-layout [-t target-window]
pub fn cmd_next_layout<S: CommandServer + ?Sized>(args: &[String], server: &mut S) -> (r: Result<CommandResult, ServerError>)
    ensures
        r matches Ok(res) ==> res is Done,
{
    let session_id = resolve_session(args, server)?;
    let window_idx = resolve_window_idx(args, server, session_id)?;
    step_layout(server, session_id, window_idx, true)
}

/// previous-layout [-t target-window]
pub fn cmd_previous_layout<S: CommandServer + ?Sized>(args: &[String], server: &mut S) -> (r: Result<
    CommandResult,
    ServerError,
>)
    ensures
        r matches Ok(res) ==> res is Done,
{
    let session_id = resolve_session(args, server)?;
    let window_idx = resolve_window_idx(args, server, session_id)?;
    step_layout(server, session_id, window_idx, false)
}

/// respawn-window [-k] [-t target-window] [shell-command]
///
/// Restarts the window's active pane with the positional arguments as its command.
pub fn cmd_respawn_window<S: CommandServer + ?Sized>(args: &[String], server: &mut S) -> (r: Result<
    CommandResult,
    ServerError,
>)
    ensures
        r matches Ok(res) ==> res is Done,
{
    let session_id = resolve_session(args, server)?;
    let window_idx = resolve_window_idx(args, server, session_id)?;
    let pane_id = match server.active_pane_id_for(session_id, window_idx) {
        Some(p) => p,
        None => {
            return Err(err("no active pane"));
        },
    };
    let shell_cmd = shell_command(args, &["-t"]);
    match &shell_cmd {
        Some(c) => server.respawn_pane(session_id, window_idx, pane_id, Some(c.as_str()))?,
        None => server.respawn_pane(session_id, window_idx, pane_id, None)?,
    }
    Ok(CommandResult::Done)
}

/// link-window [-dk] [-s src-window] [-t dst-window]
///
/// Links the source window (default: the current one) into the destination
/// session, at the `-t` index when one is given.
pub fn cmd_link_window<S: CommandServer + ?Sized>(args: &[String], server: &mut S) -> (r: Result<CommandResult, ServerError>)
    ensures
        r matches Ok(res) ==> res is Done,
{
    let kill_existing = has_flag(args, "-k");
    let (src_session, src_window_idx) = match get_option(args, "-s") {
        Some(t) => resolve_target_pair(t, server)?,
        None => {
            let sid = match server.client_session_id() {
                Some(s) => s,
                None => {
                    return Err(err("no current session"));
                },
            };
            let widx = match server.active_window_for(sid) {
                Some(w) => w,
                None => {
                    return Err(err("no current window"));
                },
            };
            (sid, widx)
        },
    };
    let (dst_session, dst_window_idx) = match get_option(args, "-t") {
        Some(t) => {
            if has_colon(t) {
                let (s, w) = resolve_target_pair(t, server)?;
                (s, Some(w))
            } else {
                match server.find_session_id(t) {
                    Some(sid) => (sid, None),
                    None => {
                        return Err(err_with("session not found: ", t));
                    },
                }
            }
        },
        None => match server.client_session_id() {
            Some(sid) => (sid, None),
            None => {
                return Err(err("no current session"));
            },
        },
    };
    server.link_window(src_session, src_window_idx, dst_session, dst_window_idx, kill_existing)?;
    Ok(CommandResult::Done)
}

/// unlink-window [-k] [-t target-window]
pub fn cmd_unlink_window<S: CommandServer + ?Sized>(args: &[String], server: &mut S) -> (r: Result<
    CommandResult,
    ServerError,
>)
    ensures
        r matches Ok(res) ==> res is Done,
{
    let session_id = resolve_session(args, server)?;
    let window_idx = resolve_window_idx(args, server, session_id)?;
    server.unlink_window(session_id, window_idx)?;
    Ok(CommandResult::Done)
}

/// move-pane [-s src-pane] [-t dst-pane]: moves a pane as join-pane does.
pub fn cmd_move_pane<S: CommandServer + ?Sized>(args: &[String], server: &mut S) -> (r: Result<CommandResult, ServerError>)
    ensures
        r matches Ok(res) ==> res is Done,
{
    crate::command::builtins::pane::cmd_join_pane(args, server)
}

} // verus!
