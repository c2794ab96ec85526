//! Pane commands: split-window, select-pane, kill-pane, list-panes,
//! capture-pane, resize-pane, swap-pane, break-pane, join-pane, last-pane,
//! respawn-pane, and the pane target resolution they share.

use vstd::prelude::*;
use crate::command::{flag_set, get_option, has_flag, option_value, CommandResult, CommandServer, Direction, SplitSize};
use crate::command::builtins::util::{before_colon, err, err_with, join_lines, name_before_colon, parse_u32, parse_u32_str};
use crate::command::builtins::window::{has_colon, last_plain, last_plain_arg, window_index_of_line};
use crate::config::{lines_view, split_lines, text_lines};
use crate::server::ServerError;
use crate::text::{
    chars_trim_end, join, join_strings, push_all, split_once, str_chars, str_eq, str_split_once, string_from_chars,
    strings_view, to_owned_string, trim_end, u32_to_string,
};

verus! {

// ---------------------------------------------------------------------------
// Pane ids
// ---------------------------------------------------------------------------

/// A pane id as written in a target: `%N` or `N`.
pub open spec fn pane_id_text(t: Seq<char>) -> Option<u32> {
    if t.len() > 0 && t[0] == '%' {
        parse_u32(t.drop_first())
    } else {
        parse_u32(t)
    }
}

/// Parses a pane id written as `%N` or `N`.
pub fn parse_pane_id(t: &str) -> (r: Option<u32>)
    ensures
        r == pane_id_text(t@),
{
    let cs = str_chars(t);
    if cs.len() > 0 && cs[0] == '%' {
        let rest = string_from_chars(crate::text::chars_skip(cs.as_slice(), 1).as_slice());
        assert(rest@ =~= t@.drop_first());
        parse_u32_str(rest.as_str())
    } else {
        parse_u32_str(t)
    }
}

/// The pane id a `list-panes` line starts with (`%N: ...`).
pub open spec fn pane_line_id(line: Seq<char>) -> Option<u32> {
    if line.len() > 0 && line[0] == '%' {
        parse_u32(before_colon(line.drop_first()))
    } else {
        None
    }
}

/// The pane ids of `lines`, in order.
pub open spec fn pane_ids(lines: Seq<Seq<char>>) -> Seq<u32>
    decreases lines.len(),
{
    if lines.len() == 0 {
        Seq::empty()
    } else {
        let rest = pane_ids(lines.drop_last());
        match pane_line_id(lines.last()) {
            Some(n) => rest.push(n),
            None => rest,
        }
    }
}

/// The pane id at the start of a `list-panes` line.
pub fn pane_id_of_line(line: &str) -> (r: Option<u32>)
    ensures
        r == pane_line_id(line@),
{
    let cs = str_chars(line);
    if cs.len() > 0 && cs[0] == '%' {
        let rest = string_from_chars(crate::text::chars_skip(cs.as_slice(), 1).as_slice());
        assert(rest@ =~= line@.drop_first());
        let head = name_before_colon(rest.as_str());
        parse_u32_str(head.as_str())
    } else {
        None
    }
}

/// The pane ids of the lines of a pane list.
pub fn pane_ids_of(lines: &Vec<String>) -> (r: Vec<u32>)
    ensures
        r@ == pane_ids(strings_view(lines@)),
{
    let ghost l = strings_view(lines@);
    let mut r: Vec<u32> = Vec::new();
    let mut i: usize = 0;
    while i < lines.len()
        invariant
            l == strings_view(lines@),
            i <= lines@.len(),
            r@ == pane_ids(l.subrange(0, i as int)),
        decreases lines@.len() - i,
    {
        assert(l.subrange(0, i + 1).drop_last() =~= l.subrange(0, i as int));
        assert(l.subrange(0, i + 1).last() == lines@[i as int]@);
        match pane_id_of_line(lines[i].as_str()) {
            Some(n) => r.push(n),
            None => {},
        }
        i = i + 1;
    }
    assert(l.subrange(0, l.len() as int) =~= l);
    r
}

/// The first place of `x` in `ids` at or after `i`.
pub open spec fn position_from(ids: Seq<u32>, x: u32, i: int) -> Option<int>
    decreases ids.len() - i,
{
    if i < 0 || i >= ids.len() {
        None
    } else if ids[i] == x {
        Some(i)
    } else {
        position_from(ids, x, i + 1)
    }
}

/// The first place of `x` in `ids`.
pub open spec fn position_of(ids: Seq<u32>, x: u32) -> Option<int> {
    position_from(ids, x, 0)
}

proof fn lemma_position_from_bounds(ids: Seq<u32>, x: u32, i: int)
    ensures
        position_from(ids, x, i) matches Some(p) ==> 0 <= i <= p < ids.len() && ids[p] == x,
    decreases ids.len() - i,
{
    if 0 <= i < ids.len() && ids[i] != x {
        lemma_position_from_bounds(ids, x, i + 1);
    }
}

/// The first place of `x` in `ids`, if it occurs.
pub fn find_position(ids: &Vec<u32>, x: u32) -> (r: Option<usize>)
    ensures
        match position_of(ids@, x) {
            Some(p) => r == Some(p as usize) && 0 <= p < ids@.len(),
            None => r is None,
        },
{
    let mut i: usize = 0;
    proof {
        lemma_position_from_bounds(ids@, x, 0);
    }
    while i < ids.len()
        invariant
            i <= ids@.len(),
            position_of(ids@, x) == position_from(ids@, x, i as int),
        decreases ids@.len() - i,
    {
        if ids[i] == x {
            return Some(i);
        }
        i = i + 1;
    }
    None
}

/// The pane after `current` in `ids`, cyclically, when the list of pane
/// lines has more than one entry and `current` is among the ids.
pub open spec fn next_pane(line_count: int, ids: Seq<u32>, current: u32) -> Option<u32> {
    if line_count > 1 {
        match position_of(ids, current) {
            Some(p) => Some(ids[(p + 1) % (ids.len() as int)]),
            None => None,
        }
    } else {
        None
    }
}

/// The pane next to `src` in `ids` (cyclically): the one before it when `up`,
/// else the one after it; `None` when `src` is not among the ids.
pub open spec fn neighbour_pane(ids: Seq<u32>, src: u32, up: bool) -> Option<u32> {
    match position_of(ids, src) {
        Some(p) => if up {
            Some(if p > 0 { ids[p - 1] } else { ids[ids.len() - 1] })
        } else {
            Some(ids[(p + 1) % (ids.len() as int)])
        },
        None => None,
    }
}

/// The pane after `current`, as select-pane `-t +` picks it.
pub fn next_pane_id(line_count: usize, ids: &Vec<u32>, current: u32) -> (r: Option<u32>)
    ensures
        r == next_pane(line_count as int, ids@, current),
{
    if line_count <= 1 {
        return None;
    }
    let n = ids.len();
    match find_position(ids, current) {
        Some(p) => Some(ids[(p + 1) % n]),
        None => None,
    }
}

/// The pane next to `src`, as swap-pane `-U`/`-D` picks it.
pub fn neighbour_pane_id(ids: &Vec<u32>, src: u32, up: bool) -> (r: Option<u32>)
    ensures
        r == neighbour_pane(ids@, src, up),
{
    let n = ids.len();
    match find_position(ids, src) {
        Some(p) => {
            if up {
                if p > 0 {
                    Some(ids[p - 1])
                } else {
                    Some(ids[n - 1])
                }
            } else {
                Some(ids[(p + 1) % n])
            }
        },
        None => None,
    }
}

/// The ids of `ids` other than `keep`, in order.
pub open spec fn ids_except(ids: Seq<u32>, keep: u32) -> Seq<u32>
    decreases ids.len(),
{
    if ids.len() == 0 {
        Seq::empty()
    } else {
        let rest = ids_except(ids.drop_last(), keep);
        if ids.last() != keep { rest.push(ids.last()) } else { rest }
    }
}

/// The ids other than `keep`.
pub fn ids_without(ids: &Vec<u32>, keep: u32) -> (r: Vec<u32>)
    ensures
        r@ == ids_except(ids@, keep),
{
    let mut r: Vec<u32> = Vec::new();
    let mut i: usize = 0;
    while i < ids.len()
        invariant
            i <= ids@.len(),
            r@ == ids_except(ids@.subrange(0, i as int), keep),
        decreases ids@.len() - i,
    {
        proof {
            let s = ids@.subrange(0, i + 1);
            assert(s.drop_last() =~= ids@.subrange(0, i as int));
        }
        if ids[i] != keep {
            r.push(ids[i]);
        }
        i = i + 1;
    }
    assert(ids@.subrange(0, ids@.len() as int) =~= ids@);
    r
}

// ---------------------------------------------------------------------------
// Argument decoding
// ---------------------------------------------------------------------------

/// The size split-window gives the new pane: `-l N` lines, `-l N%` or `-p N`
/// percent (`-l` first); `None` when absent or not a number.
pub open spec fn split_size(args: Seq<Seq<char>>) -> Option<SplitSize> {
    match option_value(args, "-l"@) {
        Some(l) => if l.len() > 0 && l.last() == '%' {
            match parse_u32(l.drop_last()) {
                Some(n) => Some(SplitSize::Percent(n)),
                None => None,
            }
        } else {
            match parse_u32(l) {
                Some(n) => Some(SplitSize::Lines(n)),
                None => None,
            }
        },
        None => match option_value(args, "-p"@) {
            Some(p) => match parse_u32(p) {
                Some(n) => Some(SplitSize::Percent(n)),
                None => None,
            },
            None => None,
        },
    }
}

/// The size the split-window arguments ask for.
pub fn split_size_of(args: &[String]) -> (r: Option<SplitSize>)
    ensures
        r == split_size(strings_view(args@)),
{
    match get_option(args, "-l") {
        Some(l) => {
            let cs = str_chars(l);
            if cs.len() > 0 && cs[cs.len() - 1] == '%' {
                let head = string_from_chars(crate::text::chars_range(cs.as_slice(), 0, cs.len() - 1).as_slice());
                assert(head@ =~= l@.drop_last());
                match parse_u32_str(head.as_str()) {
                    Some(n) => Some(SplitSize::Percent(n)),
                    None => None,
                }
            } else {
                match parse_u32_str(l) {
                    Some(n) => Some(SplitSize::Lines(n)),
                    None => None,
                }
            }
        },
        None => match get_option(args, "-p") {
            Some(p) => match parse_u32_str(p) {
                Some(n) => Some(SplitSize::Percent(n)),
                None => None,
            },
            None => None,
        },
    }
}

/// The direction resize-pane moves a border in (`U`, `D`, `L`, `R`, first
/// set wins), if any.
pub open spec fn resize_direction(args: Seq<Seq<char>>) -> Option<Direction> {
    if flag_set(args, "U"@) {
        Some(Direction::Up)
    } else if flag_set(args, "D"@) {
        Some(Direction::Down)
    } else if flag_set(args, "L"@) {
        Some(Direction::Left)
    } else if flag_set(args, "R"@) {
        Some(Direction::Right)
    } else {
        None
    }
}

/// How far resize-pane moves: the last argument not starting with `-` when
/// it is a number, else one cell.
pub open spec fn resize_amount(args: Seq<Seq<char>>) -> u32 {
    match last_plain(args) {
        Some(a) => match parse_u32(a) {
            Some(n) => n,
            None => 1,
        },
        None => 1,
    }
}

/// The direction and amount of a resize-pane.
pub fn resize_request(args: &[String]) -> (r: (Option<Direction>, u32))
    ensures
        r.0 == resize_direction(strings_view(args@)),
        r.1 == resize_amount(strings_view(args@)),
{
    let direction = if has_flag(args, "U") {
        Some(Direction::Up)
    } else if has_flag(args, "D") {
        Some(Direction::Down)
    } else if has_flag(args, "L") {
        Some(Direction::Left)
    } else if has_flag(args, "R") {
        Some(Direction::Right)
    } else {
        None
    };
    let amount: u32 = match last_plain_arg(args) {
        Some(a) => match parse_u32_str(a) {
            Some(n) => n,
            None => 1,
        },
        None => 1,
    };
    (direction, amount)
}

/// What select-pane does, by its flags in order of precedence.
#[derive(Debug, Clone, Copy, PartialEq, Eq, Structural)]
pub enum PaneSelection {
    /// `-Z`: toggle zoom on the target pane.
    Zoom,
    /// A flag that changes nothing here (`-m`, `-M`, `-T`, `-d`, `-e`), or no flag at all.
    Keep,
    /// `-l`: the previously active pane.
    Last,
    /// `-U`, `-D`, `-L`, `-R`: the pane in that direction.
    Move(Direction),
    /// `-t` names the pane to select.
    Target,
}

/// The selection the select-pane arguments ask for.
pub open spec fn select_pane_mode(args: Seq<Seq<char>>) -> PaneSelection {
    if flag_set(args, "-Z"@) {
        PaneSelection::Zoom
    } else if flag_set(args, "-m"@) || flag_set(args, "-M"@) {
        PaneSelection::Keep
    } else if option_value(args, "-T"@) is Some {
        PaneSelection::Keep
    } else if flag_set(args, "-d"@) || flag_set(args, "-e"@) {
        PaneSelection::Keep
    } else if flag_set(args, "-l"@) {
        PaneSelection::Last
    } else if flag_set(args, "-U"@) {
        PaneSelection::Move(Direction::Up)
    } else if flag_set(args, "-D"@) {
        PaneSelection::Move(Direction::Down)
    } else if flag_set(args, "-L"@) {
        PaneSelection::Move(Direction::Left)
    } else if flag_set(args, "-R"@) {
        PaneSelection::Move(Direction::Right)
    } else if option_value(args, "-t"@) is Some {
        PaneSelection::Target
    } else {
        PaneSelection::Keep
    }
}

/// Decides what select-pane does.
pub fn pane_selection(args: &[String]) -> (r: PaneSelection)
    ensures
        r == select_pane_mode(strings_view(args@)),
{
    if has_flag(args, "-Z") {
        PaneSelection::Zoom
    } else if has_flag(args, "-m") || has_flag(args, "-M") {
        PaneSelection::Keep
    } else if get_option(args, "-T").is_some() {
        PaneSelection::Keep
    } else if has_flag(args, "-d") || has_flag(args, "-e") {
        PaneSelection::Keep
    } else if has_flag(args, "-l") {
        PaneSelection::Last
    } else if has_flag(args, "-U") {
        PaneSelection::Move(Direction::Up)
    } else if has_flag(args, "-D") {
        PaneSelection::Move(Direction::Down)
    } else if has_flag(args, "-L") {
        PaneSelection::Move(Direction::Left)
    } else if has_flag(args, "-R") {
        PaneSelection::Move(Direction::Right)
    } else if get_option(args, "-t").is_some() {
        PaneSelection::Target
    } else {
        PaneSelection::Keep
    }
}

/// The text capture-pane `-J` gives: each line with its trailing whitespace
/// removed, joined by newlines, with a final newline.
pub open spec fn joined_capture(content: Seq<char>) -> Seq<char> {
    join(text_lines(content).map_values(|l: Seq<char>| trim_end(l)), "\n"@) + "\n"@
}

/// The lines of `content` with trailing whitespace removed.
pub fn join_capture_lines(content: &str) -> (r: String)
    ensures
        r@ == joined_capture(content@),
{
    let cs = str_chars(content);
    let lines = split_lines(cs.as_slice());
    let mut trimmed: Vec<String> = Vec::new();
    let mut i: usize = 0;
    while i < lines.len()
        invariant
            i <= lines@.len(),
            lines_view(lines@) == text_lines(cs@),
            trimmed@.len() == i,
            forall|j: int| 0 <= j < i ==> #[trigger] trimmed@[j]@ == trim_end(lines@[j]@),
        decreases lines@.len() - i,
    {
        let t = chars_trim_end(lines[i].as_slice());
        trimmed.push(string_from_chars(t.as_slice()));
        i = i + 1;
    }
    assert(strings_view(trimmed@) =~= text_lines(content@).map_values(|l: Seq<char>| trim_end(l))) by {
        assert forall|j: int| 0 <= j < trimmed@.len() implies strings_view(trimmed@)[j] == text_lines(
            content@,
        ).map_values(|l: Seq<char>| trim_end(l))[j] by {
            assert(lines_view(lines@)[j] == lines@[j]@);
        }
    }
    let mut s = join_strings(trimmed.as_slice(), "\n");
    push_all(&mut s, "\n");
    s
}

// ---------------------------------------------------------------------------
// Target resolution
// ---------------------------------------------------------------------------

/// Whether `m` is a message that resolving the session and window of a pane
/// command can fail with, given the arguments.
pub open spec fn session_window_failure(args: Seq<Seq<char>>, m: Seq<char>) -> bool {
    match option_value(args, "-t"@) {
        Some(t) => match split_once(t, ':') {
            Some((s, w)) => m == "session not found: "@ + s || (parse_u32(w) is None && m == "invalid window index: "@
                + w),
            None => m == "no current session"@ || (parse_u32(t) is None && m == "session not found: "@ + t),
        },
        None => m == "no current session"@ || m == "no current window"@,
    }
}

/// Resolves the session and window from `-t` (`session:window`, a session
/// name, or a bare window index of the current session) or the client's.
pub fn resolve_session_window<S: CommandServer + ?Sized>(args: &[String], server: &S) -> (r: Result<
    (u32, u32),
    ServerError,
>)
    ensures
        r matches Err(e) ==> session_window_failure(strings_view(args@), e.msg()),
        option_value(strings_view(args@), "-t"@) matches Some(t) ==> match split_once(t, ':') {
            Some((s, w)) => (r matches Ok((_, n)) ==> parse_u32(w) == Some(n)) && (parse_u32(w) is None ==> r is Err),
            None => true,
        },
{
    match get_option(args, "-t") {
        Some(target) => {
            match str_split_once(target, ':') {
                Some((name, window_str)) => {
                    let session_id = match server.find_session_id(name.as_str()) {
                        Some(id) => id,
                        None => {
                            return Err(err_with("session not found: ", name.as_str()));
                        },
                    };
                    match parse_u32_str(window_str.as_str()) {
                        Some(w) => Ok((session_id, w)),
                        None => Err(err_with("invalid window index: ", window_str.as_str())),
                    }
                },
                None => {
                    match server.find_session_id(target) {
                        Some(session_id) => {
                            let window_idx = match server.active_window_for(session_id) {
                                Some(w) => w,
                                None => match server.client_active_window() {
                                    Some(w) => w,
                                    None => 0,
                                },
                            };
                            Ok((session_id, window_idx))
                        },
                        None => {
                            let session_id = match server.client_session_id() {
                                Some(id) => id,
                                None => {
                                    return Err(err("no current session"));
                                },
                            };
                            match parse_u32_str(target) {
                                Some(w) => Ok((session_id, w)),
                                None => Err(err_with("session not found: ", target)),
                            }
                        },
                    }
                },
            }
        },
        None => {
            let session_id = match server.client_session_id() {
                Some(id) => id,
                None => {
                    return Err(err("no current session"));
                },
            };
            match server.client_active_window() {
                Some(w) => Ok((session_id, w)),
                None => Err(err("no current window")),
            }
        },
    }
}

/// Resolves the pane: `-t %N` names it; otherwise the window's active pane
/// (without a session or window target, else the client's active pane).
pub fn resolve_pane_id<S: CommandServer + ?Sized>(args: &[String], server: &S, session_id: u32, window_idx: u32) -> (r:
    Result<u32, ServerError>)
    ensures
        match option_value(strings_view(args@), "-t"@) {
            Some(t) => if t.len() > 0 && t[0] == '%' {
                match parse_u32(t.drop_first()) {
                    Some(n) => r matches Ok(m) && m == n,
                    None => r matches Err(e) && e.msg() == "invalid pane: "@ + t,
                }
            } else {
                r matches Err(e) ==> e.msg() == "no current pane"@
            },
            None => r matches Err(e) ==> e.msg() == "no current pane"@,
        },
{
    match get_option(args, "-t") {
        Some(target) => {
            let cs = str_chars(target);
            if cs.len() > 0 && cs[0] == '%' {
                let rest = string_from_chars(crate::text::chars_skip(cs.as_slice(), 1).as_slice());
                assert(rest@ =~= target@.drop_first());
                return match parse_u32_str(rest.as_str()) {
                    Some(n) => Ok(n),
                    None => Err(err_with("invalid pane: ", target)),
                };
            }
            if has_colon(target) || server.find_session_id(target).is_some() {
                return match server.active_pane_id_for(session_id, window_idx) {
                    Some(p) => Ok(p),
                    None => Err(err("no current pane")),
                };
            }
        },
        None => {},
    }
    match server.active_pane_id_for(session_id, window_idx) {
        Some(p) => Ok(p),
        None => match server.client_active_pane_id() {
            Some(p) => Ok(p),
            None => Err(err("no current pane")),
        },
    }
}

/// Resolves a `session:window` target, or a session name and its active
/// window (window 0 when it has none).
pub fn resolve_target<S: CommandServer + ?Sized>(target: &str, server: &S) -> (r: Result<(u32, u32), ServerError>)
    ensures
        match split_once(target@, ':') {
            Some((s, w)) => {
                &&& r matches Err(e) ==> (e.msg() == "session not found: "@ + s || (parse_u32(w) is None && e.msg()
                    == "invalid window: "@ + w))
                &&& r matches Ok((_, n)) ==> parse_u32(w) == Some(n)
            },
            None => r matches Err(e) ==> e.msg() == "session not found: "@ + target@,
        },
{
    match str_split_once(target, ':') {
        Some((name, window_str)) => {
            let session_id = match server.find_session_id(name.as_str()) {
                Some(id) => id,
                None => {
                    return Err(err_with("session not found: ", name.as_str()));
                },
            };
            match parse_u32_str(window_str.as_str()) {
                Some(w) => Ok((session_id, w)),
                None => Err(err_with("invalid window: ", window_str.as_str())),
            }
        },
        None => match server.find_session_id(target) {
            Some(session_id) => {
                let window_idx = match server.active_window_for(session_id) {
                    Some(w) => w,
                    None => 0,
                };
                Ok((session_id, window_idx))
            },
            None => Err(err_with("session not found: ", target)),
        },
    }
}

// ---------------------------------------------------------------------------
// Commands
// ---------------------------------------------------------------------------

/// split-window [-dhv] [-l size] [-p percentage] [-c start-directory] [-t target-window]
///
/// Splits the window left-right with `-h`, else top-bottom, giving the new
/// pane the size that `-l` or `-p` asks for.
pub fn cmd_split_window<S: CommandServer + ?Sized>(args: &[String], server: &mut S) -> (r: Result<CommandResult, ServerError>)
    ensures
        r matches Ok(res) ==> res is Done,
{
    let horizontal = has_flag(args, "-h");
    let (session_id, window_idx) = resolve_session_window(args, server)?;
    let cwd: String = match get_option(args, "-c") {
        Some(dir) => to_owned_string(dir),
        None => server.default_cwd(),
    };
    let size = split_size_of(args);
    server.split_window(session_id, window_idx, horizontal, cwd.as_str(), size, None)?;
    Ok(CommandResult::Done)
}

/// Selects the pane after the client's active one, cyclically (`-t +`).
fn select_next_pane<S: CommandServer + ?Sized>(server: &mut S, session_id: u32, window_idx: u32) -> (r: Result<
    CommandResult,
    ServerError,
>)
    ensures
        r matches Ok(res) ==> res is Done,
{
    match server.client_active_pane_id() {
        Some(current) => {
            let panes = server.list_panes(session_id, window_idx);
            let ids = pane_ids_of(&panes);
            match next_pane_id(panes.len(), &ids, current) {
                Some(next) => {
                    server.select_pane_id(session_id, window_idx, next)?;
                },
                None => {},
            }
        },
        None => {},
    }
    Ok(CommandResult::Done)
}

/// What select-pane does with a `-t` target once the session and window
/// resolved.
#[derive(Debug, Clone, Copy, PartialEq, Eq, Structural)]
pub enum TargetStep {
    /// The target names a session or `session:window`: nothing changes.
    Done,
    /// `+`: the pane after the active one.
    Next,
    /// The pane with this id.
    Select(u32),
    /// Not a pane id.
    Invalid,
}

/// The step a `-t` target asks for: `names_session` tells whether the
/// server knows a session of that name.
pub open spec fn target_step_spec(t: Seq<char>, names_session: bool) -> TargetStep {
    if split_once(t, ':') is Some || names_session {
        TargetStep::Done
    } else if t == "+"@ {
        TargetStep::Next
    } else {
        match pane_id_text(t) {
            Some(n) => TargetStep::Select(n),
            None => TargetStep::Invalid,
        }
    }
}

/// Decides the step a `-t` target asks for.
pub fn target_step(target: &str, names_session: bool) -> (r: TargetStep)
    ensures
        r == target_step_spec(target@, names_session),
{
    if has_colon(target) || names_session {
        return TargetStep::Done;
    }
    if str_eq(target, "+") {
        proof {
            reveal_strlit("+");
        }
        return TargetStep::Next;
    }
    match parse_pane_id(target) {
        Some(n) => TargetStep::Select(n),
        None => TargetStep::Invalid,
    }
}

/// select-pane [-DdeLlMmRUZ] [-T title] [-t target-pane]
///
/// `-Z` toggles zoom on the target pane; `-m`, `-M`, `-T`, `-d` and `-e`
/// change nothing; `-l` selects the last pane and `-U`/`-D`/`-L`/`-R` the
/// pane in that direction. A `-t` target is first resolved as a session,
/// `session:window` or window index (see `resolve_session_window`), so a
/// target that is none of these, such as `+` or `%N` without a session of
/// that name, fails with `session not found`. Of the targets that resolve, a
/// session or `session:window` changes nothing and a bare number `N` selects
/// pane `N` in window `N`.
pub fn cmd_select_pane<S: CommandServer + ?Sized>(args: &[String], server: &mut S) -> (r: Result<CommandResult, ServerError>)
    ensures
        r matches Ok(res) ==> res is Done,
        select_pane_mode(strings_view(args@)) == PaneSelection::Keep ==> (r matches Err(e) ==> session_window_failure(
            strings_view(args@),
            e.msg(),
        )),
        select_pane_mode(strings_view(args@)) == PaneSelection::Target ==> (option_value(strings_view(args@), "-t"@)
            matches Some(t) ==> ((split_once(t, ':') is Some ==> (r matches Err(e) ==> session_window_failure(
            strings_view(args@),
            e.msg(),
        ))) && (split_once(t, ':') is None && t != "+"@ && pane_id_text(t) is None ==> (r matches Err(e) ==> (
        session_window_failure(strings_view(args@), e.msg()) || e.msg() == "invalid pane: "@ + t))))),
{
    let (session_id, window_idx) = resolve_session_window(args, server)?;
    match pane_selection(args) {
        PaneSelection::Zoom => {
            let pane_id = resolve_pane_id(args, server, session_id, window_idx)?;
            server.toggle_zoom(session_id, window_idx, pane_id)?;
            Ok(CommandResult::Done)
        },
        PaneSelection::Keep => Ok(CommandResult::Done),
        PaneSelection::Last => {
            server.last_pane(session_id, window_idx)?;
            Ok(CommandResult::Done)
        },
        PaneSelection::Move(d) => {
            server.select_pane_direction(session_id, window_idx, d)?;
            Ok(CommandResult::Done)
        },
        PaneSelection::Target => {
            let target = match get_option(args, "-t") {
                Some(t) => t,
                None => {
                    return Ok(CommandResult::Done);
                },
            };
            let names_session = !has_colon(target) && server.find_session_id(target).is_some();
            match target_step(target, names_session) {
                TargetStep::Done => Ok(CommandResult::Done),
                TargetStep::Next => select_next_pane(server, session_id, window_idx),
                TargetStep::Select(pane_id) => {
                    server.select_pane_id(session_id, window_idx, pane_id)?;
                    Ok(CommandResult::Done)
                },
                TargetStep::Invalid => Err(err_with("invalid pane: ", target)),
            }
        },
    }
}

/// kill-pane [-a] [-t target-pane]
///
/// Kills the target pane, or with `-a` every other pane of its window.
pub fn cmd_kill_pane<S: CommandServer + ?Sized>(args: &[String], server: &mut S) -> (r: Result<CommandResult, ServerError>)
    ensures
        r matches Ok(res) ==> res is Done,
{
    let (session_id, window_idx) = resolve_session_window(args, server)?;
    let pane_id: u32 = match get_option(args, "-t") {
        Some(target) => {
            if has_colon(target) || server.find_session_id(target).is_some() {
                match server.active_pane_id_for(session_id, window_idx) {
                    Some(p) => p,
                    None => {
                        return Err(err("no current pane"));
                    },
                }
            } else {
                match parse_pane_id(target) {
                    Some(p) => p,
                    None => {
                        return Err(err_with("invalid pane: ", target));
                    },
                }
            }
        },
        None => match server.active_pane_id_for(session_id, window_idx) {
            Some(p) => p,
            None => match server.client_active_pane_id() {
                Some(p) => p,
                None => {
                    return Err(err("no current pane"));
                },
            },
        },
    };
    if has_flag(args, "-a") {
        let panes = server.list_panes(session_id, window_idx);
        let all_ids = pane_ids_of(&panes);
        let ids = ids_without(&all_ids, pane_id);
        let mut i: usize = 0;
        while i < ids.len()
            invariant
                i <= ids@.len(),
            decreases ids@.len() - i,
        {
            server.kill_pane(session_id, window_idx, ids[i])?;
            i = i + 1;
        }
    } else {
        server.kill_pane(session_id, window_idx, pane_id)?;
    }
    Ok(CommandResult::Done)
}

/// Appends `prefix` followed by each pane line of a window to `output`.
fn push_pane_lines(output: &mut Vec<String>, prefix: &str, panes: &Vec<String>)
    ensures
        strings_view(final(output)@) == strings_view(old(output)@) + strings_view(panes@).map_values(
            |p: Seq<char>| prefix@ + p,
        ),
{
    let ghost start = strings_view(output@);
    let mut j: usize = 0;
    while j < panes.len()
        invariant
            j <= panes@.len(),
            strings_view(output@) == start + strings_view(panes@).subrange(0, j as int).map_values(
                |p: Seq<char>| prefix@ + p,
            ),
        decreases panes@.len() - j,
    {
        let ghost before = output@;
        let mut line = to_owned_string(prefix);
        push_all(&mut line, panes[j].as_str());
        output.push(line);
        assert(strings_view(output@) =~= strings_view(before).push(prefix@ + panes@[j as int]@));
        assert(strings_view(panes@).subrange(0, j + 1).map_values(|p: Seq<char>| prefix@ + p) =~= strings_view(
            panes@,
        ).subrange(0, j as int).map_values(|p: Seq<char>| prefix@ + p).push(prefix@ + panes@[j as int]@));
        j = j + 1;
    }
    assert(strings_view(panes@).subrange(0, panes@.len() as int) =~= strings_view(panes@));
}

/// The output of a pane list: its lines, or `(no panes)`.
fn pane_list_output(lines: &Vec<String>) -> (r: Result<CommandResult, ServerError>)
    ensures
        lines@.len() == 0 ==> (r matches Ok(CommandResult::Output(o)) && o@ == "(no panes)\n"@),
        lines@.len() > 0 ==> (r matches Ok(CommandResult::Output(o)) && o@ == crate::command::builtins::util::lines_text(
            strings_view(lines@),
        )),
{
    if lines.len() == 0 {
        Ok(CommandResult::Output(to_owned_string("(no panes)\n")))
    } else {
        Ok(CommandResult::Output(join_lines(lines)))
    }
}

/// A line of a session's pane list: `lead`, a window index, `: ` and a pane.
pub open spec fn window_pane_line(line: Seq<char>, lead: Seq<char>) -> bool {
    exists|w: u32, p: Seq<char>| line == lead + crate::text::decimal(w as nat) + ": "@ + p
}

/// The panes of each window of a session, each line led by `lead` and the
/// window index (`lead` then `idx: pane`). The windows and panes come from
/// the server; the lines already in `output` stay in front.
fn session_pane_lines<S: CommandServer + ?Sized>(server: &S, session_id: u32, lead: &str, output: &mut Vec<String>)
    ensures
        final(output)@.len() >= old(output)@.len(),
        strings_view(final(output)@).subrange(0, old(output)@.len() as int) == strings_view(old(output)@),
        forall|k: int|
            old(output)@.len() <= k < final(output)@.len() ==> #[trigger] window_pane_line(
                strings_view(final(output)@)[k],
                lead@,
            ),
{
    let ghost start = strings_view(output@);
    let windows = server.list_windows(session_id);
    let mut i: usize = 0;
    while i < windows.len()
        invariant
            i <= windows@.len(),
            start.len() <= output@.len(),
            strings_view(output@).subrange(0, start.len() as int) == start,
            forall|k: int|
                start.len() <= k < output@.len() ==> #[trigger] window_pane_line(strings_view(output@)[k], lead@),
        decreases windows@.len() - i,
    {
        let window_idx: u32 = match window_index_of_line(windows[i].as_str()) {
            Some(n) => n,
            None => 0,
        };
        let panes = server.list_panes(session_id, window_idx);
        let mut prefix = to_owned_string(lead);
        let idx_text = u32_to_string(window_idx);
        push_all(&mut prefix, idx_text.as_str());
        push_all(&mut prefix, ": ");
        let ghost before = strings_view(output@);
        push_pane_lines(output, prefix.as_str(), &panes);
        proof {
            let after = strings_view(output@);
            let pv = strings_view(panes@);
            assert(after == before + pv.map_values(|p: Seq<char>| prefix@ + p));
            assert(after.subrange(0, start.len() as int) =~= start) by {
                assert(after.subrange(0, start.len() as int) =~= before.subrange(0, start.len() as int));
            }
            assert forall|k: int| start.len() <= k < output@.len() implies #[trigger] window_pane_line(
                strings_view(output@)[k],
                lead@,
            ) by {
                if k < before.len() {
                    assert(after[k] == before[k]);
                } else {
                    let p = pv[k - before.len()];
                    assert(after[k] == prefix@ + p);
                    assert(after[k] == lead@ + crate::text::decimal(window_idx as nat) + ": "@ + p);
                }
            }
        }
        i = i + 1;
    }
}

/// list-panes [-as] [-t target-window]
///
/// Lists the panes of the window; with `-s` of every window of the session
/// (lines led by `idx: `), with `-a` of every session (led by `name:idx: `).
pub fn cmd_list_panes<S: CommandServer + ?Sized>(args: &[String], server: &mut S) -> (r: Result<CommandResult, ServerError>)
    ensures
        r matches Ok(res) ==> res is Output,
        flag_set(strings_view(args@), "-a"@) ==> r is Ok,
{
    if has_flag(args, "-a") {
        let sessions = server.list_sessions();
        let mut output: Vec<String> = Vec::new();
        let mut i: usize = 0;
        while i < sessions.len()
            invariant
                i <= sessions@.len(),
            decreases sessions@.len() - i,
        {
            let name = name_before_colon(sessions[i].as_str());
            match server.find_session_id(name.as_str()) {
                Some(sid) => {
                    let mut lead = name.clone();
                    push_all(&mut lead, ":");
                    session_pane_lines(server, sid, lead.as_str(), &mut output);
                },
                None => {},
            }
            i = i + 1;
        }
        pane_list_output(&output)
    } else if has_flag(args, "-s") {
        let (session_id, _window_idx) = resolve_session_window(args, server)?;
        let mut output: Vec<String> = Vec::new();
        session_pane_lines(server, session_id, "", &mut output);
        pane_list_output(&output)
    } else {
        let (session_id, window_idx) = resolve_session_window(args, server)?;
        let panes = server.list_panes(session_id, window_idx);
        pane_list_output(&panes)
    }
}

/// capture-pane [-eJpq] [-S start] [-E end] [-b buffer-name] [-t target-pane]
///
/// Gives the pane's visible text (with `-J`, each line's trailing whitespace
/// removed), or with `-b` stores it in that paste buffer.
pub fn cmd_capture_pane<S: CommandServer + ?Sized>(args: &[String], server: &mut S) -> (r: Result<CommandResult, ServerError>)
    ensures
        r matches Ok(res) ==> (option_value(strings_view(args@), "-b"@) is Some ==> res is Done) && (option_value(
            strings_view(args@),
            "-b"@,
        ) is None ==> res is Output),
{
    let join_wrapped = has_flag(args, "-J");
    let buffer_name = get_option(args, "-b");
    let (session_id, window_idx) = resolve_session_window(args, server)?;
    let pane_id = resolve_pane_id(args, server, session_id, window_idx)?;
    let captured = server.capture_pane(session_id, window_idx, pane_id)?;
    let content = if join_wrapped { join_capture_lines(captured.as_str()) } else { captured };
    match buffer_name {
        Some(name) => {
            server.set_buffer(name, content.as_str())?;
            Ok(CommandResult::Done)
        },
        None => Ok(CommandResult::Output(content)),
    }
}

/// resize-pane [-DLRUZ] [-t target-pane] [amount]
///
/// `Z` toggles zoom; otherwise the pane is resized in the direction given,
/// by the amount given (one cell by default).
pub fn cmd_resize_pane<S: CommandServer + ?Sized>(args: &[String], server: &mut S) -> (r: Result<CommandResult, ServerError>)
    ensures
        r matches Ok(res) ==> res is Done,
{
    let (session_id, window_idx) = resolve_session_window(args, server)?;
    let pane_id = resolve_pane_id(args, server, session_id, window_idx)?;
    if has_flag(args, "Z") {
        server.toggle_zoom(session_id, window_idx, pane_id)?;
        return Ok(CommandResult::Done);
    }
    let (direction, amount) = resize_request(args);
    server.resize_pane(session_id, window_idx, pane_id, direction, amount)?;
    Ok(CommandResult::Done)
}

/// swap-pane [-dDUZ] [-s src-pane] [-t target-pane]
///
/// With `-U` or `-D`, swaps the source pane (default: the target pane) with
/// the one before or after it in the window's pane list; `-Z` unzooms first.
pub fn cmd_swap_pane<S: CommandServer + ?Sized>(args: &[String], server: &mut S) -> (r: Result<CommandResult, ServerError>)
    ensures
        r matches Ok(res) ==> res is Done,
{
    let (session_id, window_idx) = resolve_session_window(args, server)?;
    if has_flag(args, "-Z") {
        server.unzoom_window(session_id, window_idx)?;
    }
    let src_pane: u32 = match get_option(args, "-s") {
        Some(src) => match parse_pane_id(src) {
            Some(p) => p,
            None => {
                return Err(err_with("invalid pane: ", src));
            },
        },
        None => resolve_pane_id(args, server, session_id, window_idx)?,
    };
    let up: Option<bool> = if has_flag(args, "-U") {
        Some(true)
    } else if has_flag(args, "-D") {
        Some(false)
    } else {
        None
    };
    match up {
        Some(u) => {
            let panes = server.list_panes(session_id, window_idx);
            let ids = pane_ids_of(&panes);
            match neighbour_pane_id(&ids, src_pane, u) {
                Some(dst_pane) => {
                    server.swap_pane(session_id, window_idx, src_pane, dst_pane)?;
                },
                None => {},
            }
        },
        None => {},
    }
    Ok(CommandResult::Done)
}

/// break-pane [-d] [-t target-pane]
///
/// Moves the pane to a window of its own and, unless `-d`, selects it.
pub fn cmd_break_pane<S: CommandServer + ?Sized>(args: &[String], server: &mut S) -> (r: Result<CommandResult, ServerError>)
    ensures
        r matches Ok(res) ==> res is Done,
{
    let detached = has_flag(args, "-d");
    let (session_id, window_idx) = resolve_session_window(args, server)?;
    let pane_id = resolve_pane_id(args, server, session_id, window_idx)?;
    let new_window_idx = server.break_pane(session_id, window_idx, pane_id)?;
    if !detached {
        server.select_window(session_id, new_window_idx)?;
    }
    Ok(CommandResult::Done)
}

/// join-pane [-dhv] [-l size] [-p percentage] [-s src-pane] [-t dst-pane]
///
/// Moves the active pane of the source window into the destination window,
/// split left-right with `-h`, else top-bottom.
pub fn cmd_join_pane<S: CommandServer + ?Sized>(args: &[String], server: &mut S) -> (r: Result<CommandResult, ServerError>)
    ensures
        r matches Ok(res) ==> res is Done,
{
    let horizontal = has_flag(args, "-h");
    let (src_session, src_window) = match get_option(args, "-s") {
        Some(src_target) => resolve_target(src_target, server)?,
        None => {
            let sid = match server.client_session_id() {
                Some(s) => s,
                None => {
                    return Err(err("no current session"));
                },
            };
            let wid = match server.client_active_window() {
                Some(w) => w,
                None => {
                    return Err(err("no current window"));
                },
            };
            (sid, wid)
        },
    };
    let src_pane = match server.active_pane_id_for(src_session, src_window) {
        Some(p) => p,
        None => {
            return Err(err("no source pane"));
        },
    };
    let (dst_session, dst_window) = resolve_session_window(args, server)?;
    server.join_pane(src_session, src_window, src_pane, dst_session, dst_window, horizontal)?;
    Ok(CommandResult::Done)
}

/// last-pane [-Z] [-t target-window]
///
/// Selects the previously active pane, unzooming the window first with `-Z`.
pub fn cmd_last_pane<S: CommandServer + ?Sized>(args: &[String], server: &mut S) -> (r: Result<CommandResult, ServerError>)
    ensures
        r matches Ok(res) ==> res is Done,
{
    let unzoom = has_flag(args, "-Z");
    let (session_id, window_idx) = resolve_session_window(args, server)?;
    if unzoom {
        server.unzoom_window(session_id, window_idx)?;
    }
    server.last_pane(session_id, window_idx)?;
    Ok(CommandResult::Done)
}

/// respawn-pane [-k] [-t target-pane]
pub fn cmd_respawn_pane<S: CommandServer + ?Sized>(args: &[String], server: &mut S) -> (r: Result<
    CommandResult,
    ServerError,
>)
    ensures
        r matches Ok(res) ==> res is Done,
{
    let (session_id, window_idx) = resolve_session_window(args, server)?;
    let pane_id = resolve_pane_id(args, server, session_id, window_idx)?;
    server.respawn_pane(session_id, window_idx, pane_id, None)?;
    Ok(CommandResult::Done)
}

} // verus!
