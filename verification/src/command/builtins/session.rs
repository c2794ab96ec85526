//! Session management commands: new-session, kill-session, list-sessions, has-session, rename-session.

use vstd::prelude::*;
use crate::command::{
    flag_set, get_option, has_flag, option_value, positional_args, positionals, strs_view, CommandResult,
    CommandServer,
};
use crate::command::builtins::util::{err, err_with, join_lines, lines_text, name_before_colon, parse_u32_str};
use crate::server::ServerError;
use crate::text::{join_strings, strings_view, str_eq, to_owned_string};

verus! {

/// The session a command names with `-t`, or session "0".
pub open spec fn target_or_zero(args: Seq<Seq<char>>) -> Seq<char> {
    match option_value(args, "-t"@) {
        Some(t) => t,
        None => "0"@,
    }
}

/// new-session [-AdDEPX] [-s session-name] [-n window-name] [-c start-directory]
///   [-e environment] [-F format] [-f flags] [-x width] [-y height]
///
/// Succeeds with `Attach` to the new (or, with `-A`, existing) session, or
/// with no result when detached (`-d`).
pub fn cmd_new_session<S: CommandServer + ?Sized>(args: &[String], server: &mut S) -> (r: Result<CommandResult, ServerError>)
    ensures
        r matches Ok(res) ==> (flag_set(strings_view(args@), "-d"@) ==> res is Done)
            && (!flag_set(strings_view(args@), "-d"@) ==> res is Attach),
{
    let detached = has_flag(args, "-d");
    let name: &str = match get_option(args, "-s") {
        Some(n) => n,
        None => "0",
    };
    let window_name = get_option(args, "-n");
    let sx: u32 = match get_option(args, "-x") {
        Some(v) => match parse_u32_str(v) {
            Some(n) => n,
            None => server.client_sx(),
        },
        None => server.client_sx(),
    };
    let sy: u32 = match get_option(args, "-y") {
        Some(v) => match parse_u32_str(v) {
            Some(n) => n,
            None => server.client_sy(),
        },
        None => server.client_sy(),
    };
    if has_flag(args, "-A") && server.has_session(name) {
        let session_id = match server.find_session_id(name) {
            Some(id) => id,
            None => {
                return Err(err_with("session not found: ", name));
            },
        };
        return if detached { Ok(CommandResult::Done) } else { Ok(CommandResult::Attach(session_id)) };
    }
    if server.has_session(name) {
        return Err(err_with("duplicate session: ", name));
    }
    let cwd: String = match get_option(args, "-c") {
        Some(dir) => to_owned_string(dir),
        None => server.default_cwd(),
    };
    let shell_args = positional_args(args, &["-s", "-n", "-c", "-x", "-y", "-t", "-e", "-F", "-f"]);
    let shell_cmd: Option<String> = if shell_args.len() == 0 {
        None
    } else {
        let mut owned: Vec<String> = Vec::new();
        let mut i: usize = 0;
        while i < shell_args.len()
            invariant
                i <= shell_args@.len(),
            decreases shell_args@.len() - i,
        {
            owned.push(to_owned_string(shell_args[i]));
            i = i + 1;
        }
        Some(join_strings(owned.as_slice(), " "))
    };
    let session_id = match &shell_cmd {
        Some(c) => server.create_session(name, cwd.as_str(), sx, sy, Some(c.as_str()))?,
        None => server.create_session(name, cwd.as_str(), sx, sy, None)?,
    };
    match window_name {
        Some(win_name) => {
            match server.active_window_for(session_id) {
                Some(widx) => {
                    server.rename_window(session_id, widx, win_name)?;
                },
                None => {},
            }
        },
        None => {},
    }
    if detached { Ok(CommandResult::Done) } else { Ok(CommandResult::Attach(session_id)) }
}

/// kill-session [-aC] [-t target-session]
///
/// Without `-a`, kills the `-t` session (default "0"); with `-a`, kills every
/// session but that one (default: the current session).
pub fn cmd_kill_session<S: CommandServer + ?Sized>(args: &[String], server: &mut S) -> (r: Result<CommandResult, ServerError>)
    ensures
        r matches Ok(res) ==> res is Done,
{
    let kill_all_except = has_flag(args, "-a");
    let target = get_option(args, "-t");
    if kill_all_except {
        let keep_name: String = match target {
            Some(t) => to_owned_string(t),
            None => {
                let sid = match server.client_session_id() {
                    Some(s) => s,
                    None => {
                        return Err(err("no current session"));
                    },
                };
                match server.session_name_for_id(sid) {
                    Some(n) => n,
                    None => {
                        return Err(err("session not found"));
                    },
                }
            },
        };
        let sessions = server.list_sessions();
        let mut names: Vec<String> = Vec::new();
        let mut i: usize = 0;
        while i < sessions.len()
            invariant
                i <= sessions@.len(),
            decreases sessions@.len() - i,
        {
            let name = name_before_colon(sessions[i].as_str());
            if !str_eq(name.as_str(), keep_name.as_str()) {
                names.push(name);
            }
            i = i + 1;
        }
        let mut k: usize = 0;
        while k < names.len()
            invariant
                k <= names@.len(),
            decreases names@.len() - k,
        {
            server.kill_session(names[k].as_str())?;
            k = k + 1;
        }
    } else {
        let name: &str = match target {
            Some(t) => t,
            None => "0",
        };
        server.kill_session(name)?;
    }
    Ok(CommandResult::Done)
}

/// list-sessions [-F format] [-f filter]
///
/// Outputs one line per session, or a notice that no server runs.
pub fn cmd_list_sessions<S: CommandServer + ?Sized>(args: &[String], server: &mut S) -> (r: Result<CommandResult, ServerError>)
    ensures
        r matches Ok(CommandResult::Output(o)) && (o@ == "no server running on this socket\n"@ || exists|lines: Seq<Seq<char>>|
            lines.len() > 0 && o@ == #[trigger] lines_text(lines)),
{
    let sessions = server.list_sessions();
    if sessions.len() == 0 {
        Ok(CommandResult::Output(to_owned_string("no server running on this socket\n")))
    } else {
        let out = join_lines(&sessions);
        assert(lines_text(strings_view(sessions@)) == out@);
        Ok(CommandResult::Output(out))
    }
}

/// has-session [-t target-session]
///
/// Succeeds when the `-t` session (default "0") exists.
pub fn cmd_has_session<S: CommandServer + ?Sized>(args: &[String], server: &mut S) -> (r: Result<CommandResult, ServerError>)
    ensures
        r matches Ok(res) ==> res is Done,
        r matches Err(e) ==> e.msg() == "session not found: "@ + target_or_zero(strings_view(args@)),
{
    let target: &str = match get_option(args, "-t") {
        Some(t) => t,
        None => "0",
    };
    if server.has_session(target) {
        Ok(CommandResult::Done)
    } else {
        Err(err_with("session not found: ", target))
    }
}

/// The last argument not starting with `-`, if any.
pub open spec fn last_non_flag(args: Seq<Seq<char>>) -> Option<Seq<char>>
    decreases args.len(),
{
    if args.len() == 0 {
        None
    } else if !(args.last().len() > 0 && args.last()[0] == '-') {
        Some(args.last())
    } else {
        last_non_flag(args.drop_last())
    }
}

/// rename-session [-t target-session] new-name
///
/// The new name is the last argument that is not a flag; without one the
/// command fails.
pub fn cmd_rename_session<S: CommandServer + ?Sized>(args: &[String], server: &mut S) -> (r: Result<CommandResult, ServerError>)
    ensures
        last_non_flag(strings_view(args@)) is None ==> (r matches Err(e) && e.msg() == "rename-session: missing name"@),
        r matches Ok(res) ==> res is Done,
{
    let target = get_option(args, "-t");
    let ghost a = strings_view(args@);
    let mut idx: usize = args.len();
    let mut found: Option<usize> = None;
    assert(a.take(idx as int) =~= a);
    while idx > 0
        invariant_except_break
            a == strings_view(args@),
            idx <= args@.len(),
            found is None,
            last_non_flag(a) == last_non_flag(a.take(idx as int)),
        ensures
            found is None ==> last_non_flag(a) is None,
            found matches Some(i) ==> i < args@.len() && last_non_flag(a) == Some(a[i as int]),
        decreases idx,
    {
        let cs = crate::text::str_chars(args[idx - 1].as_str());
        assert(a.take(idx as int).last() == a[idx - 1]);
        assert(a.take(idx as int).drop_last() =~= a.take(idx - 1));
        if !(cs.len() > 0 && cs[0] == '-') {
            found = Some(idx - 1);
            break;
        }
        idx = idx - 1;
    }
    proof {
        if found is None {
            assert(a.take(0) =~= Seq::<Seq<char>>::empty());
        }
    }
    let new_name: &str = match found {
        Some(i) => args[i].as_str(),
        None => {
            return Err(err("rename-session: missing name"));
        },
    };
    let session_name: String = match target {
        Some(t) => to_owned_string(t),
        None => {
            let sid = match server.client_session_id() {
                Some(s) => s,
                None => {
                    return Err(err("no current session"));
                },
            };
            match server.session_name_for_id(sid) {
                Some(n) => n,
                None => {
                    let id_text = crate::text::u32_to_string(sid);
                    return Err(err_with("session not found: ", id_text.as_str()));
                },
            }
        },
    };
    server.rename_session(session_name.as_str(), new_name)?;
    Ok(CommandResult::Done)
}

} // verus!
