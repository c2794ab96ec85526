//! Client commands: attach-session, detach-client, switch-client, refresh-client, suspend-client.

use vstd::prelude::*;
use crate::command::{flag_set, get_option, has_flag, option_value, CommandResult, CommandServer};
use crate::command::builtins::util::{err, err_with, name_before_colon};
use crate::server::ServerError;
use crate::text::strings_view;

verus! {

/// attach-session [-dErx] [-c working-directory] [-f flags] [-t target-session]
/// -d: detach other clients attached to the target session
///
/// Succeeds only with `Attach`; with no sessions, it fails.
pub fn cmd_attach_session<S: CommandServer + ?Sized>(args: &[String], server: &mut S) -> (r: Result<CommandResult, ServerError>)
    ensures
        r matches Ok(res) ==> res is Attach,
{
    let detach_others = has_flag(args, "-d");
    let mut pos: usize = 0;
    let mut target: Option<&str> = None;
    while pos < args.len()
        invariant
            pos <= args@.len(),
        decreases args@.len() - pos,
    {
        if crate::text::str_eq(args[pos].as_str(), "-t") {
            if pos + 1 < args.len() {
                target = Some(args[pos + 1].as_str());
            }
            break;
        }
        pos = pos + 1;
    }
    let session_id: u32 = match target {
        Some(name) => match server.find_session_id(name) {
            Some(id) => id,
            None => {
                return Err(err_with("session not found: ", name));
            },
        },
        None => {
            let sessions = server.list_sessions();
            if sessions.len() == 0 {
                return Err(err("no sessions"));
            }
            match server.find_session_id("0") {
                Some(id) => id,
                None => {
                    let list = server.list_sessions();
                    if list.len() == 0 {
                        return Err(err("no sessions"));
                    }
                    let name = name_before_colon(list[0].as_str());
                    match server.find_session_id(name.as_str()) {
                        Some(id) => id,
                        None => {
                            return Err(err("no sessions"));
                        },
                    }
                },
            }
        },
    };
    if detach_others {
        server.detach_other_clients()?;
    }
    Ok(CommandResult::Attach(session_id))
}

/// detach-client [-aP] [-E exit-message] [-s target-session] [-t target-client]
/// -a: detach all other clients on the same session (keep current attached)
pub fn cmd_detach_client<S: CommandServer + ?Sized>(args: &[String], server: &mut S) -> (r: Result<CommandResult, ServerError>)
    ensures
        !flag_set(strings_view(args@), "-a"@) ==> r matches Ok(CommandResult::Detach),
        flag_set(strings_view(args@), "-a"@) ==> (r is Err || r matches Ok(CommandResult::Done)),
{
    if has_flag(args, "-a") {
        server.detach_other_clients()?;
        return Ok(CommandResult::Done);
    }
    Ok(CommandResult::Detach)
}

/// switch-client [-Elnpr] [-c target-client] [-t target-session] [-T key-table] [-Z]
///
/// `-l` switches to the last session, `-n`/`-p` to the next or previous one
/// (wrapping), otherwise to the `-t` session, which is required.
pub fn cmd_switch_client<S: CommandServer + ?Sized>(args: &[String], server: &mut S) -> (r: Result<CommandResult, ServerError>)
    ensures
        r matches Ok(res) ==> res is Done,
        !flag_set(strings_view(args@), "-l"@) && !flag_set(strings_view(args@), "-n"@)
            && !flag_set(strings_view(args@), "-p"@) && option_value(strings_view(args@), "-t"@) is None
            ==> (r matches Err(e) && e.msg() == "switch-client: missing -t target"@),
{
    let next = has_flag(args, "-n");
    let prev = has_flag(args, "-p");
    let last = has_flag(args, "-l");
    if last {
        let last_id = match server.client_last_session_id() {
            Some(id) => id,
            None => {
                return Err(err("no last session"));
            },
        };
        server.switch_client(last_id)?;
        return Ok(CommandResult::Done);
    }
    if next || prev {
        let sessions = server.list_sessions();
        if sessions.len() == 0 {
            return Err(err("no sessions"));
        }
        let current_id = server.client_session_id();
        let mut session_ids: Vec<u32> = Vec::new();
        let mut i: usize = 0;
        while i < sessions.len()
            invariant
                i <= sessions@.len(),
                session_ids@.len() <= i,
            decreases sessions@.len() - i,
        {
            let name = name_before_colon(sessions[i].as_str());
            match server.find_session_id(name.as_str()) {
                Some(id) => session_ids.push(id),
                None => {},
            }
            i = i + 1;
        }
        if session_ids.len() == 0 {
            return Err(err("no sessions"));
        }
        let n = session_ids.len();
        let mut current_pos: usize = 0;
        match current_id {
            Some(id) => {
                let mut k: usize = 0;
                while k < n
                    invariant
                        n == session_ids@.len(),
                        k <= n,
                        current_pos < n,
                    decreases n - k,
                {
                    if session_ids[k] == id {
                        current_pos = k;
                        break;
                    }
                    k = k + 1;
                }
            },
            None => {},
        }
        let new_pos = if next {
            (current_pos + 1) % n
        } else if current_pos == 0 {
            n - 1
        } else {
            current_pos - 1
        };
        server.switch_client(session_ids[new_pos])?;
        return Ok(CommandResult::Done);
    }
    let target = match get_option(args, "-t") {
        Some(t) => t,
        None => {
            return Err(err("switch-client: missing -t target"));
        },
    };
    let session_id = match server.find_session_id(target) {
        Some(id) => id,
        None => {
            return Err(err_with("session not found: ", target));
        },
    };
    server.switch_client(session_id)?;
    Ok(CommandResult::Done)
}

/// refresh-client [-cDlrRSU] [-A pane:visible-area] [-B subscription]
///   [-C widthxheight] [-f flags] [-L forward-to-client] [-t target-client]
pub fn cmd_refresh_client<S: CommandServer + ?Sized>(args: &[String], server: &mut S) -> (r: Result<CommandResult, ServerError>)
    ensures
        r matches Ok(CommandResult::Done),
{
    server.refresh_client();
    Ok(CommandResult::Done)
}

/// suspend-client [-t target-client]
///
/// Suspend the client by sending SIGTSTP to itself.
pub fn cmd_suspend_client<S: CommandServer + ?Sized>(args: &[String], server: &mut S) -> (r: Result<CommandResult, ServerError>)
    ensures
        r matches Ok(CommandResult::Suspend),
{
    Ok(CommandResult::Suspend)
}

} // verus!
