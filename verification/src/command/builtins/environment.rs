//! Environment commands: set-environment, show-environment.

use vstd::prelude::*;
use crate::command::{
    flag_set, get_option, has_flag, option_value, positional_args, positionals, CommandResult, CommandServer,
};
use crate::command::builtins::util::{err, err_with, join_lines};
use crate::server::ServerError;
use crate::text::{push_all, starts_with, strings_view, to_owned_string};

verus! {

/// The session an environment command targets (`-t` or the client's).
///
/// The id comes from the server; the only errors are a target that names no
/// session and, without `-t`, a client with no session.
fn resolve_env_session<S: CommandServer + ?Sized>(args: &[String], server: &S) -> (r: Result<u32, ServerError>)
    ensures
        match option_value(strings_view(args@), "-t"@) {
            Some(t) => r is Ok || (r matches Err(e) && e.msg() == "session not found: "@ + t),
            None => r is Ok || (r matches Err(e) && e.msg() == "no current session"@),
        },
{
    match get_option(args, "-t") {
        Some(target) => match server.find_session_id(target) {
            Some(id) => Ok(id),
            None => Err(err_with("session not found: ", target)),
        },
        None => match server.client_session_id() {
            Some(id) => Ok(id),
            None => Err(err("no current session")),
        },
    }
}

/// set-environment [-g] [-u] [-t target-session] name [value]
///
/// Sets (or with `-u` removes) a variable, globally with `-g`, else in the
/// target session. The name is required; the value defaults to empty.
pub fn cmd_set_environment<S: CommandServer + ?Sized>(args: &[String], server: &mut S) -> (r: Result<CommandResult, ServerError>)
    ensures
        r matches Ok(res) ==> res is Done,
        flag_set(strings_view(args@), "-g"@) && positionals(strings_view(args@), seq!["-t"@]).len() == 0 ==>
            (r matches Err(e) && e.msg() == "usage: set-environment [-g] [-u] [-t target] name [value]"@),
{
    let global = has_flag(args, "-g");
    let unset = has_flag(args, "-u");
    let session_id: Option<u32> = if global { None } else { Some(resolve_env_session(args, server)?) };
    let with_values: [&str; 1] = ["-t"];
    let positionals_found = positional_args(args, &with_values);
    assert(crate::command::strs_view(with_values@) =~= seq!["-t"@]);
    if positionals_found.len() == 0 {
        return Err(err("usage: set-environment [-g] [-u] [-t target] name [value]"));
    }
    let name = positionals_found[0];
    if unset {
        server.unset_environment(session_id, name)?;
    } else {
        let value: &str = if positionals_found.len() > 1 { positionals_found[1] } else { "" };
        server.set_environment(session_id, name, value)?;
    }
    Ok(CommandResult::Done)
}

/// show-environment [-g] [-t target-session] [name]
///
/// Outputs the variables (globally with `-g`), or with a name the lines
/// setting it, or `-name` when it is not set.
pub fn cmd_show_environment<S: CommandServer + ?Sized>(args: &[String], server: &mut S) -> (r: Result<CommandResult, ServerError>)
    ensures
        r matches Ok(res) ==> (res is Done || res is Output),
{
    let global = has_flag(args, "-g");
    let session_id: Option<u32> = if global { None } else { Some(resolve_env_session(args, server)?) };
    let with_values: [&str; 1] = ["-t"];
    let positionals_found = positional_args(args, &with_values);
    let env_lines = server.show_environment(session_id);
    if positionals_found.len() > 0 {
        let name = positionals_found[0];
        let mut prefix = to_owned_string(name);
        push_all(&mut prefix, "=");
        let mut found: Vec<String> = Vec::new();
        let mut i: usize = 0;
        while i < env_lines.len()
            invariant
                i <= env_lines@.len(),
            decreases env_lines@.len() - i,
        {
            if starts_with(env_lines[i].as_str(), prefix.as_str()) {
                found.push(env_lines[i].clone());
            }
            i = i + 1;
        }
        if found.len() == 0 {
            let mut out = to_owned_string("-");
            push_all(&mut out, name);
            push_all(&mut out, "\n");
            Ok(CommandResult::Output(out))
        } else {
            Ok(CommandResult::Output(join_lines(&found)))
        }
    } else if env_lines.len() == 0 {
        Ok(CommandResult::Done)
    } else {
        Ok(CommandResult::Output(join_lines(&env_lines)))
    }
}

} // verus!
