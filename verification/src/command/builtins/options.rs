//! Option management commands: set-option, show-options.

use vstd::prelude::*;
use crate::command::{
    flag_set, get_option, has_flag, option_value, positional_args, positionals, CommandResult, CommandServer,
};
use crate::command::builtins::util::{err, err_with, join_lines, parse_u32, parse_u32_str};
use crate::server::ServerError;
use crate::text::{
    is_prefix, push_all, split_once, starts_with, str_chars, str_eq, str_split_once, strings_view, to_owned_string,
};

verus! {

/// The scope a `set-option` applies to.
pub enum OptionScope {
    Server,
    Session,
    Window,
}

/// Parsed set-option flags.
struct SetOptionFlags {
    global: bool,
    window_scope: bool,
    quiet: bool,
    only_if_unset: bool,
    unset: bool,
    unset_all: bool,
    append: bool,
    format_expand: bool,
    target: Option<String>,
}

impl SetOptionFlags {
    fn parse(args: &[String]) -> (f: Self)
        ensures
            f.global == flag_set(strings_view(args@), "-g"@),
            f.window_scope == flag_set(strings_view(args@), "-w"@),
            f.quiet == flag_set(strings_view(args@), "-q"@),
            f.unset == flag_set(strings_view(args@), "-u"@),
            f.unset_all == flag_set(strings_view(args@), "-U"@),
            f.format_expand == flag_set(strings_view(args@), "-F"@),
            f.target is Some == option_value(strings_view(args@), "-t"@) is Some,
    {
        SetOptionFlags {
            global: has_flag(args, "-g"),
            window_scope: has_flag(args, "-w"),
            quiet: has_flag(args, "-q"),
            only_if_unset: has_flag(args, "-o"),
            unset: has_flag(args, "-u"),
            unset_all: has_flag(args, "-U"),
            append: has_flag(args, "-a"),
            format_expand: has_flag(args, "-F"),
            target: match get_option(args, "-t") {
                Some(t) => Some(to_owned_string(t)),
                None => None,
            },
        }
    }
}

/// set-option [-agFgoqsupw] [-t target] key [value]
///
/// Sets (or with `-a` appends to, with `-u`/`-U` unsets) an option in the
/// scope the flags choose. With `-q`, a missing name or value is no error;
/// with `-o`, an option already set is left alone. With `-F` the value is
/// first expanded as a format in the client's context (an expansion that
/// fails is an error).
pub fn cmd_set_option<S: CommandServer + ?Sized>(args: &[String], server: &mut S) -> (r: Result<CommandResult, ServerError>)
    ensures
        r matches Ok(res) ==> res is Done,
        positionals(strings_view(args@), seq!["-t"@]).len() == 0 && flag_set(strings_view(args@), "-q"@) ==>
            r matches Ok(CommandResult::Done),
        positionals(strings_view(args@), seq!["-t"@]).len() == 0 && !flag_set(strings_view(args@), "-q"@) ==>
            (r matches Err(e) && e.msg() == "set-option: missing option name"@),
        positionals(strings_view(args@), seq!["-t"@]).len() == 1 && !flag_set(strings_view(args@), "-u"@)
            && !flag_set(strings_view(args@), "-U"@) && !flag_set(strings_view(args@), "-q"@) ==>
            (r matches Err(e) && e.msg() == "set-option: missing value"@),
{
    let flags = SetOptionFlags::parse(args);
    let with_values: [&str; 1] = ["-t"];
    let positional = positional_args(args, &with_values);
    assert(crate::command::strs_view(with_values@) =~= seq!["-t"@]);
    if positional.len() == 0 {
        if flags.quiet {
            return Ok(CommandResult::Done);
        }
        return Err(err("set-option: missing option name"));
    }
    let raw_key = positional[0];
    if flags.unset || flags.unset_all {
        return handle_unset(raw_key, &flags, server);
    }
    if positional.len() < 2 {
        if flags.quiet {
            return Ok(CommandResult::Done);
        }
        return Err(err("set-option: missing value"));
    }
    let raw_value = positional[1];
    let (key, value): (String, String) = if str_eq(raw_key, "status-bg") {
        let mut v = to_owned_string("bg=");
        push_all(&mut v, raw_value);
        (to_owned_string("status-style"), v)
    } else if str_eq(raw_key, "status-fg") {
        let mut v = to_owned_string("fg=");
        push_all(&mut v, raw_value);
        (to_owned_string("status-style"), v)
    } else {
        (to_owned_string(raw_key), to_owned_string(raw_value))
    };
    let value: String = if flags.format_expand {
        let ctx = server.build_format_context();
        match crate::format::try_format_expand(value.as_str(), &ctx) {
            Some(v) => v,
            None => {
                return Err(err("format expansion failed"));
            },
        }
    } else {
        value
    };
    if flags.only_if_unset && option_exists(key.as_str(), &flags, server) {
        return Ok(CommandResult::Done);
    }
    set_or_append(key.as_str(), value.as_str(), &flags, server)
}

/// Handle -u (unset) for all scopes.
fn handle_unset<S: CommandServer + ?Sized>(key: &str, flags: &SetOptionFlags, server: &mut S) -> (r: Result<CommandResult, ServerError>)
    ensures
        r matches Ok(res) ==> res is Done,
{
    if flags.unset_all || flags.global || (!flags.window_scope && flags.target.is_none()) {
        server.unset_server_option(key)?;
    } else if flags.window_scope {
        let (session_id, window_idx) = resolve_window_target(flags, server)?;
        server.unset_window_option(session_id, window_idx, key)?;
    } else {
        let session_id = resolve_session_target(flags, server)?;
        server.unset_session_option(session_id, key)?;
    }
    Ok(CommandResult::Done)
}

/// Check if an option already exists (for -o flag).
fn option_exists<S: CommandServer + ?Sized>(key: &str, flags: &SetOptionFlags, server: &S) -> bool {
    if flags.global || (!flags.window_scope && flags.target.is_none()) {
        server.has_server_option(key)
    } else if flags.window_scope {
        match resolve_window_target(flags, server) {
            Ok((sid, widx)) => server.has_window_option(sid, widx, key),
            Err(_) => false,
        }
    } else {
        match resolve_session_target(flags, server) {
            Ok(sid) => server.has_session_option(sid, key),
            Err(_) => false,
        }
    }
}

/// Set or append the value depending on -a flag.
fn set_or_append<S: CommandServer + ?Sized>(key: &str, value: &str, flags: &SetOptionFlags, server: &mut S) -> (r: Result<CommandResult, ServerError>)
    ensures
        r matches Ok(res) ==> res is Done,
{
    if flags.global || (!flags.window_scope && flags.target.is_none()) {
        if flags.append {
            server.append_server_option(key, value)?;
        } else {
            server.set_server_option(key, value)?;
        }
    } else if flags.window_scope {
        let (session_id, window_idx) = resolve_window_target(flags, server)?;
        if flags.append {
            server.append_window_option(session_id, window_idx, key, value)?;
        } else {
            server.set_window_option(session_id, window_idx, key, value)?;
        }
    } else {
        let session_id = resolve_session_target(flags, server)?;
        if flags.append {
            server.append_session_option(session_id, key, value)?;
        } else {
            server.set_session_option(session_id, key, value)?;
        }
    }
    Ok(CommandResult::Done)
}

/// Resolve session ID from target or current client.
///
/// The id comes from the server; the only errors are a target that names no
/// session and, without a target, a client with no session.
fn resolve_session_target<S: CommandServer + ?Sized>(flags: &SetOptionFlags, server: &S) -> (r: Result<u32, ServerError>)
    ensures
        match flags.target {
            Some(t) => r is Ok || (r matches Err(e) && e.msg() == "session not found: "@ + t@),
            None => r is Ok || (r matches Err(e) && e.msg() == "no current session"@),
        },
{
    match &flags.target {
        Some(t) => match server.find_session_id(t.as_str()) {
            Some(id) => Ok(id),
            None => Err(err_with("session not found: ", t.as_str())),
        },
        None => match server.client_session_id() {
            Some(id) => Ok(id),
            None => Err(err("no current session")),
        },
    }
}

/// The window index a `session:window` target gives: the number after the
/// colon, 0 when it is not one.
pub open spec fn window_part_index(w: Seq<char>) -> u32 {
    match parse_u32(w) {
        Some(n) => n,
        None => 0,
    }
}

/// Resolve (session_id, window_idx) from target: `session:window`, a session
/// (its active window), or the client's session.
///
/// Session ids and active windows come from the server; the window index of
/// a `session:window` target is the one it names.
fn resolve_window_target<S: CommandServer + ?Sized>(flags: &SetOptionFlags, server: &S) -> (r: Result<(u32, u32), ServerError>)
    ensures
        match flags.target {
            Some(t) => match split_once(t@, ':') {
                Some((sn, w)) => (r matches Ok((_, widx)) && widx == window_part_index(w))
                    || (r matches Err(e) && e.msg() == "session not found: "@ + sn),
                None => r is Ok || (r matches Err(e) && e.msg() == "session not found: "@ + t@),
            },
            None => r is Ok || (r matches Err(e) && e.msg() == "no current session"@),
        },
{
    match &flags.target {
        Some(t) => {
            match str_split_once(t.as_str(), ':') {
                Some((session_name, rest)) => {
                    let sid = match server.find_session_id(session_name.as_str()) {
                        Some(id) => id,
                        None => {
                            return Err(err_with("session not found: ", session_name.as_str()));
                        },
                    };
                    let widx = match parse_u32_str(rest.as_str()) {
                        Some(n) => n,
                        None => 0,
                    };
                    Ok((sid, widx))
                },
                None => {
                    let sid = match server.find_session_id(t.as_str()) {
                        Some(id) => id,
                        None => {
                            return Err(err_with("session not found: ", t.as_str()));
                        },
                    };
                    let widx = match server.active_window_for(sid) {
                        Some(w) => w,
                        None => 0,
                    };
                    Ok((sid, widx))
                },
            }
        },
        None => {
            let sid = match server.client_session_id() {
                Some(id) => id,
                None => {
                    return Err(err("no current session"));
                },
            };
            let widx = match server.active_window_for(sid) {
                Some(w) => w,
                None => 0,
            };
            Ok((sid, widx))
        },
    }
}

/// `args` with `-w` in front.
fn with_window_flag(args: &[String]) -> (r: Vec<String>)
    ensures
        strings_view(r@) == seq!["-w"@] + strings_view(args@),
{
    let mut new_args: Vec<String> = Vec::new();
    new_args.push(to_owned_string("-w"));
    let mut i: usize = 0;
    while i < args.len()
        invariant
            i <= args@.len(),
            strings_view(new_args@) == seq!["-w"@] + strings_view(args@).take(i as int),
        decreases args@.len() - i,
    {
        let ghost prev = strings_view(new_args@);
        let item = args[i].clone();
        assert(item@ == strings_view(args@)[i as int]);
        new_args.push(item);
        assert(strings_view(new_args@) =~= prev.push(strings_view(args@)[i as int]));
        assert(strings_view(args@).take(i + 1) =~= strings_view(args@).take(i as int).push(strings_view(args@)[i as int]));
        assert(strings_view(new_args@) =~= seq!["-w"@] + strings_view(args@).take(i + 1));
        i = i + 1;
    }
    assert(strings_view(args@).take(i as int) =~= strings_view(args@));
    new_args
}

/// set-window-option: `set-option -w` with the same arguments.
pub fn cmd_set_window_option<S: CommandServer + ?Sized>(args: &[String], server: &mut S) -> (r: Result<CommandResult, ServerError>)
    ensures
        r matches Ok(res) ==> res is Done,
{
    let new_args = with_window_flag(args);
    cmd_set_option(new_args.as_slice(), server)
}

/// show-window-options: `show-options -w` with the same arguments.
pub fn cmd_show_window_options<S: CommandServer + ?Sized>(args: &[String], server: &mut S) -> (r: Result<CommandResult, ServerError>)
    ensures
        r matches Ok(CommandResult::Output(_)),
{
    let new_args = with_window_flag(args);
    cmd_show_options(new_args.as_slice(), server)
}

/// show-options [-A] [-g] [-H] [-p] [-q] [-s] [-v] [-w] [-t target] [option-name]
///
/// Outputs the options of the scope the flags choose (server with `-g`,
/// else window with `-w`, else session), only those starting with the
/// option name when one is given.
pub fn cmd_show_options<S: CommandServer + ?Sized>(args: &[String], server: &mut S) -> (r: Result<CommandResult, ServerError>)
    ensures
        r matches Ok(CommandResult::Output(_)),
{
    let global = has_flag(args, "-g");
    let window_scope = has_flag(args, "-w");
    let scope: &str = if global { "server" } else if window_scope { "window" } else { "session" };
    let target_id: Option<u32> = match get_option(args, "-t") {
        Some(target) => server.find_session_id(target),
        None => server.client_session_id(),
    };
    let with_values: [&str; 1] = ["-t"];
    let positional = positional_args(args, &with_values);
    let options = server.show_options(scope, target_id);
    if positional.len() > 0 {
        let key = positional[0];
        let mut filtered: Vec<String> = Vec::new();
        let mut i: usize = 0;
        while i < options.len()
            invariant
                i <= options@.len(),
            decreases options@.len() - i,
        {
            if starts_with(options[i].as_str(), key) {
                filtered.push(options[i].clone());
            }
            i = i + 1;
        }
        if filtered.len() == 0 {
            Ok(CommandResult::Output(String::new()))
        } else {
            Ok(CommandResult::Output(join_lines(&filtered)))
        }
    } else if options.len() == 0 {
        Ok(CommandResult::Output(String::new()))
    } else {
        Ok(CommandResult::Output(join_lines(&options)))
    }
}

} // verus!
