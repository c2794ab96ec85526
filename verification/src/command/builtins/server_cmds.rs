//! Server-level commands: kill-server, start-server, send-keys, bind-key,
//! unbind-key, source-file, run-shell, command-prompt, if-shell, send-prefix, set-hook,
//! show-hooks, confirm-before, wait-for.

use vstd::prelude::*;
use crate::command::{
    flag_set, get_option, has_flag, option_value, positional_args, positionals, strs_view, CommandResult,
    CommandServer,
};
use crate::command::builtins::util::{err, err_with, list_output, list_result, parse_u32, parse_u32_str};
use crate::server::ServerError;
use crate::text::{
    char_is_ws, is_ws, join, join_strings, push_all, split_once, str_chars, str_split_once, string_from_chars, strings_view,
    to_owned_string, trim_start,
};

verus! {

/// kill-server
pub fn cmd_kill_server<S: CommandServer + ?Sized>(args: &[String], server: &mut S) -> (r: Result<CommandResult, ServerError>)
    ensures
        r matches Ok(CommandResult::Exit),
{
    Ok(CommandResult::Exit)
}

/// start-server — no-op since the server is already running.
pub fn cmd_start_server<S: CommandServer + ?Sized>(args: &[String], server: &mut S) -> (r: Result<CommandResult, ServerError>)
    ensures
        r matches Ok(CommandResult::Done),
{
    Ok(CommandResult::Done)
}

/// Where the key of `bind-key` stands: after the leading flags, where `-r`
/// and `-n` take no value, `-T` and `-N` take one, and other `-x...` groups
/// (not starting `--`) are skipped.
pub open spec fn bind_key_start(args: Seq<Seq<char>>, i: int) -> int
    decreases args.len() + 2 - i,
{
    if i < 0 || i >= args.len() {
        i
    } else if args[i] == "-r"@ || args[i] == "-n"@ {
        bind_key_start(args, i + 1)
    } else if args[i] == "-T"@ || args[i] == "-N"@ {
        bind_key_start(args, i + 2)
    } else if args[i].len() > 1 && args[i][0] == '-' && args[i][1] != '-' {
        bind_key_start(args, i + 1)
    } else {
        i
    }
}

/// bind-key [-r] [-N note] [-T table] [-n] key command [args...]
///
/// Fails when the key or the command is missing; otherwise hands the binding
/// to the server.
pub fn cmd_bind_key<S: CommandServer + ?Sized>(args: &[String], server: &mut S) -> (r: Result<CommandResult, ServerError>)
    ensures
        bind_key_start(strings_view(args@), 0) >= args@.len() ==>
            (r matches Err(e) && e.msg() == "bind-key: missing key"@),
        bind_key_start(strings_view(args@), 0) + 1 == args@.len() ==>
            (r matches Err(e) && e.msg() == "bind-key: missing command"@),
        r matches Ok(res) ==> res is Done,
{
    let ghost a = strings_view(args@);
    let table: &str = if has_flag(args, "-n") {
        "root"
    } else {
        match get_option(args, "-T") {
            Some(t) => t,
            None => "prefix",
        }
    };
    let repeatable = has_flag(args, "-r");
    let note: Option<String> = match get_option(args, "-N") {
        Some(n) => Some(to_owned_string(n)),
        None => None,
    };
    let mut i: usize = 0;
    let ghost mut gi: int = 0;
    while i < args.len()
        invariant_except_break
            a == strings_view(args@),
            i <= args@.len(),
            gi >= 0,
            i == (if gi <= args@.len() { gi } else { args@.len() as int }),
            bind_key_start(a, 0) == bind_key_start(a, gi),
        ensures
            i <= args@.len(),
            i == (if bind_key_start(a, 0) <= args@.len() { bind_key_start(a, 0) } else { args@.len() as int }),
        decreases args@.len() - i,
    {
        let arg = str_chars(args[i].as_str());
        assert(arg@ == a[i as int]);
        proof {
            reveal_strlit("-r");
            reveal_strlit("-n");
            reveal_strlit("-T");
            reveal_strlit("-N");
            assert("-r"@ =~= seq!['-', 'r']);
            assert("-n"@ =~= seq!['-', 'n']);
            assert("-T"@ =~= seq!['-', 'T']);
            assert("-N"@ =~= seq!['-', 'N']);
        }
        if crate::text::chars_eq(arg.as_slice(), &['-', 'r']) || crate::text::chars_eq(arg.as_slice(), &['-', 'n']) {
            assert(a[i as int] == "-r"@ || a[i as int] == "-n"@);
            assert(bind_key_start(a, gi) == bind_key_start(a, gi + 1));
            i = i + 1;
            proof { gi = gi + 1; }
        } else if crate::text::chars_eq(arg.as_slice(), &['-', 'T']) || crate::text::chars_eq(arg.as_slice(), &['-', 'N']) {
            assert(a[i as int] != "-r"@ && a[i as int] != "-n"@);
            assert(a[i as int] == "-T"@ || a[i as int] == "-N"@);
            assert(bind_key_start(a, gi) == bind_key_start(a, gi + 2));
            proof { gi = gi + 2; }
            if i + 1 < args.len() {
                i = i + 2;
            } else {
                assert(bind_key_start(a, gi) == gi);
                i = args.len();
            }
        } else if arg.len() > 1 && arg[0] == '-' && arg[1] != '-' {
            assert(a[i as int] != "-r"@ && a[i as int] != "-n"@ && a[i as int] != "-T"@ && a[i as int] != "-N"@);
            assert(bind_key_start(a, gi) == bind_key_start(a, gi + 1));
            i = i + 1;
            proof { gi = gi + 1; }
        } else {
            assert(a[i as int] != "-r"@ && a[i as int] != "-n"@ && a[i as int] != "-T"@ && a[i as int] != "-N"@);
            assert(bind_key_start(a, gi) == gi);
            break;
        }
    }
    if i >= args.len() {
        return Err(err("bind-key: missing key"));
    }
    let key_name = args[i].as_str();
    i = i + 1;
    if i >= args.len() {
        return Err(err("bind-key: missing command"));
    }
    let mut argv: Vec<String> = Vec::new();
    while i < args.len()
        invariant
            i <= args@.len(),
        decreases args@.len() - i,
    {
        argv.push(args[i].clone());
        i = i + 1;
    }
    server.add_key_binding(table, key_name, argv, repeatable, note)?;
    Ok(CommandResult::Done)
}

/// unbind-key [-a] [-n] [-T table] [-q] key
///
/// `-a` clears the table; otherwise the key (the first positional argument)
/// is required. With `-q` a failed removal still succeeds.
pub fn cmd_unbind_key<S: CommandServer + ?Sized>(args: &[String], server: &mut S) -> (r: Result<CommandResult, ServerError>)
    ensures
        flag_set(strings_view(args@), "-a"@) ==> r matches Ok(CommandResult::Done),
        !flag_set(strings_view(args@), "-a"@) && positionals(strings_view(args@), seq!["-T"@]).len() == 0 ==>
            (r matches Err(e) && e.msg() == "unbind-key: missing key"@),
        flag_set(strings_view(args@), "-q"@) && positionals(strings_view(args@), seq!["-T"@]).len() > 0 ==>
            r matches Ok(CommandResult::Done),
        r matches Ok(res) ==> res is Done,
{
    let quiet = has_flag(args, "-q");
    let unbind_all = has_flag(args, "-a");
    let table: &str = if has_flag(args, "-n") {
        "root"
    } else {
        match get_option(args, "-T") {
            Some(t) => t,
            None => "prefix",
        }
    };
    if unbind_all {
        server.clear_key_table(table);
        return Ok(CommandResult::Done);
    }
    let with_values: [&str; 1] = ["-T"];
    let positional = positional_args(args, &with_values);
    assert(strs_view(with_values@) =~= seq!["-T"@]);
    if positional.len() == 0 {
        return Err(err("unbind-key: missing key"));
    }
    let result = server.remove_key_binding(table, positional[0]);
    if quiet {
        Ok(CommandResult::Done)
    } else {
        match result {
            Ok(()) => Ok(CommandResult::Done),
            Err(e) => Err(e),
        }
    }
}

/// The positional arguments with no flag taking a value.
pub open spec fn plain_positionals(args: Seq<Seq<char>>) -> Seq<Seq<char>> {
    positionals(args, Seq::empty())
}

/// Joins string slices with `sep`.
fn join_strs(parts: &Vec<&str>, sep: &str) -> (r: String)
    ensures
        r@ == join(strs_view(parts@), sep@),
{
    let mut owned: Vec<String> = Vec::new();
    let mut i: usize = 0;
    while i < parts.len()
        invariant
            i <= parts@.len(),
            strings_view(owned@) == strs_view(parts@).take(i as int),
        decreases parts@.len() - i,
    {
        owned.push(to_owned_string(parts[i]));
        assert(strs_view(parts@).take(i + 1) =~= strs_view(parts@).take(i as int).push(parts@[i as int]@));
        assert(strings_view(owned@) =~= strings_view(owned@).drop_last().push(owned@[i as int]@));
        i = i + 1;
    }
    assert(strs_view(parts@).take(i as int) =~= strs_view(parts@));
    join_strings(owned.as_slice(), sep)
}

/// run-shell [-b] command
///
/// Hands the positional arguments, joined by spaces, to the server to run,
/// in the background with `-b`.
pub fn cmd_run_shell<S: CommandServer + ?Sized>(args: &[String], server: &mut S) -> (r: Result<CommandResult, ServerError>)
    ensures
        plain_positionals(strings_view(args@)).len() == 0 ==>
            (r matches Err(e) && e.msg() == "run-shell: missing command"@),
        plain_positionals(strings_view(args@)).len() > 0 && flag_set(strings_view(args@), "-b"@) ==>
            (r matches Ok(CommandResult::RunShellBackground(c)) && c@ == join(plain_positionals(strings_view(args@)), " "@)),
        plain_positionals(strings_view(args@)).len() > 0 && !flag_set(strings_view(args@), "-b"@) ==>
            (r matches Ok(CommandResult::RunShell(c)) && c@ == join(plain_positionals(strings_view(args@)), " "@)),
{
    let background = has_flag(args, "-b");
    let none: [&str; 0] = [];
    let positional = positional_args(args, &none);
    assert(strs_view(none@) =~= Seq::<Seq<char>>::empty());
    if positional.len() == 0 {
        return Err(err("run-shell: missing command"));
    }
    let command = join_strs(&positional, " ");
    if background {
        Ok(CommandResult::RunShellBackground(command))
    } else {
        Ok(CommandResult::RunShell(command))
    }
}

/// command-prompt [-I initial-text] [-p prompt] [template]
pub fn cmd_command_prompt<S: CommandServer + ?Sized>(args: &[String], server: &mut S) -> (r: Result<CommandResult, ServerError>)
    ensures
        r matches Ok(CommandResult::Done),
{
    let initial_text = get_option(args, "-I");
    let prompt_str = get_option(args, "-p");
    let with_values: [&str; 4] = ["-I", "-p", "-t", "-T"];
    let template = positional_args(args, &with_values);
    let template_str: Option<&str> = if template.len() > 0 { Some(template[0]) } else { None };
    server.enter_command_prompt_with(initial_text, prompt_str, template_str);
    Ok(CommandResult::Done)
}

/// clear-history [-H] [-t target-pane]
pub fn cmd_clear_history<S: CommandServer + ?Sized>(args: &[String], server: &mut S) -> (r: Result<CommandResult, ServerError>)
    ensures
        r matches Ok(res) ==> res is Done,
{
    server.clear_history()?;
    Ok(CommandResult::Done)
}

/// set-hook [-u] hook-name [command]
///
/// Set or unset (-u) a hook. When set, the command is executed when the hook fires.
pub fn cmd_set_hook<S: CommandServer + ?Sized>(args: &[String], server: &mut S) -> (r: Result<CommandResult, ServerError>)
    ensures
        plain_positionals(strings_view(args@)).len() == 0 ==>
            (r matches Err(e) && e.msg() == "set-hook: missing hook name"@),
        plain_positionals(strings_view(args@)).len() == 1 && !flag_set(strings_view(args@), "-u"@) ==>
            (r matches Err(e) && e.msg() == "set-hook: missing command"@),
        plain_positionals(strings_view(args@)).len() >= 2 && !flag_set(strings_view(args@), "-u"@) ==>
            r matches Ok(CommandResult::Done),
        plain_positionals(strings_view(args@)).len() > 0 && flag_set(strings_view(args@), "-u"@) ==>
            (r matches Ok(CommandResult::Done) || (r matches Err(e)
                && e.msg() == "hook not found: "@ + plain_positionals(strings_view(args@))[0])),
{
    let unset = has_flag(args, "-u");
    let none: [&str; 0] = [];
    let positional = positional_args(args, &none);
    assert(strs_view(none@) =~= Seq::<Seq<char>>::empty());
    if positional.len() == 0 {
        return Err(err("set-hook: missing hook name"));
    }
    let hook_name = positional[0];
    if unset {
        if !server.remove_hook(hook_name) {
            return Err(err_with("hook not found: ", hook_name));
        }
    } else {
        if positional.len() < 2 {
            return Err(err("set-hook: missing command"));
        }
        let mut argv: Vec<String> = Vec::new();
        let mut i: usize = 1;
        while i < positional.len()
            invariant
                1 <= i <= positional@.len(),
            decreases positional@.len() - i,
        {
            argv.push(to_owned_string(positional[i]));
            i = i + 1;
        }
        server.register_hook(hook_name, argv);
    }
    Ok(CommandResult::Done)
}

/// show-hooks
///
/// Outputs the hooks, one per line; no output when there are none.
pub fn cmd_show_hooks<S: CommandServer + ?Sized>(args: &[String], server: &mut S) -> (r: Result<CommandResult, ServerError>)
    ensures
        r matches Ok(res) && (res is Done || res is Output),
{
    let hooks = server.show_hooks();
    list_result(&hooks)
}

/// The characters of `t` up to its first whitespace.
pub open spec fn word_prefix(t: Seq<char>) -> Seq<char>
    decreases t.len(),
{
    if t.len() == 0 || is_ws(t[0]) {
        Seq::empty()
    } else {
        seq![t[0]] + word_prefix(t.drop_first())
    }
}

/// The first whitespace-separated word of `s`, or "confirm" when there is none.
pub open spec fn first_word(s: Seq<char>) -> Seq<char> {
    let t = trim_start(s);
    if t.len() == 0 { "confirm"@ } else { word_prefix(t) }
}

/// The first whitespace-separated word of `s`, or "confirm" when there is none.
fn first_word_of(s: &str) -> (r: String)
    ensures
        r@ == first_word(s@),
{
    let cs = str_chars(s);
    let mut i: usize = 0;
    assert(cs@.subrange(0, cs@.len() as int) =~= s@);
    while i < cs.len() && char_is_ws(cs[i])
        invariant
            cs@ == s@,
            i <= cs@.len(),
            trim_start(s@) == trim_start(cs@.subrange(i as int, cs@.len() as int)),
        decreases cs@.len() - i,
    {
        assert(cs@.subrange(i as int, cs@.len() as int).drop_first() =~= cs@.subrange(i + 1, cs@.len() as int));
        i = i + 1;
    }
    let ghost t = cs@.subrange(i as int, cs@.len() as int);
    assert(trim_start(t) == t);
    if i == cs.len() {
        return to_owned_string("confirm");
    }
    let mut out: Vec<char> = Vec::new();
    let mut j: usize = i;
    while j < cs.len() && !char_is_ws(cs[j])
        invariant
            i <= j <= cs@.len(),
            out@ + word_prefix(cs@.subrange(j as int, cs@.len() as int)) == word_prefix(t),
        decreases cs@.len() - j,
    {
        let ghost rest = cs@.subrange(j as int, cs@.len() as int);
        assert(rest.drop_first() =~= cs@.subrange(j + 1, cs@.len() as int));
        assert(out@.push(cs@[j as int]) + word_prefix(rest.drop_first()) =~= out@ + word_prefix(rest));
        out.push(cs[j]);
        j = j + 1;
    }
    assert(out@ + word_prefix(cs@.subrange(j as int, cs@.len() as int)) =~= out@);
    string_from_chars(out.as_slice())
}

/// confirm-before [-p prompt] command
///
/// Puts the client in a y/n prompt whose answer "y" runs the command.
pub fn cmd_confirm_before<S: CommandServer + ?Sized>(args: &[String], server: &mut S) -> (r: Result<CommandResult, ServerError>)
    ensures
        positionals(strings_view(args@), seq!["-p"@, "-t"@]).len() == 0 ==>
            (r matches Err(e) && e.msg() == "confirm-before: missing command"@),
        positionals(strings_view(args@), seq!["-p"@, "-t"@]).len() > 0 ==> r matches Ok(CommandResult::Done),
{
    let custom_prompt = get_option(args, "-p");
    let with_values: [&str; 2] = ["-p", "-t"];
    let positional = positional_args(args, &with_values);
    assert(strs_view(with_values@) =~= seq!["-p"@, "-t"@]);
    if positional.len() == 0 {
        return Err(err("confirm-before: missing command"));
    }
    let cmd_str = join_strs(&positional, " ");
    let prompt_str: String = match custom_prompt {
        Some(p) => {
            let mut s = to_owned_string(p);
            push_all(&mut s, " (y/n) ");
            s
        },
        None => {
            let mut s = first_word_of(cmd_str.as_str());
            push_all(&mut s, "? (y/n) ");
            s
        },
    };
    let mut template = to_owned_string("if-shell -F '#{==:%%,y}' '");
    push_all(&mut template, cmd_str.as_str());
    push_all(&mut template, "'");
    server.enter_command_prompt_with(None, Some(prompt_str.as_str()), Some(template.as_str()));
    Ok(CommandResult::Done)
}

/// The channel a wait-for command names: its first positional argument.
pub open spec fn wait_channel(args: Seq<Seq<char>>) -> Option<Seq<char>> {
    let p = positionals(args, Seq::empty());
    if p.len() > 0 { Some(p[0]) } else { None }
}

/// wait-for [-L|-U|-S] channel
///
/// Wait for or signal a named channel for scripting synchronization: `-S`
/// signals the channel, `-L` locks it and `-U` unlocks it (the first of
/// these flags given, in that order); without a flag the command succeeds
/// and the waiting is the server's. A missing channel is a usage error.
pub fn cmd_wait_for<S: CommandServer + ?Sized>(args: &[String], server: &mut S) -> (r: Result<CommandResult, ServerError>)
    ensures
        wait_channel(strings_view(args@)) is None ==> (r matches Err(e) && e.msg()
            == "usage: wait-for [-L|-U|-S] channel"@),
        wait_channel(strings_view(args@)) is Some && flag_set(strings_view(args@), "-S"@) ==> r matches Ok(
            CommandResult::Done,
        ),
        wait_channel(strings_view(args@)) is Some && !flag_set(strings_view(args@), "-S"@) && !flag_set(
            strings_view(args@),
            "-L"@,
        ) && !flag_set(strings_view(args@), "-U"@) ==> r matches Ok(CommandResult::Done),
        r matches Ok(res) ==> res is Done,
{
    let none: [&str; 0] = [];
    let positional = positional_args(args, &none);
    assert(strs_view(none@) =~= Seq::<Seq<char>>::empty());
    if positional.len() == 0 {
        return Err(err("usage: wait-for [-L|-U|-S] channel"));
    }
    let channel = positional[0];
    if has_flag(args, "-S") {
        server.wait_channel_signal(channel);
    } else if has_flag(args, "-L") {
        server.wait_channel_lock(channel)?;
    } else if has_flag(args, "-U") {
        server.wait_channel_unlock(channel)?;
    }
    Ok(CommandResult::Done)
}

/// The bytes of the UTF-8 text `s`.
fn text_bytes(s: &str) -> (r: Vec<u8>)
    ensures
        r@ == vstd::utf8::encode_utf8(s@),
{
    let b = s.as_bytes();
    let mut r: Vec<u8> = Vec::new();
    let mut i: usize = 0;
    while i < b.len()
        invariant
            b@ == vstd::utf8::encode_utf8(s@),
            i <= b@.len(),
            r@ == b@.subrange(0, i as int),
        decreases b@.len() - i,
    {
        r.push(b[i]);
        assert(r@ =~= b@.subrange(0, i + 1));
        i = i + 1;
    }
    assert(b@.subrange(0, b@.len() as int) =~= b@);
    r
}

/// How many times send-keys sends its keys: the `-N` count, at least once.
pub open spec fn send_repeat(args: Seq<Seq<char>>) -> u32 {
    match option_value(args, "-N"@) {
        Some(v) => match parse_u32(v) {
            Some(n) => if n >= 1 { n } else { 1 },
            None => 1,
        },
        None => 1,
    }
}

/// The repeat count of a send-keys.
pub fn send_repeat_count(args: &[String]) -> (r: u32)
    ensures
        r == send_repeat(strings_view(args@)),
        r >= 1,
{
    match get_option(args, "-N") {
        Some(v) => match parse_u32_str(v) {
            Some(n) => if n >= 1 { n } else { 1 },
            None => 1,
        },
        None => 1,
    }
}

/// Resolves the session and window send-keys writes to: `-t session:window`,
/// `-t session` (its active window, else window 0), or the client's.
fn resolve_send_keys_target<S: CommandServer + ?Sized>(args: &[String], server: &S) -> (r: Result<(u32, u32), ServerError>)
    ensures
        match option_value(strings_view(args@), "-t"@) {
            Some(t) => match split_once(t, ':') {
                Some((s, w)) => {
                    &&& r matches Err(e) ==> (e.msg() == "session not found: "@ + s || (parse_u32(w) is None && e.msg()
                        == "invalid window: "@ + w))
                    &&& r matches Ok((_, n)) ==> parse_u32(w) == Some(n)
                },
                None => r matches Err(e) ==> (e.msg() == "no current session"@ || e.msg() == "no current window"@),
            },
            None => r matches Err(e) ==> (e.msg() == "no current session"@ || e.msg() == "no current window"@),
        },
{
    match get_option(args, "-t") {
        Some(target) => match str_split_once(target, ':') {
            Some((name, window_str)) => {
                let session_id = match server.find_session_id(name.as_str()) {
                    Some(id) => id,
                    None => {
                        return Err(err_with("session not found: ", name.as_str()));
                    },
                };
                match parse_u32_str(window_str.as_str()) {
                    Some(w) => Ok((session_id, w)),
                    None => Err(err_with("invalid window: ", window_str.as_str())),
                }
            },
            None => match server.find_session_id(target) {
                Some(session_id) => {
                    let window_idx = match server.active_window_for(session_id) {
                        Some(w) => w,
                        None => 0,
                    };
                    Ok((session_id, window_idx))
                },
                None => client_target(server),
            },
        },
        None => client_target(server),
    }
}

/// The client's session and window.
fn client_target<S: CommandServer + ?Sized>(server: &S) -> (r: Result<(u32, u32), ServerError>)
    ensures
        r matches Err(e) ==> (e.msg() == "no current session"@ || e.msg() == "no current window"@),
{
    let session_id = match server.client_session_id() {
        Some(id) => id,
        None => {
            return Err(err("no current session"));
        },
    };
    match server.client_active_window() {
        Some(w) => Ok((session_id, w)),
        None => Err(err("no current window")),
    }
}

/// send-keys [-HlRX] [-N count] [-t target-pane] key ...
///
/// Writes each key (its terminal bytes, or with `-l` or for a name that is
/// no key its text) to the pane, `-N` times; `-R` first resets the terminal;
/// `-X` instead runs the keys, joined, as a copy-mode command.
pub fn cmd_send_keys<S: CommandServer + ?Sized>(args: &[String], server: &mut S) -> (r: Result<CommandResult, ServerError>)
    ensures
        r matches Ok(res) ==> res is Done,
        positionals(strings_view(args@), seq!["-t"@, "-N"@]).len() == 0 && flag_set(strings_view(args@), "-X"@)
            && !flag_set(strings_view(args@), "-R"@) ==> (r matches Err(e) && e.msg()
            == "send-keys -X: no command specified"@),
        positionals(strings_view(args@), seq!["-t"@, "-N"@]).len() == 0 ==> r is Err,
{
    let literal = has_flag(args, "-l");
    let copy_mode_cmd = has_flag(args, "-X");
    let with_values: [&str; 2] = ["-t", "-N"];
    assert(strs_view(with_values@) =~= seq!["-t"@, "-N"@]);
    if has_flag(args, "-R") {
        let reset: [u8; 2] = [0x1b, 0x63];
        server.send_bytes_to_pane(&reset)?;
    }
    if copy_mode_cmd {
        let keys = positional_args(args, &with_values);
        if keys.len() == 0 {
            return Err(err("send-keys -X: no command specified"));
        }
        let command = join_strs(&keys, " ");
        server.dispatch_copy_mode_command(command.as_str())?;
        return Ok(CommandResult::Done);
    }
    let (session_id, window_idx) = resolve_send_keys_target(args, server)?;
    let pane_id = match server.active_pane_id_for(session_id, window_idx) {
        Some(p) => p,
        None => match server.client_active_pane_id() {
            Some(p) => p,
            None => {
                return Err(err("no target pane"));
            },
        },
    };
    let keys = positional_args(args, &with_values);
    if keys.len() == 0 {
        return Err(err("send-keys: no keys specified"));
    }
    let repeat = send_repeat_count(args);
    let mut n: u32 = 0;
    while n < repeat
        invariant
            n <= repeat,
            keys@.len() > 0,
            strs_view(keys@) == positionals(strings_view(args@), seq!["-t"@, "-N"@]),
        decreases repeat - n,
    {
        let mut k: usize = 0;
        while k < keys.len()
            invariant
                k <= keys@.len(),
                keys@.len() > 0,
                strs_view(keys@) == positionals(strings_view(args@), seq!["-t"@, "-N"@]),
            decreases keys@.len() - k,
        {
            let key_arg = keys[k];
            let bytes: Vec<u8> = if literal {
                text_bytes(key_arg)
            } else {
                match server.key_name_to_bytes(key_arg) {
                    Some(b) => b,
                    None => text_bytes(key_arg),
                }
            };
            server.write_to_pane(session_id, window_idx, pane_id, bytes.as_slice())?;
            k = k + 1;
        }
        n = n + 1;
    }
    Ok(CommandResult::Done)
}

/// if-shell [-bF] [-t target-pane] shell-command command [command]
///
/// Runs the shell command (with `-F`, expands it as a format: true unless
/// empty or `0`) and then the first command when it succeeded, else the
/// second one, if given.
pub fn cmd_if_shell<S: CommandServer + ?Sized>(args: &[String], server: &mut S) -> (r: Result<CommandResult, ServerError>)
    ensures
        r matches Ok(res) ==> res is Done,
        positionals(strings_view(args@), seq!["-t"@]).len() < 2 ==> (r matches Err(e) && e.msg()
            == "if-shell: requires shell-command and command"@),
{
    let format_flag = has_flag(args, "-F");
    let with_values: [&str; 1] = ["-t"];
    assert(strs_view(with_values@) =~= seq!["-t"@]);
    let positional = positional_args(args, &with_values);
    if positional.len() < 2 {
        return Err(err("if-shell: requires shell-command and command"));
    }
    let shell_cmd = positional[0];
    let success = if format_flag {
        let ctx = server.build_format_context();
        match crate::format::try_format_expand(shell_cmd, &ctx) {
            Some(expanded) => {
                proof {
                    reveal_strlit("0");
                }
                !expanded.as_str().is_empty() && !crate::text::str_eq(expanded.as_str(), "0")
            },
            None => {
                return Err(err("format expansion failed"));
            },
        }
    } else {
        server.shell_succeeds(shell_cmd)
    };
    let cmd_str: &str = if success {
        positional[1]
    } else if positional.len() > 2 {
        positional[2]
    } else {
        return Ok(CommandResult::Done);
    };
    let cmd_args = crate::config::tokenize_command(cmd_str);
    if cmd_args.len() > 0 {
        server.execute_command(cmd_args.as_slice())?;
    }
    Ok(CommandResult::Done)
}

/// send-prefix [-2] [-t target-pane]
///
/// Writes the bytes of the prefix key (`prefix2` with `-2`; C-b when the
/// option cannot be read or names no key) to the active pane.
pub fn cmd_send_prefix<S: CommandServer + ?Sized>(args: &[String], server: &mut S) -> (r: Result<CommandResult, ServerError>)
    ensures
        r matches Ok(res) ==> res is Done,
{
    let option_key: &str = if has_flag(args, "-2") { "prefix2" } else { "prefix" };
    let prefix_str: String = match server.get_server_option(option_key) {
        Ok(v) => v,
        Err(_) => to_owned_string("C-b"),
    };
    let prefix_bytes: Vec<u8> = match server.key_name_to_bytes(prefix_str.as_str()) {
        Some(b) => b,
        None => {
            let mut v: Vec<u8> = Vec::new();
            v.push(0x02);
            v
        },
    };
    server.send_bytes_to_pane(prefix_bytes.as_slice())?;
    Ok(CommandResult::Done)
}

/// What source-file ends with after all its files: nothing when no file
/// reported an error; the error itself when one file could not be loaded
/// and that is the only error; else the errors as output, one per line.
pub open spec fn source_outcome(errors: Seq<Seq<char>>, had_failure: bool) -> Result<Seq<char>, Seq<char>> {
    if errors.len() == 0 {
        Ok(Seq::empty())
    } else if had_failure && errors.len() == 1 {
        Err(errors[0])
    } else {
        Ok(join(errors, "\n"@) + "\n"@)
    }
}

/// The result of source-file for the errors its files reported.
pub fn finish_source(errors: &Vec<String>, had_failure: bool) -> (r: Result<CommandResult, ServerError>)
    ensures
        match source_outcome(strings_view(errors@), had_failure) {
            Ok(o) => if errors@.len() == 0 {
                r matches Ok(CommandResult::Done)
            } else {
                r matches Ok(CommandResult::Output(t)) && t@ == o
            },
            Err(m) => r matches Err(e) && e.msg() == m,
        },
{
    if errors.len() == 0 {
        Ok(CommandResult::Done)
    } else if had_failure && errors.len() == 1 {
        Err(crate::server::command_error(errors[0].clone()))
    } else {
        let mut out = join_strings(errors.as_slice(), "\n");
        push_all(&mut out, "\n");
        Ok(CommandResult::Output(out))
    }
}

/// Whether a path is a glob pattern: it holds `*` or `?`.
pub open spec fn is_glob_pattern(s: Seq<char>) -> bool {
    exists|i: int| 0 <= i < s.len() && (s[i] == '*' || s[i] == '?')
}

/// Whether `s` holds `*` or `?`.
fn has_glob_char(s: &str) -> (r: bool)
    ensures
        r == is_glob_pattern(s@),
{
    let cs = str_chars(s);
    let mut i: usize = 0;
    while i < cs.len()
        invariant
            cs@ == s@,
            i <= cs@.len(),
            forall|j: int| 0 <= j < i ==> !(cs@[j] == '*' || cs@[j] == '?'),
        decreases cs@.len() - i,
    {
        if cs[i] == '*' || cs[i] == '?' {
            return true;
        }
        i = i + 1;
    }
    false
}

/// Loads one configuration file and runs its commands with `current_file`
/// set (as a hidden variable and a server option) to the file's absolute
/// path, restoring both afterwards. Gives whether the file could not be
/// loaded and the errors to report (none when `quiet` and it could not be).
fn source_single_file<S: CommandServer + ?Sized>(path: &str, quiet: bool, server: &mut S) -> (r: (bool, Vec<String>))
    ensures
        r.0 && quiet ==> r.1@.len() == 0,
        r.0 && !quiet ==> r.1@.len() == 1,
{
    let mut ctx = server.build_config_context();
    let abs_path = server.canonical_path(path);
    ctx.set_hidden(to_owned_string("current_file"), abs_path.clone());
    let content = match server.read_file(path) {
        Ok(c) => c,
        Err(e) => {
            let mut errors: Vec<String> = Vec::new();
            if !quiet {
                let mut m = to_owned_string("source-file: ");
                push_all(&mut m, e.as_str());
                errors.push(m);
            }
            return (true, errors);
        },
    };
    if !crate::config::config_lone_quote_free(content.as_str()) {
        let mut errors: Vec<String> = Vec::new();
        if !quiet {
            let mut m = to_owned_string("source-file: ");
            push_all(&mut m, path);
            push_all(&mut m, ": unmatched quote");
            errors.push(m);
        }
        return (true, errors);
    }
    proof {
        assert forall|answers: Seq<Seq<char>>| !#[trigger] crate::config::run_lone_quote(
            crate::config::logical_lines(content@),
            0,
            crate::config::config_start(ctx.hidden()),
            answers,
            ctx.has_expander(),
            ctx.env(),
        ) by {
            crate::config::lemma_no_lone_quote_run(
                crate::config::logical_lines(content@),
                0,
                crate::config::config_start(ctx.hidden()),
                answers,
                ctx.has_expander(),
                ctx.env(),
            );
        }
    }
    let commands = crate::config::parse_config_with_context(content.as_str(), &mut ctx);
    let prev_hidden = server.get_config_hidden_vars();
    server.set_config_hidden_vars(ctx.into_hidden_vars());
    let prev_current_file: Option<String> = match server.get_server_option("current_file") {
        Ok(v) => Some(v),
        Err(_) => None,
    };
    let _ = server.set_server_option("current_file", abs_path.as_str());
    let errors = server.execute_config_commands(commands);
    server.set_config_hidden_vars(prev_hidden);
    match prev_current_file {
        Some(prev) => {
            let _ = server.set_server_option("current_file", prev.as_str());
        },
        None => {
            let _ = server.unset_server_option("current_file");
        },
    }
    (false, errors)
}

/// source-file [-Fq] path ...
///
/// Loads each configuration file and runs its commands. A path holding `*`
/// or `?` is a glob pattern (its matches are loaded in sorted order); `-F`
/// expands each path as a format first; `-q` keeps quiet about files that
/// cannot be loaded and invalid patterns.
pub fn cmd_source_file<S: CommandServer + ?Sized>(args: &[String], server: &mut S) -> (r: Result<CommandResult, ServerError>)
    ensures
        plain_positionals(strings_view(args@)).len() == 0 ==> (r matches Err(e) && e.msg() == "source-file: missing path"@),
        r matches Ok(res) ==> (res is Done || res is Output),
{
    let format_flag = has_flag(args, "F");
    let quiet_flag = has_flag(args, "q");
    let none: [&str; 0] = [];
    assert(strs_view(none@) =~= Seq::<Seq<char>>::empty());
    let positional = positional_args(args, &none);
    if positional.len() == 0 {
        return Err(err("source-file: missing path"));
    }
    let mut all_errors: Vec<String> = Vec::new();
    let mut had_load_failure = false;
    let mut i: usize = 0;
    while i < positional.len()
        invariant
            i <= positional@.len(),
            plain_positionals(strings_view(args@)).len() > 0,
        decreases positional@.len() - i,
    {
        let raw_path = positional[i];
        let expanded: String = if format_flag {
            let fmt_ctx = server.build_format_context();
            match crate::format::try_format_expand(raw_path, &fmt_ctx) {
                Some(p) => server.expand_home(p.as_str()),
                None => {
                    return Err(err("format expansion failed"));
                },
            }
        } else {
            server.expand_home(raw_path)
        };
        let paths: Vec<String> = if has_glob_char(expanded.as_str()) {
            match server.glob_paths(expanded.as_str()) {
                Ok(matched) => crate::text::sort_strings(&matched),
                Err(e) => {
                    if quiet_flag {
                        i = i + 1;
                        continue;
                    }
                    return Err(err_with("source-file: ", e.as_str()));
                },
            }
        } else {
            let mut v: Vec<String> = Vec::new();
            v.push(expanded);
            v
        };
        let mut j: usize = 0;
        while j < paths.len()
            invariant
                j <= paths@.len(),
            decreases paths@.len() - j,
        {
            let (load_failed, errors) = source_single_file(paths[j].as_str(), quiet_flag, server);
            if load_failed {
                had_load_failure = true;
            }
            let mut k: usize = 0;
            while k < errors.len()
                invariant
                    k <= errors@.len(),
                decreases errors@.len() - k,
            {
                all_errors.push(errors[k].clone());
                k = k + 1;
            }
            j = j + 1;
        }
        i = i + 1;
    }
    finish_source(&all_errors, had_load_failure)
}

} // verus!
