//! Display and client-information commands.

use vstd::prelude::*;
use crate::command::{
    flag_set, get_option, has_flag, option_value, positional_args, positionals, seq_contains, strs_view,
    CommandResult, CommandServer, SessionTreeInfo, WindowTreeInfo,
};
use crate::command::builtins::util::{err, err_with, join_lines, lines_text, parse_u32, parse_u32_str};
use crate::server::ServerError;
use crate::text::{
    byte_len, decimal, join, join_strings, push_all, str_chars, strings_view, to_owned_string, u32_to_string, u64_to_string,
    usize_to_string,
};
use crate::overlay::{
    items_view, named_from, ItemView, ListItem, ListKind, ListOverlay, ListView, MenuItem, MenuItemView, MenuOverlay,
    MenuView, OverlayState,
};

verus! {

/// list-commands
///
/// Outputs the server's command list, one per line.
pub fn cmd_list_commands<S: CommandServer + ?Sized>(args: &[String], server: &mut S) -> (r: Result<CommandResult, ServerError>)
    ensures
        r matches Ok(CommandResult::Output(_)),
{
    let commands = server.list_all_commands();
    Ok(CommandResult::Output(join_lines(&commands)))
}

/// Whether `sub` occurs in `s`.
fn str_contains(s: &str, sub: &str) -> (r: bool)
    ensures
        r == seq_contains(s@, sub@),
{
    let a = str_chars(s);
    let b = str_chars(sub);
    crate::command::chars_contains(a.as_slice(), b.as_slice())
}

/// list-keys [-N] [-T table]
///
/// Outputs the key bindings (of table `-T` when given), or "(no bindings)".
pub fn cmd_list_keys<S: CommandServer + ?Sized>(args: &[String], server: &mut S) -> (r: Result<CommandResult, ServerError>)
    ensures
        r matches Ok(CommandResult::Output(_)),
{
    let table_filter = get_option(args, "-T");
    let show_notes = has_flag(args, "-N");
    let bindings = if show_notes { server.list_key_bindings_with_notes() } else { server.list_key_bindings() };
    let mut filtered: Vec<String> = Vec::new();
    match table_filter {
        Some(table) => {
            let mut pattern = to_owned_string("-T ");
            push_all(&mut pattern, table);
            push_all(&mut pattern, " ");
            let mut i: usize = 0;
            while i < bindings.len()
                invariant
                    i <= bindings@.len(),
                decreases bindings@.len() - i,
            {
                if str_contains(bindings[i].as_str(), pattern.as_str()) {
                    filtered.push(bindings[i].clone());
                }
                i = i + 1;
            }
        },
        None => {
            filtered = bindings;
        },
    }
    if filtered.len() == 0 {
        Ok(CommandResult::Output(to_owned_string("(no bindings)\n")))
    } else {
        Ok(CommandResult::Output(join_lines(&filtered)))
    }
}

/// The output of a list that shows nothing when empty.
pub open spec fn text_or_empty(lines: Seq<Seq<char>>) -> Seq<char> {
    if lines.len() == 0 { Seq::empty() } else { lines_text(lines) }
}

/// Lines joined with a final newline, or nothing for no lines.
fn text_or_empty_string(v: &Vec<String>) -> (r: String)
    ensures
        r@ == text_or_empty(strings_view(v@)),
{
    if v.len() == 0 { String::new() } else { join_lines(v) }
}

/// show-messages — display server message log.
pub fn cmd_show_messages<S: CommandServer + ?Sized>(args: &[String], server: &mut S) -> (r: Result<CommandResult, ServerError>)
    ensures
        r matches Ok(CommandResult::Output(_)),
{
    let messages = server.show_messages();
    Ok(CommandResult::Output(text_or_empty_string(&messages)))
}

/// list-clients
pub fn cmd_list_clients<S: CommandServer + ?Sized>(args: &[String], server: &mut S) -> (r: Result<CommandResult, ServerError>)
    ensures
        r matches Ok(CommandResult::Output(_)),
{
    let clients = server.list_clients();
    if clients.len() == 0 {
        Ok(CommandResult::Output(to_owned_string("(no clients)\n")))
    } else {
        Ok(CommandResult::Output(join_lines(&clients)))
    }
}

/// The session a command targets: the `-t` session by name, else the client's.
fn resolve_session<S: CommandServer + ?Sized>(args: &[String], server: &S) -> (r: Result<u32, ServerError>)
    ensures
        option_value(strings_view(args@), "-t"@) matches Some(t) ==>
            (r matches Err(e) ==> e.msg() == "session not found: "@ + t),
        option_value(strings_view(args@), "-t"@) is None ==>
            (r matches Err(e) ==> e.msg() == "no current session"@),
{
    match get_option(args, "-t") {
        Some(target) => match server.find_session_id(target) {
            Some(id) => Ok(id),
            None => Err(err_with("session not found: ", target)),
        },
        None => match server.client_session_id() {
            Some(id) => Ok(id),
            None => Err(err("no current session")),
        },
    }
}

/// display-panes [-d duration] [-t target-client]
///
/// Outputs the panes of the target session's active window, one per line.
pub fn cmd_display_panes<S: CommandServer + ?Sized>(args: &[String], server: &mut S) -> (r: Result<CommandResult, ServerError>)
    ensures
        r matches Ok(res) ==> res is Output,
        option_value(strings_view(args@), "-t"@) is None ==>
            (r matches Err(e) ==> e.msg() == "no current session"@),
{
    let session_id = resolve_session(args, server)?;
    let window_idx = match server.active_window_for(session_id) {
        Some(w) => w,
        None => 0,
    };
    let panes = server.list_panes(session_id, window_idx);
    Ok(CommandResult::Output(join_lines(&panes)))
}

/// The size a popup dimension `value` gives on a screen `base` cells long:
/// `N%` is that share of `base` (80% when `N` is not a number), a plain
/// number is itself, and anything else is 80% of `base`.
pub open spec fn popup_dimension(value: Seq<char>, base: int) -> int {
    if value.len() > 0 && value.last() == '%' {
        let pct = match parse_u32(value.drop_last()) {
            Some(n) => n as int,
            None => 80,
        };
        pct * base / 100
    } else {
        match parse_u32(value) {
            Some(n) => n as int,
            None => base * 80 / 100,
        }
    }
}

/// The products a popup dimension computes fit in `u32`.
pub open spec fn popup_dimension_fits(value: Seq<char>, base: int) -> bool {
    if value.len() > 0 && value.last() == '%' {
        let pct = match parse_u32(value.drop_last()) {
            Some(n) => n as int,
            None => 80,
        };
        pct * base <= u32::MAX
    } else {
        parse_u32(value) is None ==> base * 80 <= u32::MAX
    }
}

/// Parse a popup dimension value — either absolute or percentage (e.g., "80%").
pub fn parse_popup_dimension(value: &str, base: u32) -> (r: u32)
    requires
        popup_dimension_fits(value@, base as int),
    ensures
        r == popup_dimension(value@, base as int),
{
    let cs = str_chars(value);
    if cs.len() > 0 && cs[cs.len() - 1] == '%' {
        let digits = crate::text::chars_range(cs.as_slice(), 0, cs.len() - 1);
        assert(digits@ =~= value@.drop_last());
        let digits_str = crate::text::string_from_chars(digits.as_slice());
        let pct: u32 = match parse_u32_str(digits_str.as_str()) {
            Some(n) => n,
            None => 80,
        };
        assert(pct as int * base as int <= u32::MAX);
        pct * base / 100
    } else {
        match parse_u32_str(value) {
            Some(n) => n,
            None => base * 80 / 100,
        }
    }
}

/// `a - b`, or zero.
fn sat_sub_u32(a: u32, b: u32) -> (r: u32)
    ensures
        r == (if a > b { a - b } else { 0 }),
{
    if a > b { a - b } else { 0 }
}

/// display-popup [-B] [-C] [-E|-EE] [-T title] [-t target-pane]
///               [-w width] [-h height] [-x pos] [-y pos] [command]
///
/// `-C` closes the client's popup. The command succeeds with nothing to
/// show either way.
pub fn cmd_display_popup<S: CommandServer + ?Sized>(args: &[String], server: &mut S) -> (r: Result<CommandResult, ServerError>)
    ensures
        r matches Ok(CommandResult::Done),
{
    if has_flag(args, "-C") {
        server.close_popup();
    }
    Ok(CommandResult::Done)
}

/// clear-prompt-history
pub fn cmd_clear_prompt_history<S: CommandServer + ?Sized>(args: &[String], server: &mut S) -> (r: Result<CommandResult, ServerError>)
    ensures
        r matches Ok(CommandResult::Done),
{
    server.clear_prompt_history();
    Ok(CommandResult::Done)
}

/// show-prompt-history
///
/// Outputs the prompt history, one entry per line (nothing when empty).
pub fn cmd_show_prompt_history<S: CommandServer + ?Sized>(args: &[String], server: &mut S) -> (r: Result<CommandResult, ServerError>)
    ensures
        r matches Ok(CommandResult::Output(_)),
{
    let history = server.show_prompt_history();
    Ok(CommandResult::Output(text_or_empty_string(&history)))
}

/// pipe-pane [-o] [-t target-pane] [command]
///
/// Pipe pane output to a shell command. With no command, stops piping.
pub fn cmd_pipe_pane<S: CommandServer + ?Sized>(args: &[String], server: &mut S) -> (r: Result<CommandResult, ServerError>)
    ensures
        r matches Ok(res) ==> res is Done,
{
    let with_values: [&str; 1] = ["-t"];
    let positional = positional_args(args, &with_values);
    if positional.len() == 0 {
        server.pipe_pane(None)?;
    } else {
        let mut owned: Vec<String> = Vec::new();
        let mut i: usize = 0;
        while i < positional.len()
            invariant
                i <= positional@.len(),
            decreases positional@.len() - i,
        {
            owned.push(to_owned_string(positional[i]));
            i = i + 1;
        }
        let command = join_strings(owned.as_slice(), " ");
        server.pipe_pane(Some(command.as_str()))?;
    }
    Ok(CommandResult::Done)
}

/// Whether resize-window's arguments ask for a step in a direction.
pub open spec fn resize_by_direction(args: Seq<Seq<char>>) -> bool {
    flag_set(args, "-D"@) || flag_set(args, "-U"@) || flag_set(args, "-L"@) || flag_set(args, "-R"@)
}

/// Whether `m` is the error of a session that cannot be resolved: the `-t`
/// target names none, or without `-t` the client has none.
pub open spec fn session_resolution_error(args: Seq<Seq<char>>, m: Seq<char>) -> bool {
    match option_value(args, "-t"@) {
        Some(t) => m == "session not found: "@ + t,
        None => m == "no current session"@,
    }
}

/// resize-window [-A] [-D] [-L] [-R] [-U] [-t target-window] [-x width] [-y height] [adjustment]
///
/// Resize a window. -A adjusts to smallest client. -D/-U/-L/-R adjust by
/// amount (saturating at the bounds of `u32`).
pub fn cmd_resize_window<S: CommandServer + ?Sized>(args: &[String], server: &mut S) -> (r: Result<CommandResult, ServerError>)
    ensures
        r matches Ok(res) ==> res is Done,
        option_value(strings_view(args@), "-x"@) matches Some(v) ==> (!resize_by_direction(strings_view(args@))
            && parse_u32(v) is None ==> (r matches Err(e) && (e.msg() == "invalid width: "@ + v
            || session_resolution_error(strings_view(args@), e.msg())))),
        option_value(strings_view(args@), "-y"@) matches Some(v) ==> (!resize_by_direction(strings_view(args@))
            && option_value(strings_view(args@), "-x"@) is None && parse_u32(v) is None ==> (r matches Err(e) && (e.msg()
            == "invalid height: "@ + v || session_resolution_error(strings_view(args@), e.msg())))),
        !resize_by_direction(strings_view(args@)) && option_value(strings_view(args@), "-x"@) is None
            && option_value(strings_view(args@), "-y"@) is None && !flag_set(strings_view(args@), "-A"@) ==> (r matches Err(e)
            && (e.msg() == "usage: resize-window [-x width] [-y height]"@ || session_resolution_error(
            strings_view(args@),
            e.msg(),
        ))),
{
    let session_id = resolve_session(args, server)?;
    let window_idx = match server.active_window_for(session_id) {
        Some(w) => w,
        None => 0,
    };
    let with_values: [&str; 3] = ["-t", "-x", "-y"];
    let positional = positional_args(args, &with_values);
    let amount: u32 = if positional.len() > 0 {
        match parse_u32_str(positional[0]) {
            Some(n) => n,
            None => 1,
        }
    } else {
        1
    };
    if has_flag(args, "-D") || has_flag(args, "-U") || has_flag(args, "-L") || has_flag(args, "-R") {
        let cur_sx = server.client_sx();
        let cur_sy = sat_sub_u32(server.client_sy(), 1);
        let (new_sx, new_sy): (Option<u32>, Option<u32>) = if has_flag(args, "-D") {
            (None, Some(cur_sy.saturating_add(amount)))
        } else if has_flag(args, "-U") {
            (None, Some(sat_sub_u32(cur_sy, amount)))
        } else if has_flag(args, "-R") {
            (Some(cur_sx.saturating_add(amount)), None)
        } else {
            (Some(sat_sub_u32(cur_sx, amount)), None)
        };
        server.resize_window(session_id, window_idx, new_sx, new_sy)?;
        return Ok(CommandResult::Done);
    }
    let sx: Option<u32> = match get_option(args, "-x") {
        Some(v) => match parse_u32_str(v) {
            Some(n) => Some(n),
            None => {
                return Err(err_with("invalid width: ", v));
            },
        },
        None => None,
    };
    let sy: Option<u32> = match get_option(args, "-y") {
        Some(v) => match parse_u32_str(v) {
            Some(n) => Some(n),
            None => {
                return Err(err_with("invalid height: ", v));
            },
        },
        None => None,
    };
    let adjust = has_flag(args, "-A");
    if sx.is_none() && sy.is_none() && !adjust {
        return Err(err("usage: resize-window [-x width] [-y height]"));
    }
    let (sx, sy) = if adjust {
        (Some(server.client_sx()), Some(sat_sub_u32(server.client_sy(), 1)))
    } else {
        (sx, sy)
    };
    server.resize_window(session_id, window_idx, sx, sy)?;
    Ok(CommandResult::Done)
}

/// server-access [-adlrw] [user]
///
/// Manage server access control. Stub.
pub fn cmd_server_access<S: CommandServer + ?Sized>(args: &[String], server: &mut S) -> (r: Result<CommandResult, ServerError>)
    ensures
        r matches Ok(CommandResult::Done),
{
    Ok(CommandResult::Done)
}

/// lock-server
pub fn cmd_lock_server<S: CommandServer + ?Sized>(args: &[String], server: &mut S) -> (r: Result<CommandResult, ServerError>)
    ensures
        r matches Ok(CommandResult::Done),
{
    Ok(CommandResult::Done)
}

/// lock-session [-t target-session]
pub fn cmd_lock_session<S: CommandServer + ?Sized>(args: &[String], server: &mut S) -> (r: Result<CommandResult, ServerError>)
    ensures
        r matches Ok(CommandResult::Done),
{
    Ok(CommandResult::Done)
}

/// lock-client [-t target-client]
pub fn cmd_lock_client<S: CommandServer + ?Sized>(args: &[String], server: &mut S) -> (r: Result<CommandResult, ServerError>)
    ensures
        r matches Ok(CommandResult::Done),
{
    Ok(CommandResult::Done)
}

/// customize-mode [-t target-pane]
///
/// Succeeds with nothing to show: the command is accepted and does no work.
pub fn cmd_customize_mode<S: CommandServer + ?Sized>(args: &[String], server: &mut S) -> (r: Result<CommandResult, ServerError>)
    ensures
        r matches Ok(CommandResult::Done),
{
    Ok(CommandResult::Done)
}

/// The menu item of a `name key command` triple: an empty name makes a
/// separator; a one-byte key is the item's shortcut.
pub open spec fn menu_item(name: Seq<char>, key: Seq<char>, command: Seq<char>) -> MenuItemView {
    if name.len() == 0 {
        MenuItemView { name: Seq::empty(), key: None, command: Seq::empty() }
    } else {
        MenuItemView {
            name,
            key: if byte_len(key) == 1 { Some(key[0]) } else { None },
            command: seq![command],
        }
    }
}

/// The menu items of the positional arguments from index `i` on, read as
/// `name key command` triples (an incomplete last triple is dropped).
pub open spec fn menu_items_from(p: Seq<Seq<char>>, i: int) -> Seq<MenuItemView>
    decreases p.len() - i,
{
    if 0 <= i && i + 2 < p.len() {
        seq![menu_item(p[i], p[i + 1], p[i + 2])] + menu_items_from(p, i + 3)
    } else {
        Seq::empty()
    }
}

/// The width an item needs: its name, its shortcut (four columns) and two
/// columns of frame.
pub open spec fn item_width(it: MenuItemView) -> int {
    byte_len(it.name) + (if it.key is Some { 4int } else { 0int }) + 2
}

/// The largest width the first `n` items need (0 for none).
pub open spec fn items_width(items: Seq<MenuItemView>, n: int) -> int
    decreases n,
{
    if n <= 0 || n > items.len() {
        0
    } else {
        let w = items_width(items, n - 1);
        if item_width(items[n - 1]) > w { item_width(items[n - 1]) } else { w }
    }
}

/// The menu's width: what its widest item needs, at least its title and frame.
pub open spec fn menu_width(items: Seq<MenuItemView>, title: Seq<char>) -> int {
    let w = items_width(items, items.len() as int);
    if byte_len(title) + 2 > w { byte_len(title) + 2 } else { w }
}

/// The number display-menu reads from option `flag`, else 0.
pub open spec fn menu_coordinate(args: Seq<Seq<char>>, flag: Seq<char>) -> u32 {
    match option_value(args, flag) {
        Some(v) => match parse_u32(v) {
            Some(n) => n,
            None => 0,
        },
        None => 0,
    }
}

/// The menu display-menu shows: the items of its positional arguments, the
/// first item that is no separator selected.
pub open spec fn display_menu_view(args: Seq<Seq<char>>) -> MenuView {
    let items = menu_items_from(positionals(args, seq!["-t"@, "-T"@, "-x"@, "-y"@]), 0);
    let title = match option_value(args, "-T"@) {
        Some(t) => t,
        None => "Menu"@,
    };
    MenuView {
        items,
        selected: match named_from(items, 0) {
            Some(k) => k as usize,
            None => 0,
        },
        title,
        x: menu_coordinate(args, "-x"@),
        y: menu_coordinate(args, "-y"@),
        width: menu_width(items, title) as u32,
    }
}

/// The item of one triple.
fn make_menu_item(name: &str, key: &str, command: &str) -> (r: MenuItem)
    ensures
        r@ == menu_item(name@, key@, command@),
{
    if name.is_empty() {
        let c: Vec<String> = Vec::new();
        assert(strings_view(c@) =~= Seq::<Seq<char>>::empty());
        return MenuItem { name: String::new(), key: None, command: c };
    }
    let kc = str_chars(key);
    let k: Option<char> = if key.len() == 1 {
        assert(kc@.len() > 0);
        Some(kc[0])
    } else {
        None
    };
    let mut c: Vec<String> = Vec::new();
    c.push(to_owned_string(command));
    assert(strings_view(c@) =~= seq![command@]);
    MenuItem { name: to_owned_string(name), key: k, command: c }
}

/// A menu item's width in 128 bits.
fn menu_item_width(it: &MenuItem) -> (r: u128)
    ensures
        r == item_width(it@),
        r <= usize::MAX as u128 + 6,
{
    let n = it.name.as_str().len() as u128;
    let k: u128 = match it.key {
        Some(_) => 4,
        None => 0,
    };
    n + k + 2
}

/// display-menu [-t target-pane] [-T title] [-x pos] [-y pos] name key command ...
///
/// Shows a menu of the `name key command` triples (an empty name is a
/// separator); without any triple nothing is shown.
pub fn cmd_display_menu<S: CommandServer + ?Sized>(args: &[String], server: &mut S) -> (r: Result<CommandResult, ServerError>)
    ensures
        display_menu_view(strings_view(args@)).items.len() == 0 ==> r matches Ok(CommandResult::Done),
        display_menu_view(strings_view(args@)).items.len() > 0 ==> (r matches Ok(
            CommandResult::Overlay(OverlayState::Menu(m)),
        ) && m@ == display_menu_view(strings_view(args@))),
{
    let ghost a = strings_view(args@);
    let title: &str = match get_option(args, "-T") {
        Some(t) => t,
        None => "Menu",
    };
    let x: u32 = match get_option(args, "-x") {
        Some(v) => match parse_u32_str(v) {
            Some(n) => n,
            None => 0,
        },
        None => 0,
    };
    let y: u32 = match get_option(args, "-y") {
        Some(v) => match parse_u32_str(v) {
            Some(n) => n,
            None => 0,
        },
        None => 0,
    };
    let with_values: [&str; 4] = ["-t", "-T", "-x", "-y"];
    assert(strs_view(with_values@) =~= seq!["-t"@, "-T"@, "-x"@, "-y"@]);
    let positional = positional_args(args, &with_values);
    let ghost p = strs_view(positional@);
    let mut items: Vec<MenuItem> = Vec::new();
    let mut i: usize = 0;
    assert(items@.map_values(|m: MenuItem| m@) + menu_items_from(p, 0) =~= menu_items_from(p, 0));
    while i < positional.len() && positional.len() - i > 2
        invariant
            p == strs_view(positional@),
            i <= positional@.len(),
            items@.map_values(|m: MenuItem| m@) + menu_items_from(p, i as int) == menu_items_from(p, 0),
        decreases positional@.len() - i,
    {
        let it = make_menu_item(positional[i], positional[i + 1], positional[i + 2]);
        let ghost before = items@.map_values(|m: MenuItem| m@);
        items.push(it);
        assert(items@.map_values(|m: MenuItem| m@) =~= before.push(menu_item(p[i as int], p[i + 1], p[i + 2])));
        assert(menu_items_from(p, i as int) =~= seq![menu_item(p[i as int], p[i + 1], p[i + 2])] + menu_items_from(
            p,
            i + 3,
        ));
        i = i + 3;
    }
    assert(menu_items_from(p, i as int) =~= Seq::<MenuItemView>::empty());
    let ghost iv = items@.map_values(|m: MenuItem| m@);
    assert(iv =~= menu_items_from(p, 0));
    if items.len() == 0 {
        return Ok(CommandResult::Done);
    }
    let mut selected: usize = 0;
    let mut k: usize = 0;
    while k < items.len() && items[k].name.as_str().is_empty()
        invariant
            iv == items@.map_values(|m: MenuItem| m@),
            k <= items@.len(),
            named_from(iv, 0) == named_from(iv, k as int),
        decreases items@.len() - k,
    {
        assert(iv[k as int] == items@[k as int]@);
        k = k + 1;
    }
    if k < items.len() {
        assert(iv[k as int] == items@[k as int]@);
        selected = k;
    }
    let mut width: u128 = 0;
    let mut j: usize = 0;
    while j < items.len()
        invariant
            iv == items@.map_values(|m: MenuItem| m@),
            j <= items@.len(),
            width == items_width(iv, j as int),
            width <= usize::MAX as u128 + 6,
        decreases items@.len() - j,
    {
        let w = menu_item_width(&items[j]);
        if w > width {
            width = w;
        }
        j = j + 1;
    }
    let t = title.len() as u128 + 2;
    if t > width {
        width = t;
    }
    let ghost tv = match option_value(a, "-T"@) {
        Some(tt) => tt,
        None => "Menu"@,
    };
    assert(title@ == tv);
    assert(width == menu_width(iv, tv));
    assert(selected == match named_from(iv, 0) {
        Some(k) => k as usize,
        None => 0,
    });
    assert(x == menu_coordinate(a, "-x"@));
    Ok(CommandResult::Overlay(OverlayState::Menu(MenuOverlay {
        items,
        selected,
        title: to_owned_string(title),
        x,
        y,
        width: #[verifier::truncate] (width as u32),
    })))
}

/// A window of the session tree as plain values.
pub open spec fn window_info_view(w: WindowTreeInfo) -> (u32, Seq<char>, bool, usize) {
    (w.0, w.1@, w.2, w.3)
}

/// A session of the session tree as plain values.
pub open spec fn session_info_view(s: SessionTreeInfo) -> (Seq<char>, usize, Seq<(u32, Seq<char>, bool, usize)>) {
    (s.0@, s.1, s.2@.map_values(|w: WindowTreeInfo| window_info_view(w)))
}

/// The session tree as plain values.
pub open spec fn tree_view(t: Seq<SessionTreeInfo>) -> Seq<(Seq<char>, usize, Seq<(u32, Seq<char>, bool, usize)>)> {
    t.map_values(|s: SessionTreeInfo| session_info_view(s))
}

/// A list item from its parts.
pub open spec fn list_item(
    display: Seq<char>,
    command: Seq<Seq<char>>,
    indent: u32,
    collapsed: bool,
    hidden_children: usize,
    delete_command: Seq<Seq<char>>,
) -> ItemView {
    ItemView { display, command, indent, collapsed, hidden_children, deletable: true, delete_command }
}

/// The choose-tree item of a session: name, window count and attached
/// clients; choosing it switches to the session, deleting it kills it.
pub open spec fn session_tree_item(name: Seq<char>, attached: usize, windows: nat, sessions_only: bool) -> ItemView {
    list_item(
        name + ": "@ + decimal(windows) + " windows"@ + (if attached > 0 {
            " (attached: "@ + decimal(attached as nat) + ")"@
        } else {
            Seq::empty()
        }),
        seq!["switch-client"@, "-t"@, name],
        0,
        sessions_only,
        windows as usize,
        seq!["kill-session"@, "-t"@, name],
    )
}

/// The choose-tree item of a window of session `session`: index, name, `*`
/// for the active one and the pane count when above one.
pub open spec fn window_tree_item(session: Seq<char>, w: (u32, Seq<char>, bool, usize)) -> ItemView {
    let target = session + ":"@ + decimal(w.0 as nat);
    list_item(
        decimal(w.0 as nat) + ": "@ + w.1 + (if w.2 { "*"@ } else { Seq::empty() }) + (if w.3 > 1 {
            " ("@ + decimal(w.3 as nat) + " panes)"@
        } else {
            Seq::empty()
        }),
        seq!["select-window"@, "-t"@, target],
        1,
        false,
        0,
        seq!["kill-window"@, "-t"@, target],
    )
}

/// The items of one session: its own, then (unless sessions only) its windows'.
pub open spec fn session_tree_items(s: (Seq<char>, usize, Seq<(u32, Seq<char>, bool, usize)>), sessions_only: bool) -> Seq<
    ItemView,
> {
    seq![session_tree_item(s.0, s.1, s.2.len(), sessions_only)] + if sessions_only {
        Seq::empty()
    } else {
        s.2.map_values(|w: (u32, Seq<char>, bool, usize)| window_tree_item(s.0, w))
    }
}

/// The choose-tree items of the sessions.
pub open spec fn tree_items(t: Seq<(Seq<char>, usize, Seq<(u32, Seq<char>, bool, usize)>)>, sessions_only: bool) -> Seq<
    ItemView,
>
    decreases t.len(),
{
    if t.len() == 0 {
        Seq::empty()
    } else {
        tree_items(t.drop_last(), sessions_only) + session_tree_items(t.last(), sessions_only)
    }
}

/// A list overlay of `items` with the first selected.
pub open spec fn fresh_list(items: Seq<ItemView>, title: Seq<char>, kind: ListKind) -> ListView {
    ListView { items, selected: 0, scroll_offset: 0, filter: Seq::empty(), filtering: false, title, kind }
}

/// Three owned strings.
fn three_strings(a: &str, b: &str, c: &str) -> (r: Vec<String>)
    ensures
        strings_view(r@) == seq![a@, b@, c@],
{
    let mut v: Vec<String> = Vec::new();
    v.push(to_owned_string(a));
    v.push(to_owned_string(b));
    v.push(to_owned_string(c));
    assert(strings_view(v@) =~= seq![a@, b@, c@]);
    v
}

/// A deletable list item.
fn deletable_item(display: String, command: Vec<String>, indent: u32, collapsed: bool, hidden_children: usize, delete_command: Vec<String>) -> (r: ListItem)
    ensures
        r@ == list_item(
            display@,
            strings_view(command@),
            indent,
            collapsed,
            hidden_children,
            strings_view(delete_command@),
        ),
{
    ListItem { display, command, indent, collapsed, hidden_children, deletable: true, delete_command }
}

/// Appends an item to a list, keeping the view in step.
fn push_item(items: &mut Vec<ListItem>, it: ListItem)
    ensures
        items_view(final(items)@) == items_view(old(items)@).push(it@),
{
    let ghost before = items@;
    items.push(it);
    assert(items_view(items@) =~= items_view(before).push(it@));
}

/// The choose-tree item of a window.
fn window_item(session: &str, w: &WindowTreeInfo) -> (r: ListItem)
    ensures
        r@ == window_tree_item(session@, window_info_view(*w)),
{
    let idx = u32_to_string(w.0);
    let mut display = idx.clone();
    push_all(&mut display, ": ");
    push_all(&mut display, w.1.as_str());
    if w.2 {
        push_all(&mut display, "*");
    }
    if w.3 > 1 {
        push_all(&mut display, " (");
        let n = usize_to_string(w.3);
        push_all(&mut display, n.as_str());
        push_all(&mut display, " panes)");
    }
    let mut target = to_owned_string(session);
    push_all(&mut target, ":");
    push_all(&mut target, idx.as_str());
    let command = three_strings("select-window", "-t", target.as_str());
    let delete = three_strings("kill-window", "-t", target.as_str());
    let ghost wv = window_info_view(*w);
    assert(display@ =~= decimal(wv.0 as nat) + ": "@ + wv.1 + (if wv.2 { "*"@ } else { Seq::empty() }) + (if wv.3 > 1 {
        " ("@ + decimal(wv.3 as nat) + " panes)"@
    } else {
        Seq::empty()
    }));
    assert(target@ =~= session@ + ":"@ + decimal(wv.0 as nat));
    deletable_item(display, command, 1, false, 0, delete)
}

/// Appends the items of one session of the tree.
fn push_session_items(items: &mut Vec<ListItem>, s: &SessionTreeInfo, sessions_only: bool)
    ensures
        items_view(final(items)@) == items_view(old(items)@) + session_tree_items(session_info_view(*s), sessions_only),
{
    let ghost sv = session_info_view(*s);
    let ghost base = items_view(items@);
    let name = s.0.as_str();
    let mut display = to_owned_string(name);
    push_all(&mut display, ": ");
    let wc = usize_to_string(s.2.len());
    push_all(&mut display, wc.as_str());
    push_all(&mut display, " windows");
    if s.1 > 0 {
        push_all(&mut display, " (attached: ");
        let a = usize_to_string(s.1);
        push_all(&mut display, a.as_str());
        push_all(&mut display, ")");
    }
    assert(sv.2.len() == s.2@.len());
    assert(display@ =~= sv.0 + ": "@ + decimal(sv.2.len()) + " windows"@ + (if sv.1 > 0 {
        " (attached: "@ + decimal(sv.1 as nat) + ")"@
    } else {
        Seq::empty()
    }));
    let command = three_strings("switch-client", "-t", name);
    let delete = three_strings("kill-session", "-t", name);
    let it = deletable_item(display, command, 0, sessions_only, s.2.len(), delete);
    push_item(items, it);
    if !sessions_only {
        let mut j: usize = 0;
        while j < s.2.len()
            invariant
                sv == session_info_view(*s),
                name@ == sv.0,
                j <= s.2@.len(),
                items_view(items@) == base + seq![session_tree_item(sv.0, sv.1, sv.2.len(), sessions_only)]
                    + sv.2.subrange(0, j as int).map_values(|w: (u32, Seq<char>, bool, usize)| window_tree_item(sv.0, w)),
            decreases s.2@.len() - j,
        {
            let wi = window_item(name, &s.2[j]);
            assert(sv.2[j as int] == window_info_view(s.2@[j as int]));
            let ghost prev = items_view(items@);
            push_item(items, wi);
            let ghost head = base + seq![session_tree_item(sv.0, sv.1, sv.2.len(), sessions_only)];
            let ghost done = sv.2.subrange(0, j as int).map_values(|w: (u32, Seq<char>, bool, usize)| window_tree_item(sv.0, w));
            assert(items_view(items@) =~= head + done.push(window_tree_item(sv.0, sv.2[j as int])));
            assert(sv.2.subrange(0, j + 1).map_values(|w: (u32, Seq<char>, bool, usize)| window_tree_item(sv.0, w))
                =~= sv.2.subrange(0, j as int).map_values(|w: (u32, Seq<char>, bool, usize)| window_tree_item(sv.0, w)).push(
                window_tree_item(sv.0, sv.2[j as int]),
            ));
            j = j + 1;
        }
        assert(sv.2.subrange(0, sv.2.len() as int) =~= sv.2);
        assert(items_view(items@) =~= base + session_tree_items(sv, sessions_only));
    } else {
        assert(items_view(items@) =~= base + session_tree_items(sv, sessions_only));
    }
}

/// What choose-tree shows for the session tree: a tree list titled
/// choose-tree, or `(no sessions)` when there is none.
pub fn choose_tree_result(tree: &Vec<SessionTreeInfo>, sessions_only: bool) -> (r: CommandResult)
    ensures
        tree@.len() == 0 ==> (r matches CommandResult::Output(o) && o@ == "(no sessions)\n"@),
        tree@.len() > 0 ==> (r matches CommandResult::Overlay(OverlayState::List(l)) && l@ == fresh_list(
            tree_items(tree_view(tree@), sessions_only),
            "choose-tree"@,
            ListKind::Tree,
        )),
{
    if tree.len() == 0 {
        return CommandResult::Output(to_owned_string("(no sessions)\n"));
    }
    let ghost tv = tree_view(tree@);
    let mut items: Vec<ListItem> = Vec::new();
    assert(items_view(items@) =~= tree_items(tv.subrange(0, 0), sessions_only));
    let mut i: usize = 0;
    while i < tree.len()
        invariant
            tv == tree_view(tree@),
            i <= tree@.len(),
            items_view(items@) == tree_items(tv.subrange(0, i as int), sessions_only),
        decreases tree@.len() - i,
    {
        push_session_items(&mut items, &tree[i], sessions_only);
        assert(tv.subrange(0, i + 1).drop_last() =~= tv.subrange(0, i as int));
        assert(tv.subrange(0, i + 1).last() == session_info_view(tree@[i as int]));
        i = i + 1;
    }
    assert(tv.subrange(0, tv.len() as int) =~= tv);
    CommandResult::Overlay(
        OverlayState::List(
            ListOverlay {
                items,
                selected: 0,
                scroll_offset: 0,
                filter: String::new(),
                filtering: false,
                title: to_owned_string("choose-tree"),
                kind: ListKind::Tree,
            },
        ),
    )
}

/// What choose-tree shows for the session tree `t` (as plain values).
pub open spec fn choose_tree_shows(
    t: Seq<(Seq<char>, usize, Seq<(u32, Seq<char>, bool, usize)>)>,
    sessions_only: bool,
    r: CommandResult,
) -> bool {
    &&& t.len() == 0 ==> (r matches CommandResult::Output(o) && o@ == "(no sessions)\n"@)
    &&& t.len() > 0 ==> (r matches CommandResult::Overlay(OverlayState::List(l)) && l@ == fresh_list(
        tree_items(t, sessions_only),
        "choose-tree"@,
        ListKind::Tree,
    ))
}

/// choose-tree [-sw] [-t target-pane]
///
/// Shows the sessions, each followed by its windows unless `-s` collapses
/// the tree to sessions only. The tree is the one the server reports.
pub fn cmd_choose_tree<S: CommandServer + ?Sized>(args: &[String], server: &mut S) -> (r: Result<CommandResult, ServerError>)
    ensures
        r matches Ok(res) && exists|t: Seq<(Seq<char>, usize, Seq<(u32, Seq<char>, bool, usize)>)>|
            #[trigger] choose_tree_shows(t, flag_set(strings_view(args@), "-s"@), res),
{
    let sessions_only = has_flag(args, "-s");
    let tree = server.session_tree_info();
    let res = choose_tree_result(&tree, sessions_only);
    assert(choose_tree_shows(tree_view(tree@), sessions_only, res));
    Ok(res)
}

/// The choose-buffer item of a buffer: name, size and preview; choosing it
/// pastes the buffer, deleting it deletes the buffer.
pub open spec fn buffer_item(b: (Seq<char>, usize, Seq<char>)) -> ItemView {
    list_item(
        b.0 + ": "@ + decimal(b.1 as nat) + " bytes \""@ + b.2 + "\""@,
        seq!["paste-buffer"@, "-b"@, b.0],
        0,
        false,
        0,
        seq!["delete-buffer"@, "-b"@, b.0],
    )
}

/// A buffer description as plain values.
pub open spec fn buffer_info_view(b: (String, usize, String)) -> (Seq<char>, usize, Seq<char>) {
    (b.0@, b.1, b.2@)
}

/// What choose-buffer shows for the buffers: a buffer list, or `(no buffers)`.
pub fn choose_buffer_result(buffers: &Vec<(String, usize, String)>) -> (r: CommandResult)
    ensures
        buffers@.len() == 0 ==> (r matches CommandResult::Output(o) && o@ == "(no buffers)\n"@),
        buffers@.len() > 0 ==> (r matches CommandResult::Overlay(OverlayState::List(l)) && l@ == fresh_list(
            buffers@.map_values(|b: (String, usize, String)| buffer_item(buffer_info_view(b))),
            "choose-buffer"@,
            ListKind::Buffer,
        )),
{
    if buffers.len() == 0 {
        return CommandResult::Output(to_owned_string("(no buffers)\n"));
    }
    let mut items: Vec<ListItem> = Vec::new();
    let mut i: usize = 0;
    while i < buffers.len()
        invariant
            i <= buffers@.len(),
            items_view(items@) == buffers@.subrange(0, i as int).map_values(
                |b: (String, usize, String)| buffer_item(buffer_info_view(b)),
            ),
        decreases buffers@.len() - i,
    {
        let b = &buffers[i];
        let mut display = b.0.clone();
        push_all(&mut display, ": ");
        let n = usize_to_string(b.1);
        push_all(&mut display, n.as_str());
        push_all(&mut display, " bytes \"");
        push_all(&mut display, b.2.as_str());
        push_all(&mut display, "\"");
        let command = three_strings("paste-buffer", "-b", b.0.as_str());
        let delete = three_strings("delete-buffer", "-b", b.0.as_str());
        let ghost bv = buffer_info_view(*b);
        assert(display@ =~= bv.0 + ": "@ + decimal(bv.1 as nat) + " bytes \""@ + bv.2 + "\""@);
        let it = deletable_item(display, command, 0, false, 0, delete);
        push_item(&mut items, it);
        assert(buffers@.subrange(0, i + 1).map_values(|b: (String, usize, String)| buffer_item(buffer_info_view(b)))
            =~= buffers@.subrange(0, i as int).map_values(|b: (String, usize, String)| buffer_item(buffer_info_view(b))).push(
            buffer_item(bv),
        ));
        i = i + 1;
    }
    assert(buffers@.subrange(0, buffers@.len() as int) =~= buffers@);
    CommandResult::Overlay(
        OverlayState::List(
            ListOverlay {
                items,
                selected: 0,
                scroll_offset: 0,
                filter: String::new(),
                filtering: false,
                title: to_owned_string("choose-buffer"),
                kind: ListKind::Buffer,
            },
        ),
    )
}

/// choose-buffer [-t target-pane]
///
/// Shows the paste buffers to paste or delete.
pub fn cmd_choose_buffer<S: CommandServer + ?Sized>(args: &[String], server: &mut S) -> (r: Result<CommandResult, ServerError>)
    ensures
        r is Ok,
{
    let buffers = server.buffer_info_list();
    Ok(choose_buffer_result(&buffers))
}

/// The choose-client item of a client: id, session and size; choosing it
/// switches to the session, deleting it detaches the client.
pub open spec fn client_item(c: (u64, Seq<char>, Seq<char>)) -> ItemView {
    list_item(
        "client "@ + decimal(c.0 as nat) + ": "@ + c.1 + " ["@ + c.2 + "]"@,
        seq!["switch-client"@, "-t"@, c.1],
        0,
        false,
        0,
        seq!["detach-client"@, "-t"@, decimal(c.0 as nat)],
    )
}

/// A client description as plain values.
pub open spec fn client_info_view(c: (u64, String, String)) -> (u64, Seq<char>, Seq<char>) {
    (c.0, c.1@, c.2@)
}

/// What choose-client shows for the clients: a client list, or `(no clients)`.
pub fn choose_client_result(clients: &Vec<(u64, String, String)>) -> (r: CommandResult)
    ensures
        clients@.len() == 0 ==> (r matches CommandResult::Output(o) && o@ == "(no clients)\n"@),
        clients@.len() > 0 ==> (r matches CommandResult::Overlay(OverlayState::List(l)) && l@ == fresh_list(
            clients@.map_values(|c: (u64, String, String)| client_item(client_info_view(c))),
            "choose-client"@,
            ListKind::Client,
        )),
{
    if clients.len() == 0 {
        return CommandResult::Output(to_owned_string("(no clients)\n"));
    }
    let mut items: Vec<ListItem> = Vec::new();
    let mut i: usize = 0;
    while i < clients.len()
        invariant
            i <= clients@.len(),
            items_view(items@) == clients@.subrange(0, i as int).map_values(
                |c: (u64, String, String)| client_item(client_info_view(c)),
            ),
        decreases clients@.len() - i,
    {
        let c = &clients[i];
        let id = u64_to_string(c.0);
        let mut display = to_owned_string("client ");
        push_all(&mut display, id.as_str());
        push_all(&mut display, ": ");
        push_all(&mut display, c.1.as_str());
        push_all(&mut display, " [");
        push_all(&mut display, c.2.as_str());
        push_all(&mut display, "]");
        let command = three_strings("switch-client", "-t", c.1.as_str());
        let delete = three_strings("detach-client", "-t", id.as_str());
        let ghost cv = client_info_view(*c);
        assert(display@ =~= "client "@ + decimal(cv.0 as nat) + ": "@ + cv.1 + " ["@ + cv.2 + "]"@);
        let it = deletable_item(display, command, 0, false, 0, delete);
        push_item(&mut items, it);
        assert(clients@.subrange(0, i + 1).map_values(|c: (u64, String, String)| client_item(client_info_view(c)))
            =~= clients@.subrange(0, i as int).map_values(|c: (u64, String, String)| client_item(client_info_view(c))).push(
            client_item(cv),
        ));
        i = i + 1;
    }
    assert(clients@.subrange(0, clients@.len() as int) =~= clients@);
    CommandResult::Overlay(
        OverlayState::List(
            ListOverlay {
                items,
                selected: 0,
                scroll_offset: 0,
                filter: String::new(),
                filtering: false,
                title: to_owned_string("choose-client"),
                kind: ListKind::Client,
            },
        ),
    )
}

/// choose-client [-t target-pane]
///
/// Shows the clients to switch to or detach.
pub fn cmd_choose_client<S: CommandServer + ?Sized>(args: &[String], server: &mut S) -> (r: Result<CommandResult, ServerError>)
    ensures
        r is Ok,
{
    let clients = server.client_info_list();
    Ok(choose_client_result(&clients))
}

/// The message display-message shows: its positional arguments joined by blanks.
pub open spec fn message_text(args: Seq<Seq<char>>) -> Seq<char> {
    join(positionals(args, seq!["-F"@, "-t"@, "-c"@, "-d"@]), " "@)
}

/// The line display-message `-a` shows for a variable.
pub open spec fn var_line(p: (Seq<char>, Seq<char>)) -> Seq<char> {
    p.0 + " "@ + p.1
}

/// What display-message gives for `args` in the format context `c`: with
/// `-a` every variable, sorted by name; else the expanded message, printed
/// with `-p`, else shown in the status line when there is one (an error
/// where the message has no expansion).
pub open spec fn display_message_shows(
    args: Seq<Seq<char>>,
    c: crate::format::ContextView,
    r: Result<CommandResult, ServerError>,
) -> bool {
    &&& flag_set(args, "-a"@) ==> (r matches Ok(CommandResult::Output(o)) && exists|s: Seq<(Seq<char>, Seq<char>)>|
        crate::format::sorted_by_name(s) && s.to_multiset() == c.vars.to_multiset() && o@ == join(
            s.map_values(|p: (Seq<char>, Seq<char>)| var_line(p)),
            "\n"@,
        ) + "\n"@)
    &&& !flag_set(args, "-a"@) ==> match crate::format::expansion(message_text(args), c) {
        None => r is Err,
        Some(e) => if flag_set(args, "-p"@) {
            r matches Ok(CommandResult::Output(o)) && o@ == e + "\n"@
        } else if message_text(args).len() > 0 {
            r matches Ok(CommandResult::TimedMessage(m)) && m@ == e
        } else {
            r matches Ok(CommandResult::Done)
        },
    }
}

/// What display-message gives in the format context `ctx` (see
/// `display_message_shows`).
pub fn display_message_output(args: &[String], ctx: &crate::format::FormatContext) -> (r: Result<CommandResult, ServerError>)
    ensures
        display_message_shows(strings_view(args@), ctx@, r),
{
    if has_flag(args, "-a") {
        let vars = ctx.list_vars();
        let ghost s = crate::format::ref_pairs_view(vars@);
        let mut lines: Vec<String> = Vec::new();
        let mut i: usize = 0;
        while i < vars.len()
            invariant
                s == crate::format::ref_pairs_view(vars@),
                i <= vars@.len(),
                strings_view(lines@) == s.subrange(0, i as int).map_values(|p: (Seq<char>, Seq<char>)| var_line(p)),
            decreases vars@.len() - i,
        {
            let (k, v) = vars[i];
            let mut line = to_owned_string(k);
            push_all(&mut line, " ");
            push_all(&mut line, v);
            let ghost before = lines@;
            lines.push(line);
            assert(strings_view(lines@) =~= strings_view(before).push(var_line(s[i as int])));
            assert(s.subrange(0, i + 1).map_values(|p: (Seq<char>, Seq<char>)| var_line(p)) =~= s.subrange(
                0,
                i as int,
            ).map_values(|p: (Seq<char>, Seq<char>)| var_line(p)).push(var_line(s[i as int])));
            i = i + 1;
        }
        assert(s.subrange(0, s.len() as int) =~= s);
        let mut out = join_strings(lines.as_slice(), "\n");
        push_all(&mut out, "\n");
        return Ok(CommandResult::Output(out));
    }
    let message: String = match crate::command::builtins::window::shell_command(args, &["-F", "-t", "-c", "-d"]) {
        Some(m) => m,
        None => String::new(),
    };
    proof {
        assert(strs_view(seq!["-F", "-t", "-c", "-d"]) =~= seq!["-F"@, "-t"@, "-c"@, "-d"@]);
    }
    let ghost mt = message_text(strings_view(args@));
    assert(message@ == mt);
    match crate::format::try_format_expand(message.as_str(), ctx) {
        None => Err(err("format expansion failed")),
        Some(expanded) => {
            if has_flag(args, "-p") {
                let mut out = expanded;
                push_all(&mut out, "\n");
                Ok(CommandResult::Output(out))
            } else if !message.as_str().is_empty() {
                Ok(CommandResult::TimedMessage(expanded))
            } else {
                Ok(CommandResult::Done)
            }
        },
    }
}

/// display-message [-alpv] [-c target-client] [-d delay] [-F format] [-t target-pane] [message]
///
/// Expands the message in the client's format context and shows it (see
/// `display_message_shows`); the context is the one the server builds.
pub fn cmd_display_message<S: CommandServer + ?Sized>(args: &[String], server: &mut S) -> (r: Result<
    CommandResult,
    ServerError,
>)
    ensures
        exists|c: crate::format::ContextView| #[trigger] display_message_shows(strings_view(args@), c, r),
        flag_set(strings_view(args@), "-a"@) ==> (r matches Ok(CommandResult::Output(_))),
        !flag_set(strings_view(args@), "-a"@) && !flag_set(strings_view(args@), "-p"@) && message_text(strings_view(args@)).len()
            == 0 ==> (r matches Ok(CommandResult::Done)),
{
    let ctx = server.build_format_context();
    let r = display_message_output(args, &ctx);
    assert(display_message_shows(strings_view(args@), ctx@, r));
    r
}

/// The five rows of the big rendering of a clock character (blank for any
/// other character).
pub open spec fn digit_rows(ch: char) -> Seq<Seq<char>> {
    if ch == '0' {
        seq!["###"@, "# #"@, "# #"@, "# #"@, "###"@]
    } else if ch == '1' {
        seq!["  #"@, "  #"@, "  #"@, "  #"@, "  #"@]
    } else if ch == '2' {
        seq!["###"@, "  #"@, "###"@, "#  "@, "###"@]
    } else if ch == '3' {
        seq!["###"@, "  #"@, "###"@, "  #"@, "###"@]
    } else if ch == '4' {
        seq!["# #"@, "# #"@, "###"@, "  #"@, "  #"@]
    } else if ch == '5' {
        seq!["###"@, "#  "@, "###"@, "  #"@, "###"@]
    } else if ch == '6' {
        seq!["###"@, "#  "@, "###"@, "# #"@, "###"@]
    } else if ch == '7' {
        seq!["###"@, "  #"@, "  #"@, "  #"@, "  #"@]
    } else if ch == '8' {
        seq!["###"@, "# #"@, "###"@, "# #"@, "###"@]
    } else if ch == '9' {
        seq!["###"@, "# #"@, "###"@, "  #"@, "###"@]
    } else if ch == ':' {
        seq!["   "@, " # "@, "   "@, " # "@, "   "@]
    } else {
        seq!["   "@, "   "@, "   "@, "   "@, "   "@]
    }
}

/// One row of the big rendering of a clock character: three columns wide,
/// blank below the fifth row.
pub open spec fn big_digit_row(ch: char, row: int) -> Seq<char> {
    if 0 <= row < 5 { digit_rows(ch)[row] } else { "   "@ }
}

/// Returns one row of a big ASCII digit (5 rows, each 3 chars wide).
pub fn big_digit(ch: char, row: usize) -> (r: &'static str)
    ensures
        r@ == big_digit_row(ch, row as int),
{
    let rows: [&'static str; 5] = if ch == '0' {
        ["###", "# #", "# #", "# #", "###"]
    } else if ch == '1' {
        ["  #", "  #", "  #", "  #", "  #"]
    } else if ch == '2' {
        ["###", "  #", "###", "#  ", "###"]
    } else if ch == '3' {
        ["###", "  #", "###", "  #", "###"]
    } else if ch == '4' {
        ["# #", "# #", "###", "  #", "  #"]
    } else if ch == '5' {
        ["###", "#  ", "###", "  #", "###"]
    } else if ch == '6' {
        ["###", "#  ", "###", "# #", "###"]
    } else if ch == '7' {
        ["###", "  #", "  #", "  #", "  #"]
    } else if ch == '8' {
        ["###", "# #", "###", "# #", "###"]
    } else if ch == '9' {
        ["###", "# #", "###", "  #", "###"]
    } else if ch == ':' {
        ["   ", " # ", "   ", " # ", "   "]
    } else {
        ["   ", "   ", "   ", "   ", "   "]
    };
    assert(rows@.map_values(|t: &str| t@) =~= digit_rows(ch));
    if row < 5 {
        assert(rows@.map_values(|t: &str| t@)[row as int] == rows@[row as int]@);
        rows[row]
    } else {
        "   "
    }
}

/// Hours, minutes and seconds of the day `secs` seconds after the epoch.
pub open spec fn clock_time(secs: u64) -> (u32, u32, u32) {
    let day = (secs % 86400) as u32;
    (day / 3600, (day % 3600) / 60, day % 60)
}

/// The time of day of a count of seconds since the epoch.
pub fn time_of_day(secs: u64) -> (r: (u32, u32, u32))
    ensures
        r == clock_time(secs),
        r.0 < 24 && r.1 < 60 && r.2 < 60,
{
    let day = (secs % 86400) as u32;
    (day / 3600, (day % 3600) / 60, day % 60)
}

/// `n` written with two digits.
pub open spec fn two_digits(n: u32) -> Seq<char> {
    seq![crate::text::digit_char((n / 10) as nat), crate::text::digit_char((n % 10) as nat)]
}

/// The clock face `hh:mm:ss`.
pub open spec fn clock_face(t: (u32, u32, u32)) -> Seq<char> {
    two_digits(t.0) + seq![':'] + two_digits(t.1) + seq![':'] + two_digits(t.2)
}

/// Row `row` of the big rendering of the first `n` characters of `face`,
/// each followed by a blank.
pub open spec fn clock_row(face: Seq<char>, row: int, n: int) -> Seq<char>
    decreases n,
{
    if n <= 0 || n > face.len() {
        Seq::empty()
    } else {
        clock_row(face, row, n - 1) + big_digit_row(face[n - 1], row) + " "@
    }
}

/// The first `k` rows of the big rendering of `face`, each ending with a newline.
pub open spec fn clock_rows(face: Seq<char>, k: int) -> Seq<char>
    decreases k,
{
    if k <= 0 {
        Seq::empty()
    } else {
        clock_rows(face, k - 1) + clock_row(face, k - 1, face.len() as int) + "\n"@
    }
}

/// The clock-mode rendering of a time: five rows of big characters.
pub open spec fn clock_text(t: (u32, u32, u32)) -> Seq<char> {
    clock_rows(clock_face(t), 5)
}

/// Writes `n` (below 100) with two digits.
fn push_two_digits(s: &mut String, n: u32)
    requires
        n < 100,
    ensures
        final(s)@ == old(s)@ + two_digits(n),
{
    crate::text::push_char(s, crate::text::digit_to_char((n / 10) as u64));
    crate::text::push_char(s, crate::text::digit_to_char((n % 10) as u64));
}

/// The big rendering of the time `t`.
pub fn render_clock(t: (u32, u32, u32)) -> (r: String)
    requires
        t.0 < 100 && t.1 < 100 && t.2 < 100,
    ensures
        r@ == clock_text(t),
{
    let mut face = String::new();
    push_two_digits(&mut face, t.0);
    crate::text::push_char(&mut face, ':');
    push_two_digits(&mut face, t.1);
    crate::text::push_char(&mut face, ':');
    push_two_digits(&mut face, t.2);
    assert(face@ =~= clock_face(t));
    let cs = str_chars(face.as_str());
    let mut out = String::new();
    let mut row: usize = 0;
    while row < 5
        invariant
            cs@ == clock_face(t),
            row <= 5,
            out@ == clock_rows(cs@, row as int),
        decreases 5 - row,
    {
        let mut k: usize = 0;
        let ghost start = out@;
        while k < cs.len()
            invariant
                cs@ == clock_face(t),
                row < 5,
                k <= cs@.len(),
                out@ == start + clock_row(cs@, row as int, k as int),
            decreases cs@.len() - k,
        {
            push_all(&mut out, big_digit(cs[k], row));
            push_all(&mut out, " ");
            k = k + 1;
        }
        crate::text::push_char(&mut out, '\n');
        proof {
            reveal_strlit("\n");
        }
        assert(out@ =~= clock_rows(cs@, row + 1));
        row = row + 1;
    }
    out
}

/// The current time of day.
///
/// Reads the clock (the time before the epoch counts as the epoch), so any
/// hour, minute and second may come back.
fn chrono_free_now() -> (r: (u32, u32, u32))
    ensures
        r.0 < 24 && r.1 < 60 && r.2 < 60,
{
    time_of_day(crate::clock::epoch_seconds())
}

/// clock-mode [-t target-pane]
///
/// Shows the current time as big ASCII digits.
pub fn cmd_clock_mode<S: CommandServer + ?Sized>(args: &[String], server: &mut S) -> (r: Result<CommandResult, ServerError>)
    ensures
        r matches Ok(CommandResult::Output(o)) && exists|t: (u32, u32, u32)| t.0 < 24 && t.1 < 60 && t.2 < 60 && o@ == clock_text(t),
{
    let t = chrono_free_now();
    Ok(CommandResult::Output(render_clock(t)))
}

} // verus!
