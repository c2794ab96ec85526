//! Copy mode and paste buffer commands: copy-mode, paste-buffer,
//! list-buffers, show-buffer, set-buffer, delete-buffer, save-buffer,
//! load-buffer.

use vstd::prelude::*;
use crate::command::{
    flag_set, get_option, has_flag, option_value, positional_args, positionals, strs_view, CommandResult, CommandServer,
};
use crate::command::builtins::util::{err, err_with, list_result};
use crate::server::ServerError;
use crate::text::{push_all, strings_view, to_owned_string};

verus! {

/// list-buffers
///
/// Outputs the buffers, one per line; no output when there are none.
pub fn cmd_list_buffers<S: CommandServer + ?Sized>(args: &[String], server: &mut S) -> (r: Result<CommandResult, ServerError>)
    ensures
        r matches Ok(res) && (res is Done || res is Output),
{
    let buffers = server.list_buffers();
    list_result(&buffers)
}

/// show-buffer [-b buffer-name]
///
/// Outputs the contents of the named buffer (default `buffer0000`).
pub fn cmd_show_buffer<S: CommandServer + ?Sized>(args: &[String], server: &mut S) -> (r: Result<CommandResult, ServerError>)
    ensures
        r matches Ok(res) ==> res is Output,
{
    let name: &str = match get_option(args, "-b") {
        Some(n) => n,
        None => "buffer0000",
    };
    let content = server.show_buffer(name)?;
    Ok(CommandResult::Output(content))
}

/// delete-buffer -b buffer-name
///
/// The buffer name is required.
pub fn cmd_delete_buffer<S: CommandServer + ?Sized>(args: &[String], server: &mut S) -> (r: Result<CommandResult, ServerError>)
    ensures
        r matches Ok(res) ==> res is Done,
        option_value(strings_view(args@), "-b"@) is None ==>
            (r matches Err(e) && e.msg() == "usage: delete-buffer -b name"@),
{
    let name = match get_option(args, "-b") {
        Some(n) => n,
        None => {
            return Err(err("usage: delete-buffer -b name"));
        },
    };
    server.delete_buffer(name)?;
    Ok(CommandResult::Done)
}

/// load-buffer [-b buffer-name] path
///
/// The path is required.
pub fn cmd_load_buffer<S: CommandServer + ?Sized>(args: &[String], server: &mut S) -> (r: Result<CommandResult, ServerError>)
    ensures
        r matches Ok(res) ==> res is Done,
        positionals(strings_view(args@), seq!["-b"@]).len() == 0 ==>
            (r matches Err(e) && e.msg() == "usage: load-buffer [-b name] path"@),
{
    let name = get_option(args, "-b");
    let with_values: [&str; 1] = ["-b"];
    let found = positional_args(args, &with_values);
    assert(crate::command::strs_view(with_values@) =~= seq!["-b"@]);
    if found.len() == 0 {
        return Err(err("usage: load-buffer [-b name] path"));
    }
    server.load_buffer(name, found[0])?;
    Ok(CommandResult::Done)
}

/// copy-mode [-eHMqu] [-s src-pane] [-t target-pane]
///
/// Enters copy mode (and with `-u` scrolls up a page); `-q` cancels it instead.
pub fn cmd_copy_mode<S: CommandServer + ?Sized>(args: &[String], server: &mut S) -> (r: Result<CommandResult, ServerError>)
    ensures
        r matches Ok(res) ==> res is Done,
        flag_set(strings_view(args@), "-q"@) ==> r matches Ok(CommandResult::Done),
{
    let cancel = has_flag(args, "-q");
    let scroll_up = has_flag(args, "-u");
    if cancel {
        let _ = server.dispatch_copy_mode_command("cancel");
        return Ok(CommandResult::Done);
    }
    server.enter_copy_mode()?;
    if scroll_up {
        let _ = server.dispatch_copy_mode_command("page-up");
    }
    Ok(CommandResult::Done)
}

/// paste-buffer [-dpr] [-s separator] [-b buffer-name] [-t target-pane]
///
/// Pastes the named (or top) buffer into the active pane and, with `-d`,
/// deletes it afterwards.
pub fn cmd_paste_buffer<S: CommandServer + ?Sized>(args: &[String], server: &mut S) -> (r: Result<CommandResult, ServerError>)
    ensures
        r matches Ok(res) ==> res is Done,
{
    let delete = has_flag(args, "-d");
    let name = get_option(args, "-b");
    server.paste_buffer(name)?;
    if delete {
        let buf_name: &str = match name {
            Some(n) => n,
            None => "buffer0000",
        };
        let _ = server.delete_buffer(buf_name);
    }
    Ok(CommandResult::Done)
}

/// set-buffer [-a] [-b buffer-name] data
///
/// Stores the first positional argument in the buffer (the top one when no
/// name is given), appended to its old content with `-a`.
pub fn cmd_set_buffer<S: CommandServer + ?Sized>(args: &[String], server: &mut S) -> (r: Result<CommandResult, ServerError>)
    ensures
        r matches Ok(res) ==> res is Done,
        positionals(strings_view(args@), seq!["-b"@]).len() == 0 ==> (r matches Err(e) && e.msg()
            == "usage: set-buffer [-b name] data"@),
{
    let append = has_flag(args, "-a");
    let name = get_option(args, "-b");
    let with_values: [&str; 1] = ["-b"];
    assert(strs_view(with_values@) =~= seq!["-b"@]);
    let positional = positional_args(args, &with_values);
    if positional.len() == 0 {
        return Err(err("usage: set-buffer [-b name] data"));
    }
    let data = positional[0];
    let buf_name: &str = match name {
        Some(n) => n,
        None => "",
    };
    if append {
        let source: &str = if buf_name.is_empty() { "buffer0000" } else { buf_name };
        let new_data: String = match server.show_buffer(source) {
            Ok(old) => {
                let mut d = old;
                push_all(&mut d, data);
                d
            },
            Err(_) => to_owned_string(data),
        };
        server.set_buffer(buf_name, new_data.as_str())?;
    } else {
        server.set_buffer(buf_name, data)?;
    }
    Ok(CommandResult::Done)
}

/// save-buffer [-a] [-b buffer-name] path
///
/// Writes the buffer to the file, appending to it with `-a`.
pub fn cmd_save_buffer<S: CommandServer + ?Sized>(args: &[String], server: &mut S) -> (r: Result<CommandResult, ServerError>)
    ensures
        r matches Ok(res) ==> res is Done,
        positionals(strings_view(args@), seq!["-b"@]).len() == 0 ==> (r matches Err(e) && e.msg()
            == "usage: save-buffer [-b name] path"@),
{
    let append = has_flag(args, "-a");
    let name = get_option(args, "-b");
    let with_values: [&str; 1] = ["-b"];
    assert(strs_view(with_values@) =~= seq!["-b"@]);
    let positional = positional_args(args, &with_values);
    if positional.len() == 0 {
        return Err(err("usage: save-buffer [-b name] path"));
    }
    let path = positional[0];
    if append {
        let buf_name: &str = match name {
            Some(n) => n,
            None => "buffer0000",
        };
        let content = server.show_buffer(buf_name)?;
        match server.append_to_file(path, content.as_str()) {
            Ok(()) => {},
            Err(e) => {
                return Err(err_with("save-buffer: ", e.as_str()));
            },
        }
    } else {
        server.save_buffer(name, path)?;
    }
    Ok(CommandResult::Done)
}

} // verus!
