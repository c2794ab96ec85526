//! Command dispatch system.
//!
//! Parses and executes tmux-compatible commands. Commands reach the server
//! only through the `CommandServer` trait.

pub mod builtins;

use vstd::prelude::*;
use crate::server::{command_error, ServerError};
use crate::text::{
    chars_eq, chars_starts_with, push_all, str_chars, string_from_chars, strings_view, to_owned_string,
    is_prefix, join, split_once,
};
use crate::overlay::{ListKind, OverlayState};
use builtins::display::{
    choose_tree_shows, clock_text, display_menu_view, display_message_shows, message_text, resize_by_direction,
    session_resolution_error,
};
use builtins::util::parse_u32;
use builtins::pane::{pane_id_text, select_pane_mode, session_window_failure, PaneSelection};
use builtins::server_cmds::{bind_key_start, plain_positionals, wait_channel};
use builtins::session::{last_non_flag, target_or_zero};
use builtins::util::lines_text;
use builtins::window::{last_plain, window_index_target};

verus! {
/// Result of executing a command.
#[derive(Debug)]
pub enum CommandResult {
    /// Command completed successfully with no output.
    Done,
    /// Command produced output text (for list-sessions, show-options, etc.).
    Output(String),
    /// Client should attach to the given session.
    Attach(u32),
    /// Client should detach.
    Detach,
    /// Server should exit.
    Exit,
    /// Server should run a shell command asynchronously and return output.
    RunShell(String),
    /// Server should run a shell command in the background (no output capture).
    RunShellBackground(String),
    /// Client should be suspended (SIGTSTP).
    Suspend,
    /// Show a timed message in the status bar (display-message without -p).
    TimedMessage(String),
    /// Spawn a popup window with an embedded PTY process.
    SpawnPopup(PopupConfig),
    /// Show an interactive overlay (choose list or menu) on the client.
    Overlay(crate::overlay::OverlayState),
}

/// Configuration for spawning a popup window.
#[derive(Debug)]
pub struct PopupConfig {
    /// X position (column offset).
    pub x: u32,
    /// Y position (row offset).
    pub y: u32,
    /// Content area width.
    pub width: u32,
    /// Content area height.
    pub height: u32,
    /// Title for the popup border.
    pub title: String,
    /// Whether to draw a border.
    pub has_border: bool,
    /// Close the popup when the command exits.
    pub close_on_exit: bool,
    /// Shell command to run (None = default shell).
    pub command: Option<String>,
}

/// A registered command.
#[derive(Debug, Clone, Copy)]
pub struct CommandEntry {
    /// Command name (e.g., "new-session").
    pub name: &'static str,
    /// Minimum number of arguments (excluding the command name).
    pub min_args: usize,
    /// The handler the command runs.
    pub id: CommandId,
    /// Usage string.
    pub usage: &'static str,
}

/// The abstract value of a command entry.
pub struct EntryView {
    pub name: Seq<char>,
    pub min_args: usize,
    pub id: CommandId,
    pub usage: Seq<char>,
}

impl CommandEntry {
    pub open spec fn view(&self) -> EntryView {
        EntryView { name: self.name@, min_args: self.min_args, id: self.id, usage: self.usage@ }
    }
}

/// The abstract values of a sequence of entries.
pub open spec fn entries_view(s: Seq<CommandEntry>) -> Seq<EntryView> {
    s.map_values(|e: CommandEntry| e.view())
}

/// Direction for pane navigation.
#[derive(Debug, Clone, Copy, PartialEq, Eq, Structural)]
pub enum Direction {
    Up,
    Down,
    Left,
    Right,
}

/// Size specification for split-window.
#[derive(Debug, Clone, Copy, PartialEq, Eq, Structural)]
pub enum SplitSize {
    /// Absolute number of lines/columns.
    Lines(u32),
    /// Percentage of the available space.
    Percent(u32),
}

/// A window in the session tree: index, name, whether it is the active one,
/// and its number of panes.
pub type WindowTreeInfo = (u32, String, bool, usize);

/// A session in the session tree: name, number of attached clients, windows.
pub type SessionTreeInfo = (String, usize, Vec<WindowTreeInfo>);

/// The server interface needed by commands.
///
/// Commands interact with the server through this trait rather than having
/// direct access to the server's state; the server implements it.
pub trait CommandServer {
    // --- Client context ---
    /// Set the client that the next commands run for.
    fn set_command_client(&mut self, client_id: u64);
    /// The client that commands run for.
    fn command_client_id(&self) -> u64;
    /// Get the session ID the command client is attached to.
    fn client_session_id(&self) -> Option<u32>;
    /// Get the active window index for the command client's session.
    fn client_active_window(&self) -> Option<u32>;
    /// Get the client's terminal width.
    fn client_sx(&self) -> u32;
    /// Get the client's terminal height.
    fn client_sy(&self) -> u32;
    /// The directory new sessions start in when none is given.
    fn default_cwd(&self) -> String;

    // --- Sessions ---
    fn create_session(&mut self, name: &str, cwd: &str, sx: u32, sy: u32, shell_cmd: Option<&str>) -> Result<u32, ServerError>;
    fn kill_session(&mut self, name: &str) -> Result<(), ServerError>;
    fn has_session(&self, name: &str) -> bool;
    fn list_sessions(&self) -> Vec<String>;
    fn find_session_id(&self, name: &str) -> Option<u32>;
    fn session_name_for_id(&self, id: u32) -> Option<String>;
    fn rename_session(&mut self, name: &str, new_name: &str) -> Result<(), ServerError>;

    // --- Windows and panes ---
    fn rename_window(&mut self, session_id: u32, window_idx: u32, name: &str) -> Result<(), ServerError>;
    /// Get the active window index for a given session.
    fn active_window_for(&self, session_id: u32) -> Option<u32>;
    fn list_panes(&self, session_id: u32, window_idx: u32) -> Vec<String>;
    /// Resize a window to the given dimensions.
    fn resize_window(&mut self, session_id: u32, window_idx: u32, sx: Option<u32>, sy: Option<u32>) -> Result<(), ServerError>;
    /// Get the active pane ID of the command client's window.
    fn client_active_pane_id(&self) -> Option<u32>;
    /// Create a window; gives its index and the id of its first pane.
    fn create_window(&mut self, session_id: u32, name: Option<&str>, cwd: &str, shell_cmd: Option<&str>) -> Result<(u32, u32), ServerError>;
    fn kill_window(&mut self, session_id: u32, window_idx: u32) -> Result<(), ServerError>;
    fn select_window(&mut self, session_id: u32, window_idx: u32) -> Result<(), ServerError>;
    fn next_window(&mut self, session_id: u32) -> Result<(), ServerError>;
    fn previous_window(&mut self, session_id: u32) -> Result<(), ServerError>;
    fn last_window(&mut self, session_id: u32) -> Result<(), ServerError>;
    fn list_windows(&self, session_id: u32) -> Vec<String>;
    /// Link (copy) a window from one session to another; gives the new index.
    fn link_window(&mut self, src_session: u32, src_window_idx: u32, dst_session: u32, dst_window_idx: Option<u32>, kill_existing: bool) -> Result<u32, ServerError>;
    /// Unlink a window from a session.
    fn unlink_window(&mut self, session_id: u32, window_idx: u32) -> Result<(), ServerError>;
    /// Split a window; gives the id of the new pane.
    fn split_window(&mut self, session_id: u32, window_idx: u32, horizontal: bool, cwd: &str, size: Option<SplitSize>, shell_cmd: Option<&str>) -> Result<u32, ServerError>;
    fn kill_pane(&mut self, session_id: u32, window_idx: u32, pane_id: u32) -> Result<(), ServerError>;
    fn select_pane_id(&mut self, session_id: u32, window_idx: u32, pane_id: u32) -> Result<(), ServerError>;
    fn select_pane_direction(&mut self, session_id: u32, window_idx: u32, direction: Direction) -> Result<(), ServerError>;
    /// Get the active pane ID of a window.
    fn active_pane_id_for(&self, session_id: u32, window_idx: u32) -> Option<u32>;
    /// Capture the visible content of a pane as text.
    fn capture_pane(&self, session_id: u32, window_idx: u32, pane_id: u32) -> Result<String, ServerError>;
    /// Resize a pane by direction or absolute size.
    fn resize_pane(&mut self, session_id: u32, window_idx: u32, pane_id: u32, direction: Option<Direction>, amount: u32) -> Result<(), ServerError>;
    /// Toggle zoom on a pane.
    fn toggle_zoom(&mut self, session_id: u32, window_idx: u32, pane_id: u32) -> Result<(), ServerError>;
    /// Unzoom the window if it is zoomed.
    fn unzoom_window(&mut self, session_id: u32, window_idx: u32) -> Result<(), ServerError>;
    fn swap_pane(&mut self, session_id: u32, window_idx: u32, src: u32, dst: u32) -> Result<(), ServerError>;
    fn swap_window(&mut self, session_id: u32, src_idx: u32, dst_idx: u32) -> Result<(), ServerError>;
    fn move_window(&mut self, src_session_id: u32, src_idx: u32, dst_session_id: u32, dst_idx: u32) -> Result<(), ServerError>;
    /// Move a pane to a window of its own; gives that window's index.
    fn break_pane(&mut self, session_id: u32, window_idx: u32, pane_id: u32) -> Result<u32, ServerError>;
    fn join_pane(&mut self, src_session_id: u32, src_window_idx: u32, src_pane_id: u32, dst_session_id: u32, dst_window_idx: u32, horizontal: bool) -> Result<(), ServerError>;
    fn last_pane(&mut self, session_id: u32, window_idx: u32) -> Result<(), ServerError>;
    fn rotate_window(&mut self, session_id: u32, window_idx: u32, reverse: bool) -> Result<(), ServerError>;
    fn select_layout(&mut self, session_id: u32, window_idx: u32, layout_name: &str) -> Result<(), ServerError>;
    fn respawn_pane(&mut self, session_id: u32, window_idx: u32, pane_id: u32, shell_cmd: Option<&str>) -> Result<(), ServerError>;
    /// The name of the layout a window has.
    fn current_layout_name(&self, session_id: u32, window_idx: u32) -> String;
    /// The windows of a session whose name or content matches `pattern`.
    fn find_windows(&self, session_id: u32, pattern: &str) -> Vec<String>;
    /// Store `data` in the named paste buffer.
    fn set_buffer(&mut self, name: &str, data: &str) -> Result<(), ServerError>;
    /// The format variables of the client's current context.
    fn build_format_context(&self) -> crate::format::FormatContext;
    /// Put the client's active pane into copy mode.
    fn enter_copy_mode(&mut self) -> Result<(), ServerError>;
    /// Run a copy-mode command on the active pane; gives whether copy mode should exit.
    fn dispatch_copy_mode_command(&mut self, command: &str) -> Result<bool, ServerError>;
    /// Paste the named (or the top) buffer into the active pane.
    fn paste_buffer(&self, name: Option<&str>) -> Result<(), ServerError>;
    /// Write the named (or the top) buffer to a file.
    fn save_buffer(&self, name: Option<&str>, path: &str) -> Result<(), ServerError>;
    /// Append text to a file, creating it when missing; `Err` carries the reason.
    fn append_to_file(&self, path: &str, data: &str) -> Result<(), String>;
    /// Write raw bytes to the client's active pane.
    fn send_bytes_to_pane(&self, bytes: &[u8]) -> Result<(), ServerError>;
    /// Write raw bytes to a specific pane.
    fn write_to_pane(&self, session_id: u32, window_idx: u32, pane_id: u32, data: &[u8]) -> Result<(), ServerError>;
    /// The bytes a terminal sends for the key named `key_name`, if it is a key name.
    fn key_name_to_bytes(&self, key_name: &str) -> Option<Vec<u8>>;
    /// The value of a server option.
    fn get_server_option(&self, key: &str) -> Result<String, ServerError>;
    /// A context for parsing a configuration file: the hidden variables set
    /// so far, the environment and the format expander for conditions.
    fn build_config_context(&self) -> crate::config::ConfigContext;
    /// The hidden variables configuration files have set.
    fn get_config_hidden_vars(&self) -> crate::config::VarTable;
    /// Replace the hidden variables.
    fn set_config_hidden_vars(&mut self, vars: crate::config::VarTable);
    /// Run parsed configuration commands; gives their error messages.
    fn execute_config_commands(&mut self, commands: Vec<Vec<String>>) -> Vec<String>;
    /// The text of a file; `Err` carries the reason it could not be read.
    fn read_file(&self, path: &str) -> Result<String, String>;
    /// The absolute form of a path, or the path itself when it cannot be resolved.
    fn canonical_path(&self, path: &str) -> String;
    /// The paths matching a glob pattern; `Err` carries why the pattern is invalid.
    fn glob_paths(&self, pattern: &str) -> Result<Vec<String>, String>;
    /// A path with a leading `~` replaced by the home directory.
    fn expand_home(&self, path: &str) -> String;
    /// The sessions with their windows, for choose-tree.
    fn session_tree_info(&self) -> Vec<SessionTreeInfo>;
    /// The paste buffers as name, size in bytes and preview, for choose-buffer.
    fn buffer_info_list(&self) -> Vec<(String, usize, String)>;
    /// The clients as id, session name and size, for choose-client.
    fn client_info_list(&self) -> Vec<(u64, String, String)>;

    // --- Options ---
    /// Set a server-level option.
    fn set_server_option(&mut self, key: &str, value: &str) -> Result<(), ServerError>;
    /// Unset a server-level option (revert to default).
    fn unset_server_option(&mut self, key: &str) -> Result<(), ServerError>;
    /// Append to a server-level string option.
    fn append_server_option(&mut self, key: &str, value: &str) -> Result<(), ServerError>;
    /// Set a session-level option.
    fn set_session_option(&mut self, session_id: u32, key: &str, value: &str) -> Result<(), ServerError>;
    /// Unset a session-level option.
    fn unset_session_option(&mut self, session_id: u32, key: &str) -> Result<(), ServerError>;
    /// Append to a session-level string option.
    fn append_session_option(&mut self, session_id: u32, key: &str, value: &str) -> Result<(), ServerError>;
    /// Set a window-level option.
    fn set_window_option(&mut self, session_id: u32, window_idx: u32, key: &str, value: &str) -> Result<(), ServerError>;
    /// Unset a window-level option.
    fn unset_window_option(&mut self, session_id: u32, window_idx: u32, key: &str) -> Result<(), ServerError>;
    /// Append to a window-level string option.
    fn append_window_option(&mut self, session_id: u32, window_idx: u32, key: &str, value: &str) -> Result<(), ServerError>;
    /// Check if a server-level option exists.
    fn has_server_option(&self, key: &str) -> bool;
    /// Check if a session-level option exists (local, not inherited).
    fn has_session_option(&self, session_id: u32, key: &str) -> bool;
    /// Check if a window-level option exists (local, not inherited).
    fn has_window_option(&self, session_id: u32, window_idx: u32, key: &str) -> bool;
    /// Show all options for a given scope. Returns "key value" lines.
    fn show_options(&self, scope: &str, target_id: Option<u32>) -> Vec<String>;

    // --- Key bindings ---
    /// Add a key binding.
    fn add_key_binding(&mut self, table: &str, key_name: &str, argv: Vec<String>, repeatable: bool, note: Option<String>) -> Result<(), ServerError>;
    /// Remove a key binding.
    fn remove_key_binding(&mut self, table: &str, key_name: &str) -> Result<(), ServerError>;
    /// Remove all key bindings from a table.
    fn clear_key_table(&mut self, table: &str);

    // --- Prompt ---
    /// Put the current client into command prompt mode.
    fn enter_command_prompt_with(&mut self, initial_text: Option<&str>, prompt_str: Option<&str>, template: Option<&str>);
    /// Enter the command prompt with no initial text, prompt or template.
    fn enter_command_prompt(&mut self) {
        self.enter_command_prompt_with(None, None, None);
    }
    /// The key table (`vi` or `emacs`) the active pane's modes use.
    fn pane_mode_keys(&self) -> String;

    // --- Paste buffers ---
    /// List all paste buffers as human-readable strings.
    fn list_buffers(&self) -> Vec<String>;
    /// Get a buffer's contents by name.
    fn show_buffer(&self, name: &str) -> Result<String, ServerError>;
    /// Delete a buffer by name.
    fn delete_buffer(&mut self, name: &str) -> Result<(), ServerError>;
    /// Load a file into the paste buffer store.
    fn load_buffer(&mut self, name: Option<&str>, path: &str) -> Result<(), ServerError>;
    /// Add `data` as a new automatically named paste buffer.
    fn paste_buffer_add(&mut self, data: Vec<u8>);

    // --- Info ---
    fn list_clients(&self) -> Vec<String>;
    fn list_all_commands(&self) -> Vec<String>;
    fn list_key_bindings(&self) -> Vec<String>;
    /// List all key bindings, including -N notes.
    fn list_key_bindings_with_notes(&self) -> Vec<String>;
    /// Return recent server messages for show-messages.
    fn show_messages(&self) -> Vec<String>;

    // --- Misc ---
    /// Execute a parsed command (for if-shell, etc.).
    fn execute_command(&mut self, argv: &[String]) -> Result<CommandResult, ServerError>;
    /// Run `cmd` with the shell and tell whether it exited successfully.
    fn shell_succeeds(&mut self, cmd: &str) -> bool;
    /// Clear scrollback history for the active pane.
    fn clear_history(&mut self) -> Result<(), ServerError>;
    /// Signal a wait-for channel, waking any waiters.
    fn wait_channel_signal(&mut self, channel: &str);
    /// Lock a wait-for channel.
    fn wait_channel_lock(&mut self, channel: &str) -> Result<(), ServerError>;
    /// Unlock a wait-for channel.
    fn wait_channel_unlock(&mut self, channel: &str) -> Result<(), ServerError>;

    // --- Client switching ---
    /// Switch the current client to a different session.
    fn switch_client(&mut self, session_id: u32) -> Result<(), ServerError>;
    /// Get the last session ID for the current client (for switch-client -l).
    fn client_last_session_id(&self) -> Option<u32>;
    /// Detach all other clients attached to the same session.
    fn detach_other_clients(&mut self) -> Result<(), ServerError>;

    // --- Environment ---
    /// Set an environment variable. `None` session_id means global (server-level).
    fn set_environment(&mut self, session_id: Option<u32>, key: &str, value: &str) -> Result<(), ServerError>;
    /// Unset (remove) an environment variable. `None` session_id means global.
    fn unset_environment(&mut self, session_id: Option<u32>, key: &str) -> Result<(), ServerError>;
    /// Show environment variables. `None` session_id means global. Returns "KEY=VALUE" lines.
    fn show_environment(&self, session_id: Option<u32>) -> Vec<String>;

    // --- Client redraw ---
    /// Force a full redraw for the current client.
    fn refresh_client(&mut self);
    /// Mark every client attached to the session for a full redraw.
    fn mark_clients_redraw(&mut self, session_id: u32);

    // --- Hooks ---
    /// Add a command to a named hook.
    fn register_hook(&mut self, hook_name: &str, argv: Vec<String>);
    /// Remove a named hook.
    fn remove_hook(&mut self, hook_name: &str) -> bool;
    /// List all registered hooks as formatted strings.
    fn show_hooks(&self) -> Vec<String>;

    // --- Pipe ---
    /// Start or stop piping a pane's output to a shell command.
    fn pipe_pane(&mut self, command: Option<&str>) -> Result<(), ServerError>;

    // --- Popup ---
    /// Close any active popup overlay on the current client.
    fn close_popup(&mut self);

    // --- Prompt history ---
    /// Get the prompt history entries.
    fn show_prompt_history(&self) -> Vec<String>;
    /// Clear the prompt history.
    fn clear_prompt_history(&mut self);
    /// Add an entry to the prompt history.
    fn add_prompt_history(&mut self, entry: String);

    // --- Sessions, for the session list ---
    /// Each session's name, window count and attached client count.
    fn session_info_list(&self) -> Vec<(String, usize, usize)>;
}

// ---------------------------------------------------------------------------
// Argument helpers
// ---------------------------------------------------------------------------

/// The value after the first occurrence of `flag` at or after position `i`
/// that has a successor.
pub open spec fn option_value_from(args: Seq<Seq<char>>, flag: Seq<char>, i: int) -> Option<Seq<char>>
    decreases args.len() - i,
{
    if i < 0 || i + 1 >= args.len() {
        None
    } else if args[i] == flag {
        Some(args[i + 1])
    } else {
        option_value_from(args, flag, i + 1)
    }
}

/// The value given to option `flag`: the argument after its first occurrence.
pub open spec fn option_value(args: Seq<Seq<char>>, flag: Seq<char>) -> Option<Seq<char>> {
    option_value_from(args, flag, 0)
}

/// Parse a simple `-flag value` option from arguments.
pub fn get_option<'a>(args: &'a [String], flag: &str) -> (r: Option<&'a str>)
    ensures
        match option_value(strings_view(args@), flag@) {
            Some(v) => r matches Some(s) && s@ == v,
            None => r is None,
        },
{
    let ghost a = strings_view(args@);
    let mut i: usize = 0;
    while i < args.len()
        invariant
            a == strings_view(args@),
            i <= args@.len(),
            option_value(a, flag@) == option_value_from(a, flag@, i as int),
        decreases args@.len() - i,
    {
        if i + 1 >= args.len() {
            return None;
        }
        if crate::text::str_eq(args[i].as_str(), flag) {
            return Some(args[i + 1].as_str());
        }
        i = i + 1;
    }
    None
}

/// Whether `sub` occurs in `s` as a contiguous part.
pub open spec fn seq_contains(s: Seq<char>, sub: Seq<char>) -> bool {
    exists|i: int| 0 <= i && i + sub.len() <= s.len() && #[trigger] s.subrange(i, i + sub.len()) == sub
}

/// Whether `c` is an ASCII letter.
pub open spec fn is_ascii_alpha(c: char) -> bool {
    ('a' <= c && c <= 'z') || ('A' <= c && c <= 'Z')
}

/// The letter(s) of a flag: `flag` without its leading `-`.
pub open spec fn flag_letters(flag: Seq<char>) -> Seq<char> {
    if flag.len() > 0 && flag[0] == '-' { flag.drop_first() } else { flag }
}

/// Whether argument `a` sets `flag`: it is the flag itself, or a group of
/// letters after one `-` (like `-gF`) that holds the flag's letters.
pub open spec fn arg_sets_flag(a: Seq<char>, flag: Seq<char>) -> bool {
    a == flag || (a.len() > 1 && a[0] == '-'
        && (forall|j: int| 1 <= j < a.len() ==> is_ascii_alpha(#[trigger] a[j]))
        && seq_contains(a.drop_first(), flag_letters(flag)))
}

/// Whether some argument sets `flag`.
pub open spec fn flag_set(args: Seq<Seq<char>>, flag: Seq<char>) -> bool {
    exists|i: int| 0 <= i < args.len() && arg_sets_flag(#[trigger] args[i], flag)
}

/// Whether `sub` occurs in `s`.
pub fn chars_contains(s: &[char], sub: &[char]) -> (r: bool)
    ensures
        r == seq_contains(s@, sub@),
{
    if sub.len() > s.len() {
        return false;
    }
    if sub.len() == 0 {
        assert(s@.subrange(0, 0 + sub@.len() as int) =~= sub@);
        return true;
    }
    let m = sub.len();
    let n = s.len();
    let last = n - m;
    let mut i: usize = 0;
    while i <= last
        invariant
            m == sub@.len(),
            n == s@.len(),
            1 <= sub@.len() <= s@.len(),
            last == s@.len() - sub@.len(),
            i <= last + 1,
            forall|k: int| 0 <= k < i ==> #[trigger] s@.subrange(k, k + sub@.len()) != sub@,
        decreases last + 1 - i,
    {
        assert(i + sub@.len() <= s@.len());
        let part = crate::text::chars_range(s, i, i + m);
        if chars_eq(part.as_slice(), sub) {
            return true;
        }
        i = i + 1;
    }
    proof {
        if seq_contains(s@, sub@) {
            let k = choose|k: int| 0 <= k && k + sub@.len() <= s@.len() && #[trigger] s@.subrange(k, k + sub@.len()) == sub@;
            assert(k < i);
        }
    }
    false
}

/// Whether argument `a` sets `flag`.
fn arg_has_flag(a: &[char], flag: &[char], letters: &[char]) -> (r: bool)
    requires
        letters@ == flag_letters(flag@),
    ensures
        r == arg_sets_flag(a@, flag@),
{
    if chars_eq(a, flag) {
        return true;
    }
    if a.len() > 1 && a[0] == '-' {
        let mut j: usize = 1;
        while j < a.len()
            invariant
                1 <= j <= a@.len(),
                a@ != flag@,
                a@.len() > 1 && a@[0] == '-',
                forall|k: int| 1 <= k < j ==> is_ascii_alpha(#[trigger] a@[k]),
            decreases a@.len() - j,
        {
            let c = a[j];
            if !(('a' <= c && c <= 'z') || ('A' <= c && c <= 'Z')) {
                assert(!is_ascii_alpha(a@[j as int]));
                return false;
            }
            j = j + 1;
        }
        let rest = crate::text::chars_skip(a, 1);
        assert(rest@ =~= a@.drop_first());
        return chars_contains(rest.as_slice(), letters);
    }
    false
}

/// Check if a flag is present in arguments.
/// Supports both exact flags (`-g`) and combined single-char flags (`-gF` contains `-g`).
pub fn has_flag(args: &[String], flag: &str) -> (r: bool)
    ensures
        r == flag_set(strings_view(args@), flag@),
{
    let ghost a = strings_view(args@);
    let fc = str_chars(flag);
    let letters = if fc.len() > 0 && fc[0] == '-' { crate::text::chars_skip(fc.as_slice(), 1) } else { str_chars(flag) };
    assert(letters@ =~= flag_letters(flag@));
    let mut i: usize = 0;
    while i < args.len()
        invariant
            a == strings_view(args@),
            fc@ == flag@,
            letters@ == flag_letters(flag@),
            i <= args@.len(),
            forall|k: int| 0 <= k < i ==> !arg_sets_flag(#[trigger] a[k], flag@),
        decreases args@.len() - i,
    {
        let ac = str_chars(args[i].as_str());
        if arg_has_flag(ac.as_slice(), fc.as_slice(), letters.as_slice()) {
            assert(arg_sets_flag(a[i as int], flag@));
            return true;
        }
        i = i + 1;
    }
    false
}

/// The views of a sequence of string slices.
pub open spec fn strs_view(s: Seq<&str>) -> Seq<Seq<char>> {
    s.map_values(|x: &str| x@)
}

/// The positional arguments from position `i` on: arguments not starting with
/// `-`; an argument starting with `-` that is in `with_values` also hides the
/// argument after it.
pub open spec fn positionals_from(args: Seq<Seq<char>>, with_values: Seq<Seq<char>>, i: int) -> Seq<Seq<char>>
    decreases args.len() + 1 - i,
{
    if i < 0 || i >= args.len() {
        Seq::empty()
    } else if args[i].len() > 0 && args[i][0] == '-' {
        if with_values.contains(args[i]) {
            positionals_from(args, with_values, i + 2)
        } else {
            positionals_from(args, with_values, i + 1)
        }
    } else {
        seq![args[i]] + positionals_from(args, with_values, i + 1)
    }
}

/// The positional arguments of `args`.
pub open spec fn positionals(args: Seq<Seq<char>>, with_values: Seq<Seq<char>>) -> Seq<Seq<char>> {
    positionals_from(args, with_values, 0)
}

/// Whether `a` is one of `list`.
fn is_listed(list: &[&str], a: &str) -> (r: bool)
    ensures
        r == strs_view(list@).contains(a@),
{
    let mut j: usize = 0;
    while j < list.len()
        invariant
            j <= list@.len(),
            forall|k: int| 0 <= k < j ==> strs_view(list@)[k] != a@,
        decreases list@.len() - j,
    {
        if crate::text::str_eq(list[j], a) {
            assert(strs_view(list@)[j as int] == a@);
            return true;
        }
        j = j + 1;
    }
    false
}

/// Collect positional arguments (those that aren't flags or flag values).
/// Flags are arguments starting with '-'. Flag values follow flags specified in `flags_with_values`.
pub fn positional_args<'a>(args: &'a [String], flags_with_values: &[&str]) -> (r: Vec<&'a str>)
    ensures
        strs_view(r@) == positionals(strings_view(args@), strs_view(flags_with_values@)),
{
    let ghost a = strings_view(args@);
    let ghost fw = strs_view(flags_with_values@);
    let mut result: Vec<&'a str> = Vec::new();
    let mut i: usize = 0;
    while i < args.len()
        invariant
            a == strings_view(args@),
            fw == strs_view(flags_with_values@),
            i <= args@.len(),
            positionals(a, fw) == strs_view(result@) + positionals_from(a, fw, i as int),
        decreases args@.len() + 1 - i,
    {
        let s = args[i].as_str();
        let cs = str_chars(s);
        assert(a[i as int] == s@);
        if cs.len() > 0 && cs[0] == '-' {
            let ghost i0 = i as int;
            if is_listed(flags_with_values, s) {
                assert(positionals_from(a, fw, i0) == positionals_from(a, fw, i0 + 2));
                if i + 1 < args.len() {
                    i = i + 2;
                } else {
                    assert(positionals_from(a, fw, i0 + 2) =~= Seq::<Seq<char>>::empty());
                    i = args.len();
                    assert(positionals_from(a, fw, i as int) =~= Seq::<Seq<char>>::empty());
                }
            } else {
                assert(positionals_from(a, fw, i0) == positionals_from(a, fw, i0 + 1));
                i = i + 1;
            }
            continue;
        }
        result.push(s);
        proof {
            assert(strs_view(result@) =~= strs_view(result@).drop_last().push(a[i as int]));
            assert(strs_view(result@).drop_last() =~= strs_view(result@.drop_last()));
        }
        i = i + 1;
    }
    assert(strs_view(result@) + positionals_from(a, fw, i as int) =~= strs_view(result@));
    result
}

// ---------------------------------------------------------------------------
// Dispatch
// ---------------------------------------------------------------------------

/// The entries whose names start with `name`, in table order.
pub open spec fn prefix_matches(table: Seq<EntryView>, name: Seq<char>) -> Seq<EntryView>
    decreases table.len(),
{
    if table.len() == 0 {
        Seq::empty()
    } else if is_prefix(name, table.last().name) {
        prefix_matches(table.drop_last(), name).push(table.last())
    } else {
        prefix_matches(table.drop_last(), name)
    }
}

/// The entry used for `name`: the first entry with exactly that name, else the
/// only entry whose name starts with it.
pub open spec fn find_entry(table: Seq<EntryView>, name: Seq<char>) -> Option<EntryView> {
    if exists|i: int| 0 <= i < table.len() && #[trigger] table[i].name == name {
        let i = choose|i: int| 0 <= i < table.len() && #[trigger] table[i].name == name
            && forall|j: int| 0 <= j < i ==> #[trigger] table[j].name != name;
        Some(table[i])
    } else {
        let matches = prefix_matches(table, name);
        if matches.len() == 1 { Some(matches[0]) } else { None }
    }
}

/// Look up a command by name or unambiguous prefix (matching tmux behavior).
pub fn find_command(name: &str) -> (r: Option<CommandEntry>)
    ensures
        match find_entry(command_table(), name@) {
            Some(e) => r matches Some(c) && c.view() == e,
            None => r is None,
        },
{
    let table = commands();
    let ghost t = command_table();
    let nc = str_chars(name);
    let mut i: usize = 0;
    while i < table.len()
        invariant
            t == command_table(),
            entries_view(table@) == t,
            nc@ == name@,
            i <= table@.len(),
            forall|j: int| 0 <= j < i ==> #[trigger] t[j].name != name@,
        decreases table@.len() - i,
    {
        if crate::text::str_eq(table[i].name, name) {
            proof {
                assert(t[i as int].name == name@);
                assert(0 <= i < t.len() && t[i as int].name == name@ && forall|j: int| 0 <= j < i ==> #[trigger] t[j].name != name@);
                let c = choose|c: int| 0 <= c < t.len() && #[trigger] t[c].name == name@
                    && forall|j: int| 0 <= j < c ==> #[trigger] t[j].name != name@;
                if c < i { assert(t[c].name != name@); }
                if c > i { assert(t[i as int].name != name@); }
                assert(c == i);
                assert(find_entry(t, name@) == Some(t[i as int]));
                assert(entries_view(table@)[i as int] == table@[i as int].view());
            }
            let found = table[i];
            assert(found.view() == t[i as int]);
            assert(t == command_table());
            assert(find_entry(command_table(), name@) == Some(found.view()));
            return Some(found);
        }
        i = i + 1;
    }
    let mut found: Option<CommandEntry> = None;
    let mut count: usize = 0;
    let mut k: usize = 0;
    while k < table.len()
        invariant
            t == command_table(),
            forall|j: int| 0 <= j < t.len() ==> #[trigger] t[j].name != name@,
            entries_view(table@) == t,
            nc@ == name@,
            k <= table@.len(),
            count == prefix_matches(t.take(k as int), name@).len(),
            count <= k,
            count >= 1 ==> (found matches Some(c) && c.view() == prefix_matches(t.take(k as int), name@)[0]),
        decreases table@.len() - k,
    {
        let ec = str_chars(table[k].name);
        let hit = chars_starts_with(ec.as_slice(), nc.as_slice());
        proof {
            assert(t.take(k + 1).drop_last() =~= t.take(k as int));
            assert(ec@ == t[k as int].name);
        }
        if hit {
            if count == 0 {
                found = Some(table[k]);
            }
            count = count + 1;
        }
        k = k + 1;
    }
    assert(t.take(k as int) =~= t);
    if count == 1 {
        found
    } else {
        None
    }
}

/// What executing a single command `argv` (non-empty) yields before its
/// handler runs: `Some` error when the name is unknown or arguments are
/// missing, `None` when the handler runs.
pub open spec fn command_precheck(argv: Seq<Seq<char>>) -> Option<Seq<char>> {
    match find_entry(command_table(), argv[0]) {
        None => Some("unknown command: "@ + argv[0]),
        Some(e) => if argv.len() - 1 < e.min_args {
            Some("usage: "@ + e.name + " "@ + e.usage)
        } else {
            None
        },
    }
}

/// What executing the single command `argv` may give: an error for an
/// empty command, an unknown name or missing arguments, else what its
/// handler gives for the remaining arguments.
pub open spec fn command_outcome(argv: Seq<Seq<char>>, r: Result<CommandResult, ServerError>) -> bool {
    if argv.len() == 0 {
        r matches Err(e) && e.msg() == "no command specified"@
    } else {
        match command_precheck(argv) {
            Some(m) => r matches Err(e) && e.msg() == m,
            None => match find_entry(command_table(), argv[0]) {
                Some(entry) => handler_outcome(entry.id, argv.drop_first(), r),
                None => false,
            },
        }
    }
}

/// What executing the commands `subs` in order may give, stopping at the
/// first that fails: `rs` are the results of the commands that ran, all but
/// the last successful, and the outcome is the last of them.
pub open spec fn chain_outcome(
    subs: Seq<Seq<Seq<char>>>,
    rs: Seq<Result<CommandResult, ServerError>>,
    r: Result<CommandResult, ServerError>,
) -> bool {
    &&& 1 <= rs.len() <= subs.len()
    &&& forall|j: int| 0 <= j < rs.len() ==> #[trigger] command_outcome(subs[j], rs[j])
    &&& forall|j: int| 0 <= j < rs.len() - 1 ==> #[trigger] rs[j] is Ok
    &&& rs.last() is Ok ==> rs.len() == subs.len()
    &&& r == rs.last()
}

fn execute_single_command<S: CommandServer + ?Sized>(argv: &[String], server: &mut S) -> (r: Result<CommandResult, ServerError>)
    ensures
        command_outcome(strings_view(argv@), r),
{
    if argv.len() == 0 {
        return Err(command_error(to_owned_string("no command specified")));
    }
    let cmd_name = argv[0].as_str();
    let cmd = match find_command(cmd_name) {
        Some(c) => c,
        None => {
            let mut m = to_owned_string("unknown command: ");
            push_all(&mut m, cmd_name);
            return Err(command_error(m));
        },
    };
    let args = vstd::slice::slice_subrange(argv, 1, argv.len());
    assert(strings_view(args@) =~= strings_view(argv@).drop_first());
    if args.len() < cmd.min_args {
        let mut m = to_owned_string("usage: ");
        push_all(&mut m, cmd.name);
        push_all(&mut m, " ");
        push_all(&mut m, cmd.usage);
        return Err(command_error(m));
    }
    dispatch(cmd.id, args, server)
}

/// One step of splitting arguments on `;`: the finished commands and the
/// command being collected, after reading `arg`.
pub open spec fn semicolon_step(state: (Seq<Seq<Seq<char>>>, Seq<Seq<char>>), arg: Seq<char>)
    -> (Seq<Seq<Seq<char>>>, Seq<Seq<char>>)
{
    let (cmds, cur) = state;
    if arg == seq![';'] {
        if cur.len() > 0 { (cmds.push(cur), Seq::empty()) } else { (cmds, cur) }
    } else if arg.len() > 0 && arg.last() == ';' {
        let prefix = arg.drop_last();
        let cur2 = if prefix.len() > 0 { cur.push(prefix) } else { cur };
        if cur2.len() > 0 { (cmds.push(cur2), Seq::empty()) } else { (cmds, cur2) }
    } else {
        (cmds, cur.push(arg))
    }
}

/// The state after reading the first `n` arguments.
pub open spec fn semicolon_fold(args: Seq<Seq<char>>, n: int) -> (Seq<Seq<Seq<char>>>, Seq<Seq<char>>)
    decreases n,
{
    if n <= 0 {
        (Seq::empty(), Seq::empty())
    } else {
        semicolon_step(semicolon_fold(args, n - 1), args[n - 1])
    }
}

/// `args` split into commands at `;` tokens and at tokens ending in `;`.
pub open spec fn split_on_semicolons(args: Seq<Seq<char>>) -> Seq<Seq<Seq<char>>> {
    let (cmds, cur) = semicolon_fold(args, args.len() as int);
    if cur.len() > 0 { cmds.push(cur) } else { cmds }
}

/// Splitting never yields an empty command.
proof fn lemma_split_nonempty(args: Seq<Seq<char>>, n: int)
    requires
        0 <= n <= args.len(),
    ensures
        forall|k: int| 0 <= k < semicolon_fold(args, n).0.len() ==> #[trigger] semicolon_fold(args, n).0[k].len() > 0,
    decreases n,
{
    if n > 0 {
        lemma_split_nonempty(args, n - 1);
        let prev = semicolon_fold(args, n - 1);
        let next = semicolon_fold(args, n);
        assert(next == semicolon_step(prev, args[n - 1]));
        assert forall|k: int| 0 <= k < next.0.len() implies #[trigger] next.0[k].len() > 0 by {
            if k < prev.0.len() {
                assert(next.0[k] == prev.0[k]);
            }
        }
    }
}

/// The commands of a split are all non-empty.
pub proof fn lemma_split_commands_nonempty(args: Seq<Seq<char>>)
    ensures
        forall|k: int| 0 <= k < split_on_semicolons(args).len() ==> #[trigger] split_on_semicolons(args)[k].len() > 0,
{
    lemma_split_nonempty(args, args.len() as int);
}

/// The views of a sequence of argument vectors.
pub open spec fn argvs_view(s: Seq<Vec<String>>) -> Seq<Seq<Seq<char>>> {
    s.map_values(|v: Vec<String>| strings_view(v@))
}

/// Split argv on `;` boundaries. Handles trailing semicolons on tokens
/// (e.g., `["start-server;", "show-options"]` → `[["start-server"], ["show-options"]]`).
fn split_argv_on_semicolons(argv: &[String]) -> (r: Vec<Vec<String>>)
    ensures
        argvs_view(r@) == split_on_semicolons(strings_view(argv@)),
{
    let ghost a = strings_view(argv@);
    let mut commands: Vec<Vec<String>> = Vec::new();
    let mut current: Vec<String> = Vec::new();
    let mut i: usize = 0;
    while i < argv.len()
        invariant
            a == strings_view(argv@),
            i <= argv@.len(),
            (argvs_view(commands@), strings_view(current@)) == semicolon_fold(a, i as int),
        decreases argv@.len() - i,
    {
        let ac = str_chars(argv[i].as_str());
        let ghost pc = argvs_view(commands@);
        let ghost pcur = strings_view(current@);
        if chars_eq(ac.as_slice(), &[';']) {
            if current.len() > 0 {
                let mut taken: Vec<String> = Vec::new();
                std::mem::swap(&mut taken, &mut current);
                commands.push(taken);
                assert(argvs_view(commands@) =~= pc.push(pcur));
                assert(strings_view(current@) =~= Seq::<Seq<char>>::empty());
            }
        } else if ac.len() > 0 && ac[ac.len() - 1] == ';' {
            let prefix = crate::text::chars_range(ac.as_slice(), 0, ac.len() - 1);
            assert(prefix@ =~= a[i as int].drop_last());
            if prefix.len() > 0 {
                current.push(string_from_chars(prefix.as_slice()));
                assert(strings_view(current@) =~= pcur.push(prefix@));
            }
            let ghost pcur2 = strings_view(current@);
            if current.len() > 0 {
                let mut taken: Vec<String> = Vec::new();
                std::mem::swap(&mut taken, &mut current);
                commands.push(taken);
                assert(argvs_view(commands@) =~= pc.push(pcur2));
                assert(strings_view(current@) =~= Seq::<Seq<char>>::empty());
            }
        } else {
            current.push(argv[i].clone());
            assert(strings_view(current@) =~= pcur.push(a[i as int]));
        }
        i = i + 1;
    }
    let ghost pc = argvs_view(commands@);
    if current.len() > 0 {
        let ghost pcur = strings_view(current@);
        commands.push(current);
        assert(argvs_view(commands@) =~= pc.push(pcur));
    }
    commands
}

/// Execute a command given its arguments. Arguments split by `;` form a
/// sequence of commands, run in order until one fails; the result is that of
/// the last one run.
pub fn execute_command<S: CommandServer + ?Sized>(argv: &[String], server: &mut S) -> (r: Result<CommandResult, ServerError>)
    ensures
        argv@.len() == 0 ==> (r matches Err(e) && e.msg() == "no command specified"@),
        argv@.len() > 0 && split_on_semicolons(strings_view(argv@)).len() <= 1 ==>
            match command_precheck(strings_view(argv@)) {
                Some(m) => (r matches Err(e) && e.msg() == m),
                None => true,
            },
        split_on_semicolons(strings_view(argv@)).len() <= 1 ==> command_outcome(strings_view(argv@), r),
        split_on_semicolons(strings_view(argv@)).len() > 1 && command_precheck(split_on_semicolons(strings_view(argv@))[0]) is Some ==>
            (r matches Err(e) && Some(e.msg()) == command_precheck(split_on_semicolons(strings_view(argv@))[0])),
        split_on_semicolons(strings_view(argv@)).len() > 1 ==> exists|rs: Seq<Result<CommandResult, ServerError>>|
            #[trigger] chain_outcome(split_on_semicolons(strings_view(argv@)), rs, r),
{
    if argv.len() == 0 {
        return Err(command_error(to_owned_string("no command specified")));
    }
    let sub_commands = split_argv_on_semicolons(argv);
    if sub_commands.len() > 1 {
        let ghost subs = split_on_semicolons(strings_view(argv@));
        proof {
            lemma_split_commands_nonempty(strings_view(argv@));
        }
        let ghost mut rs: Seq<Result<CommandResult, ServerError>> = Seq::empty();
        let mut last_result = CommandResult::Done;
        let mut k: usize = 0;
        while k < sub_commands.len()
            invariant
                argvs_view(sub_commands@) == subs,
                subs == split_on_semicolons(strings_view(argv@)),
                argv@.len() > 0,
                subs.len() > 1,
                forall|j: int| 0 <= j < subs.len() ==> #[trigger] subs[j].len() > 0,
                k <= sub_commands@.len(),
                k > 0 ==> command_precheck(subs[0]) is None,
                rs.len() == k,
                forall|j: int| 0 <= j < k ==> #[trigger] command_outcome(subs[j], rs[j]),
                forall|j: int| 0 <= j < k ==> #[trigger] rs[j] is Ok,
                k > 0 ==> rs.last() == Ok::<CommandResult, ServerError>(last_result),
            decreases sub_commands@.len() - k,
        {
            assert(strings_view(sub_commands@[k as int]@) == subs[k as int]);
            if sub_commands[k].len() == 0 {
                k = k + 1;
                continue;
            }
            let one = execute_single_command(sub_commands[k].as_slice(), server);
            proof {
                rs = rs.push(one);
                assert(forall|j: int| 0 <= j < k ==> rs[j] == rs.drop_last()[j]);
            }
            match one {
                Ok(res) => {
                    last_result = res;
                },
                Err(e) => {
                    let r = Err(e);
                    assert(chain_outcome(subs, rs, r));
                    return r;
                },
            }
            k = k + 1;
        }
        let r = Ok(last_result);
        assert(chain_outcome(subs, rs, r));
        return r;
    }
    execute_single_command(argv, server)
}

/// Stable handler table lookup by name, for listing.

/// The handler a command name runs.
#[derive(Debug, Clone, Copy, PartialEq, Eq, Structural)]
pub enum CommandId {
    NewSession,
    KillSession,
    ListSessions,
    HasSession,
    RenameSession,
    AttachSession,
    DetachClient,
    SwitchClient,
    RefreshClient,
    NewWindow,
    KillWindow,
    SelectWindow,
    NextWindow,
    PreviousWindow,
    LastWindow,
    RenameWindow,
    ListWindows,
    FindWindow,
    SplitWindow,
    SelectPane,
    KillPane,
    ListPanes,
    DisplayMessage,
    ListCommands,
    ListKeys,
    ShowMessages,
    ListClients,
    KillServer,
    StartServer,
    SendKeys,
    SetOption,
    ShowOptions,
    SetWindowOption,
    ShowWindowOptions,
    BindKey,
    UnbindKey,
    SourceFile,
    CapturePane,
    ResizePane,
    SwapPane,
    BreakPane,
    JoinPane,
    LastPane,
    RespawnPane,
    SwapWindow,
    MoveWindow,
    RotateWindow,
    SelectLayout,
    RespawnWindow,
    NextLayout,
    PreviousLayout,
    IfShell,
    SendPrefix,
    ClearHistory,
    RunShell,
    CommandPrompt,
    CopyMode,
    PasteBuffer,
    ListBuffers,
    ShowBuffer,
    SetBuffer,
    DeleteBuffer,
    SaveBuffer,
    LoadBuffer,
    SetHook,
    ShowHooks,
    SetEnvironment,
    ShowEnvironment,
    ConfirmBefore,
    WaitFor,
    DisplayPanes,
    ClockMode,
    ChooseTree,
    ChooseBuffer,
    ChooseClient,
    DisplayMenu,
    DisplayPopup,
    CustomizeMode,
    ClearPromptHistory,
    ShowPromptHistory,
    SuspendClient,
    LockServer,
    LockSession,
    LockClient,
    LinkWindow,
    UnlinkWindow,
    MovePane,
    PipePane,
    ResizeWindow,
    ServerAccess,
}

/// The registered commands, in registration order.
pub open spec fn command_table() -> Seq<EntryView> {
    seq![
        EntryView { name: "new-session"@, min_args: 0, id: CommandId::NewSession, usage: "[-d] [-s session-name] [-x width] [-y height]"@ },
        EntryView { name: "kill-session"@, min_args: 0, id: CommandId::KillSession, usage: "[-t target-session]"@ },
        EntryView { name: "list-sessions"@, min_args: 0, id: CommandId::ListSessions, usage: ""@ },
        EntryView { name: "ls"@, min_args: 0, id: CommandId::ListSessions, usage: ""@ },
        EntryView { name: "has-session"@, min_args: 0, id: CommandId::HasSession, usage: "[-t target-session]"@ },
        EntryView { name: "rename-session"@, min_args: 1, id: CommandId::RenameSession, usage: "[-t target-session] new-name"@ },
        EntryView { name: "attach-session"@, min_args: 0, id: CommandId::AttachSession, usage: "[-t target-session]"@ },
        EntryView { name: "attach"@, min_args: 0, id: CommandId::AttachSession, usage: "[-t target-session]"@ },
        EntryView { name: "detach-client"@, min_args: 0, id: CommandId::DetachClient, usage: ""@ },
        EntryView { name: "detach"@, min_args: 0, id: CommandId::DetachClient, usage: ""@ },
        EntryView { name: "switch-client"@, min_args: 0, id: CommandId::SwitchClient, usage: "[-t target-session]"@ },
        EntryView { name: "switchc"@, min_args: 0, id: CommandId::SwitchClient, usage: "[-t target-session]"@ },
        EntryView { name: "refresh-client"@, min_args: 0, id: CommandId::RefreshClient, usage: "[-t target-client]"@ },
        EntryView { name: "refresh"@, min_args: 0, id: CommandId::RefreshClient, usage: "[-t target-client]"@ },
        EntryView { name: "new-window"@, min_args: 0, id: CommandId::NewWindow, usage: "[-d] [-n name] [-t target-session]"@ },
        EntryView { name: "kill-window"@, min_args: 0, id: CommandId::KillWindow, usage: "[-t target-window]"@ },
        EntryView { name: "select-window"@, min_args: 0, id: CommandId::SelectWindow, usage: "[-t target-window]"@ },
        EntryView { name: "next-window"@, min_args: 0, id: CommandId::NextWindow, usage: ""@ },
        EntryView { name: "next"@, min_args: 0, id: CommandId::NextWindow, usage: ""@ },
        EntryView { name: "previous-window"@, min_args: 0, id: CommandId::PreviousWindow, usage: ""@ },
        EntryView { name: "prev"@, min_args: 0, id: CommandId::PreviousWindow, usage: ""@ },
        EntryView { name: "last-window"@, min_args: 0, id: CommandId::LastWindow, usage: ""@ },
        EntryView { name: "rename-window"@, min_args: 1, id: CommandId::RenameWindow, usage: "[-t target-window] new-name"@ },
        EntryView { name: "list-windows"@, min_args: 0, id: CommandId::ListWindows, usage: "[-t target-session]"@ },
        EntryView { name: "find-window"@, min_args: 1, id: CommandId::FindWindow, usage: "[-t target-session] match-string"@ },
        EntryView { name: "findw"@, min_args: 1, id: CommandId::FindWindow, usage: "[-t target-session] match-string"@ },
        EntryView { name: "split-window"@, min_args: 0, id: CommandId::SplitWindow, usage: "[-h] [-v] [-d]"@ },
        EntryView { name: "select-pane"@, min_args: 0, id: CommandId::SelectPane, usage: "[-U] [-D] [-L] [-R] [-t target-pane]"@ },
        EntryView { name: "kill-pane"@, min_args: 0, id: CommandId::KillPane, usage: "[-t target-pane]"@ },
        EntryView { name: "list-panes"@, min_args: 0, id: CommandId::ListPanes, usage: "[-t target-window]"@ },
        EntryView { name: "display-message"@, min_args: 0, id: CommandId::DisplayMessage, usage: "[-p] [message]"@ },
        EntryView { name: "display"@, min_args: 0, id: CommandId::DisplayMessage, usage: "[-p] [message]"@ },
        EntryView { name: "list-commands"@, min_args: 0, id: CommandId::ListCommands, usage: ""@ },
        EntryView { name: "lscm"@, min_args: 0, id: CommandId::ListCommands, usage: ""@ },
        EntryView { name: "list-keys"@, min_args: 0, id: CommandId::ListKeys, usage: "[-T table]"@ },
        EntryView { name: "show-messages"@, min_args: 0, id: CommandId::ShowMessages, usage: ""@ },
        EntryView { name: "showmsgs"@, min_args: 0, id: CommandId::ShowMessages, usage: ""@ },
        EntryView { name: "list-clients"@, min_args: 0, id: CommandId::ListClients, usage: ""@ },
        EntryView { name: "kill-server"@, min_args: 0, id: CommandId::KillServer, usage: ""@ },
        EntryView { name: "start-server"@, min_args: 0, id: CommandId::StartServer, usage: ""@ },
        EntryView { name: "start"@, min_args: 0, id: CommandId::StartServer, usage: ""@ },
        EntryView { name: "send-keys"@, min_args: 1, id: CommandId::SendKeys, usage: "[-l] [-t target-pane] key ..."@ },
        EntryView { name: "set-option"@, min_args: 2, id: CommandId::SetOption, usage: "[-g] [-w] [-t target] option value"@ },
        EntryView { name: "set"@, min_args: 2, id: CommandId::SetOption, usage: "[-g] [-w] [-t target] option value"@ },
        EntryView { name: "show-options"@, min_args: 0, id: CommandId::ShowOptions, usage: "[-g] [-w] [-t target] [option]"@ },
        EntryView { name: "show"@, min_args: 0, id: CommandId::ShowOptions, usage: "[-g] [-w] [-t target] [option]"@ },
        EntryView { name: "set-window-option"@, min_args: 2, id: CommandId::SetWindowOption, usage: "[-g] [-t target] option value"@ },
        EntryView { name: "setw"@, min_args: 2, id: CommandId::SetWindowOption, usage: "[-g] [-t target] option value"@ },
        EntryView { name: "show-window-options"@, min_args: 0, id: CommandId::ShowWindowOptions, usage: "[-g] [-t target] [option]"@ },
        EntryView { name: "showw"@, min_args: 0, id: CommandId::ShowWindowOptions, usage: "[-g] [-t target] [option]"@ },
        EntryView { name: "bind-key"@, min_args: 2, id: CommandId::BindKey, usage: "[-T table] [-n] key command [args...]"@ },
        EntryView { name: "bind"@, min_args: 2, id: CommandId::BindKey, usage: "[-T table] [-n] key command [args...]"@ },
        EntryView { name: "unbind-key"@, min_args: 1, id: CommandId::UnbindKey, usage: "[-T table] key"@ },
        EntryView { name: "unbind"@, min_args: 1, id: CommandId::UnbindKey, usage: "[-T table] key"@ },
        EntryView { name: "source-file"@, min_args: 1, id: CommandId::SourceFile, usage: "path"@ },
        EntryView { name: "source"@, min_args: 1, id: CommandId::SourceFile, usage: "path"@ },
        EntryView { name: "capture-pane"@, min_args: 0, id: CommandId::CapturePane, usage: "[-p] [-t target-pane]"@ },
        EntryView { name: "capturep"@, min_args: 0, id: CommandId::CapturePane, usage: "[-p] [-t target-pane]"@ },
        EntryView { name: "resize-pane"@, min_args: 0, id: CommandId::ResizePane, usage: "[-U|-D|-L|-R] [-x width] [-y height] [amount]"@ },
        EntryView { name: "resizep"@, min_args: 0, id: CommandId::ResizePane, usage: "[-U|-D|-L|-R] [-x width] [-y height] [amount]"@ },
        EntryView { name: "swap-pane"@, min_args: 0, id: CommandId::SwapPane, usage: "[-U] [-D] [-t target-pane]"@ },
        EntryView { name: "swapp"@, min_args: 0, id: CommandId::SwapPane, usage: "[-U] [-D] [-t target-pane]"@ },
        EntryView { name: "break-pane"@, min_args: 0, id: CommandId::BreakPane, usage: "[-t target-pane]"@ },
        EntryView { name: "breakp"@, min_args: 0, id: CommandId::BreakPane, usage: "[-t target-pane]"@ },
        EntryView { name: "join-pane"@, min_args: 0, id: CommandId::JoinPane, usage: "[-h] [-s src-pane] [-t dst-pane]"@ },
        EntryView { name: "joinp"@, min_args: 0, id: CommandId::JoinPane, usage: "[-h] [-s src-pane] [-t dst-pane]"@ },
        EntryView { name: "last-pane"@, min_args: 0, id: CommandId::LastPane, usage: "[-t target-window]"@ },
        EntryView { name: "lastp"@, min_args: 0, id: CommandId::LastPane, usage: "[-t target-window]"@ },
        EntryView { name: "respawn-pane"@, min_args: 0, id: CommandId::RespawnPane, usage: "[-t target-pane]"@ },
        EntryView { name: "respawnp"@, min_args: 0, id: CommandId::RespawnPane, usage: "[-t target-pane]"@ },
        EntryView { name: "swap-window"@, min_args: 0, id: CommandId::SwapWindow, usage: "[-s src] [-t dst]"@ },
        EntryView { name: "swapw"@, min_args: 0, id: CommandId::SwapWindow, usage: "[-s src] [-t dst]"@ },
        EntryView { name: "move-window"@, min_args: 0, id: CommandId::MoveWindow, usage: "[-s src] [-t dst]"@ },
        EntryView { name: "movew"@, min_args: 0, id: CommandId::MoveWindow, usage: "[-s src] [-t dst]"@ },
        EntryView { name: "rotate-window"@, min_args: 0, id: CommandId::RotateWindow, usage: "[-t target-window]"@ },
        EntryView { name: "rotatew"@, min_args: 0, id: CommandId::RotateWindow, usage: "[-t target-window]"@ },
        EntryView { name: "select-layout"@, min_args: 0, id: CommandId::SelectLayout, usage: "[-t target-window] layout-name"@ },
        EntryView { name: "selectl"@, min_args: 0, id: CommandId::SelectLayout, usage: "[-t target-window] layout-name"@ },
        EntryView { name: "respawn-window"@, min_args: 0, id: CommandId::RespawnWindow, usage: "[-t target-window]"@ },
        EntryView { name: "respawnw"@, min_args: 0, id: CommandId::RespawnWindow, usage: "[-t target-window]"@ },
        EntryView { name: "next-layout"@, min_args: 0, id: CommandId::NextLayout, usage: "[-t target-window]"@ },
        EntryView { name: "nextl"@, min_args: 0, id: CommandId::NextLayout, usage: "[-t target-window]"@ },
        EntryView { name: "previous-layout"@, min_args: 0, id: CommandId::PreviousLayout, usage: "[-t target-window]"@ },
        EntryView { name: "prevl"@, min_args: 0, id: CommandId::PreviousLayout, usage: "[-t target-window]"@ },
        EntryView { name: "if-shell"@, min_args: 2, id: CommandId::IfShell, usage: "shell-command command [command]"@ },
        EntryView { name: "if"@, min_args: 2, id: CommandId::IfShell, usage: "shell-command command [command]"@ },
        EntryView { name: "send-prefix"@, min_args: 0, id: CommandId::SendPrefix, usage: "[-2]"@ },
        EntryView { name: "clear-history"@, min_args: 0, id: CommandId::ClearHistory, usage: "[-t target-pane]"@ },
        EntryView { name: "clearhist"@, min_args: 0, id: CommandId::ClearHistory, usage: "[-t target-pane]"@ },
        EntryView { name: "run-shell"@, min_args: 1, id: CommandId::RunShell, usage: "command"@ },
        EntryView { name: "run"@, min_args: 1, id: CommandId::RunShell, usage: "command"@ },
        EntryView { name: "command-prompt"@, min_args: 0, id: CommandId::CommandPrompt, usage: ""@ },
        EntryView { name: "copy-mode"@, min_args: 0, id: CommandId::CopyMode, usage: "[-u]"@ },
        EntryView { name: "paste-buffer"@, min_args: 0, id: CommandId::PasteBuffer, usage: "[-b buffer-name]"@ },
        EntryView { name: "pasteb"@, min_args: 0, id: CommandId::PasteBuffer, usage: "[-b buffer-name]"@ },
        EntryView { name: "list-buffers"@, min_args: 0, id: CommandId::ListBuffers, usage: ""@ },
        EntryView { name: "lsb"@, min_args: 0, id: CommandId::ListBuffers, usage: ""@ },
        EntryView { name: "show-buffer"@, min_args: 0, id: CommandId::ShowBuffer, usage: "[-b buffer-name]"@ },
        EntryView { name: "showb"@, min_args: 0, id: CommandId::ShowBuffer, usage: "[-b buffer-name]"@ },
        EntryView { name: "set-buffer"@, min_args: 1, id: CommandId::SetBuffer, usage: "[-b buffer-name] data"@ },
        EntryView { name: "setb"@, min_args: 1, id: CommandId::SetBuffer, usage: "[-b buffer-name] data"@ },
        EntryView { name: "delete-buffer"@, min_args: 0, id: CommandId::DeleteBuffer, usage: "-b buffer-name"@ },
        EntryView { name: "deleteb"@, min_args: 0, id: CommandId::DeleteBuffer, usage: "-b buffer-name"@ },
        EntryView { name: "save-buffer"@, min_args: 1, id: CommandId::SaveBuffer, usage: "[-b buffer-name] path"@ },
        EntryView { name: "saveb"@, min_args: 1, id: CommandId::SaveBuffer, usage: "[-b buffer-name] path"@ },
        EntryView { name: "load-buffer"@, min_args: 1, id: CommandId::LoadBuffer, usage: "[-b buffer-name] path"@ },
        EntryView { name: "loadb"@, min_args: 1, id: CommandId::LoadBuffer, usage: "[-b buffer-name] path"@ },
        EntryView { name: "set-hook"@, min_args: 1, id: CommandId::SetHook, usage: "[-u] hook-name [command]"@ },
        EntryView { name: "show-hooks"@, min_args: 0, id: CommandId::ShowHooks, usage: ""@ },
        EntryView { name: "set-environment"@, min_args: 1, id: CommandId::SetEnvironment, usage: "[-g] [-u] [-t target-session] name [value]"@ },
        EntryView { name: "setenv"@, min_args: 1, id: CommandId::SetEnvironment, usage: "[-g] [-u] [-t target-session] name [value]"@ },
        EntryView { name: "show-environment"@, min_args: 0, id: CommandId::ShowEnvironment, usage: "[-g] [-t target-session] [name]"@ },
        EntryView { name: "showenv"@, min_args: 0, id: CommandId::ShowEnvironment, usage: "[-g] [-t target-session] [name]"@ },
        EntryView { name: "confirm-before"@, min_args: 1, id: CommandId::ConfirmBefore, usage: "[-p prompt] command"@ },
        EntryView { name: "confirm"@, min_args: 1, id: CommandId::ConfirmBefore, usage: "[-p prompt] command"@ },
        EntryView { name: "wait-for"@, min_args: 1, id: CommandId::WaitFor, usage: "[-L|-U|-S] channel"@ },
        EntryView { name: "wait"@, min_args: 1, id: CommandId::WaitFor, usage: "[-L|-U|-S] channel"@ },
        EntryView { name: "display-panes"@, min_args: 0, id: CommandId::DisplayPanes, usage: "[-d duration] [-t target-client]"@ },
        EntryView { name: "displayp"@, min_args: 0, id: CommandId::DisplayPanes, usage: "[-d duration]"@ },
        EntryView { name: "clock-mode"@, min_args: 0, id: CommandId::ClockMode, usage: "[-t target-pane]"@ },
        EntryView { name: "choose-tree"@, min_args: 0, id: CommandId::ChooseTree, usage: "[-t target-pane]"@ },
        EntryView { name: "choose-buffer"@, min_args: 0, id: CommandId::ChooseBuffer, usage: "[-t target-pane]"@ },
        EntryView { name: "choose-client"@, min_args: 0, id: CommandId::ChooseClient, usage: "[-t target-pane]"@ },
        EntryView { name: "display-menu"@, min_args: 0, id: CommandId::DisplayMenu, usage: "[-t target-pane] [-T title] name key command ..."@ },
        EntryView { name: "menu"@, min_args: 0, id: CommandId::DisplayMenu, usage: "[-t target-pane]"@ },
        EntryView { name: "display-popup"@, min_args: 0, id: CommandId::DisplayPopup, usage: "[-t target-pane] [-w width] [-h height] [command]"@ },
        EntryView { name: "popup"@, min_args: 0, id: CommandId::DisplayPopup, usage: "[command]"@ },
        EntryView { name: "customize-mode"@, min_args: 0, id: CommandId::CustomizeMode, usage: "[-t target-pane]"@ },
        EntryView { name: "clear-prompt-history"@, min_args: 0, id: CommandId::ClearPromptHistory, usage: ""@ },
        EntryView { name: "show-prompt-history"@, min_args: 0, id: CommandId::ShowPromptHistory, usage: ""@ },
        EntryView { name: "suspend-client"@, min_args: 0, id: CommandId::SuspendClient, usage: "[-t target-client]"@ },
        EntryView { name: "suspendc"@, min_args: 0, id: CommandId::SuspendClient, usage: "[-t target-client]"@ },
        EntryView { name: "lock-server"@, min_args: 0, id: CommandId::LockServer, usage: ""@ },
        EntryView { name: "lock"@, min_args: 0, id: CommandId::LockServer, usage: ""@ },
        EntryView { name: "lock-session"@, min_args: 0, id: CommandId::LockSession, usage: "[-t target-session]"@ },
        EntryView { name: "locks"@, min_args: 0, id: CommandId::LockSession, usage: "[-t target-session]"@ },
        EntryView { name: "lock-client"@, min_args: 0, id: CommandId::LockClient, usage: "[-t target-client]"@ },
        EntryView { name: "lockc"@, min_args: 0, id: CommandId::LockClient, usage: "[-t target-client]"@ },
        EntryView { name: "link-window"@, min_args: 0, id: CommandId::LinkWindow, usage: "[-s src] [-t dst]"@ },
        EntryView { name: "linkw"@, min_args: 0, id: CommandId::LinkWindow, usage: "[-s src] [-t dst]"@ },
        EntryView { name: "unlink-window"@, min_args: 0, id: CommandId::UnlinkWindow, usage: "[-t target-window]"@ },
        EntryView { name: "unlinkw"@, min_args: 0, id: CommandId::UnlinkWindow, usage: "[-t target-window]"@ },
        EntryView { name: "move-pane"@, min_args: 0, id: CommandId::MovePane, usage: "[-s src] [-t dst]"@ },
        EntryView { name: "movep"@, min_args: 0, id: CommandId::MovePane, usage: "[-s src] [-t dst]"@ },
        EntryView { name: "pipe-pane"@, min_args: 0, id: CommandId::PipePane, usage: "[-o] [-t target-pane] [command]"@ },
        EntryView { name: "pipep"@, min_args: 0, id: CommandId::PipePane, usage: "[-o] [-t target-pane] [command]"@ },
        EntryView { name: "resize-window"@, min_args: 0, id: CommandId::ResizeWindow, usage: "[-t target-window] [-x width] [-y height]"@ },
        EntryView { name: "resizew"@, min_args: 0, id: CommandId::ResizeWindow, usage: "[-t target-window]"@ },
        EntryView { name: "server-access"@, min_args: 0, id: CommandId::ServerAccess, usage: "[-adlrw] [user]"@ },
    ]
}

fn push_commands_0(v: &mut Vec<CommandEntry>)
    ensures
        entries_view(final(v)@) == entries_view(old(v)@) + command_table().subrange(0, 25),
{
    let ghost start = entries_view(v@);
    v.push(CommandEntry { name: "new-session", min_args: 0, id: CommandId::NewSession, usage: "[-d] [-s session-name] [-x width] [-y height]" });
    v.push(CommandEntry { name: "kill-session", min_args: 0, id: CommandId::KillSession, usage: "[-t target-session]" });
    v.push(CommandEntry { name: "list-sessions", min_args: 0, id: CommandId::ListSessions, usage: "" });
    v.push(CommandEntry { name: "ls", min_args: 0, id: CommandId::ListSessions, usage: "" });
    v.push(CommandEntry { name: "has-session", min_args: 0, id: CommandId::HasSession, usage: "[-t target-session]" });
    v.push(CommandEntry { name: "rename-session", min_args: 1, id: CommandId::RenameSession, usage: "[-t target-session] new-name" });
    v.push(CommandEntry { name: "attach-session", min_args: 0, id: CommandId::AttachSession, usage: "[-t target-session]" });
    v.push(CommandEntry { name: "attach", min_args: 0, id: CommandId::AttachSession, usage: "[-t target-session]" });
    v.push(CommandEntry { name: "detach-client", min_args: 0, id: CommandId::DetachClient, usage: "" });
    v.push(CommandEntry { name: "detach", min_args: 0, id: CommandId::DetachClient, usage: "" });
    v.push(CommandEntry { name: "switch-client", min_args: 0, id: CommandId::SwitchClient, usage: "[-t target-session]" });
    v.push(CommandEntry { name: "switchc", min_args: 0, id: CommandId::SwitchClient, usage: "[-t target-session]" });
    v.push(CommandEntry { name: "refresh-client", min_args: 0, id: CommandId::RefreshClient, usage: "[-t target-client]" });
    v.push(CommandEntry { name: "refresh", min_args: 0, id: CommandId::RefreshClient, usage: "[-t target-client]" });
    v.push(CommandEntry { name: "new-window", min_args: 0, id: CommandId::NewWindow, usage: "[-d] [-n name] [-t target-session]" });
    v.push(CommandEntry { name: "kill-window", min_args: 0, id: CommandId::KillWindow, usage: "[-t target-window]" });
    v.push(CommandEntry { name: "select-window", min_args: 0, id: CommandId::SelectWindow, usage: "[-t target-window]" });
    v.push(CommandEntry { name: "next-window", min_args: 0, id: CommandId::NextWindow, usage: "" });
    v.push(CommandEntry { name: "next", min_args: 0, id: CommandId::NextWindow, usage: "" });
    v.push(CommandEntry { name: "previous-window", min_args: 0, id: CommandId::PreviousWindow, usage: "" });
    v.push(CommandEntry { name: "prev", min_args: 0, id: CommandId::PreviousWindow, usage: "" });
    v.push(CommandEntry { name: "last-window", min_args: 0, id: CommandId::LastWindow, usage: "" });
    v.push(CommandEntry { name: "rename-window", min_args: 1, id: CommandId::RenameWindow, usage: "[-t target-window] new-name" });
    v.push(CommandEntry { name: "list-windows", min_args: 0, id: CommandId::ListWindows, usage: "[-t target-session]" });
    v.push(CommandEntry { name: "find-window", min_args: 1, id: CommandId::FindWindow, usage: "[-t target-session] match-string" });
    assert(entries_view(v@) =~= start + command_table().subrange(0, 25));
}

fn push_commands_1(v: &mut Vec<CommandEntry>)
    ensures
        entries_view(final(v)@) == entries_view(old(v)@) + command_table().subrange(25, 50),
{
    let ghost start = entries_view(v@);
    v.push(CommandEntry { name: "findw", min_args: 1, id: CommandId::FindWindow, usage: "[-t target-session] match-string" });
    v.push(CommandEntry { name: "split-window", min_args: 0, id: CommandId::SplitWindow, usage: "[-h] [-v] [-d]" });
    v.push(CommandEntry { name: "select-pane", min_args: 0, id: CommandId::SelectPane, usage: "[-U] [-D] [-L] [-R] [-t target-pane]" });
    v.push(CommandEntry { name: "kill-pane", min_args: 0, id: CommandId::KillPane, usage: "[-t target-pane]" });
    v.push(CommandEntry { name: "list-panes", min_args: 0, id: CommandId::ListPanes, usage: "[-t target-window]" });
    v.push(CommandEntry { name: "display-message", min_args: 0, id: CommandId::DisplayMessage, usage: "[-p] [message]" });
    v.push(CommandEntry { name: "display", min_args: 0, id: CommandId::DisplayMessage, usage: "[-p] [message]" });
    v.push(CommandEntry { name: "list-commands", min_args: 0, id: CommandId::ListCommands, usage: "" });
    v.push(CommandEntry { name: "lscm", min_args: 0, id: CommandId::ListCommands, usage: "" });
    v.push(CommandEntry { name: "list-keys", min_args: 0, id: CommandId::ListKeys, usage: "[-T table]" });
    v.push(CommandEntry { name: "show-messages", min_args: 0, id: CommandId::ShowMessages, usage: "" });
    v.push(CommandEntry { name: "showmsgs", min_args: 0, id: CommandId::ShowMessages, usage: "" });
    v.push(CommandEntry { name: "list-clients", min_args: 0, id: CommandId::ListClients, usage: "" });
    v.push(CommandEntry { name: "kill-server", min_args: 0, id: CommandId::KillServer, usage: "" });
    v.push(CommandEntry { name: "start-server", min_args: 0, id: CommandId::StartServer, usage: "" });
    v.push(CommandEntry { name: "start", min_args: 0, id: CommandId::StartServer, usage: "" });
    v.push(CommandEntry { name: "send-keys", min_args: 1, id: CommandId::SendKeys, usage: "[-l] [-t target-pane] key ..." });
    v.push(CommandEntry { name: "set-option", min_args: 2, id: CommandId::SetOption, usage: "[-g] [-w] [-t target] option value" });
    v.push(CommandEntry { name: "set", min_args: 2, id: CommandId::SetOption, usage: "[-g] [-w] [-t target] option value" });
    v.push(CommandEntry { name: "show-options", min_args: 0, id: CommandId::ShowOptions, usage: "[-g] [-w] [-t target] [option]" });
    v.push(CommandEntry { name: "show", min_args: 0, id: CommandId::ShowOptions, usage: "[-g] [-w] [-t target] [option]" });
    v.push(CommandEntry { name: "set-window-option", min_args: 2, id: CommandId::SetWindowOption, usage: "[-g] [-t target] option value" });
    v.push(CommandEntry { name: "setw", min_args: 2, id: CommandId::SetWindowOption, usage: "[-g] [-t target] option value" });
    v.push(CommandEntry { name: "show-window-options", min_args: 0, id: CommandId::ShowWindowOptions, usage: "[-g] [-t target] [option]" });
    v.push(CommandEntry { name: "showw", min_args: 0, id: CommandId::ShowWindowOptions, usage: "[-g] [-t target] [option]" });
    assert(entries_view(v@) =~= start + command_table().subrange(25, 50));
}

fn push_commands_2(v: &mut Vec<CommandEntry>)
    ensures
        entries_view(final(v)@) == entries_view(old(v)@) + command_table().subrange(50, 75),
{
    let ghost start = entries_view(v@);
    v.push(CommandEntry { name: "bind-key", min_args: 2, id: CommandId::BindKey, usage: "[-T table] [-n] key command [args...]" });
    v.push(CommandEntry { name: "bind", min_args: 2, id: CommandId::BindKey, usage: "[-T table] [-n] key command [args...]" });
    v.push(CommandEntry { name: "unbind-key", min_args: 1, id: CommandId::UnbindKey, usage: "[-T table] key" });
    v.push(CommandEntry { name: "unbind", min_args: 1, id: CommandId::UnbindKey, usage: "[-T table] key" });
    v.push(CommandEntry { name: "source-file", min_args: 1, id: CommandId::SourceFile, usage: "path" });
    v.push(CommandEntry { name: "source", min_args: 1, id: CommandId::SourceFile, usage: "path" });
    v.push(CommandEntry { name: "capture-pane", min_args: 0, id: CommandId::CapturePane, usage: "[-p] [-t target-pane]" });
    v.push(CommandEntry { name: "capturep", min_args: 0, id: CommandId::CapturePane, usage: "[-p] [-t target-pane]" });
    v.push(CommandEntry { name: "resize-pane", min_args: 0, id: CommandId::ResizePane, usage: "[-U|-D|-L|-R] [-x width] [-y height] [amount]" });
    v.push(CommandEntry { name: "resizep", min_args: 0, id: CommandId::ResizePane, usage: "[-U|-D|-L|-R] [-x width] [-y height] [amount]" });
    v.push(CommandEntry { name: "swap-pane", min_args: 0, id: CommandId::SwapPane, usage: "[-U] [-D] [-t target-pane]" });
    v.push(CommandEntry { name: "swapp", min_args: 0, id: CommandId::SwapPane, usage: "[-U] [-D] [-t target-pane]" });
    v.push(CommandEntry { name: "break-pane", min_args: 0, id: CommandId::BreakPane, usage: "[-t target-pane]" });
    v.push(CommandEntry { name: "breakp", min_args: 0, id: CommandId::BreakPane, usage: "[-t target-pane]" });
    v.push(CommandEntry { name: "join-pane", min_args: 0, id: CommandId::JoinPane, usage: "[-h] [-s src-pane] [-t dst-pane]" });
    v.push(CommandEntry { name: "joinp", min_args: 0, id: CommandId::JoinPane, usage: "[-h] [-s src-pane] [-t dst-pane]" });
    v.push(CommandEntry { name: "last-pane", min_args: 0, id: CommandId::LastPane, usage: "[-t target-window]" });
    v.push(CommandEntry { name: "lastp", min_args: 0, id: CommandId::LastPane, usage: "[-t target-window]" });
    v.push(CommandEntry { name: "respawn-pane", min_args: 0, id: CommandId::RespawnPane, usage: "[-t target-pane]" });
    v.push(CommandEntry { name: "respawnp", min_args: 0, id: CommandId::RespawnPane, usage: "[-t target-pane]" });
    v.push(CommandEntry { name: "swap-window", min_args: 0, id: CommandId::SwapWindow, usage: "[-s src] [-t dst]" });
    v.push(CommandEntry { name: "swapw", min_args: 0, id: CommandId::SwapWindow, usage: "[-s src] [-t dst]" });
    v.push(CommandEntry { name: "move-window", min_args: 0, id: CommandId::MoveWindow, usage: "[-s src] [-t dst]" });
    v.push(CommandEntry { name: "movew", min_args: 0, id: CommandId::MoveWindow, usage: "[-s src] [-t dst]" });
    v.push(CommandEntry { name: "rotate-window", min_args: 0, id: CommandId::RotateWindow, usage: "[-t target-window]" });
    assert(entries_view(v@) =~= start + command_table().subrange(50, 75));
}

fn push_commands_3(v: &mut Vec<CommandEntry>)
    ensures
        entries_view(final(v)@) == entries_view(old(v)@) + command_table().subrange(75, 100),
{
    let ghost start = entries_view(v@);
    v.push(CommandEntry { name: "rotatew", min_args: 0, id: CommandId::RotateWindow, usage: "[-t target-window]" });
    v.push(CommandEntry { name: "select-layout", min_args: 0, id: CommandId::SelectLayout, usage: "[-t target-window] layout-name" });
    v.push(CommandEntry { name: "selectl", min_args: 0, id: CommandId::SelectLayout, usage: "[-t target-window] layout-name" });
    v.push(CommandEntry { name: "respawn-window", min_args: 0, id: CommandId::RespawnWindow, usage: "[-t target-window]" });
    v.push(CommandEntry { name: "respawnw", min_args: 0, id: CommandId::RespawnWindow, usage: "[-t target-window]" });
    v.push(CommandEntry { name: "next-layout", min_args: 0, id: CommandId::NextLayout, usage: "[-t target-window]" });
    v.push(CommandEntry { name: "nextl", min_args: 0, id: CommandId::NextLayout, usage: "[-t target-window]" });
    v.push(CommandEntry { name: "previous-layout", min_args: 0, id: CommandId::PreviousLayout, usage: "[-t target-window]" });
    v.push(CommandEntry { name: "prevl", min_args: 0, id: CommandId::PreviousLayout, usage: "[-t target-window]" });
    v.push(CommandEntry { name: "if-shell", min_args: 2, id: CommandId::IfShell, usage: "shell-command command [command]" });
    v.push(CommandEntry { name: "if", min_args: 2, id: CommandId::IfShell, usage: "shell-command command [command]" });
    v.push(CommandEntry { name: "send-prefix", min_args: 0, id: CommandId::SendPrefix, usage: "[-2]" });
    v.push(CommandEntry { name: "clear-history", min_args: 0, id: CommandId::ClearHistory, usage: "[-t target-pane]" });
    v.push(CommandEntry { name: "clearhist", min_args: 0, id: CommandId::ClearHistory, usage: "[-t target-pane]" });
    v.push(CommandEntry { name: "run-shell", min_args: 1, id: CommandId::RunShell, usage: "command" });
    v.push(CommandEntry { name: "run", min_args: 1, id: CommandId::RunShell, usage: "command" });
    v.push(CommandEntry { name: "command-prompt", min_args: 0, id: CommandId::CommandPrompt, usage: "" });
    v.push(CommandEntry { name: "copy-mode", min_args: 0, id: CommandId::CopyMode, usage: "[-u]" });
    v.push(CommandEntry { name: "paste-buffer", min_args: 0, id: CommandId::PasteBuffer, usage: "[-b buffer-name]" });
    v.push(CommandEntry { name: "pasteb", min_args: 0, id: CommandId::PasteBuffer, usage: "[-b buffer-name]" });
    v.push(CommandEntry { name: "list-buffers", min_args: 0, id: CommandId::ListBuffers, usage: "" });
    v.push(CommandEntry { name: "lsb", min_args: 0, id: CommandId::ListBuffers, usage: "" });
    v.push(CommandEntry { name: "show-buffer", min_args: 0, id: CommandId::ShowBuffer, usage: "[-b buffer-name]" });
    v.push(CommandEntry { name: "showb", min_args: 0, id: CommandId::ShowBuffer, usage: "[-b buffer-name]" });
    v.push(CommandEntry { name: "set-buffer", min_args: 1, id: CommandId::SetBuffer, usage: "[-b buffer-name] data" });
    assert(entries_view(v@) =~= start + command_table().subrange(75, 100));
}

fn push_commands_4(v: &mut Vec<CommandEntry>)
    ensures
        entries_view(final(v)@) == entries_view(old(v)@) + command_table().subrange(100, 125),
{
    let ghost start = entries_view(v@);
    v.push(CommandEntry { name: "setb", min_args: 1, id: CommandId::SetBuffer, usage: "[-b buffer-name] data" });
    v.push(CommandEntry { name: "delete-buffer", min_args: 0, id: CommandId::DeleteBuffer, usage: "-b buffer-name" });
    v.push(CommandEntry { name: "deleteb", min_args: 0, id: CommandId::DeleteBuffer, usage: "-b buffer-name" });
    v.push(CommandEntry { name: "save-buffer", min_args: 1, id: CommandId::SaveBuffer, usage: "[-b buffer-name] path" });
    v.push(CommandEntry { name: "saveb", min_args: 1, id: CommandId::SaveBuffer, usage: "[-b buffer-name] path" });
    v.push(CommandEntry { name: "load-buffer", min_args: 1, id: CommandId::LoadBuffer, usage: "[-b buffer-name] path" });
    v.push(CommandEntry { name: "loadb", min_args: 1, id: CommandId::LoadBuffer, usage: "[-b buffer-name] path" });
    v.push(CommandEntry { name: "set-hook", min_args: 1, id: CommandId::SetHook, usage: "[-u] hook-name [command]" });
    v.push(CommandEntry { name: "show-hooks", min_args: 0, id: CommandId::ShowHooks, usage: "" });
    v.push(CommandEntry { name: "set-environment", min_args: 1, id: CommandId::SetEnvironment, usage: "[-g] [-u] [-t target-session] name [value]" });
    v.push(CommandEntry { name: "setenv", min_args: 1, id: CommandId::SetEnvironment, usage: "[-g] [-u] [-t target-session] name [value]" });
    v.push(CommandEntry { name: "show-environment", min_args: 0, id: CommandId::ShowEnvironment, usage: "[-g] [-t target-session] [name]" });
    v.push(CommandEntry { name: "showenv", min_args: 0, id: CommandId::ShowEnvironment, usage: "[-g] [-t target-session] [name]" });
    v.push(CommandEntry { name: "confirm-before", min_args: 1, id: CommandId::ConfirmBefore, usage: "[-p prompt] command" });
    v.push(CommandEntry { name: "confirm", min_args: 1, id: CommandId::ConfirmBefore, usage: "[-p prompt] command" });
    v.push(CommandEntry { name: "wait-for", min_args: 1, id: CommandId::WaitFor, usage: "[-L|-U|-S] channel" });
    v.push(CommandEntry { name: "wait", min_args: 1, id: CommandId::WaitFor, usage: "[-L|-U|-S] channel" });
    v.push(CommandEntry { name: "display-panes", min_args: 0, id: CommandId::DisplayPanes, usage: "[-d duration] [-t target-client]" });
    v.push(CommandEntry { name: "displayp", min_args: 0, id: CommandId::DisplayPanes, usage: "[-d duration]" });
    v.push(CommandEntry { name: "clock-mode", min_args: 0, id: CommandId::ClockMode, usage: "[-t target-pane]" });
    v.push(CommandEntry { name: "choose-tree", min_args: 0, id: CommandId::ChooseTree, usage: "[-t target-pane]" });
    v.push(CommandEntry { name: "choose-buffer", min_args: 0, id: CommandId::ChooseBuffer, usage: "[-t target-pane]" });
    v.push(CommandEntry { name: "choose-client", min_args: 0, id: CommandId::ChooseClient, usage: "[-t target-pane]" });
    v.push(CommandEntry { name: "display-menu", min_args: 0, id: CommandId::DisplayMenu, usage: "[-t target-pane] [-T title] name key command ..." });
    v.push(CommandEntry { name: "menu", min_args: 0, id: CommandId::DisplayMenu, usage: "[-t target-pane]" });
    assert(entries_view(v@) =~= start + command_table().subrange(100, 125));
}

fn push_commands_5(v: &mut Vec<CommandEntry>)
    ensures
        entries_view(final(v)@) == entries_view(old(v)@) + command_table().subrange(125, 149),
{
    let ghost start = entries_view(v@);
    v.push(CommandEntry { name: "display-popup", min_args: 0, id: CommandId::DisplayPopup, usage: "[-t target-pane] [-w width] [-h height] [command]" });
    v.push(CommandEntry { name: "popup", min_args: 0, id: CommandId::DisplayPopup, usage: "[command]" });
    v.push(CommandEntry { name: "customize-mode", min_args: 0, id: CommandId::CustomizeMode, usage: "[-t target-pane]" });
    v.push(CommandEntry { name: "clear-prompt-history", min_args: 0, id: CommandId::ClearPromptHistory, usage: "" });
    v.push(CommandEntry { name: "show-prompt-history", min_args: 0, id: CommandId::ShowPromptHistory, usage: "" });
    v.push(CommandEntry { name: "suspend-client", min_args: 0, id: CommandId::SuspendClient, usage: "[-t target-client]" });
    v.push(CommandEntry { name: "suspendc", min_args: 0, id: CommandId::SuspendClient, usage: "[-t target-client]" });
    v.push(CommandEntry { name: "lock-server", min_args: 0, id: CommandId::LockServer, usage: "" });
    v.push(CommandEntry { name: "lock", min_args: 0, id: CommandId::LockServer, usage: "" });
    v.push(CommandEntry { name: "lock-session", min_args: 0, id: CommandId::LockSession, usage: "[-t target-session]" });
    v.push(CommandEntry { name: "locks", min_args: 0, id: CommandId::LockSession, usage: "[-t target-session]" });
    v.push(CommandEntry { name: "lock-client", min_args: 0, id: CommandId::LockClient, usage: "[-t target-client]" });
    v.push(CommandEntry { name: "lockc", min_args: 0, id: CommandId::LockClient, usage: "[-t target-client]" });
    v.push(CommandEntry { name: "link-window", min_args: 0, id: CommandId::LinkWindow, usage: "[-s src] [-t dst]" });
    v.push(CommandEntry { name: "linkw", min_args: 0, id: CommandId::LinkWindow, usage: "[-s src] [-t dst]" });
    v.push(CommandEntry { name: "unlink-window", min_args: 0, id: CommandId::UnlinkWindow, usage: "[-t target-window]" });
    v.push(CommandEntry { name: "unlinkw", min_args: 0, id: CommandId::UnlinkWindow, usage: "[-t target-window]" });
    v.push(CommandEntry { name: "move-pane", min_args: 0, id: CommandId::MovePane, usage: "[-s src] [-t dst]" });
    v.push(CommandEntry { name: "movep", min_args: 0, id: CommandId::MovePane, usage: "[-s src] [-t dst]" });
    v.push(CommandEntry { name: "pipe-pane", min_args: 0, id: CommandId::PipePane, usage: "[-o] [-t target-pane] [command]" });
    v.push(CommandEntry { name: "pipep", min_args: 0, id: CommandId::PipePane, usage: "[-o] [-t target-pane] [command]" });
    v.push(CommandEntry { name: "resize-window", min_args: 0, id: CommandId::ResizeWindow, usage: "[-t target-window] [-x width] [-y height]" });
    v.push(CommandEntry { name: "resizew", min_args: 0, id: CommandId::ResizeWindow, usage: "[-t target-window]" });
    v.push(CommandEntry { name: "server-access", min_args: 0, id: CommandId::ServerAccess, usage: "[-adlrw] [user]" });
    assert(entries_view(v@) =~= start + command_table().subrange(125, 149));
}

/// All registered built-in commands.
pub fn commands() -> (r: Vec<CommandEntry>)
    ensures
        entries_view(r@) == command_table(),
{
    let mut v: Vec<CommandEntry> = Vec::new();
    assert(entries_view(v@) =~= Seq::<EntryView>::empty());
    push_commands_0(&mut v);
    push_commands_1(&mut v);
    push_commands_2(&mut v);
    push_commands_3(&mut v);
    push_commands_4(&mut v);
    push_commands_5(&mut v);
    assert(command_table().subrange(0, 149) =~= command_table());
    assert(Seq::<EntryView>::empty() + command_table().subrange(0, 25) + command_table().subrange(25, 50) + command_table().subrange(50, 75) + command_table().subrange(75, 100) + command_table().subrange(100, 125) + command_table().subrange(125, 149) =~= command_table());
    v
}

/// What handler `id` returns for arguments `args`, as each handler states it.
pub open spec fn handler_outcome(id: CommandId, args: Seq<Seq<char>>, r: Result<CommandResult, ServerError>) -> bool {
    match id {
        CommandId::NewSession => (r matches Ok(res) ==> (flag_set(args, "-d"@) ==> res is Done) && (!flag_set(args, "-d"@) ==> res is Attach)),
        CommandId::KillSession => (r matches Ok(res) ==> res is Done),
        CommandId::ListSessions => (r matches Ok(CommandResult::Output(o)) && (o@ == "no server running on this socket\n"@ || exists|lines: Seq<Seq<char>>| lines.len() > 0 && o@ == #[trigger] lines_text(lines))),
        CommandId::HasSession => (r matches Ok(res) ==> res is Done) && (r matches Err(e) ==> e.msg() == "session not found: "@ + target_or_zero(args)),
        CommandId::RenameSession => (last_non_flag(args) is None ==> (r matches Err(e) && e.msg() == "rename-session: missing name"@)) && (r matches Ok(res) ==> res is Done),
        CommandId::AttachSession => (r matches Ok(res) ==> res is Attach),
        CommandId::DetachClient => (!flag_set(args, "-a"@) ==> r matches Ok(CommandResult::Detach)) && (flag_set(args, "-a"@) ==> (r is Err || r matches Ok(CommandResult::Done))),
        CommandId::SwitchClient => (r matches Ok(res) ==> res is Done) && (!flag_set(args, "-l"@) && !flag_set(args, "-n"@) && !flag_set(args, "-p"@) && option_value(args, "-t"@) is None ==> (r matches Err(e) && e.msg() == "switch-client: missing -t target"@)),
        CommandId::RefreshClient => (r matches Ok(CommandResult::Done)),
        CommandId::NewWindow => (r matches Ok(res) ==> res is Done),
        CommandId::KillWindow => (r matches Ok(res) ==> res is Done) && (window_index_target(args) matches Some(Err(m)) ==> r is Err),
        CommandId::SelectWindow => (r matches Ok(res) ==> res is Done),
        CommandId::NextWindow => (r matches Ok(res) ==> res is Done),
        CommandId::PreviousWindow => (r matches Ok(res) ==> res is Done),
        CommandId::LastWindow => (r matches Ok(res) ==> res is Done),
        CommandId::RenameWindow => (r matches Ok(res) ==> res is Done) && (last_plain(args) is None ==> r is Err),
        CommandId::ListWindows => (r matches Ok(res) ==> res is Output) && (flag_set(args, "-a"@) ==> r is Ok),
        CommandId::FindWindow => (r matches Ok(res) ==> res is Output) && (positionals(args, seq!["-t"@]).len() == 0 ==> r is Err),
        CommandId::SplitWindow => (r matches Ok(res) ==> res is Done),
        CommandId::SelectPane => (r matches Ok(res) ==> res is Done) && (select_pane_mode(args) == PaneSelection::Keep ==> (r matches Err(e) ==> session_window_failure(args, e.msg(),))) && (select_pane_mode(args) == PaneSelection::Target ==> (option_value(args, "-t"@) matches Some(t) ==> ((split_once(t, ':') is Some ==> (r matches Err(e) ==> session_window_failure(args, e.msg(),))) && (split_once(t, ':') is None && t != "+"@ && pane_id_text(t) is None ==> (r matches Err(e) ==> (session_window_failure(args, e.msg()) || e.msg() == "invalid pane: "@ + t)))))),
        CommandId::KillPane => (r matches Ok(res) ==> res is Done),
        CommandId::ListPanes => (r matches Ok(res) ==> res is Output) && (flag_set(args, "-a"@) ==> r is Ok),
        CommandId::DisplayMessage => (exists|c: crate::format::ContextView| #[trigger] display_message_shows(args, c, r)) && (flag_set(args, "-a"@) ==> (r matches Ok(CommandResult::Output(_)))) && (!flag_set(args, "-a"@) && !flag_set(args, "-p"@) && message_text(args).len() == 0 ==> (r matches Ok(CommandResult::Done))),
        CommandId::ListCommands => (r matches Ok(CommandResult::Output(_))),
        CommandId::ListKeys => (r matches Ok(CommandResult::Output(_))),
        CommandId::ShowMessages => (r matches Ok(CommandResult::Output(_))),
        CommandId::ListClients => (r matches Ok(CommandResult::Output(_))),
        CommandId::KillServer => (r matches Ok(CommandResult::Exit)),
        CommandId::StartServer => (r matches Ok(CommandResult::Done)),
        CommandId::SendKeys => (r matches Ok(res) ==> res is Done) && (positionals(args, seq!["-t"@, "-N"@]).len() == 0 && flag_set(args, "-X"@) && !flag_set(args, "-R"@) ==> (r matches Err(e) && e.msg() == "send-keys -X: no command specified"@)) && (positionals(args, seq!["-t"@, "-N"@]).len() == 0 ==> r is Err),
        CommandId::SetOption => (r matches Ok(res) ==> res is Done) && (positionals(args, seq!["-t"@]).len() == 0 && flag_set(args, "-q"@) ==> r matches Ok(CommandResult::Done)) && (positionals(args, seq!["-t"@]).len() == 0 && !flag_set(args, "-q"@) ==> (r matches Err(e) && e.msg() == "set-option: missing option name"@)) && (positionals(args, seq!["-t"@]).len() == 1 && !flag_set(args, "-u"@) && !flag_set(args, "-U"@) && !flag_set(args, "-q"@) ==> (r matches Err(e) && e.msg() == "set-option: missing value"@)),
        CommandId::ShowOptions => (r matches Ok(CommandResult::Output(_))),
        CommandId::SetWindowOption => (r matches Ok(res) ==> res is Done),
        CommandId::ShowWindowOptions => (r matches Ok(CommandResult::Output(_))),
        CommandId::BindKey => (bind_key_start(args, 0) >= args.len() ==> (r matches Err(e) && e.msg() == "bind-key: missing key"@)) && (bind_key_start(args, 0) + 1 == args.len() ==> (r matches Err(e) && e.msg() == "bind-key: missing command"@)) && (r matches Ok(res) ==> res is Done),
        CommandId::UnbindKey => (flag_set(args, "-a"@) ==> r matches Ok(CommandResult::Done)) && (!flag_set(args, "-a"@) && positionals(args, seq!["-T"@]).len() == 0 ==> (r matches Err(e) && e.msg() == "unbind-key: missing key"@)) && (flag_set(args, "-q"@) && positionals(args, seq!["-T"@]).len() > 0 ==> r matches Ok(CommandResult::Done)) && (r matches Ok(res) ==> res is Done),
        CommandId::SourceFile => (plain_positionals(args).len() == 0 ==> (r matches Err(e) && e.msg() == "source-file: missing path"@)) && (r matches Ok(res) ==> (res is Done || res is Output)),
        CommandId::CapturePane => (r matches Ok(res) ==> (option_value(args, "-b"@) is Some ==> res is Done) && (option_value(args, "-b"@,) is None ==> res is Output)),
        CommandId::ResizePane => (r matches Ok(res) ==> res is Done),
        CommandId::SwapPane => (r matches Ok(res) ==> res is Done),
        CommandId::BreakPane => (r matches Ok(res) ==> res is Done),
        CommandId::JoinPane => (r matches Ok(res) ==> res is Done),
        CommandId::LastPane => (r matches Ok(res) ==> res is Done),
        CommandId::RespawnPane => (r matches Ok(res) ==> res is Done),
        CommandId::SwapWindow => (r matches Ok(res) ==> res is Done),
        CommandId::MoveWindow => (r matches Ok(res) ==> res is Done),
        CommandId::RotateWindow => (r matches Ok(res) ==> res is Done),
        CommandId::SelectLayout => (r matches Ok(res) ==> res is Done),
        CommandId::RespawnWindow => (r matches Ok(res) ==> res is Done),
        CommandId::NextLayout => (r matches Ok(res) ==> res is Done),
        CommandId::PreviousLayout => (r matches Ok(res) ==> res is Done),
        CommandId::IfShell => (r matches Ok(res) ==> res is Done) && (positionals(args, seq!["-t"@]).len() < 2 ==> (r matches Err(e) && e.msg() == "if-shell: requires shell-command and command"@)),
        CommandId::SendPrefix => (r matches Ok(res) ==> res is Done),
        CommandId::ClearHistory => (r matches Ok(res) ==> res is Done),
        CommandId::RunShell => (plain_positionals(args).len() == 0 ==> (r matches Err(e) && e.msg() == "run-shell: missing command"@)) && (plain_positionals(args).len() > 0 && flag_set(args, "-b"@) ==> (r matches Ok(CommandResult::RunShellBackground(c)) && c@ == join(plain_positionals(args), " "@))) && (plain_positionals(args).len() > 0 && !flag_set(args, "-b"@) ==> (r matches Ok(CommandResult::RunShell(c)) && c@ == join(plain_positionals(args), " "@))),
        CommandId::CommandPrompt => (r matches Ok(CommandResult::Done)),
        CommandId::CopyMode => (r matches Ok(res) ==> res is Done) && (flag_set(args, "-q"@) ==> r matches Ok(CommandResult::Done)),
        CommandId::PasteBuffer => (r matches Ok(res) ==> res is Done),
        CommandId::ListBuffers => (r matches Ok(res) && (res is Done || res is Output)),
        CommandId::ShowBuffer => (r matches Ok(res) ==> res is Output),
        CommandId::SetBuffer => (r matches Ok(res) ==> res is Done) && (positionals(args, seq!["-b"@]).len() == 0 ==> (r matches Err(e) && e.msg() == "usage: set-buffer [-b name] data"@)),
        CommandId::DeleteBuffer => (r matches Ok(res) ==> res is Done) && (option_value(args, "-b"@) is None ==> (r matches Err(e) && e.msg() == "usage: delete-buffer -b name"@)),
        CommandId::SaveBuffer => (r matches Ok(res) ==> res is Done) && (positionals(args, seq!["-b"@]).len() == 0 ==> (r matches Err(e) && e.msg() == "usage: save-buffer [-b name] path"@)),
        CommandId::LoadBuffer => (r matches Ok(res) ==> res is Done) && (positionals(args, seq!["-b"@]).len() == 0 ==> (r matches Err(e) && e.msg() == "usage: load-buffer [-b name] path"@)),
        CommandId::SetHook => (plain_positionals(args).len() == 0 ==> (r matches Err(e) && e.msg() == "set-hook: missing hook name"@)) && (plain_positionals(args).len() == 1 && !flag_set(args, "-u"@) ==> (r matches Err(e) && e.msg() == "set-hook: missing command"@)) && (plain_positionals(args).len() >= 2 && !flag_set(args, "-u"@) ==> r matches Ok(CommandResult::Done)) && (plain_positionals(args).len() > 0 && flag_set(args, "-u"@) ==> (r matches Ok(CommandResult::Done) || (r matches Err(e) && e.msg() == "hook not found: "@ + plain_positionals(args)[0]))),
        CommandId::ShowHooks => (r matches Ok(res) && (res is Done || res is Output)),
        CommandId::SetEnvironment => (r matches Ok(res) ==> res is Done) && (flag_set(args, "-g"@) && positionals(args, seq!["-t"@]).len() == 0 ==> (r matches Err(e) && e.msg() == "usage: set-environment [-g] [-u] [-t target] name [value]"@)),
        CommandId::ShowEnvironment => (r matches Ok(res) ==> (res is Done || res is Output)),
        CommandId::ConfirmBefore => (positionals(args, seq!["-p"@, "-t"@]).len() == 0 ==> (r matches Err(e) && e.msg() == "confirm-before: missing command"@)) && (positionals(args, seq!["-p"@, "-t"@]).len() > 0 ==> r matches Ok(CommandResult::Done)),
        CommandId::WaitFor => (wait_channel(args) is None ==> (r matches Err(e) && e.msg() == "usage: wait-for [-L|-U|-S] channel"@)) && (wait_channel(args) is Some && flag_set(args, "-S"@) ==> r matches Ok(CommandResult::Done,)) && (wait_channel(args) is Some && !flag_set(args, "-S"@) && !flag_set(args, "-L"@,) && !flag_set(args, "-U"@) ==> r matches Ok(CommandResult::Done)) && (r matches Ok(res) ==> res is Done),
        CommandId::DisplayPanes => (r matches Ok(res) ==> res is Output) && (option_value(args, "-t"@) is None ==> (r matches Err(e) ==> e.msg() == "no current session"@)),
        CommandId::ClockMode => (r matches Ok(CommandResult::Output(o)) && exists|t: (u32, u32, u32)| t.0 < 24 && t.1 < 60 && t.2 < 60 && o@ == clock_text(t)),
        CommandId::ChooseTree => (r matches Ok(res) && exists|t: Seq<(Seq<char>, usize, Seq<(u32, Seq<char>, bool, usize)>)>| #[trigger] choose_tree_shows(t, flag_set(args, "-s"@), res)),
        CommandId::ChooseBuffer => (r is Ok),
        CommandId::ChooseClient => (r is Ok),
        CommandId::DisplayMenu => (display_menu_view(args).items.len() == 0 ==> r matches Ok(CommandResult::Done)) && (display_menu_view(args).items.len() > 0 ==> (r matches Ok(CommandResult::Overlay(OverlayState::Menu(m)),) && m@ == display_menu_view(args))),
        CommandId::DisplayPopup => (r matches Ok(CommandResult::Done)),
        CommandId::CustomizeMode => (r matches Ok(CommandResult::Done)),
        CommandId::ClearPromptHistory => (r matches Ok(CommandResult::Done)),
        CommandId::ShowPromptHistory => (r matches Ok(CommandResult::Output(_))),
        CommandId::SuspendClient => (r matches Ok(CommandResult::Suspend)),
        CommandId::LockServer => (r matches Ok(CommandResult::Done)),
        CommandId::LockSession => (r matches Ok(CommandResult::Done)),
        CommandId::LockClient => (r matches Ok(CommandResult::Done)),
        CommandId::LinkWindow => (r matches Ok(res) ==> res is Done),
        CommandId::UnlinkWindow => (r matches Ok(res) ==> res is Done),
        CommandId::MovePane => (r matches Ok(res) ==> res is Done),
        CommandId::PipePane => (r matches Ok(res) ==> res is Done),
        CommandId::ResizeWindow => (r matches Ok(res) ==> res is Done) && (option_value(args, "-x"@) matches Some(v) ==> (!resize_by_direction(args) && parse_u32(v) is None ==> (r matches Err(e) && (e.msg() == "invalid width: "@ + v || session_resolution_error(args, e.msg()))))) && (option_value(args, "-y"@) matches Some(v) ==> (!resize_by_direction(args) && option_value(args, "-x"@) is None && parse_u32(v) is None ==> (r matches Err(e) && (e.msg() == "invalid height: "@ + v || session_resolution_error(args, e.msg()))))) && (!resize_by_direction(args) && option_value(args, "-x"@) is None && option_value(args, "-y"@) is None && !flag_set(args, "-A"@) ==> (r matches Err(e) && (e.msg() == "usage: resize-window [-x width] [-y height]"@ || session_resolution_error(args, e.msg(),)))),
        CommandId::ServerAccess => (r matches Ok(CommandResult::Done)),
    }
}

/// Runs the handler `id` on a command's arguments.
fn dispatch<S: CommandServer + ?Sized>(id: CommandId, args: &[String], server: &mut S) -> (r: Result<CommandResult, ServerError>)
    ensures
        handler_outcome(id, strings_view(args@), r),
{
    match id {
        CommandId::NewSession => builtins::session::cmd_new_session(args, server),
        CommandId::KillSession => builtins::session::cmd_kill_session(args, server),
        CommandId::ListSessions => builtins::session::cmd_list_sessions(args, server),
        CommandId::HasSession => builtins::session::cmd_has_session(args, server),
        CommandId::RenameSession => builtins::session::cmd_rename_session(args, server),
        CommandId::AttachSession => builtins::client::cmd_attach_session(args, server),
        CommandId::DetachClient => builtins::client::cmd_detach_client(args, server),
        CommandId::SwitchClient => builtins::client::cmd_switch_client(args, server),
        CommandId::RefreshClient => builtins::client::cmd_refresh_client(args, server),
        CommandId::NewWindow => builtins::window::cmd_new_window(args, server),
        CommandId::KillWindow => builtins::window::cmd_kill_window(args, server),
        CommandId::SelectWindow => builtins::window::cmd_select_window(args, server),
        CommandId::NextWindow => builtins::window::cmd_next_window(args, server),
        CommandId::PreviousWindow => builtins::window::cmd_previous_window(args, server),
        CommandId::LastWindow => builtins::window::cmd_last_window(args, server),
        CommandId::RenameWindow => builtins::window::cmd_rename_window(args, server),
        CommandId::ListWindows => builtins::window::cmd_list_windows(args, server),
        CommandId::FindWindow => builtins::window::cmd_find_window(args, server),
        CommandId::SplitWindow => builtins::pane::cmd_split_window(args, server),
        CommandId::SelectPane => builtins::pane::cmd_select_pane(args, server),
        CommandId::KillPane => builtins::pane::cmd_kill_pane(args, server),
        CommandId::ListPanes => builtins::pane::cmd_list_panes(args, server),
        CommandId::DisplayMessage => builtins::display::cmd_display_message(args, server),
        CommandId::ListCommands => builtins::display::cmd_list_commands(args, server),
        CommandId::ListKeys => builtins::display::cmd_list_keys(args, server),
        CommandId::ShowMessages => builtins::display::cmd_show_messages(args, server),
        CommandId::ListClients => builtins::display::cmd_list_clients(args, server),
        CommandId::KillServer => builtins::server_cmds::cmd_kill_server(args, server),
        CommandId::StartServer => builtins::server_cmds::cmd_start_server(args, server),
        CommandId::SendKeys => builtins::server_cmds::cmd_send_keys(args, server),
        CommandId::SetOption => builtins::options::cmd_set_option(args, server),
        CommandId::ShowOptions => builtins::options::cmd_show_options(args, server),
        CommandId::SetWindowOption => builtins::options::cmd_set_window_option(args, server),
        CommandId::ShowWindowOptions => builtins::options::cmd_show_window_options(args, server),
        CommandId::BindKey => builtins::server_cmds::cmd_bind_key(args, server),
        CommandId::UnbindKey => builtins::server_cmds::cmd_unbind_key(args, server),
        CommandId::SourceFile => builtins::server_cmds::cmd_source_file(args, server),
        CommandId::CapturePane => builtins::pane::cmd_capture_pane(args, server),
        CommandId::ResizePane => builtins::pane::cmd_resize_pane(args, server),
        CommandId::SwapPane => builtins::pane::cmd_swap_pane(args, server),
        CommandId::BreakPane => builtins::pane::cmd_break_pane(args, server),
        CommandId::JoinPane => builtins::pane::cmd_join_pane(args, server),
        CommandId::LastPane => builtins::pane::cmd_last_pane(args, server),
        CommandId::RespawnPane => builtins::pane::cmd_respawn_pane(args, server),
        CommandId::SwapWindow => builtins::window::cmd_swap_window(args, server),
        CommandId::MoveWindow => builtins::window::cmd_move_window(args, server),
        CommandId::RotateWindow => builtins::window::cmd_rotate_window(args, server),
        CommandId::SelectLayout => builtins::window::cmd_select_layout(args, server),
        CommandId::RespawnWindow => builtins::window::cmd_respawn_window(args, server),
        CommandId::NextLayout => builtins::window::cmd_next_layout(args, server),
        CommandId::PreviousLayout => builtins::window::cmd_previous_layout(args, server),
        CommandId::IfShell => builtins::server_cmds::cmd_if_shell(args, server),
        CommandId::SendPrefix => builtins::server_cmds::cmd_send_prefix(args, server),
        CommandId::ClearHistory => builtins::server_cmds::cmd_clear_history(args, server),
        CommandId::RunShell => builtins::server_cmds::cmd_run_shell(args, server),
        CommandId::CommandPrompt => builtins::server_cmds::cmd_command_prompt(args, server),
        CommandId::CopyMode => builtins::paste::cmd_copy_mode(args, server),
        CommandId::PasteBuffer => builtins::paste::cmd_paste_buffer(args, server),
        CommandId::ListBuffers => builtins::paste::cmd_list_buffers(args, server),
        CommandId::ShowBuffer => builtins::paste::cmd_show_buffer(args, server),
        CommandId::SetBuffer => builtins::paste::cmd_set_buffer(args, server),
        CommandId::DeleteBuffer => builtins::paste::cmd_delete_buffer(args, server),
        CommandId::SaveBuffer => builtins::paste::cmd_save_buffer(args, server),
        CommandId::LoadBuffer => builtins::paste::cmd_load_buffer(args, server),
        CommandId::SetHook => builtins::server_cmds::cmd_set_hook(args, server),
        CommandId::ShowHooks => builtins::server_cmds::cmd_show_hooks(args, server),
        CommandId::SetEnvironment => builtins::environment::cmd_set_environment(args, server),
        CommandId::ShowEnvironment => builtins::environment::cmd_show_environment(args, server),
        CommandId::ConfirmBefore => builtins::server_cmds::cmd_confirm_before(args, server),
        CommandId::WaitFor => builtins::server_cmds::cmd_wait_for(args, server),
        CommandId::DisplayPanes => builtins::display::cmd_display_panes(args, server),
        CommandId::ClockMode => builtins::display::cmd_clock_mode(args, server),
        CommandId::ChooseTree => builtins::display::cmd_choose_tree(args, server),
        CommandId::ChooseBuffer => builtins::display::cmd_choose_buffer(args, server),
        CommandId::ChooseClient => builtins::display::cmd_choose_client(args, server),
        CommandId::DisplayMenu => builtins::display::cmd_display_menu(args, server),
        CommandId::DisplayPopup => builtins::display::cmd_display_popup(args, server),
        CommandId::CustomizeMode => builtins::display::cmd_customize_mode(args, server),
        CommandId::ClearPromptHistory => builtins::display::cmd_clear_prompt_history(args, server),
        CommandId::ShowPromptHistory => builtins::display::cmd_show_prompt_history(args, server),
        CommandId::SuspendClient => builtins::client::cmd_suspend_client(args, server),
        CommandId::LockServer => builtins::display::cmd_lock_server(args, server),
        CommandId::LockSession => builtins::display::cmd_lock_session(args, server),
        CommandId::LockClient => builtins::display::cmd_lock_client(args, server),
        CommandId::LinkWindow => builtins::window::cmd_link_window(args, server),
        CommandId::UnlinkWindow => builtins::window::cmd_unlink_window(args, server),
        CommandId::MovePane => builtins::window::cmd_move_pane(args, server),
        CommandId::PipePane => builtins::display::cmd_pipe_pane(args, server),
        CommandId::ResizeWindow => builtins::display::cmd_resize_window(args, server),
        CommandId::ServerAccess => builtins::display::cmd_server_access(args, server),
    }
}

} // verus!
