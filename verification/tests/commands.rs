use rmux::command::builtins::options::cmd_set_option;
use rmux::command::{execute_command, CommandResult, CommandServer};
use rmux::hooks::HookStore;
use rmux::keybind::KeyBindings;
use rmux::server::ServerError;

fn cmd_err(msg: &str) -> ServerError {
    ServerError::Command(msg.to_string())
}

struct MockWindow {
    idx: u32,
    name: String,
    sx: u32,
    sy: u32,
    panes: Vec<u32>,
    options: Vec<(String, String)>,
}

struct MockSession {
    id: u32,
    name: String,
    windows: Vec<MockWindow>,
    active_window: u32,
    options: Vec<(String, String)>,
}

/// An in-memory command server for exercising command handlers.
struct MockCommandServer {
    sessions: Vec<MockSession>,
    next_session_id: u32,
    next_pane_id: u32,
    client_session_id: Option<u32>,
    last_session_id: Option<u32>,
    options: Vec<(String, String)>,
    hooks: HookStore,
    keys: KeyBindings,
    prompt_history: Vec<String>,
    prompt_entered: bool,
    buffers: Vec<(String, String)>,
    environment: Vec<(String, String)>,
    piping: bool,
    /// The window and pane operations the handlers asked for, in order.
    log: Vec<String>,
    layout: String,
    /// The bytes written to panes, in order.
    written: std::cell::RefCell<Vec<Vec<u8>>>,
    /// Files that read_file and glob_paths see, by path.
    files: Vec<(String, String)>,
    hidden: rmux::config::VarTable,
}

fn opt_get<'a>(list: &'a [(String, String)], key: &str) -> Option<&'a String> {
    list.iter().find(|(k, _)| k == key).map(|(_, v)| v)
}

fn opt_set(list: &mut Vec<(String, String)>, key: &str, value: &str) {
    if let Some(e) = list.iter_mut().find(|(k, _)| k == key) {
        e.1 = value.to_string();
    } else {
        list.push((key.to_string(), value.to_string()));
    }
}

fn opt_append(list: &mut Vec<(String, String)>, key: &str, value: &str) {
    let cur = opt_get(list, key).cloned().unwrap_or_default();
    opt_set(list, key, &format!("{cur}{value}"));
}

fn opt_unset(list: &mut Vec<(String, String)>, key: &str) {
    list.retain(|(k, _)| k != key);
}

fn overlay(base: &[(String, String)], local: &[(String, String)]) -> Vec<String> {
    let mut merged: Vec<(String, String)> = base.to_vec();
    for (k, v) in local {
        opt_set(&mut merged, k, v);
    }
    merged.iter().map(|(k, v)| format!("{k} {v}")).collect()
}

impl MockCommandServer {
    fn new() -> Self {
        let defaults = [
            ("prefix", "C-b"),
            ("lock-after-time", "0"),
            ("lock-command", "lock -np"),
            ("word-separators", " "),
            ("pane-border-status", "off"),
            ("pane-border-format", "#{pane_index}"),
            ("status", "on"),
        ];
        MockCommandServer {
            sessions: Vec::new(),
            next_session_id: 0,
            next_pane_id: 0,
            client_session_id: None,
            last_session_id: None,
            options: defaults.iter().map(|(k, v)| (k.to_string(), v.to_string())).collect(),
            hooks: HookStore::new(),
            keys: KeyBindings::default_bindings(),
            prompt_history: Vec::new(),
            prompt_entered: false,
            buffers: Vec::new(),
            environment: Vec::new(),
            piping: false,
            log: Vec::new(),
            layout: "even-horizontal".to_string(),
            written: std::cell::RefCell::new(Vec::new()),
            files: Vec::new(),
            hidden: rmux::config::VarTable::new(),
        }
    }

    /// Creates a session with one window and one pane, attaches the client
    /// to it, and returns (session id, window index, pane id).
    fn create_test_session(&mut self, name: &str) -> (u32, u32, u32) {
        let sid = self.create_session(name, "/tmp", 80, 24, None).unwrap();
        self.client_session_id = Some(sid);
        let s = self.session(sid).unwrap();
        (sid, s.active_window, s.windows[0].panes[0])
    }

    fn session(&self, id: u32) -> Option<&MockSession> {
        self.sessions.iter().find(|s| s.id == id)
    }

    fn session_mut(&mut self, id: u32) -> Option<&mut MockSession> {
        self.sessions.iter_mut().find(|s| s.id == id)
    }

    fn window_size(&self, sid: u32) -> (u32, u32) {
        let s = self.session(sid).unwrap();
        let w = s.windows.iter().find(|w| w.idx == s.active_window).unwrap();
        (w.sx, w.sy)
    }

    fn add_prompt_history(&mut self, entry: String) {
        if self.prompt_history.first() == Some(&entry) {
            return;
        }
        self.prompt_history.insert(0, entry);
        self.prompt_history.truncate(100);
    }

    fn window_mut(&mut self, sid: u32, widx: u32) -> Result<&mut MockWindow, ServerError> {
        let s = self.session_mut(sid).ok_or_else(|| cmd_err("session not found"))?;
        s.windows.iter_mut().find(|w| w.idx == widx).ok_or_else(|| cmd_err("window not found"))
    }
}

impl CommandServer for MockCommandServer {
    fn client_session_id(&self) -> Option<u32> {
        self.client_session_id
    }
    fn client_active_window(&self) -> Option<u32> {
        self.client_session_id.and_then(|id| self.session(id)).map(|s| s.active_window)
    }
    fn client_sx(&self) -> u32 {
        80
    }
    fn client_sy(&self) -> u32 {
        24
    }
    fn default_cwd(&self) -> String {
        "/".to_string()
    }
    fn create_session(&mut self, name: &str, _cwd: &str, sx: u32, sy: u32, _shell_cmd: Option<&str>) -> Result<u32, ServerError> {
        if self.has_session(name) {
            return Err(cmd_err(&format!("duplicate session: {name}")));
        }
        let id = self.next_session_id;
        self.next_session_id += 1;
        let pane = self.next_pane_id;
        self.next_pane_id += 1;
        self.sessions.push(MockSession {
            id,
            name: name.to_string(),
            windows: vec![MockWindow { idx: 0, name: "bash".to_string(), sx, sy, panes: vec![pane], options: Vec::new() }],
            active_window: 0,
            options: Vec::new(),
        });
        Ok(id)
    }
    fn kill_session(&mut self, name: &str) -> Result<(), ServerError> {
        let before = self.sessions.len();
        self.sessions.retain(|s| s.name != name);
        if self.sessions.len() == before {
            return Err(cmd_err(&format!("session not found: {name}")));
        }
        Ok(())
    }
    fn has_session(&self, name: &str) -> bool {
        self.sessions.iter().any(|s| s.name == name)
    }
    fn list_sessions(&self) -> Vec<String> {
        self.sessions.iter().map(|s| format!("{}: {} windows", s.name, s.windows.len())).collect()
    }
    fn find_session_id(&self, name: &str) -> Option<u32> {
        self.sessions.iter().find(|s| s.name == name).map(|s| s.id)
    }
    fn session_name_for_id(&self, id: u32) -> Option<String> {
        self.session(id).map(|s| s.name.clone())
    }
    fn rename_session(&mut self, name: &str, new_name: &str) -> Result<(), ServerError> {
        let s = self.sessions.iter_mut().find(|s| s.name == name).ok_or_else(|| cmd_err(&format!("session not found: {name}")))?;
        s.name = new_name.to_string();
        Ok(())
    }
    fn rename_window(&mut self, session_id: u32, window_idx: u32, name: &str) -> Result<(), ServerError> {
        self.window_mut(session_id, window_idx)?.name = name.to_string();
        Ok(())
    }
    fn active_window_for(&self, session_id: u32) -> Option<u32> {
        self.session(session_id).map(|s| s.active_window)
    }
    fn list_panes(&self, session_id: u32, window_idx: u32) -> Vec<String> {
        self.session(session_id)
            .and_then(|s| s.windows.iter().find(|w| w.idx == window_idx))
            .map(|w| w.panes.iter().map(|p| format!("%{p}: [{}x{}]", w.sx, w.sy)).collect())
            .unwrap_or_default()
    }
    fn resize_window(&mut self, session_id: u32, window_idx: u32, sx: Option<u32>, sy: Option<u32>) -> Result<(), ServerError> {
        let w = self.window_mut(session_id, window_idx)?;
        if let Some(x) = sx {
            w.sx = x;
        }
        if let Some(y) = sy {
            w.sy = y;
        }
        Ok(())
    }
    fn client_active_pane_id(&self) -> Option<u32> {
        let s = self.session(self.client_session_id?)?;
        s.windows.iter().find(|w| w.idx == s.active_window).map(|w| w.panes[0])
    }
    fn create_window(&mut self, session_id: u32, name: Option<&str>, cwd: &str, shell_cmd: Option<&str>) -> Result<(u32, u32), ServerError> {
        let pane = self.next_pane_id;
        self.next_pane_id += 1;
        let s = self.session_mut(session_id).ok_or_else(|| cmd_err("session not found"))?;
        let idx = s.windows.iter().map(|w| w.idx + 1).max().unwrap_or(0);
        s.windows.push(MockWindow { idx, name: name.unwrap_or("bash").to_string(), sx: 80, sy: 24, panes: vec![pane], options: Vec::new() });
        self.log.push(format!("create_window {session_id} {cwd} {shell_cmd:?}"));
        Ok((idx, pane))
    }
    fn kill_window(&mut self, session_id: u32, window_idx: u32) -> Result<(), ServerError> {
        let s = self.session_mut(session_id).ok_or_else(|| cmd_err("session not found"))?;
        let before = s.windows.len();
        s.windows.retain(|w| w.idx != window_idx);
        if s.windows.len() == before {
            return Err(cmd_err("window not found"));
        }
        Ok(())
    }
    fn select_window(&mut self, session_id: u32, window_idx: u32) -> Result<(), ServerError> {
        let s = self.session_mut(session_id).ok_or_else(|| cmd_err("session not found"))?;
        if !s.windows.iter().any(|w| w.idx == window_idx) {
            return Err(cmd_err("window not found"));
        }
        s.active_window = window_idx;
        Ok(())
    }
    fn next_window(&mut self, session_id: u32) -> Result<(), ServerError> {
        self.log.push(format!("next_window {session_id}"));
        Ok(())
    }
    fn previous_window(&mut self, session_id: u32) -> Result<(), ServerError> {
        self.log.push(format!("previous_window {session_id}"));
        Ok(())
    }
    fn last_window(&mut self, session_id: u32) -> Result<(), ServerError> {
        self.log.push(format!("last_window {session_id}"));
        Ok(())
    }
    fn list_windows(&self, session_id: u32) -> Vec<String> {
        self.session(session_id)
            .map(|s| s.windows.iter().map(|w| format!("{}: {} ({} panes)", w.idx, w.name, w.panes.len())).collect())
            .unwrap_or_default()
    }
    fn link_window(&mut self, src_session: u32, src_window_idx: u32, dst_session: u32, dst_window_idx: Option<u32>, kill_existing: bool) -> Result<u32, ServerError> {
        self.log.push(format!("link_window {src_session}:{src_window_idx} {dst_session}:{dst_window_idx:?} {kill_existing}"));
        Ok(dst_window_idx.unwrap_or(0))
    }
    fn unlink_window(&mut self, session_id: u32, window_idx: u32) -> Result<(), ServerError> {
        self.kill_window(session_id, window_idx)
    }
    fn split_window(&mut self, session_id: u32, window_idx: u32, horizontal: bool, _cwd: &str, size: Option<rmux::command::SplitSize>, _shell_cmd: Option<&str>) -> Result<u32, ServerError> {
        let pane = self.next_pane_id;
        self.next_pane_id += 1;
        self.window_mut(session_id, window_idx)?.panes.push(pane);
        self.log.push(format!("split_window {session_id}:{window_idx} {horizontal} {size:?}"));
        Ok(pane)
    }
    fn kill_pane(&mut self, session_id: u32, window_idx: u32, pane_id: u32) -> Result<(), ServerError> {
        let w = self.window_mut(session_id, window_idx)?;
        let before = w.panes.len();
        w.panes.retain(|p| *p != pane_id);
        if w.panes.len() == before {
            return Err(cmd_err("pane not found"));
        }
        Ok(())
    }
    fn select_pane_id(&mut self, session_id: u32, window_idx: u32, pane_id: u32) -> Result<(), ServerError> {
        self.log.push(format!("select_pane_id {session_id}:{window_idx} {pane_id}"));
        Ok(())
    }
    fn select_pane_direction(&mut self, session_id: u32, window_idx: u32, direction: rmux::command::Direction) -> Result<(), ServerError> {
        self.log.push(format!("select_pane_direction {session_id}:{window_idx} {direction:?}"));
        Ok(())
    }
    fn active_pane_id_for(&self, session_id: u32, window_idx: u32) -> Option<u32> {
        self.session(session_id)?.windows.iter().find(|w| w.idx == window_idx).map(|w| w.panes[0])
    }
    fn capture_pane(&self, _session_id: u32, _window_idx: u32, pane_id: u32) -> Result<String, ServerError> {
        Ok(format!("pane {pane_id}   \nsecond line\t\n"))
    }
    fn resize_pane(&mut self, session_id: u32, window_idx: u32, pane_id: u32, direction: Option<rmux::command::Direction>, amount: u32) -> Result<(), ServerError> {
        self.log.push(format!("resize_pane {session_id}:{window_idx} {pane_id} {direction:?} {amount}"));
        Ok(())
    }
    fn toggle_zoom(&mut self, session_id: u32, window_idx: u32, pane_id: u32) -> Result<(), ServerError> {
        self.log.push(format!("toggle_zoom {session_id}:{window_idx} {pane_id}"));
        Ok(())
    }
    fn unzoom_window(&mut self, session_id: u32, window_idx: u32) -> Result<(), ServerError> {
        self.log.push(format!("unzoom_window {session_id}:{window_idx}"));
        Ok(())
    }
    fn swap_pane(&mut self, session_id: u32, window_idx: u32, src: u32, dst: u32) -> Result<(), ServerError> {
        self.log.push(format!("swap_pane {session_id}:{window_idx} {src} {dst}"));
        Ok(())
    }
    fn swap_window(&mut self, session_id: u32, src_idx: u32, dst_idx: u32) -> Result<(), ServerError> {
        self.log.push(format!("swap_window {session_id} {src_idx} {dst_idx}"));
        Ok(())
    }
    fn move_window(&mut self, src_session_id: u32, src_idx: u32, dst_session_id: u32, dst_idx: u32) -> Result<(), ServerError> {
        self.log.push(format!("move_window {src_session_id}:{src_idx} {dst_session_id}:{dst_idx}"));
        Ok(())
    }
    fn break_pane(&mut self, session_id: u32, window_idx: u32, pane_id: u32) -> Result<u32, ServerError> {
        self.kill_pane(session_id, window_idx, pane_id)?;
        let s = self.session_mut(session_id).ok_or_else(|| cmd_err("session not found"))?;
        let idx = s.windows.iter().map(|w| w.idx + 1).max().unwrap_or(0);
        s.windows.push(MockWindow { idx, name: "bash".to_string(), sx: 80, sy: 24, panes: vec![pane_id], options: Vec::new() });
        Ok(idx)
    }
    fn join_pane(&mut self, src_session_id: u32, src_window_idx: u32, src_pane_id: u32, dst_session_id: u32, dst_window_idx: u32, horizontal: bool) -> Result<(), ServerError> {
        self.log.push(format!("join_pane {src_session_id}:{src_window_idx} {src_pane_id} {dst_session_id}:{dst_window_idx} {horizontal}"));
        Ok(())
    }
    fn last_pane(&mut self, session_id: u32, window_idx: u32) -> Result<(), ServerError> {
        self.log.push(format!("last_pane {session_id}:{window_idx}"));
        Ok(())
    }
    fn rotate_window(&mut self, session_id: u32, window_idx: u32, reverse: bool) -> Result<(), ServerError> {
        self.log.push(format!("rotate_window {session_id}:{window_idx} {reverse}"));
        Ok(())
    }
    fn select_layout(&mut self, _session_id: u32, _window_idx: u32, layout_name: &str) -> Result<(), ServerError> {
        self.layout = layout_name.to_string();
        Ok(())
    }
    fn respawn_pane(&mut self, session_id: u32, window_idx: u32, pane_id: u32, shell_cmd: Option<&str>) -> Result<(), ServerError> {
        self.log.push(format!("respawn_pane {session_id}:{window_idx} {pane_id} {shell_cmd:?}"));
        Ok(())
    }
    fn current_layout_name(&self, _session_id: u32, _window_idx: u32) -> String {
        self.layout.clone()
    }
    fn find_windows(&self, session_id: u32, pattern: &str) -> Vec<String> {
        self.list_windows(session_id).into_iter().filter(|w| w.contains(pattern)).collect()
    }
    fn session_tree_info(&self) -> Vec<rmux::command::SessionTreeInfo> {
        self.sessions
            .iter()
            .map(|s| {
                let attached = usize::from(self.client_session_id == Some(s.id));
                let windows = s.windows.iter().map(|w| (w.idx, w.name.clone(), w.idx == s.active_window, w.panes.len())).collect();
                (s.name.clone(), attached, windows)
            })
            .collect()
    }
    fn buffer_info_list(&self) -> Vec<(String, usize, String)> {
        self.buffers.iter().map(|(n, d)| (n.clone(), d.len(), d.clone())).collect()
    }
    fn client_info_list(&self) -> Vec<(u64, String, String)> {
        let name = self.client_session_id.and_then(|id| self.session_name_for_id(id)).unwrap_or_default();
        vec![(0, name, "80x24".to_string())]
    }
    fn build_format_context(&self) -> rmux::format::FormatContext {
        let mut ctx = rmux::format::FormatContext::new();
        if let Some(s) = self.client_session_id.and_then(|id| self.session(id)) {
            ctx.set("session_name", &s.name);
            ctx.set("window_index", &s.active_window.to_string());
        }
        for (k, v) in &self.options {
            if k.starts_with('@') {
                ctx.set_user_option(k, v);
            }
        }
        ctx
    }
    fn enter_copy_mode(&mut self) -> Result<(), ServerError> {
        self.log.push("enter_copy_mode".to_string());
        Ok(())
    }
    fn dispatch_copy_mode_command(&mut self, command: &str) -> Result<bool, ServerError> {
        self.log.push(format!("copy_mode {command}"));
        Ok(false)
    }
    fn paste_buffer(&self, name: Option<&str>) -> Result<(), ServerError> {
        let data = opt_get(&self.buffers, name.unwrap_or("buffer0000")).ok_or_else(|| cmd_err("no buffer"))?;
        self.written.borrow_mut().push(data.as_bytes().to_vec());
        Ok(())
    }
    fn save_buffer(&self, name: Option<&str>, path: &str) -> Result<(), ServerError> {
        let data = opt_get(&self.buffers, name.unwrap_or("buffer0000")).ok_or_else(|| cmd_err("no buffer"))?;
        self.written.borrow_mut().push(format!("save {path}: {data}").into_bytes());
        Ok(())
    }
    fn append_to_file(&self, path: &str, data: &str) -> Result<(), String> {
        if path.starts_with("/nonexistent/") {
            return Err("No such file or directory".to_string());
        }
        self.written.borrow_mut().push(format!("append {path}: {data}").into_bytes());
        Ok(())
    }
    fn send_bytes_to_pane(&self, bytes: &[u8]) -> Result<(), ServerError> {
        self.written.borrow_mut().push(bytes.to_vec());
        Ok(())
    }
    fn write_to_pane(&self, _session_id: u32, _window_idx: u32, _pane_id: u32, data: &[u8]) -> Result<(), ServerError> {
        self.written.borrow_mut().push(data.to_vec());
        Ok(())
    }
    fn key_name_to_bytes(&self, key_name: &str) -> Option<Vec<u8>> {
        match key_name {
            "C-a" => Some(vec![0x01]),
            "C-b" => Some(vec![0x02]),
            "Enter" => Some(vec![0x0d]),
            _ => None,
        }
    }
    fn get_server_option(&self, key: &str) -> Result<String, ServerError> {
        opt_get(&self.options, key).cloned().ok_or_else(|| cmd_err(&format!("unknown option: {key}")))
    }
    fn build_config_context(&self) -> rmux::config::ConfigContext {
        let mut ctx = rmux::config::ConfigContext::new();
        ctx.hidden_vars = self.hidden.clone();
        ctx
    }
    fn get_config_hidden_vars(&self) -> rmux::config::VarTable {
        self.hidden.clone()
    }
    fn set_config_hidden_vars(&mut self, vars: rmux::config::VarTable) {
        self.hidden = vars;
    }
    fn execute_config_commands(&mut self, commands: Vec<Vec<String>>) -> Vec<String> {
        let mut errors = Vec::new();
        for argv in commands {
            if let Err(e) = execute_command(&argv, self) {
                errors.push(e.message());
            }
        }
        errors
    }
    fn read_file(&self, path: &str) -> Result<String, String> {
        opt_get(&self.files, path).cloned().ok_or_else(|| "No such file or directory (os error 2)".to_string())
    }
    fn canonical_path(&self, path: &str) -> String {
        if path.starts_with('/') { path.to_string() } else { format!("/home/user/{path}") }
    }
    fn glob_paths(&self, pattern: &str) -> Result<Vec<String>, String> {
        if pattern.contains("[") {
            return Err("Pattern syntax error near position 0".to_string());
        }
        let prefix = pattern.split('*').next().unwrap_or("");
        Ok(self.files.iter().rev().map(|(p, _)| p.clone()).filter(|p| p.starts_with(prefix) && p.ends_with(".conf")).collect())
    }
    fn expand_home(&self, path: &str) -> String {
        match path.strip_prefix('~') {
            Some(rest) => format!("/home/user{rest}"),
            None => path.to_string(),
        }
    }
    fn set_buffer(&mut self, name: &str, data: &str) -> Result<(), ServerError> {
        opt_set(&mut self.buffers, name, data);
        Ok(())
    }
    fn set_server_option(&mut self, key: &str, value: &str) -> Result<(), ServerError> {
        opt_set(&mut self.options, key, value);
        Ok(())
    }
    fn unset_server_option(&mut self, key: &str) -> Result<(), ServerError> {
        opt_unset(&mut self.options, key);
        Ok(())
    }
    fn append_server_option(&mut self, key: &str, value: &str) -> Result<(), ServerError> {
        opt_append(&mut self.options, key, value);
        Ok(())
    }
    fn set_session_option(&mut self, session_id: u32, key: &str, value: &str) -> Result<(), ServerError> {
        let s = self.session_mut(session_id).ok_or_else(|| cmd_err("session not found"))?;
        opt_set(&mut s.options, key, value);
        Ok(())
    }
    fn unset_session_option(&mut self, session_id: u32, key: &str) -> Result<(), ServerError> {
        let s = self.session_mut(session_id).ok_or_else(|| cmd_err("session not found"))?;
        opt_unset(&mut s.options, key);
        Ok(())
    }
    fn append_session_option(&mut self, session_id: u32, key: &str, value: &str) -> Result<(), ServerError> {
        let s = self.session_mut(session_id).ok_or_else(|| cmd_err("session not found"))?;
        opt_append(&mut s.options, key, value);
        Ok(())
    }
    fn set_window_option(&mut self, session_id: u32, window_idx: u32, key: &str, value: &str) -> Result<(), ServerError> {
        opt_set(&mut self.window_mut(session_id, window_idx)?.options, key, value);
        Ok(())
    }
    fn unset_window_option(&mut self, session_id: u32, window_idx: u32, key: &str) -> Result<(), ServerError> {
        opt_unset(&mut self.window_mut(session_id, window_idx)?.options, key);
        Ok(())
    }
    fn append_window_option(&mut self, session_id: u32, window_idx: u32, key: &str, value: &str) -> Result<(), ServerError> {
        opt_append(&mut self.window_mut(session_id, window_idx)?.options, key, value);
        Ok(())
    }
    fn has_server_option(&self, key: &str) -> bool {
        opt_get(&self.options, key).is_some()
    }
    fn has_session_option(&self, session_id: u32, key: &str) -> bool {
        self.session(session_id).is_some_and(|s| opt_get(&s.options, key).is_some())
    }
    fn has_window_option(&self, session_id: u32, window_idx: u32, key: &str) -> bool {
        self.session(session_id)
            .and_then(|s| s.windows.iter().find(|w| w.idx == window_idx))
            .is_some_and(|w| opt_get(&w.options, key).is_some())
    }
    fn show_options(&self, scope: &str, target_id: Option<u32>) -> Vec<String> {
        let session = target_id.and_then(|id| self.session(id));
        match (scope, session) {
            ("session", Some(s)) => overlay(&self.options, &s.options),
            ("window", Some(s)) => {
                let w = s.windows.iter().find(|w| w.idx == s.active_window);
                overlay(&self.options, w.map(|w| w.options.as_slice()).unwrap_or(&[]))
            }
            _ => overlay(&self.options, &[]),
        }
    }
    fn add_key_binding(&mut self, table: &str, key_name: &str, argv: Vec<String>, repeatable: bool, _note: Option<String>) -> Result<(), ServerError> {
        let key = rmux::keybind::string_to_key(key_name).ok_or_else(|| cmd_err(&format!("unknown key: {key_name}")))?;
        self.keys.add_binding_with_repeat(table, key, argv, repeatable);
        Ok(())
    }
    fn remove_key_binding(&mut self, table: &str, key_name: &str) -> Result<(), ServerError> {
        let key = rmux::keybind::string_to_key(key_name).ok_or_else(|| cmd_err(&format!("unknown key: {key_name}")))?;
        if self.keys.remove_binding(table, key) { Ok(()) } else { Err(cmd_err("key not bound")) }
    }
    fn clear_key_table(&mut self, _table: &str) {}
    fn enter_command_prompt_with(&mut self, _initial_text: Option<&str>, _prompt_str: Option<&str>, _template: Option<&str>) {
        self.prompt_entered = true;
    }
    fn list_buffers(&self) -> Vec<String> {
        self.buffers.iter().map(|(n, d)| format!("{n}: {} bytes: \"{d}\"", d.len())).collect()
    }
    fn show_buffer(&self, name: &str) -> Result<String, ServerError> {
        opt_get(&self.buffers, name).cloned().ok_or_else(|| cmd_err(&format!("no buffer {name}")))
    }
    fn delete_buffer(&mut self, name: &str) -> Result<(), ServerError> {
        let before = self.buffers.len();
        opt_unset(&mut self.buffers, name);
        if self.buffers.len() == before { Err(cmd_err(&format!("no buffer {name}"))) } else { Ok(()) }
    }
    fn load_buffer(&mut self, name: Option<&str>, path: &str) -> Result<(), ServerError> {
        opt_set(&mut self.buffers, name.unwrap_or("buffer0000"), path);
        Ok(())
    }
    fn list_clients(&self) -> Vec<String> {
        let name = self.client_session_id.and_then(|id| self.session_name_for_id(id)).unwrap_or_default();
        vec![format!("client 0: {name} [80x24]")]
    }
    fn list_all_commands(&self) -> Vec<String> {
        rmux::command::commands().iter().map(|c| format!("{} {}", c.name, c.usage)).collect()
    }
    fn list_key_bindings(&self) -> Vec<String> {
        self.keys.list_bindings()
    }
    fn list_key_bindings_with_notes(&self) -> Vec<String> {
        self.keys.list_bindings()
    }
    fn show_messages(&self) -> Vec<String> {
        Vec::new()
    }
    fn execute_command(&mut self, argv: &[String]) -> Result<CommandResult, ServerError> {
        execute_command(argv, self)
    }
    fn shell_succeeds(&mut self, cmd: &str) -> bool {
        cmd == "true"
    }
    fn clear_history(&mut self) -> Result<(), ServerError> {
        Ok(())
    }
    fn switch_client(&mut self, session_id: u32) -> Result<(), ServerError> {
        if self.session(session_id).is_none() {
            return Err(cmd_err("session not found"));
        }
        self.last_session_id = self.client_session_id;
        self.client_session_id = Some(session_id);
        Ok(())
    }
    fn client_last_session_id(&self) -> Option<u32> {
        self.last_session_id
    }
    fn detach_other_clients(&mut self) -> Result<(), ServerError> {
        Ok(())
    }
    fn set_environment(&mut self, _session_id: Option<u32>, key: &str, value: &str) -> Result<(), ServerError> {
        opt_set(&mut self.environment, key, value);
        Ok(())
    }
    fn unset_environment(&mut self, _session_id: Option<u32>, key: &str) -> Result<(), ServerError> {
        opt_unset(&mut self.environment, key);
        Ok(())
    }
    fn show_environment(&self, _session_id: Option<u32>) -> Vec<String> {
        self.environment.iter().map(|(k, v)| format!("{k}={v}")).collect()
    }
    fn refresh_client(&mut self) {}
    fn register_hook(&mut self, hook_name: &str, argv: Vec<String>) {
        self.hooks.add(hook_name, argv);
    }
    fn remove_hook(&mut self, hook_name: &str) -> bool {
        self.hooks.remove(hook_name)
    }
    fn show_hooks(&self) -> Vec<String> {
        self.hooks.list()
    }
    fn pipe_pane(&mut self, command: Option<&str>) -> Result<(), ServerError> {
        self.piping = command.is_some();
        Ok(())
    }
    fn close_popup(&mut self) {}
    fn show_prompt_history(&self) -> Vec<String> {
        self.prompt_history.clone()
    }
    fn clear_prompt_history(&mut self) {
        self.prompt_history.clear();
    }
    fn add_prompt_history(&mut self, entry: String) {
        MockCommandServer::add_prompt_history(self, entry);
    }
    fn set_command_client(&mut self, client_id: u64) {
        self.log.push(format!("command_client {client_id}"));
    }
    fn command_client_id(&self) -> u64 {
        0
    }
    fn pane_mode_keys(&self) -> String {
        "emacs".to_string()
    }
    fn paste_buffer_add(&mut self, data: Vec<u8>) {
        let name = format!("buffer{:04}", self.buffers.len());
        self.buffers.push((name, String::from_utf8_lossy(&data).into_owned()));
    }
    fn wait_channel_signal(&mut self, channel: &str) {
        self.log.push(format!("wait_signal {channel}"));
    }
    fn wait_channel_lock(&mut self, channel: &str) -> Result<(), ServerError> {
        self.log.push(format!("wait_lock {channel}"));
        Ok(())
    }
    fn wait_channel_unlock(&mut self, channel: &str) -> Result<(), ServerError> {
        self.log.push(format!("wait_unlock {channel}"));
        Ok(())
    }
    fn mark_clients_redraw(&mut self, session_id: u32) {
        self.log.push(format!("redraw {session_id}"));
    }
    fn session_info_list(&self) -> Vec<(String, usize, usize)> {
        self.sessions.iter().map(|s| (s.name.clone(), s.windows.len(), 1)).collect()
    }
}

fn exec(server: &mut MockCommandServer, args: &[&str]) -> Result<CommandResult, ServerError> {
    let argv: Vec<String> = args.iter().map(|s| (*s).to_string()).collect();
    execute_command(&argv, server)
}

fn output_text(result: Result<CommandResult, ServerError>) -> String {
    match result.unwrap() {
        CommandResult::Output(text) => text,
        other => panic!("expected Output, got {other:?}"),
    }
}

fn run_set(args: &[&str], server: &mut MockCommandServer) -> Result<CommandResult, ServerError> {
    let args: Vec<String> = args.iter().map(std::string::ToString::to_string).collect();
    cmd_set_option(&args, server)
}

#[test]
fn kill_session_removes_session() {
    let mut s = MockCommandServer::new();
    s.create_test_session("mysession");

    assert!(s.has_session("mysession"));
    let result = exec(&mut s, &["kill-session", "-t", "mysession"]);
    assert!(result.is_ok());
    assert!(!s.has_session("mysession"));
}

#[test]
fn kill_session_nonexistent_errors() {
    let mut s = MockCommandServer::new();
    let result = exec(&mut s, &["kill-session", "-t", "nope"]);
    assert!(result.is_err());
    let err = result.unwrap_err().message();
    assert!(err.contains("session not found"), "got: {err}");
}

#[test]
fn kill_session_default_target() {
    let mut s = MockCommandServer::new();
    // Create a session named "0" (default target)
    s.create_test_session("0");
    let result = exec(&mut s, &["kill-session"]);
    assert!(result.is_ok());
    assert!(!s.has_session("0"));
}

#[test]
fn rename_session_changes_name() {
    let mut s = MockCommandServer::new();
    s.create_test_session("old");

    let result = exec(&mut s, &["rename-session", "-t", "old", "new"]);
    assert!(result.is_ok());
    assert!(!s.has_session("old"));
    assert!(s.has_session("new"));
}

#[test]
fn rename_session_uses_attached_session() {
    let mut s = MockCommandServer::new();
    let (session_id, _, _) = s.create_test_session("attached");
    s.client_session_id = Some(session_id);

    let result = exec(&mut s, &["rename-session", "renamed"]);
    assert!(result.is_ok());
    assert!(s.has_session("renamed"));
    assert!(!s.has_session("attached"));
}

#[test]
fn rename_session_missing_name_errors() {
    let mut s = MockCommandServer::new();
    s.create_test_session("test");
    let _result = exec(&mut s, &["rename-session", "-t", "test"]);
    // The error case is when ALL args are flags — no positional new name
    let result = exec(&mut s, &["rename-session", "-t"]);
    assert!(result.is_err());
}

#[test]
fn rename_session_nonexistent_target_errors() {
    let mut s = MockCommandServer::new();
    let result = exec(&mut s, &["rename-session", "-t", "nope", "newname"]);
    assert!(result.is_err());
}

#[test]
fn has_session_returns_ok_when_exists() {
    let mut s = MockCommandServer::new();
    s.create_test_session("exists");
    let result = exec(&mut s, &["has-session", "-t", "exists"]);
    assert!(matches!(result.unwrap(), CommandResult::Done));
}

#[test]
fn has_session_errors_when_missing() {
    let mut s = MockCommandServer::new();
    let result = exec(&mut s, &["has-session", "-t", "ghost"]);
    assert!(result.is_err());
}

#[test]
fn list_sessions_empty() {
    let mut s = MockCommandServer::new();
    let text = output_text(exec(&mut s, &["list-sessions"]));
    assert!(text.contains("no server running"));
}

#[test]
fn list_sessions_shows_sessions() {
    let mut s = MockCommandServer::new();
    s.create_test_session("alpha");
    s.create_test_session("beta");
    let text = output_text(exec(&mut s, &["list-sessions"]));
    assert!(text.contains("alpha"));
    assert!(text.contains("beta"));
    assert!(text.contains("1 windows"));
}

#[test]
fn new_session_duplicate_name_errors() {
    let mut s = MockCommandServer::new();
    s.create_test_session("dup");
    let result = exec(&mut s, &["new-session", "-s", "dup"]);
    assert!(result.is_err());
    let err = result.unwrap_err().message();
    assert!(err.contains("duplicate session"));
}

#[test]
fn new_session_detached() {
    let mut s = MockCommandServer::new();
    let result = exec(&mut s, &["new-session", "-d", "-s", "bg"]);
    assert!(matches!(result.unwrap(), CommandResult::Done));
    assert!(s.has_session("bg"));
}

#[test]
fn new_session_attached() {
    let mut s = MockCommandServer::new();
    let result = exec(&mut s, &["new-session", "-s", "fg"]);
    assert!(matches!(result.unwrap(), CommandResult::Attach(_)));
}

#[test]
fn attach_session_by_name() {
    let mut s = MockCommandServer::new();
    s.create_test_session("target");
    let result = exec(&mut s, &["attach-session", "-t", "target"]);
    assert!(matches!(result.unwrap(), CommandResult::Attach(_)));
}

#[test]
fn attach_session_nonexistent_errors() {
    let mut s = MockCommandServer::new();
    let result = exec(&mut s, &["attach-session", "-t", "ghost"]);
    assert!(result.is_err());
}

#[test]
fn attach_session_no_target_uses_first() {
    let mut s = MockCommandServer::new();
    s.create_test_session("0");
    let result = exec(&mut s, &["attach-session"]);
    assert!(matches!(result.unwrap(), CommandResult::Attach(_)));
}

#[test]
fn attach_session_no_sessions_errors() {
    let mut s = MockCommandServer::new();
    let result = exec(&mut s, &["attach-session"]);
    assert!(result.is_err());
}

#[test]
fn detach_client_returns_detach() {
    let mut s = MockCommandServer::new();
    let result = exec(&mut s, &["detach-client"]);
    assert!(matches!(result.unwrap(), CommandResult::Detach));
}

#[test]
fn switch_client_by_target() {
    let mut s = MockCommandServer::new();
    s.create_test_session("s1");
    s.create_test_session("s2");
    let result = exec(&mut s, &["switch-client", "-t", "s2"]);
    assert!(result.is_ok());
}

#[test]
fn switch_client_nonexistent_errors() {
    let mut s = MockCommandServer::new();
    let result = exec(&mut s, &["switch-client", "-t", "ghost"]);
    assert!(result.is_err());
}

#[test]
fn switch_client_missing_target_errors() {
    let mut s = MockCommandServer::new();
    let result = exec(&mut s, &["switch-client"]);
    assert!(result.is_err());
}

#[test]
fn switch_client_next_wraps() {
    let mut s = MockCommandServer::new();
    let (s1_id, _, _) = s.create_test_session("s1");
    s.create_test_session("s2");
    s.client_session_id = Some(s1_id);

    let result = exec(&mut s, &["switch-client", "-n"]);
    assert!(result.is_ok());
}

#[test]
fn switch_client_prev_wraps() {
    let mut s = MockCommandServer::new();
    let (s1_id, _, _) = s.create_test_session("s1");
    s.create_test_session("s2");
    s.client_session_id = Some(s1_id);

    let result = exec(&mut s, &["switch-client", "-p"]);
    assert!(result.is_ok());
}

#[test]
fn switch_client_next_no_sessions_errors() {
    let mut s = MockCommandServer::new();
    let result = exec(&mut s, &["switch-client", "-n"]);
    assert!(result.is_err());
}

#[test]
fn refresh_client_succeeds() {
    let mut s = MockCommandServer::new();
    let result = exec(&mut s, &["refresh-client"]);
    assert!(matches!(result.unwrap(), CommandResult::Done));
}

#[test]
fn suspend_client_returns_suspend() {
    let mut s = MockCommandServer::new();
    let result = exec(&mut s, &["suspend-client"]);
    assert!(matches!(result.unwrap(), CommandResult::Suspend));
}

#[test]
fn list_commands_returns_output() {
    let mut s = MockCommandServer::new();
    let text = output_text(exec(&mut s, &["list-commands"]));
    assert!(text.contains("new-session"));
    assert!(text.contains("kill-session"));
}

#[test]
fn list_keys_returns_bindings() {
    let mut s = MockCommandServer::new();
    let text = output_text(exec(&mut s, &["list-keys"]));
    // Default bindings should exist
    assert!(!text.is_empty());
}

#[test]
fn show_messages_returns_empty() {
    let mut s = MockCommandServer::new();
    let text = output_text(exec(&mut s, &["show-messages"]));
    assert!(text.is_empty());
}

#[test]
fn list_clients_returns_client_info() {
    let mut s = MockCommandServer::new();
    let text = output_text(exec(&mut s, &["list-clients"]));
    // Mock always has one client
    assert!(text.contains("client"));
    assert!(text.contains("80x24"));
}

#[test]
fn display_panes_shows_panes() {
    let mut s = MockCommandServer::new();
    s.create_test_session("test");
    let text = output_text(exec(&mut s, &["display-panes"]));
    assert!(text.contains('%'));
}

#[test]
fn display_panes_no_session_errors() {
    let mut s = MockCommandServer::new();
    s.client_session_id = None;
    let result = exec(&mut s, &["display-panes"]);
    assert!(result.is_err());
}

#[test]
fn display_popup_stub_ok() {
    let mut s = MockCommandServer::new();
    let result = exec(&mut s, &["display-popup"]);
    assert!(matches!(result.unwrap(), CommandResult::Done));
}

#[test]
fn customize_mode_stub_ok() {
    let mut s = MockCommandServer::new();
    let result = exec(&mut s, &["customize-mode"]);
    assert!(matches!(result.unwrap(), CommandResult::Done));
}

#[test]
fn clear_prompt_history_ok() {
    let mut s = MockCommandServer::new();
    let result = exec(&mut s, &["clear-prompt-history"]);
    assert!(matches!(result.unwrap(), CommandResult::Done));
}

#[test]
fn show_prompt_history_empty() {
    let mut s = MockCommandServer::new();
    let text = output_text(exec(&mut s, &["show-prompt-history"]));
    assert!(text.is_empty());
}

#[test]
fn pipe_pane_start_and_stop() {
    let mut s = MockCommandServer::new();
    s.create_test_session("test");
    // Start piping
    let result = exec(&mut s, &["pipe-pane", "cat > /tmp/out"]);
    assert!(result.is_ok());
    // Stop piping
    let result = exec(&mut s, &["pipe-pane"]);
    assert!(result.is_ok());
}

#[test]
fn resize_window_with_dimensions() {
    let mut s = MockCommandServer::new();
    s.create_test_session("resize-test");
    let result = exec(&mut s, &["resize-window", "-x", "100", "-y", "40"]);
    assert!(matches!(result.unwrap(), CommandResult::Done));
    let sid = s.client_session_id.unwrap();
    let (sx, sy) = s.window_size(sid);
    assert_eq!(sx, 100);
    assert_eq!(sy, 40);
}

#[test]
fn resize_window_requires_args() {
    let mut s = MockCommandServer::new();
    s.create_test_session("resize-test");
    let result = exec(&mut s, &["resize-window"]);
    assert!(result.is_err());
}

#[test]
fn resize_window_adjust() {
    let mut s = MockCommandServer::new();
    s.create_test_session("resize-test");
    let result = exec(&mut s, &["resize-window", "-A"]);
    assert!(matches!(result.unwrap(), CommandResult::Done));
}

#[test]
fn server_access_stub_ok() {
    let mut s = MockCommandServer::new();
    let result = exec(&mut s, &["server-access"]);
    assert!(matches!(result.unwrap(), CommandResult::Done));
}

#[test]
fn lock_server_stub_ok() {
    let mut s = MockCommandServer::new();
    let result = exec(&mut s, &["lock-server"]);
    assert!(matches!(result.unwrap(), CommandResult::Done));
}

#[test]
fn lock_session_stub_ok() {
    let mut s = MockCommandServer::new();
    let result = exec(&mut s, &["lock-session"]);
    assert!(matches!(result.unwrap(), CommandResult::Done));
}

#[test]
fn lock_client_stub_ok() {
    let mut s = MockCommandServer::new();
    let result = exec(&mut s, &["lock-client"]);
    assert!(matches!(result.unwrap(), CommandResult::Done));
}

#[test]
fn kill_server_returns_exit() {
    let mut s = MockCommandServer::new();
    let result = exec(&mut s, &["kill-server"]);
    assert!(matches!(result.unwrap(), CommandResult::Exit));
}

#[test]
fn start_server_noop() {
    let mut s = MockCommandServer::new();
    let result = exec(&mut s, &["start-server"]);
    assert!(matches!(result.unwrap(), CommandResult::Done));
}

#[test]
fn clear_history_succeeds() {
    let mut s = MockCommandServer::new();
    s.create_test_session("test");
    let result = exec(&mut s, &["clear-history"]);
    assert!(result.is_ok());
}

#[test]
fn command_prompt_enters_prompt_mode() {
    let mut s = MockCommandServer::new();
    let result = exec(&mut s, &["command-prompt"]);
    assert!(result.is_ok());
    assert!(s.prompt_entered);
}

#[test]
fn wait_for_signal_signals_channel() {
    let mut s = MockCommandServer::new();
    let result = exec(&mut s, &["wait-for", "-S", "chan"]);
    assert!(matches!(result.unwrap(), CommandResult::Done));
    assert_eq!(s.log.iter().filter(|l| l.as_str() == "wait_signal chan").count(), 1);
}

#[test]
fn wait_for_lock_and_unlock() {
    let mut s = MockCommandServer::new();
    exec(&mut s, &["wait-for", "-L", "chan"]).unwrap();
    exec(&mut s, &["wait-for", "-U", "chan"]).unwrap();
    assert!(s.log.contains(&"wait_lock chan".to_string()));
    assert!(s.log.contains(&"wait_unlock chan".to_string()));
}

#[test]
fn wait_for_without_channel_is_usage_error() {
    let mut s = MockCommandServer::new();
    let result = exec(&mut s, &["wait-for", "-S"]);
    assert_eq!(result.unwrap_err().message(), "usage: wait-for [-L|-U|-S] channel");
}

#[test]
fn wait_for_noop() {
    let mut s = MockCommandServer::new();
    let result = exec(&mut s, &["wait-for", "channel"]);
    assert!(matches!(result.unwrap(), CommandResult::Done));
}

#[test]
fn set_hook_and_show_hooks() {
    let mut s = MockCommandServer::new();
    let result = exec(&mut s, &["set-hook", "after-new-session", "display-message", "hi"]);
    assert!(result.is_ok());

    let text = output_text(exec(&mut s, &["show-hooks"]));
    assert!(text.contains("after-new-session"));
}

#[test]
fn set_hook_missing_name_errors() {
    let mut s = MockCommandServer::new();
    let result = exec(&mut s, &["set-hook"]);
    assert!(result.is_err());
}

#[test]
fn set_hook_missing_command_errors() {
    let mut s = MockCommandServer::new();
    let result = exec(&mut s, &["set-hook", "hook-name"]);
    assert!(result.is_err());
}

#[test]
fn set_hook_unset() {
    let mut s = MockCommandServer::new();
    exec(&mut s, &["set-hook", "my-hook", "display-message", "test"]).unwrap();
    let result = exec(&mut s, &["set-hook", "-u", "my-hook"]);
    assert!(result.is_ok());

    // Verify hook is gone — show-hooks returns Ok (not Output) when empty
    let result = exec(&mut s, &["show-hooks"]);
    assert!(matches!(result.unwrap(), CommandResult::Done));
}

#[test]
fn set_hook_unset_nonexistent_errors() {
    let mut s = MockCommandServer::new();
    let result = exec(&mut s, &["set-hook", "-u", "ghost-hook"]);
    assert!(result.is_err());
}

#[test]
fn show_hooks_empty() {
    let mut s = MockCommandServer::new();
    let result = exec(&mut s, &["show-hooks"]);
    assert!(matches!(result.unwrap(), CommandResult::Done));
}

#[test]
fn confirm_before_executes_command() {
    let mut s = MockCommandServer::new();
    s.create_test_session("test");
    // confirm-before should execute the command directly (no interactive confirmation in tests)
    let result = exec(&mut s, &["confirm-before", "kill-server"]);
    assert!(matches!(result.unwrap(), CommandResult::Done));
    // Note: confirm-before runs the inner command and returns Ok
}

#[test]
fn confirm_before_missing_command_errors() {
    let mut s = MockCommandServer::new();
    let result = exec(&mut s, &["confirm-before"]);
    assert!(result.is_err());
}

#[test]
fn run_shell_returns_run_shell_result() {
    let mut s = MockCommandServer::new();
    let result = exec(&mut s, &["run-shell", "echo hello"]);
    match result.unwrap() {
        CommandResult::RunShell(cmd) => assert_eq!(cmd, "echo hello"),
        other => panic!("expected RunShell, got {other:?}"),
    }
}

#[test]
fn run_shell_missing_command_errors() {
    let mut s = MockCommandServer::new();
    let result = exec(&mut s, &["run-shell"]);
    assert!(result.is_err());
}

#[test]
fn phase6_tests_show_prompt_history_empty() {
    let mut s = MockCommandServer::new();
    let output = output_text(exec(&mut s, &["show-prompt-history"]));
    assert!(output.is_empty());
}

#[test]
fn show_prompt_history_returns_entries() {
    let mut s = MockCommandServer::new();
    s.add_prompt_history("set status on".into());
    s.add_prompt_history("list-sessions".into());

    let output = output_text(exec(&mut s, &["show-prompt-history"]));
    assert!(output.contains("list-sessions"));
    assert!(output.contains("set status on"));
}

#[test]
fn clear_prompt_history_empties_entries() {
    let mut s = MockCommandServer::new();
    s.add_prompt_history("new-session".into());
    s.add_prompt_history("kill-session".into());

    let result = exec(&mut s, &["clear-prompt-history"]);
    assert!(result.is_ok());

    let output = output_text(exec(&mut s, &["show-prompt-history"]));
    assert!(output.is_empty());
}

#[test]
fn prompt_history_deduplicates_consecutive() {
    let mut s = MockCommandServer::new();
    s.add_prompt_history("list-keys".into());
    s.add_prompt_history("list-keys".into());

    let history = s.show_prompt_history();
    assert_eq!(history.len(), 1);
}

#[test]
fn prompt_history_most_recent_first() {
    let mut s = MockCommandServer::new();
    s.add_prompt_history("first".into());
    s.add_prompt_history("second".into());
    s.add_prompt_history("third".into());

    let history = s.show_prompt_history();
    assert_eq!(history[0], "third");
    assert_eq!(history[1], "second");
    assert_eq!(history[2], "first");
}

#[test]
fn prompt_history_truncates_at_100() {
    let mut s = MockCommandServer::new();
    for i in 0..150 {
        s.add_prompt_history(format!("cmd-{i}"));
    }
    let history = s.show_prompt_history();
    assert_eq!(history.len(), 100);
}

#[test]
fn pane_border_status_default_off() {
    let mut s = MockCommandServer::new();
    s.create_test_session("test");

    let output = output_text(exec(&mut s, &["show-options", "-w", "pane-border-status"]));
    assert!(output.contains("off"), "default should be off: {output}");
}

#[test]
fn set_pane_border_status_top() {
    let mut s = MockCommandServer::new();
    s.create_test_session("test");

    let result = exec(&mut s, &["set-option", "-w", "pane-border-status", "top"]);
    assert!(result.is_ok());

    let output = output_text(exec(&mut s, &["show-options", "-w", "pane-border-status"]));
    assert!(output.contains("top"), "should be top: {output}");
}

#[test]
fn set_pane_border_format() {
    let mut s = MockCommandServer::new();
    s.create_test_session("test");

    let result = exec(
        &mut s,
        &["set-option", "-w", "pane-border-format", "#{pane_index} #{pane_title}"],
    );
    assert!(result.is_ok());

    let output = output_text(exec(&mut s, &["show-options", "-w", "pane-border-format"]));
    assert!(output.contains("#{pane_index}"), "should have format: {output}");
}

#[test]
fn lock_after_time_default_zero() {
    let mut s = MockCommandServer::new();
    s.create_test_session("test");

    let output = output_text(exec(&mut s, &["show-options", "lock-after-time"]));
    assert!(output.contains('0'), "default should be 0: {output}");
}

#[test]
fn set_lock_after_time() {
    let mut s = MockCommandServer::new();
    s.create_test_session("test");

    let result = exec(&mut s, &["set-option", "-g", "lock-after-time", "300"]);
    assert!(result.is_ok());

    let output = output_text(exec(&mut s, &["show-options", "-g", "lock-after-time"]));
    assert!(output.contains("300"), "should be 300: {output}");
}

#[test]
fn lock_command_default() {
    let mut s = MockCommandServer::new();
    s.create_test_session("test");

    let output = output_text(exec(&mut s, &["show-options", "lock-command"]));
    assert!(output.contains("lock -np"), "default should be 'lock -np': {output}");
}

#[test]
fn set_lock_command() {
    let mut s = MockCommandServer::new();
    s.create_test_session("test");

    let result = exec(&mut s, &["set-option", "-g", "lock-command", "vlock"]);
    assert!(result.is_ok());

    let output = output_text(exec(&mut s, &["show-options", "-g", "lock-command"]));
    assert!(output.contains("vlock"), "should be vlock: {output}");
}

#[test]
fn word_separators_default() {
    let mut s = MockCommandServer::new();
    s.create_test_session("test");

    let output = output_text(exec(&mut s, &["show-options", "word-separators"]));
    assert!(output.contains("word-separators"), "should exist: {output}");
}

#[test]
fn set_word_separators() {
    let mut s = MockCommandServer::new();
    s.create_test_session("test");

    let result = exec(&mut s, &["set-option", "-g", "word-separators", " -_@"]);
    assert!(result.is_ok());

    let output = output_text(exec(&mut s, &["show-options", "-g", "word-separators"]));
    assert!(output.contains("-_@"), "should contain custom separators: {output}");
}

#[test]
fn default_copy_mode_vi_has_mark_binding() {
    let mut s = MockCommandServer::new();
    s.create_test_session("test");

    let output = output_text(exec(&mut s, &["list-keys"]));
    // 'm' should be bound to set-mark in copy-mode-vi
    assert!(output.contains("set-mark"), "should have set-mark binding: {output}");
}

#[test]
fn default_copy_mode_vi_has_swap_mark_binding() {
    let mut s = MockCommandServer::new();
    s.create_test_session("test");

    let output = output_text(exec(&mut s, &["list-keys"]));
    assert!(output.contains("swap-mark"), "should have swap-mark binding: {output}");
}

#[test]
fn set_quiet_suppresses_missing_value() {
    let mut server = MockCommandServer::new();
    let result = run_set(&["-gq", "some-key"], &mut server);
    assert!(result.is_ok());
}

#[test]
fn set_quiet_suppresses_missing_key() {
    let mut server = MockCommandServer::new();
    let result = run_set(&["-gq"], &mut server);
    assert!(result.is_ok());
}

#[test]
fn set_without_quiet_errors_on_missing_value() {
    let mut server = MockCommandServer::new();
    let result = run_set(&["-g", "some-key"], &mut server);
    assert!(result.is_err());
}

#[test]
fn set_without_quiet_errors_on_missing_key() {
    let mut server = MockCommandServer::new();
    let result = run_set(&["-g"], &mut server);
    assert!(result.is_err());
}

#[test]
fn set_only_if_unset() {
    let mut server = MockCommandServer::new();
    run_set(&["-g", "@foo", "original"], &mut server).unwrap();
    run_set(&["-og", "@foo", "changed"], &mut server).unwrap();
    let val = server.get_server_option("@foo").unwrap();
    assert_eq!(val, "original");
}

#[test]
fn set_only_if_unset_does_set_when_missing() {
    let mut server = MockCommandServer::new();
    run_set(&["-ogq", "@bar", "value"], &mut server).unwrap();
    let val = server.get_server_option("@bar").unwrap();
    assert_eq!(val, "value");
}

#[test]
fn set_only_if_unset_session_scope() {
    let mut server = MockCommandServer::new();
    let sid = server.create_session("test", "/tmp", 80, 24, None).unwrap();
    server.client_session_id = Some(sid);
    // Set on session scope
    run_set(&["-t", "test", "@opt", "first"], &mut server).unwrap();
    // -o should not overwrite
    run_set(&["-o", "-t", "test", "@opt", "second"], &mut server).unwrap();
    // Verify via show-options
    let opts = server.show_options("session", Some(sid));
    let found = opts.iter().find(|o| o.starts_with("@opt"));
    assert!(found.is_some_and(|v| v.contains("first")));
}

#[test]
fn set_append() {
    let mut server = MockCommandServer::new();
    run_set(&["-g", "status-left", "hello"], &mut server).unwrap();
    run_set(&["-ag", "status-left", " world"], &mut server).unwrap();
    let val = server.get_server_option("status-left").unwrap();
    assert_eq!(val, "hello world");
}

#[test]
fn set_append_to_nonexistent() {
    let mut server = MockCommandServer::new();
    // Append to a key that doesn't exist should create it
    run_set(&["-ag", "@new_key", "value"], &mut server).unwrap();
    let val = server.get_server_option("@new_key").unwrap();
    assert_eq!(val, "value");
}

#[test]
fn set_append_multiple() {
    let mut server = MockCommandServer::new();
    run_set(&["-g", "@list", "a"], &mut server).unwrap();
    run_set(&["-ag", "@list", ",b"], &mut server).unwrap();
    run_set(&["-ag", "@list", ",c"], &mut server).unwrap();
    let val = server.get_server_option("@list").unwrap();
    assert_eq!(val, "a,b,c");
}

#[test]
fn set_append_window_scope() {
    let mut server = MockCommandServer::new();
    let sid = server.create_session("test", "/tmp", 80, 24, None).unwrap();
    server.client_session_id = Some(sid);
    run_set(&["-w", "window-status-format", "A"], &mut server).unwrap();
    run_set(&["-aw", "window-status-format", "B"], &mut server).unwrap();
    let opts = server.show_options("window", Some(sid));
    let found = opts.iter().find(|o| o.starts_with("window-status-format"));
    assert!(found.is_some_and(|v| v.contains("AB")));
}

#[test]
fn set_unset() {
    let mut server = MockCommandServer::new();
    run_set(&["-g", "@myopt", "value"], &mut server).unwrap();
    assert!(server.has_server_option("@myopt"));
    run_set(&["-ug", "@myopt"], &mut server).unwrap();
    assert!(!server.has_server_option("@myopt"));
}

#[test]
fn set_unset_nonexistent_is_ok() {
    let mut server = MockCommandServer::new();
    // Unsetting something that doesn't exist should not error
    let result = run_set(&["-ug", "@nonexistent"], &mut server);
    assert!(result.is_ok());
}

#[test]
fn set_unset_session_scope() {
    let mut server = MockCommandServer::new();
    let sid = server.create_session("test", "/tmp", 80, 24, None).unwrap();
    server.client_session_id = Some(sid);
    run_set(&["-t", "test", "@opt", "val"], &mut server).unwrap();
    assert!(server.has_session_option(sid, "@opt"));
    run_set(&["-u", "-t", "test", "@opt"], &mut server).unwrap();
    assert!(!server.has_session_option(sid, "@opt"));
}

#[test]
fn set_unset_window_scope() {
    let mut server = MockCommandServer::new();
    let sid = server.create_session("test", "/tmp", 80, 24, None).unwrap();
    server.client_session_id = Some(sid);
    let widx = server.active_window_for(sid).unwrap_or(0);
    run_set(&["-w", "@wopt", "val"], &mut server).unwrap();
    assert!(server.has_window_option(sid, widx, "@wopt"));
    run_set(&["-uw", "@wopt"], &mut server).unwrap();
    assert!(!server.has_window_option(sid, widx, "@wopt"));
}

#[test]
fn set_format_expand_plain() {
    let mut server = MockCommandServer::new();
    run_set(&["-gF", "status-style", "bg=blue"], &mut server).unwrap();
    let val = server.get_server_option("status-style").unwrap();
    assert_eq!(val, "bg=blue");
}

#[test]
fn set_format_expand_with_user_option() {
    let mut server = MockCommandServer::new();
    let sid = server.create_session("test", "/tmp", 80, 24, None).unwrap();
    server.client_session_id = Some(sid);
    run_set(&["-g", "@thm_bg", "#1e1e2e"], &mut server).unwrap();
    run_set(&["-gF", "status-style", "bg=#{@thm_bg}"], &mut server).unwrap();
    let val = server.get_server_option("status-style").unwrap();
    assert_eq!(val, "bg=#1e1e2e");
}

#[test]
fn set_format_expand_with_builtin_var() {
    let mut server = MockCommandServer::new();
    let sid = server.create_session("mytest", "/tmp", 80, 24, None).unwrap();
    server.client_session_id = Some(sid);
    run_set(&["-gF", "@info", "s=#{session_name}"], &mut server).unwrap();
    let val = server.get_server_option("@info").unwrap();
    assert_eq!(val, "s=mytest");
}

#[test]
fn set_combined_agf() {
    let mut server = MockCommandServer::new();
    let sid = server.create_session("test", "/tmp", 80, 24, None).unwrap();
    server.client_session_id = Some(sid);
    run_set(&["-g", "@thm_blue", "#89b4fa"], &mut server).unwrap();
    run_set(&["-g", "status-right", "hello"], &mut server).unwrap();
    run_set(&["-agF", "status-right", " #{@thm_blue}"], &mut server).unwrap();
    let val = server.get_server_option("status-right").unwrap();
    assert_eq!(val, "hello #89b4fa");
}

#[test]
fn set_combined_wgf() {
    let mut server = MockCommandServer::new();
    let sid = server.create_session("test", "/tmp", 80, 24, None).unwrap();
    server.client_session_id = Some(sid);
    run_set(&["-g", "@color", "red"], &mut server).unwrap();
    run_set(&["-wgF", "window-status-format", "c=#{@color}"], &mut server).unwrap();
    let val = server.get_server_option("window-status-format").unwrap();
    assert_eq!(val, "c=red");
}

#[test]
fn catppuccin_format_expand_phase() {
    let mut server = MockCommandServer::new();
    let sid = server.create_session("test", "/tmp", 80, 24, None).unwrap();
    server.client_session_id = Some(sid);
    run_set(&["-g", "@thm_mantle", "#181825"], &mut server).unwrap();
    run_set(&["-g", "@thm_blue", "#89b4fa"], &mut server).unwrap();
    run_set(&["-gF", "status-style", "bg=#{@thm_mantle}"], &mut server).unwrap();
    assert_eq!(server.get_server_option("status-style").unwrap(), "bg=#181825");
    run_set(&["-g", "@result", "start"], &mut server).unwrap();
    run_set(&["-agF", "@result", "|#{@thm_blue}"], &mut server).unwrap();
    assert_eq!(server.get_server_option("@result").unwrap(), "start|#89b4fa");
}

#[test]
fn session_alerts_in_format_context() {
    let mut s = MockCommandServer::new();
    s.create_test_session("main");
    let result = exec(&mut s, &["display-message", "-p", "#{session_alerts}"]);
    match result.unwrap() {
        CommandResult::Output(text) => {
            assert!(text.trim().is_empty(), "expected empty alerts, got: {text}");
        }
        other => panic!("expected Output, got {other:?}"),
    }
}

#[test]
fn chained_commands_return_last_result() {
    let mut s = MockCommandServer::new();
    let result = exec(&mut s, &["start-server;", "kill-server"]);
    assert!(matches!(result.unwrap(), CommandResult::Exit));
}

#[test]
fn chained_commands_stop_at_first_failure() {
    let mut s = MockCommandServer::new();
    let result = exec(&mut s, &["nosuchcmd", ";", "kill-server"]);
    assert_eq!(result.unwrap_err().message(), "unknown command: nosuchcmd");
}

#[test]
fn resize_window_requires_args_message() {
    let mut s = MockCommandServer::new();
    s.create_test_session("resize-test");
    let result = exec(&mut s, &["resize-window"]);
    assert_eq!(result.unwrap_err().message(), "usage: resize-window [-x width] [-y height]");
}

#[test]
fn resize_window_invalid_width() {
    let mut s = MockCommandServer::new();
    s.create_test_session("resize-test");
    let result = exec(&mut s, &["resize-window", "-x", "wide"]);
    assert_eq!(result.unwrap_err().message(), "invalid width: wide");
}

#[test]
fn set_combined_ogq() {
    let mut server = MockCommandServer::new();
    run_set(&["-ogq", "@catppuccin_flavor", "mocha"], &mut server).unwrap();
    let val = server.get_server_option("@catppuccin_flavor").unwrap();
    assert_eq!(val, "mocha");
    // Second call should not overwrite
    run_set(&["-ogq", "@catppuccin_flavor", "latte"], &mut server).unwrap();
    let val = server.get_server_option("@catppuccin_flavor").unwrap();
    assert_eq!(val, "mocha");
}

#[test]
fn set_combined_ug() {
    let mut server = MockCommandServer::new();
    run_set(&["-g", "@temp", "val"], &mut server).unwrap();
    assert!(server.has_server_option("@temp"));
    run_set(&["-ug", "@temp"], &mut server).unwrap();
    assert!(!server.has_server_option("@temp"));
}

#[test]
fn catppuccin_options_phase() {
    let mut server = MockCommandServer::new();
    // Phase 2: catppuccin_options_tmux.conf sets defaults with -ogq
    run_set(&["-ogq", "@catppuccin_flavor", "mocha"], &mut server).unwrap();
    run_set(&["-ogq", "@catppuccin_status_left_separator", ""], &mut server).unwrap();
    run_set(&["-ogq", "@catppuccin_window_text", "#W"], &mut server).unwrap();

    // User config overrides before plugin loads
    run_set(&["-g", "@catppuccin_flavor", "latte"], &mut server).unwrap();

    // Phase 2 runs again, -o means it doesn't overwrite user's choice
    run_set(&["-ogq", "@catppuccin_flavor", "mocha"], &mut server).unwrap();
    assert_eq!(server.get_server_option("@catppuccin_flavor").unwrap(), "latte");

    // But unset options got their defaults
    assert_eq!(server.get_server_option("@catppuccin_window_text").unwrap(), "#W");
}

#[test]
fn catppuccin_theme_colors_phase() {
    let mut server = MockCommandServer::new();
    // Phase 3: catppuccin_mocha_tmux.conf sets color defaults with -ogq
    run_set(&["-ogq", "@thm_bg", "#1e1e2e"], &mut server).unwrap();
    run_set(&["-ogq", "@thm_fg", "#cdd6f4"], &mut server).unwrap();
    run_set(&["-ogq", "@thm_blue", "#89b4fa"], &mut server).unwrap();

    assert_eq!(server.get_server_option("@thm_bg").unwrap(), "#1e1e2e");
    assert_eq!(server.get_server_option("@thm_fg").unwrap(), "#cdd6f4");
    assert_eq!(server.get_server_option("@thm_blue").unwrap(), "#89b4fa");
}

#[test]
fn unknown_and_short_commands_are_refused() {
    let mut s = MockCommandServer::new();
    let err = exec(&mut s, &["no-such-command"]).unwrap_err().message();
    assert_eq!(err, "unknown command: no-such-command");
    let err = exec(&mut s, &["set-option", "-g"]).unwrap_err().message();
    assert_eq!(err, "usage: set-option [-g] [-w] [-t target] option value");
    let err = exec(&mut s, &[]).unwrap_err().message();
    assert_eq!(err, "no command specified");
}

#[test]
fn unique_prefix_finds_command() {
    let entry = rmux::command::find_command("kill-ser").unwrap();
    assert_eq!(entry.name, "kill-server");
    assert!(rmux::command::find_command("kill").is_none());
    assert_eq!(rmux::command::find_command("ls").unwrap().name, "ls");
}

#[test]
fn semicolons_chain_commands() {
    let mut s = MockCommandServer::new();
    let result = exec(&mut s, &["start-server;", "kill-server"]).unwrap();
    assert!(matches!(result, CommandResult::Exit));
    let result = exec(&mut s, &["kill-server", ";", "start-server"]).unwrap();
    assert!(matches!(result, CommandResult::Done));
}

#[test]
fn option_helpers_read_flags() {
    let args: Vec<String> = ["-gF", "-t", "main", "key", "value"].iter().map(|s| s.to_string()).collect();
    assert!(rmux::command::has_flag(&args, "-g"));
    assert!(rmux::command::has_flag(&args, "-F"));
    assert!(!rmux::command::has_flag(&args, "-w"));
    assert_eq!(rmux::command::get_option(&args, "-t"), Some("main"));
    assert_eq!(rmux::command::get_option(&args, "value"), None);
    assert_eq!(rmux::command::positional_args(&args, &["-t"]), vec!["key", "value"]);
    assert_eq!(rmux::command::positional_args(&args, &[]), vec!["main", "key", "value"]);
}

#[test]
fn bind_and_unbind_through_commands() {
    let mut s = MockCommandServer::new();
    exec(&mut s, &["bind-key", "-T", "root", "F2", "new-window"]).unwrap();
    let text = output_text(exec(&mut s, &["list-keys", "-T", "root"]));
    assert!(text.contains("F2 new-window"));
    let err = exec(&mut s, &["bind-key", "-T", "root"]).unwrap_err().message();
    assert_eq!(err, "bind-key: missing key");
    let err = exec(&mut s, &["bind-key", "x"]).unwrap_err().message();
    assert_eq!(err, "usage: bind-key [-T table] [-n] key command [args...]");
    exec(&mut s, &["unbind-key", "-T", "root", "F2"]).unwrap();
    let text = output_text(exec(&mut s, &["list-keys", "-T", "root"]));
    assert_eq!(text, "(no bindings)\n");
}

#[test]
fn environment_commands() {
    let mut s = MockCommandServer::new();
    exec(&mut s, &["set-environment", "-g", "EDITOR", "vi"]).unwrap();
    let text = output_text(exec(&mut s, &["show-environment", "-g", "EDITOR"]));
    assert_eq!(text, "EDITOR=vi\n");
    let text = output_text(exec(&mut s, &["show-environment", "-g", "PAGER"]));
    assert_eq!(text, "-PAGER\n");
    let err = exec(&mut s, &["set-environment", "-g"]).unwrap_err().message();
    assert!(err.starts_with("usage:"));
}


fn err_text(result: Result<CommandResult, ServerError>) -> String {
    match result {
        Err(ServerError::Command(m)) => m,
        Err(other) => format!("{other:?}"),
        Ok(other) => panic!("expected an error, got {other:?}"),
    }
}

#[test]
fn new_window_creates_and_selects() {
    let mut s = MockCommandServer::new();
    let (sid, _, _) = s.create_test_session("work");
    exec(&mut s, &["new-window", "-n", "logs"]).unwrap();
    let sess = s.session(sid).unwrap();
    assert_eq!(sess.windows.len(), 2);
    assert_eq!(sess.active_window, 1);
    assert_eq!(sess.windows[1].name, "logs");
}

#[test]
fn new_window_detached_keeps_active() {
    let mut s = MockCommandServer::new();
    let (sid, _, _) = s.create_test_session("work");
    exec(&mut s, &["new-window", "-d", "top"]).unwrap();
    assert_eq!(s.session(sid).unwrap().active_window, 0);
    assert_eq!(s.log, vec!["create_window 0 / Some(\"top\")"]);
}

#[test]
fn kill_window_all_but_target() {
    let mut s = MockCommandServer::new();
    let (sid, _, _) = s.create_test_session("work");
    exec(&mut s, &["new-window"]).unwrap();
    exec(&mut s, &["new-window"]).unwrap();
    exec(&mut s, &["kill-window", "-a", "-t", "1"]).unwrap();
    let idx: Vec<u32> = s.session(sid).unwrap().windows.iter().map(|w| w.idx).collect();
    assert_eq!(idx, vec![1]);
}

#[test]
fn kill_window_invalid_index_errors() {
    let mut s = MockCommandServer::new();
    s.create_test_session("work");
    assert_eq!(err_text(exec(&mut s, &["kill-window", "-t", "work:x"])), "invalid window index: x");
}

#[test]
fn window_target_unknown_session_errors() {
    let mut s = MockCommandServer::new();
    s.create_test_session("work");
    assert_eq!(err_text(exec(&mut s, &["kill-window", "-t", "nope:1"])), "session not found: nope");
    assert_eq!(err_text(exec(&mut s, &["kill-window", "-t", "nope"])), "session not found: nope");
}

#[test]
fn window_commands_need_a_session() {
    let mut s = MockCommandServer::new();
    assert_eq!(err_text(exec(&mut s, &["next-window"])), "no current session");
}

#[test]
fn select_window_by_index_and_flags() {
    let mut s = MockCommandServer::new();
    let (sid, _, _) = s.create_test_session("work");
    exec(&mut s, &["new-window", "-d"]).unwrap();
    exec(&mut s, &["select-window", "-t", "1"]).unwrap();
    assert_eq!(s.session(sid).unwrap().active_window, 1);
    exec(&mut s, &["select-window", "-n"]).unwrap();
    exec(&mut s, &["select-window", "-T", "-t", "1"]).unwrap();
    assert_eq!(s.log[s.log.len() - 2..], ["next_window 0".to_string(), "last_window 0".to_string()]);
}

#[test]
fn rename_window_sets_name() {
    let mut s = MockCommandServer::new();
    let (sid, _, _) = s.create_test_session("work");
    exec(&mut s, &["rename-window", "editor"]).unwrap();
    assert_eq!(s.session(sid).unwrap().windows[0].name, "editor");
}

#[test]
fn rename_window_missing_name_errors() {
    let mut s = MockCommandServer::new();
    s.create_test_session("work");
    assert_eq!(err_text(exec(&mut s, &["rename-window", "-a"])), "rename-window: missing name");
}

#[test]
fn list_windows_lines() {
    let mut s = MockCommandServer::new();
    s.create_test_session("work");
    assert_eq!(output_text(exec(&mut s, &["list-windows"])), "0: bash (1 panes)\n");
    assert_eq!(output_text(exec(&mut s, &["list-windows", "-a"])), "work: 0: bash (1 panes)\n");
}

#[test]
fn list_windows_all_without_sessions() {
    let mut s = MockCommandServer::new();
    assert_eq!(output_text(exec(&mut s, &["list-windows", "-a"])), "(no windows)\n");
}

#[test]
fn swap_and_move_window_targets() {
    let mut s = MockCommandServer::new();
    s.create_test_session("work");
    exec(&mut s, &["new-window", "-d"]).unwrap();
    exec(&mut s, &["swap-window", "-d", "-s", "work:1", "-t", "0"]).unwrap();
    exec(&mut s, &["move-window", "-s", "work:1", "-t", "work:3"]).unwrap();
    assert_eq!(s.log[s.log.len() - 2..], ["swap_window 0 1 0".to_string(), "move_window 0:1 0:3".to_string()]);
}

#[test]
fn layouts_cycle_through_commands() {
    let mut s = MockCommandServer::new();
    s.create_test_session("work");
    exec(&mut s, &["select-layout", "-n"]).unwrap();
    assert_eq!(s.layout, "even-vertical");
    exec(&mut s, &["next-layout"]).unwrap();
    assert_eq!(s.layout, "main-horizontal");
    exec(&mut s, &["previous-layout"]).unwrap();
    assert_eq!(s.layout, "even-vertical");
    exec(&mut s, &["select-layout", "-E"]).unwrap();
    assert_eq!(s.layout, "tiled");
    exec(&mut s, &["select-layout", "-n"]).unwrap();
    assert_eq!(s.layout, "even-horizontal");
    exec(&mut s, &["select-layout", "main-vertical"]).unwrap();
    assert_eq!(s.layout, "main-vertical");
    exec(&mut s, &["select-layout"]).unwrap();
    assert_eq!(s.layout, "even-horizontal");
}

#[test]
fn find_window_results() {
    let mut s = MockCommandServer::new();
    s.create_test_session("work");
    assert_eq!(output_text(exec(&mut s, &["find-window", "bash"])), "0: bash (1 panes)\n");
    assert_eq!(err_text(exec(&mut s, &["find-window", "vim"])), "no windows matching: vim");
    assert_eq!(err_text(exec(&mut s, &["find-window", "-t", "work"])), "find-window: missing match string");
}

#[test]
fn respawn_and_link_windows() {
    let mut s = MockCommandServer::new();
    s.create_test_session("work");
    s.create_session("other", "/", 80, 24, None).unwrap();
    exec(&mut s, &["respawn-window", "htop", "-d"]).unwrap();
    exec(&mut s, &["link-window", "-s", "work:0", "-t", "other"]).unwrap();
    exec(&mut s, &["link-window", "-k", "-t", "other:3"]).unwrap();
    assert_eq!(
        s.log,
        vec![
            "respawn_pane 0:0 0 Some(\"htop\")".to_string(),
            "link_window 0:0 1:None false".to_string(),
            "link_window 0:0 1:Some(3) true".to_string(),
        ]
    );
}

#[test]
fn unlink_window_removes_it() {
    let mut s = MockCommandServer::new();
    let (sid, _, _) = s.create_test_session("work");
    exec(&mut s, &["new-window", "-d"]).unwrap();
    exec(&mut s, &["unlink-window", "-t", "1"]).unwrap();
    assert_eq!(s.session(sid).unwrap().windows.len(), 1);
}

#[test]
fn split_window_sizes() {
    let mut s = MockCommandServer::new();
    s.create_test_session("work");
    exec(&mut s, &["split-window", "-h", "-l", "30%"]).unwrap();
    exec(&mut s, &["split-window", "-p", "40"]).unwrap();
    exec(&mut s, &["split-window", "-l", "x"]).unwrap();
    assert_eq!(
        s.log,
        vec![
            "split_window 0:0 true Some(Percent(30))".to_string(),
            "split_window 0:0 false Some(Percent(40))".to_string(),
            "split_window 0:0 false None".to_string(),
        ]
    );
}

#[test]
fn select_pane_flags() {
    let mut s = MockCommandServer::new();
    s.create_test_session("work");
    exec(&mut s, &["select-pane", "-U"]).unwrap();
    exec(&mut s, &["select-pane", "-Z"]).unwrap();
    exec(&mut s, &["select-pane", "-l"]).unwrap();
    exec(&mut s, &["select-pane", "-m"]).unwrap();
    exec(&mut s, &["select-pane", "-T", "title"]).unwrap();
    exec(&mut s, &["select-pane", "-t", "0"]).unwrap();
    assert_eq!(
        s.log,
        vec![
            "select_pane_direction 0:0 Up".to_string(),
            "toggle_zoom 0:0 0".to_string(),
            "last_pane 0:0".to_string(),
            "select_pane_id 0:0 0".to_string(),
        ]
    );
}

#[test]
fn select_pane_target_forms_resolve_as_windows_first() {
    let mut s = MockCommandServer::new();
    s.create_test_session("work");
    assert_eq!(err_text(exec(&mut s, &["select-pane", "-t", "%3"])), "session not found: %3");
    exec(&mut s, &["select-pane", "-t", "work"]).unwrap();
    exec(&mut s, &["select-pane", "-t", "work:0"]).unwrap();
    assert!(s.log.is_empty());
}

#[test]
fn kill_pane_all_but_active() {
    let mut s = MockCommandServer::new();
    let (sid, _, pane) = s.create_test_session("work");
    exec(&mut s, &["split-window"]).unwrap();
    exec(&mut s, &["split-window"]).unwrap();
    exec(&mut s, &["kill-pane", "-a"]).unwrap();
    assert_eq!(s.session(sid).unwrap().windows[0].panes, vec![pane]);
}

#[test]
fn kill_pane_by_id() {
    let mut s = MockCommandServer::new();
    let (sid, _, pane) = s.create_test_session("work");
    exec(&mut s, &["split-window"]).unwrap();
    exec(&mut s, &["kill-pane", "-t", "work:0"]).unwrap();
    assert!(!s.session(sid).unwrap().windows[0].panes.contains(&pane));
}

#[test]
fn list_panes_forms() {
    let mut s = MockCommandServer::new();
    s.create_test_session("work");
    assert_eq!(output_text(exec(&mut s, &["list-panes"])), "%0: [80x24]\n");
    assert_eq!(output_text(exec(&mut s, &["list-panes", "-s"])), "0: %0: [80x24]\n");
    assert_eq!(output_text(exec(&mut s, &["list-panes", "-a"])), "work:0: %0: [80x24]\n");
}

#[test]
fn list_panes_all_without_sessions() {
    let mut s = MockCommandServer::new();
    assert_eq!(output_text(exec(&mut s, &["list-panes", "-a"])), "(no panes)\n");
}

#[test]
fn capture_pane_join_and_buffer() {
    let mut s = MockCommandServer::new();
    s.create_test_session("work");
    assert_eq!(output_text(exec(&mut s, &["capture-pane", "-p"])), "pane 0   \nsecond line\t\n");
    assert_eq!(output_text(exec(&mut s, &["capture-pane", "-J"])), "pane 0\nsecond line\n");
    assert!(matches!(exec(&mut s, &["capture-pane", "-J", "-b", "grab"]).unwrap(), CommandResult::Done));
    assert_eq!(s.show_buffer("grab").unwrap(), "pane 0\nsecond line\n");
}

#[test]
fn resize_pane_direction_and_amount() {
    let mut s = MockCommandServer::new();
    s.create_test_session("work");
    exec(&mut s, &["resize-pane", "-U", "5"]).unwrap();
    exec(&mut s, &["resize-pane", "-R"]).unwrap();
    exec(&mut s, &["resize-pane", "-Z"]).unwrap();
    assert_eq!(
        s.log,
        vec![
            "resize_pane 0:0 0 Some(Up) 5".to_string(),
            "resize_pane 0:0 0 Some(Right) 1".to_string(),
            "toggle_zoom 0:0 0".to_string(),
        ]
    );
}

#[test]
fn swap_pane_with_neighbours() {
    let mut s = MockCommandServer::new();
    s.create_test_session("work");
    exec(&mut s, &["split-window"]).unwrap();
    exec(&mut s, &["split-window"]).unwrap();
    s.log.clear();
    exec(&mut s, &["swap-pane", "-D"]).unwrap();
    exec(&mut s, &["swap-pane", "-U"]).unwrap();
    exec(&mut s, &["swap-pane", "-Z", "-s", "%2", "-D"]).unwrap();
    assert_eq!(
        s.log,
        vec![
            "swap_pane 0:0 0 1".to_string(),
            "swap_pane 0:0 0 2".to_string(),
            "unzoom_window 0:0".to_string(),
            "swap_pane 0:0 2 0".to_string(),
        ]
    );
    assert_eq!(err_text(exec(&mut s, &["swap-pane", "-s", "%z"])), "invalid pane: %z");
}

#[test]
fn break_pane_selects_new_window() {
    let mut s = MockCommandServer::new();
    let (sid, _, _) = s.create_test_session("work");
    exec(&mut s, &["split-window"]).unwrap();
    exec(&mut s, &["break-pane"]).unwrap();
    let sess = s.session(sid).unwrap();
    assert_eq!(sess.windows.len(), 2);
    assert_eq!(sess.active_window, 1);
}

#[test]
fn join_last_respawn_and_move_pane() {
    let mut s = MockCommandServer::new();
    s.create_test_session("work");
    s.create_session("other", "/", 80, 24, None).unwrap();
    exec(&mut s, &["join-pane", "-h", "-s", "other:0"]).unwrap();
    exec(&mut s, &["move-pane", "-s", "other"]).unwrap();
    exec(&mut s, &["last-pane", "-Z"]).unwrap();
    exec(&mut s, &["respawn-pane"]).unwrap();
    assert_eq!(
        s.log,
        vec![
            "join_pane 1:0 1 0:0 true".to_string(),
            "join_pane 1:0 1 0:0 false".to_string(),
            "unzoom_window 0:0".to_string(),
            "last_pane 0:0".to_string(),
            "respawn_pane 0:0 0 None".to_string(),
        ]
    );
    assert_eq!(err_text(exec(&mut s, &["join-pane", "-s", "nope"])), "session not found: nope");
    assert_eq!(err_text(exec(&mut s, &["join-pane", "-s", "other:q"])), "invalid window: q");
}

#[test]
fn choose_tree_no_sessions() {
    let mut s = MockCommandServer::new();
    let text = output_text(exec(&mut s, &["choose-tree"]));
    assert!(text.contains("no sessions"));
}

#[test]
fn choose_tree_with_sessions() {
    let mut s = MockCommandServer::new();
    s.create_test_session("sess");
    let result = exec(&mut s, &["choose-tree", "-s"]).unwrap();
    match result {
        CommandResult::Overlay(rmux::overlay::OverlayState::List(list)) => {
            assert_eq!(list.items.len(), 1);
            assert!(list.items[0].display.contains("sess"));
            assert!(list.items[0].deletable);
        }
        other => panic!("expected Overlay(List), got {other:?}"),
    }
}

#[test]
fn choose_tree_lists_windows_under_sessions() {
    let mut s = MockCommandServer::new();
    s.create_test_session("sess");
    exec(&mut s, &["split-window"]).unwrap();
    exec(&mut s, &["new-window", "-d", "-n", "logs"]).unwrap();
    match exec(&mut s, &["choose-tree"]).unwrap() {
        CommandResult::Overlay(rmux::overlay::OverlayState::List(list)) => {
            let shown: Vec<&str> = list.items.iter().map(|i| i.display.as_str()).collect();
            assert_eq!(shown, vec!["sess: 2 windows (attached: 1)", "0: bash* (2 panes)", "1: logs"]);
            assert_eq!(list.items[0].command, vec!["switch-client", "-t", "sess"]);
            assert_eq!(list.items[0].hidden_children, 2);
            assert!(!list.items[0].collapsed);
            assert_eq!(list.items[2].command, vec!["select-window", "-t", "sess:1"]);
            assert_eq!(list.items[2].delete_command, vec!["kill-window", "-t", "sess:1"]);
            assert_eq!(list.title, "choose-tree");
        }
        other => panic!("expected Overlay(List), got {other:?}"),
    }
}

#[test]
fn choose_buffer_no_buffers() {
    let mut s = MockCommandServer::new();
    let text = output_text(exec(&mut s, &["choose-buffer"]));
    assert!(text.contains("no buffers"));
}

#[test]
fn choose_buffer_with_buffers() {
    let mut s = MockCommandServer::new();
    s.set_buffer("buffer0", "hello world").unwrap();
    let result = exec(&mut s, &["choose-buffer"]).unwrap();
    match result {
        CommandResult::Overlay(rmux::overlay::OverlayState::List(list)) => {
            assert_eq!(list.items.len(), 1);
            assert!(list.items[0].display.contains("hello world"));
            assert!(list.items[0].deletable);
            assert_eq!(list.items[0].display, "buffer0: 11 bytes \"hello world\"");
            assert_eq!(list.items[0].command, vec!["paste-buffer", "-b", "buffer0"]);
            assert_eq!(list.items[0].delete_command, vec!["delete-buffer", "-b", "buffer0"]);
        }
        other => panic!("expected Overlay(List), got {other:?}"),
    }
}

#[test]
fn choose_client_returns_overlay() {
    let mut s = MockCommandServer::new();
    s.create_test_session("sess");
    s.client_session_id = Some(s.sessions.first().unwrap().id);
    let result = exec(&mut s, &["choose-client"]).unwrap();
    match result {
        CommandResult::Overlay(rmux::overlay::OverlayState::List(list)) => {
            assert!(!list.items.is_empty());
            assert!(list.items[0].display.contains("client"));
            assert_eq!(list.items[0].display, "client 0: sess [80x24]");
            assert_eq!(list.items[0].delete_command, vec!["detach-client", "-t", "0"]);
        }
        other => panic!("expected Overlay(List), got {other:?}"),
    }
}

#[test]
fn display_menu_with_items() {
    let mut s = MockCommandServer::new();
    let result = exec(&mut s, &["display-menu", "-T", "Test", "New", "c", "new-window", "Kill", "k", "kill-window"]).unwrap();
    match result {
        CommandResult::Overlay(rmux::overlay::OverlayState::Menu(menu)) => {
            assert_eq!(menu.title, "Test");
            assert_eq!(menu.items.len(), 2);
            assert_eq!(menu.items[0].name, "New");
            assert_eq!(menu.items[0].key, Some('c'));
            assert_eq!(menu.items[1].name, "Kill");
        }
        other => panic!("expected Overlay(Menu), got {other:?}"),
    }
}

#[test]
fn display_menu_no_items() {
    let mut s = MockCommandServer::new();
    let result = exec(&mut s, &["display-menu"]);
    assert!(matches!(result.unwrap(), CommandResult::Done));
}

#[test]
fn display_menu_separator_width_and_position() {
    let mut s = MockCommandServer::new();
    let result = exec(&mut s, &["display-menu", "-x", "4", "-y", "zz", "", "", "", "Split", "long", "split-window", "é", "é", "x"]).unwrap();
    match result {
        CommandResult::Overlay(rmux::overlay::OverlayState::Menu(menu)) => {
            assert_eq!(menu.title, "Menu");
            assert_eq!(menu.items.len(), 3);
            assert_eq!(menu.items[0].name, "");
            assert!(menu.items[0].command.is_empty());
            assert_eq!(menu.items[1].key, None);
            assert_eq!(menu.items[2].key, None);
            assert_eq!(menu.selected, 1);
            assert_eq!((menu.x, menu.y), (4, 0));
            assert_eq!(menu.width, 7);
            assert_eq!(menu.items[1].command, vec!["split-window"]);
        }
        other => panic!("expected Overlay(Menu), got {other:?}"),
    }
}

#[test]
fn display_message_with_text() {
    let mut s = MockCommandServer::new();
    s.create_test_session("test");
    let result = exec(&mut s, &["display-message", "hello world"]).unwrap();
    match result {
        CommandResult::TimedMessage(msg) => assert!(msg.contains("hello world")),
        other => panic!("expected TimedMessage, got {other:?}"),
    }
}

#[test]
fn display_message_with_print_flag() {
    let mut s = MockCommandServer::new();
    s.create_test_session("test");
    let text = output_text(exec(&mut s, &["display-message", "-p"]));
    assert_eq!(text, "\n");
}

#[test]
fn display_message_no_args_no_output() {
    let mut s = MockCommandServer::new();
    s.create_test_session("test");
    let result = exec(&mut s, &["display-message"]);
    assert!(matches!(result.unwrap(), CommandResult::Done));
}

#[test]
fn display_message_expands_formats() {
    let mut s = MockCommandServer::new();
    s.create_test_session("work");
    let text = output_text(exec(&mut s, &["display-message", "-p", "-t", "work", "at", "#{session_name}:#{window_index}"]));
    assert_eq!(text, "at work:0\n");
}

#[test]
fn display_message_lists_variables_sorted() {
    let mut s = MockCommandServer::new();
    s.create_test_session("work");
    let text = output_text(exec(&mut s, &["display-message", "-a"]));
    assert_eq!(text, "session_name work\nwindow_index 0\n");
}

#[test]
fn clock_mode_outputs_digits() {
    let mut s = MockCommandServer::new();
    let text = output_text(exec(&mut s, &["clock-mode"]));
    assert!(text.contains('#'));
    assert!(text.lines().count() >= 5);
}

#[test]
fn send_prefix_writes_ctrl_b() {
    let mut s = MockCommandServer::new();
    s.create_test_session("test");
    let result = exec(&mut s, &["send-prefix"]);
    assert!(result.is_ok());
    assert_eq!(s.written.borrow().as_slice(), &[vec![0x02u8]]);
}

#[test]
fn send_prefix_with_prefix2() {
    let mut s = MockCommandServer::new();
    s.create_test_session("test");
    let result = exec(&mut s, &["send-prefix", "-2"]);
    assert!(result.is_ok());
    assert_eq!(s.written.borrow().as_slice(), &[vec![0x02u8]]);
}

#[test]
fn send_prefix_uses_the_option() {
    let mut s = MockCommandServer::new();
    s.create_test_session("test");
    s.set_server_option("prefix", "C-a").unwrap();
    exec(&mut s, &["send-prefix"]).unwrap();
    assert_eq!(s.written.borrow().as_slice(), &[vec![0x01u8]]);
}

#[test]
fn send_keys_names_and_literals() {
    let mut s = MockCommandServer::new();
    s.create_test_session("test");
    exec(&mut s, &["send-keys", "ls", "Enter"]).unwrap();
    exec(&mut s, &["send-keys", "-l", "Enter"]).unwrap();
    exec(&mut s, &["send-keys", "-N", "2", "-t", "test:0", "x"]).unwrap();
    let written = s.written.borrow().clone();
    assert_eq!(written, vec![b"ls".to_vec(), vec![0x0d], b"Enter".to_vec(), b"x".to_vec(), b"x".to_vec()]);
}

#[test]
fn send_keys_errors() {
    let mut s = MockCommandServer::new();
    s.create_test_session("test");
    assert_eq!(err_text(exec(&mut s, &["send-keys", "-t", "test:0"])), "send-keys: no keys specified");
    assert_eq!(err_text(exec(&mut s, &["send-keys", "-X"])), "send-keys -X: no command specified");
    assert_eq!(err_text(exec(&mut s, &["send-keys", "-t", "nope:0", "a"])), "session not found: nope");
    assert_eq!(err_text(exec(&mut s, &["send-keys", "-t", "test:w", "a"])), "invalid window: w");
}

#[test]
fn send_keys_copy_mode_and_reset() {
    let mut s = MockCommandServer::new();
    s.create_test_session("test");
    exec(&mut s, &["send-keys", "-R", "-X", "begin-selection", "now"]).unwrap();
    assert_eq!(s.log, vec!["copy_mode begin-selection now".to_string()]);
    assert_eq!(s.written.borrow().as_slice(), &[vec![0x1bu8, b'c']]);
}

#[test]
fn if_shell_true_branch() {
    let mut s = MockCommandServer::new();
    s.create_test_session("test");
    let result = exec(&mut s, &["if-shell", "true", "start-server"]);
    assert!(result.is_ok());
}

#[test]
fn if_shell_false_branch() {
    let mut s = MockCommandServer::new();
    s.create_test_session("test");
    let result = exec(&mut s, &["if-shell", "false", "start-server", "kill-server"]);
    assert!(result.is_ok());
}

#[test]
fn if_shell_false_no_else_ok() {
    let mut s = MockCommandServer::new();
    let result = exec(&mut s, &["if-shell", "false", "start-server"]);
    assert!(matches!(result.unwrap(), CommandResult::Done));
}

#[test]
fn if_shell_missing_args_errors() {
    let mut s = MockCommandServer::new();
    let result = exec(&mut s, &["if-shell", "true"]);
    assert!(result.is_err());
}

#[test]
fn if_shell_runs_chosen_command() {
    let mut s = MockCommandServer::new();
    s.create_test_session("test");
    exec(&mut s, &["if-shell", "true", "rename-session -t test renamed"]).unwrap();
    assert!(s.has_session("renamed"));
    exec(&mut s, &["if-shell", "-F", "#{session_name}", "new-window -d"]).unwrap();
    exec(&mut s, &["if-shell", "-F", "0", "kill-window", "new-window -d"]).unwrap();
    assert_eq!(s.sessions[0].windows.len(), 3);
}

#[test]
fn copy_and_paste_buffers() {
    let mut s = MockCommandServer::new();
    s.create_test_session("test");
    exec(&mut s, &["copy-mode", "-u"]).unwrap();
    exec(&mut s, &["copy-mode", "-q"]).unwrap();
    assert_eq!(s.log, vec!["enter_copy_mode".to_string(), "copy_mode page-up".to_string(), "copy_mode cancel".to_string()]);
    exec(&mut s, &["set-buffer", "-b", "b1", "abc"]).unwrap();
    exec(&mut s, &["set-buffer", "-a", "-b", "b1", "def"]).unwrap();
    assert_eq!(s.show_buffer("b1").unwrap(), "abcdef");
    exec(&mut s, &["paste-buffer", "-d", "-b", "b1"]).unwrap();
    assert!(s.show_buffer("b1").is_err());
    assert_eq!(s.written.borrow().as_slice(), &[b"abcdef".to_vec()]);
    assert_eq!(err_text(exec(&mut s, &["set-buffer", "-b", "x"])), "usage: set-buffer [-b name] data");
}

#[test]
fn save_buffer_writes_or_appends() {
    let mut s = MockCommandServer::new();
    s.set_buffer("buffer0000", "top").unwrap();
    exec(&mut s, &["save-buffer", "/tmp/out"]).unwrap();
    exec(&mut s, &["save-buffer", "-a", "/tmp/out"]).unwrap();
    assert_eq!(
        s.written.borrow().as_slice(),
        &[b"save /tmp/out: top".to_vec(), b"append /tmp/out: top".to_vec()]
    );
    assert_eq!(err_text(exec(&mut s, &["save-buffer", "-a", "/nonexistent/f"])), "save-buffer: No such file or directory");
    assert_eq!(err_text(exec(&mut s, &["save-buffer"])), "usage: save-buffer [-b name] path");
}

#[test]
fn source_file_runs_commands() {
    let mut s = MockCommandServer::new();
    s.create_test_session("test");
    s.files.push(("/etc/a.conf".to_string(), "set-option -g @x one\n%hidden V=two\nset -g @y ${V}\n".to_string()));
    assert!(matches!(exec(&mut s, &["source-file", "/etc/a.conf"]).unwrap(), CommandResult::Done));
    assert_eq!(s.get_server_option("@x").unwrap(), "one");
    assert_eq!(s.get_server_option("@y").unwrap(), "two");
    assert_eq!(s.hidden.get("V").unwrap(), "two");
    assert!(s.get_server_option("current_file").is_err());
}

#[test]
fn source_file_sets_current_file_while_running() {
    let mut s = MockCommandServer::new();
    s.files.push(("/etc/b.conf".to_string(), "set -g @me ${current_file}\n".to_string()));
    exec(&mut s, &["source-file", "/etc/b.conf"]).unwrap();
    assert_eq!(s.get_server_option("@me").unwrap(), "/etc/b.conf");
}

#[test]
fn source_file_missing_file() {
    let mut s = MockCommandServer::new();
    assert_eq!(err_text(exec(&mut s, &["source-file", "/nope.conf"])), "source-file: No such file or directory (os error 2)");
    assert!(matches!(exec(&mut s, &["source-file", "-q", "/nope.conf"]).unwrap(), CommandResult::Done));
    assert_eq!(err_text(exec(&mut s, &["source-file", "-q"])), "source-file: missing path");
}

#[test]
fn source_file_reports_command_errors() {
    let mut s = MockCommandServer::new();
    s.files.push(("/etc/c.conf".to_string(), "bogus-command\nset -g @ok 1\nalso-bogus\n".to_string()));
    let text = output_text(exec(&mut s, &["source-file", "/etc/c.conf"]));
    assert_eq!(text, "unknown command: bogus-command\nunknown command: also-bogus\n");
    assert_eq!(s.get_server_option("@ok").unwrap(), "1");
}

#[test]
fn source_file_globs_in_sorted_order() {
    let mut s = MockCommandServer::new();
    s.files.push(("/conf.d/a.conf".to_string(), "set -g @order a\n".to_string()));
    s.files.push(("/conf.d/b.conf".to_string(), "set -g @order b\n".to_string()));
    exec(&mut s, &["source-file", "/conf.d/*.conf"]).unwrap();
    assert_eq!(s.get_server_option("@order").unwrap(), "b");
    assert_eq!(err_text(exec(&mut s, &["source-file", "/conf.d/[*.conf"])), "source-file: Pattern syntax error near position 0");
    assert!(matches!(exec(&mut s, &["source-file", "-q", "/conf.d/[*.conf"]).unwrap(), CommandResult::Done));
}

#[test]
fn source_file_expands_home() {
    let mut s = MockCommandServer::new();
    s.files.push(("/home/user/.rmux.conf".to_string(), "set -g @home yes\n".to_string()));
    exec(&mut s, &["source-file", "~/.rmux.conf"]).unwrap();
    assert_eq!(s.get_server_option("@home").unwrap(), "yes");
}

#[test]
fn source_file_refuses_lone_quote_values() {
    let mut s = MockCommandServer::new();
    s.files.push(("/etc/q.conf".to_string(), "%if \"\nset -g @x 1\n%endif\n".to_string()));
    assert_eq!(err_text(exec(&mut s, &["source-file", "/etc/q.conf"])), "source-file: /etc/q.conf: unmatched quote");
}
