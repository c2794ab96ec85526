use rmux::keybind::{
    key_to_string, keyc_build, string_to_key, KeyAction, KeyBindings, KeyCode, KeyModifiers, KEYC_DOWN,
    KEYC_ESCAPE, KEYC_F1, KEYC_LEFT, KEYC_RETURN, KEYC_RIGHT, KEYC_SPACE, KEYC_UP,
};

#[test]
fn list_bindings_returns_sorted() {
    let kb = KeyBindings::default_bindings();
    let bindings = kb.list_bindings();
    assert!(!bindings.is_empty());
    // Should be sorted
    let mut sorted = bindings.clone();
    sorted.sort();
    assert_eq!(bindings, sorted);
}

#[test]
fn copy_mode_vi_bindings_exist() {
    let kb = KeyBindings::default_bindings();
    // Check key lookups for copy-mode-vi
    let action = kb.lookup_in_table("copy-mode-vi", b'h' as KeyCode);
    assert_eq!(action, Some(&vec!["cursor-left".to_string()]));

    let action = kb.lookup_in_table("copy-mode-vi", b'q' as KeyCode);
    assert_eq!(action, Some(&vec!["cancel".to_string()]));

    let action = kb.lookup_in_table("copy-mode-vi", b'y' as KeyCode);
    assert_eq!(action, Some(&vec!["copy-selection-and-cancel".to_string()]));
}

#[test]
fn copy_mode_emacs_bindings_exist() {
    let kb = KeyBindings::default_bindings();
    let action = kb.lookup_in_table("copy-mode-emacs", KEYC_ESCAPE);
    assert_eq!(action, Some(&vec!["cancel".to_string()]));
}

#[test]
fn add_custom_binding() {
    let mut kb = KeyBindings::default_bindings();
    kb.add_binding("prefix", b'z' as KeyCode, vec!["custom-command".into()]);
    let action = kb.lookup_in_table("prefix", b'z' as KeyCode);
    assert_eq!(action, Some(&vec!["custom-command".to_string()]));
}

#[test]
fn remove_binding_returns_true() {
    let mut kb = KeyBindings::default_bindings();
    // 'd' is bound to detach-client in prefix table
    let removed = kb.remove_binding("prefix", b'd' as KeyCode);
    assert!(removed);
    // Verify it's gone
    let action = kb.lookup_in_table("prefix", b'd' as KeyCode);
    assert!(action.is_none());
}

#[test]
fn remove_nonexistent_returns_false() {
    let mut kb = KeyBindings::default_bindings();
    let removed = kb.remove_binding("prefix", b'Z' as KeyCode);
    assert!(!removed);
}

#[test]
fn overwrite_binding() {
    let mut kb = KeyBindings::default_bindings();
    // 'd' is initially detach-client
    kb.add_binding("prefix", b'd' as KeyCode, vec!["new-command".into()]);
    let action = kb.lookup_in_table("prefix", b'd' as KeyCode);
    assert_eq!(action, Some(&vec!["new-command".to_string()]));
}

#[test]
fn string_to_key_basic() {
    assert_eq!(string_to_key("Enter"), Some(KEYC_RETURN));
    assert_eq!(string_to_key("Space"), Some(KEYC_SPACE));
    let ctrl_a = string_to_key("C-a");
    assert_eq!(ctrl_a, Some(keyc_build(b'a' as KeyCode, KeyModifiers::ctrl())));
}

#[test]
fn key_to_string_roundtrip() {
    let names = ["Enter", "Space", "Up", "Down", "Left", "Right", "Escape", "Tab", "BSpace"];
    for name in names {
        let key = string_to_key(name).unwrap();
        let result = key_to_string(key);
        assert_eq!(result, name, "roundtrip failed for {name}");
    }
}

#[test]
fn window_selection_0_through_9() {
    let kb = KeyBindings::default_bindings();
    for i in 0u8..=9 {
        let key = (b'0' + i) as KeyCode;
        let action = kb.lookup_in_table("prefix", key);
        assert!(action.is_some(), "expected binding for window {i}");
        let argv = action.unwrap();
        assert_eq!(argv, &vec!["select-window".to_string(), "-t".to_string(), i.to_string()]);
    }
}

#[test]
fn copy_mode_vi_all_nav_keys() {
    let kb = KeyBindings::default_bindings();
    for key_char in [b'h', b'j', b'k', b'l'] {
        let action = kb.lookup_in_table("copy-mode-vi", key_char as KeyCode);
        assert!(action.is_some(), "expected copy-mode-vi binding for '{}'", key_char as char);
    }
}

#[test]
fn prefix_bang_break_pane() {
    let kb = KeyBindings::default_bindings();
    let action = kb.lookup_in_table("prefix", b'!' as KeyCode);
    assert_eq!(action, Some(&vec!["break-pane".to_string()]));
}

#[test]
fn prefix_semicolon_last_pane() {
    let kb = KeyBindings::default_bindings();
    let action = kb.lookup_in_table("prefix", b';' as KeyCode);
    assert_eq!(action, Some(&vec!["last-pane".to_string()]));
}

#[test]
fn prefix_braces_swap_pane() {
    let kb = KeyBindings::default_bindings();
    let action = kb.lookup_in_table("prefix", b'{' as KeyCode);
    assert_eq!(action, Some(&vec!["swap-pane".to_string(), "-U".to_string()]));
    let action = kb.lookup_in_table("prefix", b'}' as KeyCode);
    assert_eq!(action, Some(&vec!["swap-pane".to_string(), "-D".to_string()]));
}

#[test]
fn prefix_question_list_keys() {
    let kb = KeyBindings::default_bindings();
    let action = kb.lookup_in_table("prefix", b'?' as KeyCode);
    assert_eq!(action, Some(&vec!["list-keys".to_string()]));
}

#[test]
fn prefix_comma_rename_window() {
    let kb = KeyBindings::default_bindings();
    let action = kb.lookup_in_table("prefix", b',' as KeyCode);
    assert!(action.is_some());
    assert_eq!(action.unwrap()[0], "command-prompt");
}

#[test]
fn prefix_ctrl_b_send_prefix() {
    let kb = KeyBindings::default_bindings();
    let ctrl_b = keyc_build(b'b' as KeyCode, KeyModifiers::ctrl());
    let action = kb.lookup_in_table("prefix", ctrl_b);
    assert_eq!(action, Some(&vec!["send-prefix".to_string()]));
}

#[test]
fn prefix_ctrl_arrows_resize_by_1() {
    let kb = KeyBindings::default_bindings();
    for (arrow, dir) in
        [(KEYC_UP, "-U"), (KEYC_DOWN, "-D"), (KEYC_LEFT, "-L"), (KEYC_RIGHT, "-R")]
    {
        let key = keyc_build(arrow, KeyModifiers::ctrl());
        let action = kb.lookup_in_table("prefix", key);
        assert_eq!(
            action,
            Some(&vec!["resize-pane".to_string(), dir.to_string()]),
            "C-{dir} should resize by 1"
        );
    }
}

#[test]
fn prefix_meta_arrows_resize_by_5() {
    let kb = KeyBindings::default_bindings();
    for (arrow, dir) in
        [(KEYC_UP, "-U"), (KEYC_DOWN, "-D"), (KEYC_LEFT, "-L"), (KEYC_RIGHT, "-R")]
    {
        let key = keyc_build(arrow, KeyModifiers::meta());
        let action = kb.lookup_in_table("prefix", key);
        assert_eq!(
            action,
            Some(&vec!["resize-pane".to_string(), dir.to_string(), "5".to_string()]),
            "M-{dir} should resize by 5"
        );
    }
}

#[test]
fn ctrl_arrow_not_confused_with_plain_arrow() {
    let kb = KeyBindings::default_bindings();
    // Plain Up → select-pane -U
    let plain = kb.lookup_in_table("prefix", KEYC_UP);
    assert_eq!(plain, Some(&vec!["select-pane".to_string(), "-U".to_string()]));
    // Ctrl-Up → resize-pane -U
    let ctrl = kb.lookup_in_table("prefix", keyc_build(KEYC_UP, KeyModifiers::ctrl()));
    assert_eq!(ctrl, Some(&vec!["resize-pane".to_string(), "-U".to_string()]));
}

#[test]
fn lookup_in_nonexistent_table() {
    let kb = KeyBindings::default_bindings();
    let action = kb.lookup_in_table("nonexistent-table", b'a' as KeyCode);
    assert!(action.is_none());
}

#[test]
fn copy_mode_vi_goto_line_binding() {
    let kb = KeyBindings::default_bindings();
    let action = kb.lookup_in_table("copy-mode-vi", b':' as KeyCode);
    assert_eq!(action, Some(&vec!["goto-line".to_string()]));
}

#[test]
fn add_binding_with_repeat_flag() {
    let mut kb = KeyBindings::default_bindings();
    kb.add_binding_with_repeat("prefix", b'z' as KeyCode, vec!["test-cmd".into()], true);
    let binding = kb.lookup_binding("prefix", b'z' as KeyCode);
    assert!(binding.is_some());
    assert!(binding.unwrap().repeatable);
}

#[test]
fn list_bindings_shows_repeat_flag() {
    let mut kb = KeyBindings::default_bindings();
    kb.add_binding_with_repeat("prefix", b'z' as KeyCode, vec!["test-cmd".into()], true);
    let bindings = kb.list_bindings();
    let z_binding = bindings.iter().find(|b| b.contains("test-cmd")).unwrap();
    assert!(z_binding.contains(" -r"), "expected -r flag in: {z_binding}");
}

#[test]
fn copy_mode_vi_has_set_mark_binding() {
    let kb = KeyBindings::default_bindings();
    let binding = kb.table_binding("copy-mode-vi", b'm' as KeyCode);
    assert!(binding.is_some(), "m should be bound in copy-mode-vi");
    assert_eq!(binding.unwrap().argv, vec!["set-mark"]);
}

#[test]
fn copy_mode_vi_has_swap_mark_binding() {
    let kb = KeyBindings::default_bindings();
    // M-m = Meta + m
    let meta_m = keyc_build(b'm' as KeyCode, KeyModifiers::meta());
    let binding = kb.table_binding("copy-mode-vi", meta_m);
    assert!(binding.is_some(), "M-m should be bound in copy-mode-vi");
    assert_eq!(binding.unwrap().argv, vec!["swap-mark"]);
}

#[test]
fn parsed_prefix_then_command() {
    let mut kb = KeyBindings::default_bindings();
    let prefix = keyc_build(b'b' as KeyCode, KeyModifiers::ctrl());
    let (action, consumed) = kb.process_key(Some((prefix, 1)), 1, false);
    assert!(matches!(action, Some(KeyAction::SendToPane(ref b)) if b.is_empty()));
    assert_eq!(consumed, 1);
    assert!(kb.in_prefix());
    let (action, consumed) = kb.process_key(Some((b'd' as KeyCode, 1)), 1, false);
    assert_eq!(consumed, 1);
    match action {
        Some(KeyAction::Command(argv)) => assert_eq!(argv, vec!["detach-client"]),
        _ => panic!("expected Command"),
    }
    assert!(!kb.in_prefix());
}

#[test]
fn parsed_unbound_key_passes_through() {
    let mut kb = KeyBindings::default_bindings();
    let (action, consumed) = kb.process_key(Some((b'a' as KeyCode, 1)), 3, false);
    assert!(action.is_none());
    assert_eq!(consumed, 1);
    let (action, consumed) = kb.process_key(None, 0, false);
    assert!(action.is_none());
    assert_eq!(consumed, 0);
}

#[test]
fn parsed_repeatable_binding_stays_in_prefix_until_expiry() {
    let mut kb = KeyBindings::default_bindings();
    kb.add_binding_with_repeat("prefix", b'z' as KeyCode, vec!["test-repeat".into()], true);
    let prefix = keyc_build(b'b' as KeyCode, KeyModifiers::ctrl());
    let _ = kb.process_key(Some((prefix, 1)), 1, false);
    let (action, _) = kb.process_key(Some((b'z' as KeyCode, 1)), 1, false);
    assert!(matches!(action, Some(KeyAction::Command(ref argv)) if argv == &["test-repeat"]));
    assert!(kb.in_prefix());
    kb.set_repeat_timeout(500);
    assert!(kb.in_prefix());
    // With the deadline passed, the key is handled outside prefix mode.
    let (action, _) = kb.process_key(Some((b'a' as KeyCode, 1)), 1, true);
    assert!(action.is_none());
    assert!(!kb.in_prefix());
}

#[test]
fn parsed_unknown_prefix_key_leaves_prefix() {
    let mut kb = KeyBindings::default_bindings();
    let prefix = keyc_build(b'b' as KeyCode, KeyModifiers::ctrl());
    let _ = kb.process_key(Some((prefix, 1)), 1, false);
    let (action, _) = kb.process_key(Some((b'Z' as KeyCode, 1)), 1, false);
    assert!(action.is_none());
    assert!(!kb.in_prefix());
    let _ = kb.process_parsed(Some((prefix, 1)), 1);
    assert!(kb.in_prefix());
}

#[test]
fn root_table_binding_needs_no_prefix() {
    let mut kb = KeyBindings::default_bindings();
    kb.add_binding("root", KEYC_F1, vec!["new-window".into()]);
    let (action, _) = kb.process_key(Some((KEYC_F1, 3)), 3, false);
    match action {
        Some(KeyAction::Command(argv)) => assert_eq!(argv, vec!["new-window"]),
        _ => panic!("expected Command"),
    }
}

#[test]
fn modifier_key_falls_back_to_base_binding() {
    let kb = KeyBindings::default_bindings();
    let shift_h = keyc_build(b'h' as KeyCode, KeyModifiers::shift());
    assert_eq!(kb.lookup_in_table("copy-mode-vi", shift_h), Some(&vec!["cursor-left".to_string()]));
    assert!(kb.table_binding("copy-mode-vi", shift_h).is_none());
}

#[test]
fn key_names_special_and_modified() {
    assert_eq!(key_to_string(KEYC_F1), "F1");
    assert_eq!(string_to_key("F12"), Some(KEYC_F1 + 11));
    assert_eq!(string_to_key("F13"), None);
    assert_eq!(string_to_key("Fx"), None);
    assert_eq!(string_to_key("F"), Some(b'F' as KeyCode));
    assert_eq!(key_to_string(keyc_build(KEYC_UP, KeyModifiers::meta())), "M-Up");
    assert_eq!(string_to_key("M-Up"), Some(keyc_build(KEYC_UP, KeyModifiers::meta())));
    assert_eq!(key_to_string(0x01), "0x01");
    assert_eq!(key_to_string(0x1234), "0x1234");
    assert_eq!(key_to_string(b' ' as KeyCode), "Space");
    assert_eq!(string_to_key("nosuchkey"), None);
    assert_eq!(string_to_key("Insert"), string_to_key("IC"));
    assert_eq!(string_to_key("Esc"), Some(KEYC_ESCAPE));
    assert_eq!(string_to_key("CR"), Some(KEYC_RETURN));
    let _ = (KEYC_DOWN, KEYC_LEFT, KEYC_RIGHT, KEYC_SPACE);
}

#[test]
fn list_bindings_line_format() {
    let mut kb = KeyBindings::default_bindings();
    kb.add_binding("root", b'x' as KeyCode, vec!["kill-pane".into(), "-a".into()]);
    let lines = kb.list_bindings();
    assert!(lines.iter().any(|l| l == "bind-key -T root x kill-pane -a"));
    assert!(lines.iter().any(|l| l == "bind-key -r -T prefix C-Up resize-pane -U"));
    assert!(lines.iter().any(|l| l == "bind-key -T prefix M-1 select-layout even-horizontal"));
}

#[test]
fn remove_binding_from_missing_table() {
    let mut kb = KeyBindings::default_bindings();
    assert!(!kb.remove_binding("nope", b'a' as KeyCode));
    kb.set_prefix(b'a' as KeyCode);
    let (action, _) = kb.process_key(Some((b'a' as KeyCode, 1)), 1, false);
    assert!(matches!(action, Some(KeyAction::SendToPane(_))));
}
