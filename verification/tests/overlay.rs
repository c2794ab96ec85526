use rmux::overlay::{
    filtered_items, process_list_input, process_menu_input, ListItem, ListKind, ListOverlay, MenuItem, MenuOverlay,
    OverlayAction,
};

fn test_list_items() -> Vec<ListItem> {
    vec![
        ListItem {
            display: "session-0: 2 windows".into(),
            command: vec!["switch-client".into(), "-t".into(), "session-0".into()],
            indent: 0,
            collapsed: false,
            hidden_children: 0,
            deletable: false,
            delete_command: vec![],
        },
        ListItem {
            display: "session-1: 1 windows".into(),
            command: vec!["switch-client".into(), "-t".into(), "session-1".into()],
            indent: 0,
            collapsed: false,
            hidden_children: 0,
            deletable: false,
            delete_command: vec![],
        },
        ListItem {
            display: "session-2: 3 windows".into(),
            command: vec!["switch-client".into(), "-t".into(), "session-2".into()],
            indent: 0,
            collapsed: false,
            hidden_children: 0,
            deletable: false,
            delete_command: vec![],
        },
    ]
}

fn test_list_overlay() -> ListOverlay {
    ListOverlay {
        items: test_list_items(),
        selected: 0,
        scroll_offset: 0,
        filter: String::new(),
        filtering: false,
        title: "choose-tree".into(),
        kind: ListKind::Tree,
    }
}

#[test]
fn list_navigate_down() {
    let mut state = test_list_overlay();
    let (action, consumed) = process_list_input(&mut state, b"j");
    assert!(matches!(action, OverlayAction::Handled));
    assert_eq!(consumed, 1);
    assert_eq!(state.selected, 1);
}

#[test]
fn list_navigate_up() {
    let mut state = test_list_overlay();
    state.selected = 2;
    let (action, _) = process_list_input(&mut state, b"k");
    assert!(matches!(action, OverlayAction::Handled));
    assert_eq!(state.selected, 1);
}

#[test]
fn list_navigate_up_at_top_stays() {
    let mut state = test_list_overlay();
    let (_, _) = process_list_input(&mut state, b"k");
    assert_eq!(state.selected, 0);
}

#[test]
fn list_navigate_down_at_bottom_stays() {
    let mut state = test_list_overlay();
    state.selected = 2;
    let (_, _) = process_list_input(&mut state, b"j");
    assert_eq!(state.selected, 2);
}

#[test]
fn list_select_returns_command() {
    let mut state = test_list_overlay();
    state.selected = 1;
    let (action, _) = process_list_input(&mut state, b"\r");
    match action {
        OverlayAction::Select { command } => {
            assert_eq!(command, vec!["switch-client", "-t", "session-1"]);
        }
        other => panic!("expected Select, got {other:?}"),
    }
}

#[test]
fn list_cancel_on_escape() {
    let mut state = test_list_overlay();
    let (action, _) = process_list_input(&mut state, b"\x1b");
    assert!(matches!(action, OverlayAction::Cancel));
}

#[test]
fn list_cancel_on_q() {
    let mut state = test_list_overlay();
    let (action, _) = process_list_input(&mut state, b"q");
    assert!(matches!(action, OverlayAction::Cancel));
}

#[test]
fn list_go_to_top() {
    let mut state = test_list_overlay();
    state.selected = 2;
    let (_, _) = process_list_input(&mut state, b"g");
    assert_eq!(state.selected, 0);
}

#[test]
fn list_go_to_bottom() {
    let mut state = test_list_overlay();
    let (_, _) = process_list_input(&mut state, b"G");
    assert_eq!(state.selected, 2);
}

#[test]
fn list_arrow_keys() {
    let mut state = test_list_overlay();
    // Down arrow
    let (_, consumed) = process_list_input(&mut state, b"\x1b[B");
    assert_eq!(consumed, 3);
    assert_eq!(state.selected, 1);
    // Up arrow
    let (_, consumed) = process_list_input(&mut state, b"\x1b[A");
    assert_eq!(consumed, 3);
    assert_eq!(state.selected, 0);
}

#[test]
fn list_emacs_nav() {
    let mut state = test_list_overlay();
    // Ctrl-N (down)
    let (_, _) = process_list_input(&mut state, b"\x0e");
    assert_eq!(state.selected, 1);
    // Ctrl-P (up)
    let (_, _) = process_list_input(&mut state, b"\x10");
    assert_eq!(state.selected, 0);
}

#[test]
fn filter_mode_enter_and_exit() {
    let mut state = test_list_overlay();
    // Enter filter mode
    let (_, _) = process_list_input(&mut state, b"/");
    assert!(state.filtering);
    // Type "session-1"
    for ch in b"session-1" {
        let (_, _) = process_list_input(&mut state, std::slice::from_ref(ch));
    }
    assert_eq!(state.filter, "session-1");
    // Confirm filter
    let (_, _) = process_list_input(&mut state, b"\r");
    assert!(!state.filtering);
    assert_eq!(state.filter, "session-1");
}

#[test]
fn filter_mode_escape_clears() {
    let mut state = test_list_overlay();
    let (_, _) = process_list_input(&mut state, b"/");
    for ch in b"test" {
        let (_, _) = process_list_input(&mut state, std::slice::from_ref(ch));
    }
    let (_, _) = process_list_input(&mut state, b"\x1b");
    assert!(!state.filtering);
    assert!(state.filter.is_empty());
}

#[test]
fn filter_backspace() {
    let mut state = test_list_overlay();
    let (_, _) = process_list_input(&mut state, b"/");
    for ch in b"abc" {
        let (_, _) = process_list_input(&mut state, std::slice::from_ref(ch));
    }
    let (_, _) = process_list_input(&mut state, b"\x7f");
    assert_eq!(state.filter, "ab");
}

#[test]
fn filter_ctrl_u_clears() {
    let mut state = test_list_overlay();
    let (_, _) = process_list_input(&mut state, b"/");
    for ch in b"abc" {
        let (_, _) = process_list_input(&mut state, std::slice::from_ref(ch));
    }
    let (_, _) = process_list_input(&mut state, b"\x15");
    assert!(state.filter.is_empty());
}

#[test]
fn filtered_items_filters_by_display() {
    let state = test_list_overlay();
    let items = filtered_items(&state);
    assert_eq!(items.len(), 3);
}

#[test]
fn filtered_items_with_filter() {
    let mut state = test_list_overlay();
    state.filter = "session-1".into();
    let items = filtered_items(&state);
    assert_eq!(items.len(), 1);
    assert_eq!(items[0].1.display, "session-1: 1 windows");
}

#[test]
fn filtered_items_case_insensitive() {
    let mut state = test_list_overlay();
    state.filter = "SESSION-2".into();
    let items = filtered_items(&state);
    assert_eq!(items.len(), 1);
}

#[test]
fn delete_action_on_deletable_item() {
    let mut state = test_list_overlay();
    state.items[0].deletable = true;
    state.items[0].delete_command = vec!["kill-session".into(), "session-0".into()];

    let (action, _) = process_list_input(&mut state, b"d");
    match action {
        OverlayAction::Delete { command } => {
            assert_eq!(command, vec!["kill-session", "session-0"]);
        }
        other => panic!("expected Delete, got {other:?}"),
    }
}

#[test]
fn delete_noop_on_non_deletable_item() {
    let mut state = test_list_overlay();
    let (action, _) = process_list_input(&mut state, b"d");
    assert!(matches!(action, OverlayAction::Handled));
}

#[test]
fn clamp_keeps_selected_in_bounds() {
    let mut state = test_list_overlay();
    state.selected = 100;
    state.clamp(10);
    assert_eq!(state.selected, 2);
}

#[test]
fn clamp_adjusts_scroll_offset() {
    let mut state = test_list_overlay();
    state.selected = 2;
    state.scroll_offset = 0;
    state.clamp(2); // only 2 rows visible
    assert_eq!(state.scroll_offset, 1); // scroll so selected is visible
}

#[test]
fn clamp_empty_items() {
    let mut state = test_list_overlay();
    state.items.clear();
    state.clamp(10);
    assert_eq!(state.selected, 0);
    assert_eq!(state.scroll_offset, 0);
}

// ============================================================
// Menu overlay tests
// ============================================================

fn test_menu_items() -> Vec<MenuItem> {
    vec![
        MenuItem {
            name: "New Window".into(),
            key: Some('c'),
            command: vec!["new-window".into()],
        },
        MenuItem { name: String::new(), key: None, command: vec![] }, // separator
        MenuItem {
            name: "Kill Window".into(),
            key: Some('&'),
            command: vec!["kill-window".into()],
        },
    ]
}

fn test_menu_overlay() -> MenuOverlay {
    MenuOverlay {
        items: test_menu_items(),
        selected: 0,
        title: "Window".into(),
        x: 5,
        y: 5,
        width: 20,
    }
}

#[test]
fn menu_select_by_key() {
    let mut state = test_menu_overlay();
    let (action, _) = process_menu_input(&mut state, b"c");
    match action {
        OverlayAction::Select { command } => {
            assert_eq!(command, vec!["new-window"]);
        }
        other => panic!("expected Select, got {other:?}"),
    }
}

#[test]
fn menu_select_by_enter() {
    let mut state = test_menu_overlay();
    let (action, _) = process_menu_input(&mut state, b"\r");
    match action {
        OverlayAction::Select { command } => {
            assert_eq!(command, vec!["new-window"]);
        }
        other => panic!("expected Select, got {other:?}"),
    }
}

#[test]
fn menu_navigate_skips_separator() {
    let mut state = test_menu_overlay();
    // Move down — should skip separator (index 1) and land on index 2
    let (_, _) = process_menu_input(&mut state, b"j");
    assert_eq!(state.selected, 2);
}

#[test]
fn menu_cancel() {
    let mut state = test_menu_overlay();
    let (action, _) = process_menu_input(&mut state, b"\x1b");
    assert!(matches!(action, OverlayAction::Cancel));
}

#[test]
fn menu_arrow_keys() {
    let mut state = test_menu_overlay();
    // Down
    let (_, consumed) = process_menu_input(&mut state, b"\x1b[B");
    assert_eq!(consumed, 3);
    assert_eq!(state.selected, 2);
    // Up
    let (_, _) = process_menu_input(&mut state, b"\x1b[A");
    assert_eq!(state.selected, 0);
}

#[test]
fn list_visible_height() {
    let state = test_list_overlay();
    assert_eq!(state.visible_height(24), 22);
    assert_eq!(state.visible_height(2), 0);
    assert_eq!(state.visible_height(1), 0);
}

#[test]
fn select_on_empty_list_cancels() {
    let mut state = test_list_overlay();
    state.items.clear();
    let (action, _) = process_list_input(&mut state, b"\r");
    assert!(matches!(action, OverlayAction::Cancel));
}

// ============================================================
// Tree expand/collapse tests
// ============================================================

fn test_tree_overlay() -> ListOverlay {
    ListOverlay {
        items: vec![
            ListItem {
                display: "sess-0: 2 windows".into(),
                command: vec!["switch-client".into(), "-t".into(), "sess-0".into()],
                indent: 0,
                collapsed: false,
                hidden_children: 0,
                deletable: true,
                delete_command: vec!["kill-session".into(), "-t".into(), "sess-0".into()],
            },
            ListItem {
                display: "0: bash*".into(),
                command: vec!["select-window".into(), "-t".into(), "sess-0:0".into()],
                indent: 1,
                collapsed: false,
                hidden_children: 0,
                deletable: true,
                delete_command: vec!["kill-window".into(), "-t".into(), "sess-0:0".into()],
            },
            ListItem {
                display: "1: vim".into(),
                command: vec!["select-window".into(), "-t".into(), "sess-0:1".into()],
                indent: 1,
                collapsed: false,
                hidden_children: 0,
                deletable: true,
                delete_command: vec!["kill-window".into(), "-t".into(), "sess-0:1".into()],
            },
            ListItem {
                display: "sess-1: 1 windows".into(),
                command: vec!["switch-client".into(), "-t".into(), "sess-1".into()],
                indent: 0,
                collapsed: false,
                hidden_children: 0,
                deletable: true,
                delete_command: vec!["kill-session".into(), "-t".into(), "sess-1".into()],
            },
            ListItem {
                display: "0: zsh*".into(),
                command: vec!["select-window".into(), "-t".into(), "sess-1:0".into()],
                indent: 1,
                collapsed: false,
                hidden_children: 0,
                deletable: true,
                delete_command: vec!["kill-window".into(), "-t".into(), "sess-1:0".into()],
            },
        ],
        selected: 0,
        scroll_offset: 0,
        filter: String::new(),
        filtering: false,
        title: "choose-tree".into(),
        kind: ListKind::Tree,
    }
}

#[test]
fn tree_collapse_removes_children() {
    let mut state = test_tree_overlay();
    assert_eq!(state.items.len(), 5);

    // Left arrow collapses sess-0 (selected=0)
    let (action, consumed) = process_list_input(&mut state, b"\x1b[D");
    assert!(matches!(action, OverlayAction::Handled));
    assert_eq!(consumed, 3);
    assert!(state.items[0].collapsed);
    assert_eq!(state.items[0].hidden_children, 2);
    // Children removed: sess-0's 2 windows gone
    assert_eq!(state.items.len(), 3);
    // Next item is sess-1
    assert!(state.items[1].display.contains("sess-1"));
}

#[test]
fn tree_collapse_already_collapsed_is_noop() {
    let mut state = test_tree_overlay();
    state.items[0].collapsed = true;
    let original_len = state.items.len();
    let (action, _) = process_list_input(&mut state, b"\x1b[D");
    assert!(matches!(action, OverlayAction::Handled));
    assert_eq!(state.items.len(), original_len);
}

#[test]
fn tree_expand_returns_rebuild() {
    let mut state = test_tree_overlay();
    // First collapse
    let (_, _) = process_list_input(&mut state, b"\x1b[D");
    assert!(state.items[0].collapsed);

    // Right arrow expands — returns RebuildTree
    let (action, consumed) = process_list_input(&mut state, b"\x1b[C");
    assert!(matches!(action, OverlayAction::RebuildTree));
    assert_eq!(consumed, 3);
    assert!(!state.items[0].collapsed);
}

#[test]
fn tree_expand_already_expanded_is_noop() {
    let mut state = test_tree_overlay();
    let (action, _) = process_list_input(&mut state, b"\x1b[C");
    assert!(matches!(action, OverlayAction::Handled));
}

#[test]
fn tree_collapse_on_child_item_is_noop() {
    let mut state = test_tree_overlay();
    state.selected = 1; // a window item (indent=1)
    let original_len = state.items.len();
    let (action, _) = process_list_input(&mut state, b"\x1b[D");
    assert!(matches!(action, OverlayAction::Handled));
    assert_eq!(state.items.len(), original_len);
}

#[test]
fn tree_toggle_non_tree_kind_is_noop() {
    let mut state = test_tree_overlay();
    state.kind = ListKind::Buffer;
    let (action, _) = process_list_input(&mut state, b"\x1b[D");
    assert!(matches!(action, OverlayAction::Handled));
    assert!(!state.items[0].collapsed);
}

#[test]
fn filter_no_matches_returns_empty() {
    let mut state = test_list_overlay();
    state.filter = "zzz_no_match".into();
    let items = filtered_items(&state);
    assert!(items.is_empty());
}

#[test]
fn tree_collapse_second_session() {
    let mut state = test_tree_overlay();
    // Navigate to sess-1 (index 3)
    state.selected = 3;
    let (action, _) = process_list_input(&mut state, b"\x1b[D");
    assert!(matches!(action, OverlayAction::Handled));
    assert!(state.items[3].collapsed);
    assert_eq!(state.items[3].hidden_children, 1);
    // sess-0 should be untouched
    assert!(!state.items[0].collapsed);
    assert_eq!(state.items.len(), 4); // 5 - 1 child removed
}

#[test]
fn tree_collapse_both_sessions() {
    let mut state = test_tree_overlay();
    assert_eq!(state.items.len(), 5);

    // Collapse sess-0 first
    state.selected = 0;
    let (_, _) = process_list_input(&mut state, b"\x1b[D");
    assert_eq!(state.items.len(), 3); // removed 2 children

    // Now collapse sess-1 (now at index 1)
    state.selected = 1;
    let (_, _) = process_list_input(&mut state, b"\x1b[D");
    assert_eq!(state.items.len(), 2); // removed 1 child
    assert!(state.items[0].collapsed);
    assert!(state.items[1].collapsed);
}

#[test]
fn list_selection_stays_in_bounds_over_many_keys() {
    let mut state = test_tree_overlay();
    for byte in b"jjjjjGk\x1b[D\x1b[Bggj/x\r\x1b[C" {
        let (_, consumed) = process_list_input(&mut state, std::slice::from_ref(byte));
        assert_eq!(consumed, 1);
        assert!(state.selected < state.items.len());
    }
}

#[test]
fn filter_accumulates_printable_bytes() {
    let mut state = test_list_overlay();
    let _ = process_list_input(&mut state, b"/");
    for ch in b"Ab 9~" {
        let _ = process_list_input(&mut state, std::slice::from_ref(ch));
    }
    assert_eq!(state.filter, "Ab 9~");
    assert!(state.filtering);
}

#[test]
fn filter_ignores_control_bytes() {
    let mut state = test_list_overlay();
    let _ = process_list_input(&mut state, b"/x");
    let (action, consumed) = process_list_input(&mut state, b"\x01");
    assert_eq!(action, OverlayAction::Handled);
    assert_eq!(consumed, 1);
    assert!(state.filtering);
}

#[test]
fn menu_up_skips_separator() {
    let mut state = test_menu_overlay();
    state.selected = 2;
    let (_, consumed) = process_menu_input(&mut state, b"k");
    assert_eq!(consumed, 1);
    assert_eq!(state.selected, 0);
}

#[test]
fn menu_enter_on_separator_is_handled() {
    let mut state = test_menu_overlay();
    state.selected = 1;
    let (action, _) = process_menu_input(&mut state, b"\n");
    assert_eq!(action, OverlayAction::Handled);
}

#[test]
fn menu_shortcut_takes_precedence_over_navigation() {
    let mut state = test_menu_overlay();
    state.items[2].key = Some('j');
    let (action, _) = process_menu_input(&mut state, b"j");
    assert_eq!(action, OverlayAction::Select { command: vec!["kill-window".to_string()] });
    assert_eq!(state.selected, 0);
}

#[test]
fn unknown_csi_consumes_three_bytes() {
    let mut state = test_list_overlay();
    let (action, consumed) = process_list_input(&mut state, b"\x1b[Zrest");
    assert_eq!(action, OverlayAction::Handled);
    assert_eq!(consumed, 3);
    assert_eq!(state.selected, 0);
}

#[test]
fn empty_input_consumes_nothing() {
    let mut state = test_list_overlay();
    let (action, consumed) = process_list_input(&mut state, b"");
    assert_eq!(action, OverlayAction::Handled);
    assert_eq!(consumed, 0);
}
