use rmux::copymode::{copy_selection, dispatch_copy_mode_action, CopyModeAction, CopyModeState};
use rmux::screen::{GridCell, Screen, SelectionType, Utf8Char};

fn make_screen_with_content(width: u32, height: u32, lines: &[&str]) -> Screen {
    let mut screen = Screen::new(width, height, 2000);
    for (y, line) in lines.iter().enumerate() {
        for (x, ch) in line.bytes().enumerate() {
            screen.grid.set_cell(
                x as u32,
                y as u32,
                &GridCell { data: Utf8Char::from_ascii(ch) },
            );
        }
    }
    screen
}

#[test]
fn enter_positions_cursor_at_bottom() {
    let screen = Screen::new(80, 24, 2000);
    let cm = CopyModeState::enter(&screen, "vi");
    assert_eq!(cm.cx, 0);
    assert_eq!(cm.cy, 23);
    assert_eq!(cm.oy, 0);
    assert!(!cm.selecting);
    assert_eq!(cm.key_table, "copy-mode-vi");
}

#[test]
fn enter_emacs_mode() {
    let screen = Screen::new(80, 24, 2000);
    let cm = CopyModeState::enter(&screen, "emacs");
    assert_eq!(cm.key_table, "copy-mode-emacs");
}

#[test]
fn cursor_movement() {
    let screen = Screen::new(80, 24, 2000);
    let mut cm = CopyModeState::enter(&screen, "vi");

    // Start at bottom-left
    assert_eq!((cm.cx, cm.cy), (0, 23));

    // Move up
    cm.cursor_up(&screen, 5);
    assert_eq!(cm.cy, 18);

    // Move right
    cm.cursor_right(&screen);
    cm.cursor_right(&screen);
    assert_eq!(cm.cx, 2);

    // Move left
    cm.cursor_left();
    assert_eq!(cm.cx, 1);

    // Left at 0 stays at 0
    cm.cursor_left();
    cm.cursor_left();
    assert_eq!(cm.cx, 0);

    // Move down
    cm.cursor_down(&screen, 3);
    assert_eq!(cm.cy, 21);
}

#[test]
fn cursor_up_scrolls_into_history() {
    let mut screen = Screen::new(80, 24, 2000);
    // Create some history
    for _ in 0..10 {
        screen.grid.scroll_up();
    }
    assert_eq!(screen.grid.history_size(), 10);

    let mut cm = CopyModeState::enter(&screen, "vi");
    cm.cy = 0; // At top of visible area

    // Moving up should scroll into history
    cm.cursor_up(&screen, 1);
    assert_eq!(cm.oy, 1);
    assert_eq!(cm.cy, 0);

    cm.cursor_up(&screen, 5);
    assert_eq!(cm.oy, 6);
}

#[test]
fn page_up_and_down() {
    let mut screen = Screen::new(80, 24, 2000);
    for _ in 0..100 {
        screen.grid.scroll_up();
    }

    let mut cm = CopyModeState::enter(&screen, "vi");
    cm.page_up(&screen);
    assert_eq!(cm.oy, 24); // One page

    cm.page_up(&screen);
    assert_eq!(cm.oy, 48);

    cm.page_down(&screen);
    assert_eq!(cm.oy, 24);

    cm.page_down(&screen);
    assert_eq!(cm.oy, 0);

    // Can't go below 0
    cm.page_down(&screen);
    assert_eq!(cm.oy, 0);
}

#[test]
fn history_top_and_bottom() {
    let mut screen = Screen::new(80, 24, 2000);
    for _ in 0..50 {
        screen.grid.scroll_up();
    }

    let mut cm = CopyModeState::enter(&screen, "vi");
    cm.history_top(&screen);
    assert_eq!(cm.oy, 50);
    assert_eq!(cm.cy, 0);
    assert_eq!(cm.cx, 0);

    cm.history_bottom(&screen);
    assert_eq!(cm.oy, 0);
    assert_eq!(cm.cy, 23);
}

#[test]
fn start_end_of_line() {
    let screen = make_screen_with_content(80, 24, &["Hello World"]);
    let mut cm = CopyModeState::enter(&screen, "vi");
    cm.cy = 0;
    cm.cx = 5;

    cm.start_of_line();
    assert_eq!(cm.cx, 0);

    cm.end_of_line(&screen);
    assert_eq!(cm.cx, 10); // "Hello World" is 11 chars, index 10 is last
}

#[test]
fn next_word_movement() {
    let screen = make_screen_with_content(80, 24, &["hello world foo"]);
    let mut cm = CopyModeState::enter(&screen, "vi");
    cm.cy = 0;
    cm.cx = 0;

    cm.next_word(&screen);
    assert_eq!(cm.cx, 6); // Start of "world"

    cm.next_word(&screen);
    assert_eq!(cm.cx, 12); // Start of "foo"
}

#[test]
fn previous_word_movement() {
    let screen = make_screen_with_content(80, 24, &["hello world foo"]);
    let mut cm = CopyModeState::enter(&screen, "vi");
    cm.cy = 0;
    cm.cx = 14; // End of "foo"

    cm.previous_word(&screen);
    assert_eq!(cm.cx, 12); // Start of "foo"

    cm.previous_word(&screen);
    assert_eq!(cm.cx, 6); // Start of "world"
}

#[test]
fn begin_and_yank_selection() {
    let screen = make_screen_with_content(80, 24, &["Hello World"]);
    let mut cm = CopyModeState::enter(&screen, "vi");
    cm.cy = 0;
    cm.cx = 0;

    cm.begin_selection(screen.grid.history_size());
    assert!(cm.selecting);

    cm.cx = 4; // Select "Hello"
    let data = copy_selection(&screen, &cm).unwrap();
    assert_eq!(data, b"Hello");
}

#[test]
fn multiline_selection() {
    let screen = make_screen_with_content(80, 24, &["Line one", "Line two", "Line three"]);
    let mut cm = CopyModeState::enter(&screen, "vi");
    cm.cy = 0;
    cm.cx = 0;

    cm.begin_selection(screen.grid.history_size());
    cm.cy = 1;
    cm.cx = 7; // Through "Line two"

    let data = copy_selection(&screen, &cm).unwrap();
    assert_eq!(String::from_utf8_lossy(&data), "Line one\nLine two");
}

#[test]
fn line_selection() {
    let screen = make_screen_with_content(80, 24, &["Hello World", "Goodbye"]);
    let mut cm = CopyModeState::enter(&screen, "vi");
    cm.cy = 0;
    cm.cx = 3;

    cm.select_line(screen.grid.history_size());
    assert_eq!(cm.sel_type, SelectionType::Line);

    let data = copy_selection(&screen, &cm).unwrap();
    assert_eq!(String::from_utf8_lossy(&data), "Hello World");
}

#[test]
fn dispatch_cancel_exits() {
    let screen = Screen::new(80, 24, 2000);
    let mut cm = CopyModeState::enter(&screen, "vi");

    match dispatch_copy_mode_action(&screen, &mut cm, "cancel") {
        CopyModeAction::Exit { copy_data } => assert!(copy_data.is_none()),
        _ => panic!("expected Exit"),
    }
}

#[test]
fn dispatch_copy_and_cancel() {
    let screen = make_screen_with_content(80, 24, &["Test data"]);
    let mut cm = CopyModeState::enter(&screen, "vi");
    cm.cy = 0;
    cm.cx = 0;
    cm.begin_selection(screen.grid.history_size());
    cm.cx = 3;

    match dispatch_copy_mode_action(&screen, &mut cm, "copy-selection-and-cancel") {
        CopyModeAction::Exit { copy_data } => {
            let data = copy_data.unwrap();
            assert_eq!(data, b"Test");
        }
        _ => panic!("expected Exit with data"),
    }
}

#[test]
fn dispatch_navigation() {
    let screen = Screen::new(80, 24, 2000);
    let mut cm = CopyModeState::enter(&screen, "vi");

    match dispatch_copy_mode_action(&screen, &mut cm, "cursor-up") {
        CopyModeAction::Handled => assert_eq!(cm.cy, 22),
        _ => panic!("expected Handled"),
    }
}

#[test]
fn halfpage_up_and_down() {
    let mut screen = Screen::new(80, 24, 2000);
    for _ in 0..100 {
        screen.grid.scroll_up();
    }

    let mut cm = CopyModeState::enter(&screen, "vi");
    assert_eq!(cm.oy, 0);

    cm.halfpage_up(&screen);
    assert_eq!(cm.oy, 12); // half of 24

    cm.halfpage_up(&screen);
    assert_eq!(cm.oy, 24);

    cm.halfpage_down(&screen);
    assert_eq!(cm.oy, 12);

    cm.halfpage_down(&screen);
    assert_eq!(cm.oy, 0);

    // Can't go below 0
    cm.halfpage_down(&screen);
    assert_eq!(cm.oy, 0);
}

#[test]
fn back_to_indentation() {
    let screen = make_screen_with_content(80, 24, &["   hello world"]);
    let mut cm = CopyModeState::enter(&screen, "vi");
    cm.cy = 0;
    cm.cx = 0;

    cm.back_to_indentation(&screen);
    assert_eq!(cm.cx, 3); // First non-space is 'h' at index 3
}

#[test]
fn next_word_end() {
    let screen = make_screen_with_content(80, 24, &["hello world foo"]);
    let mut cm = CopyModeState::enter(&screen, "vi");
    cm.cy = 0;
    cm.cx = 0;

    cm.next_word_end(&screen);
    assert_eq!(cm.cx, 4); // End of "hello" (index 4)

    cm.next_word_end(&screen);
    assert_eq!(cm.cx, 10); // End of "world" (index 10)

    cm.next_word_end(&screen);
    assert_eq!(cm.cx, 14); // End of "foo" (index 14)
}

#[test]
fn jump_forward_to_char() {
    let screen = make_screen_with_content(80, 24, &["hello world foo"]);
    let mut cm = CopyModeState::enter(&screen, "vi");
    cm.cy = 0;
    cm.cx = 0;

    cm.jump_forward(&screen, 'o');
    assert_eq!(cm.cx, 4); // 'o' in "hello"

    cm.jump_forward(&screen, 'o');
    assert_eq!(cm.cx, 7); // 'o' in "world"
}

#[test]
fn jump_backward_to_char() {
    let screen = make_screen_with_content(80, 24, &["hello world foo"]);
    let mut cm = CopyModeState::enter(&screen, "vi");
    cm.cy = 0;
    cm.cx = 14;

    cm.jump_backward(&screen, 'o');
    assert_eq!(cm.cx, 13); // 'o' in "foo"

    cm.jump_backward(&screen, 'o');
    assert_eq!(cm.cx, 7); // 'o' in "world"
}

#[test]
fn jump_forward_till() {
    let screen = make_screen_with_content(80, 24, &["hello world"]);
    let mut cm = CopyModeState::enter(&screen, "vi");
    cm.cy = 0;
    cm.cx = 0;

    cm.jump_forward_till(&screen, 'w');
    assert_eq!(cm.cx, 5); // one before 'w' at index 6
}

#[test]
fn jump_backward_till() {
    let screen = make_screen_with_content(80, 24, &["hello world"]);
    let mut cm = CopyModeState::enter(&screen, "vi");
    cm.cy = 0;
    cm.cx = 10;

    cm.jump_backward_till(&screen, 'o');
    assert_eq!(cm.cx, 8); // one after 'o' at index 7
}

#[test]
fn jump_again_and_reverse() {
    let screen = make_screen_with_content(80, 24, &["abcabc"]);
    let mut cm = CopyModeState::enter(&screen, "vi");
    cm.cy = 0;
    cm.cx = 0;

    cm.jump_forward(&screen, 'b');
    assert_eq!(cm.cx, 1);

    cm.jump_again(&screen);
    assert_eq!(cm.cx, 4); // next 'b'

    cm.jump_reverse(&screen);
    assert_eq!(cm.cx, 1); // back to first 'b'
}

#[test]
fn middle_top_bottom_line() {
    let screen = Screen::new(80, 24, 2000);
    let mut cm = CopyModeState::enter(&screen, "vi");

    cm.top_line();
    assert_eq!(cm.cy, 0);

    cm.middle_line(&screen);
    assert_eq!(cm.cy, 12); // 24 / 2

    cm.bottom_line(&screen);
    assert_eq!(cm.cy, 23);
}

#[test]
fn search_forward_finds_text() {
    let screen = make_screen_with_content(80, 24, &["first line", "second line", "third line"]);
    let mut cm = CopyModeState::enter(&screen, "vi");
    cm.cy = 0;
    cm.cx = 0;

    cm.search_forward_for(&screen, "third");
    assert_eq!(cm.cy, 2);
    assert_eq!(cm.cx, 0);
}

#[test]
fn search_backward_finds_text() {
    let screen = make_screen_with_content(80, 24, &["first line", "second line", "third line"]);
    let mut cm = CopyModeState::enter(&screen, "vi");
    cm.cy = 2;
    cm.cx = 0;

    cm.search_backward_for(&screen, "first");
    assert_eq!(cm.cy, 0);
    assert_eq!(cm.cx, 0);
}

#[test]
fn search_again_repeats() {
    let screen = make_screen_with_content(80, 24, &["foo bar", "foo baz", "foo qux"]);
    let mut cm = CopyModeState::enter(&screen, "vi");
    cm.cy = 0;
    cm.cx = 0;

    cm.search_forward_for(&screen, "foo");
    assert_eq!(cm.cy, 1); // finds next line's "foo"

    cm.search_again(&screen);
    assert_eq!(cm.cy, 2); // finds third line's "foo"
}

#[test]
fn paragraph_navigation() {
    let screen = make_screen_with_content(
        80,
        24,
        &["paragraph one", "still paragraph one", "", "paragraph two", "still paragraph two"],
    );
    let mut cm = CopyModeState::enter(&screen, "vi");
    cm.cy = 0;
    cm.cx = 0;

    cm.next_paragraph(&screen);
    assert_eq!(cm.cy, 3); // start of paragraph two
    assert_eq!(cm.cx, 0);

    cm.previous_paragraph(&screen);
    // Should go back to before the blank line
    assert!(cm.cy <= 1);
}

#[test]
fn dispatch_clear_selection() {
    let screen = make_screen_with_content(80, 24, &["Hello"]);
    let mut cm = CopyModeState::enter(&screen, "vi");
    cm.cy = 0;
    cm.cx = 0;
    cm.begin_selection(screen.grid.history_size());
    assert!(cm.selecting);

    match dispatch_copy_mode_action(&screen, &mut cm, "clear-selection") {
        CopyModeAction::Handled => assert!(!cm.selecting),
        _ => panic!("expected Handled"),
    }
}

#[test]
fn dispatch_position_actions() {
    let screen = Screen::new(80, 24, 2000);
    let mut cm = CopyModeState::enter(&screen, "vi");

    match dispatch_copy_mode_action(&screen, &mut cm, "top-line") {
        CopyModeAction::Handled => assert_eq!(cm.cy, 0),
        _ => panic!("expected Handled"),
    }

    match dispatch_copy_mode_action(&screen, &mut cm, "middle-line") {
        CopyModeAction::Handled => assert_eq!(cm.cy, 12),
        _ => panic!("expected Handled"),
    }

    match dispatch_copy_mode_action(&screen, &mut cm, "bottom-line") {
        CopyModeAction::Handled => assert_eq!(cm.cy, 23),
        _ => panic!("expected Handled"),
    }
}

#[test]
fn cursor_right_wraps_to_next_line() {
    let screen = Screen::new(80, 24, 2000);
    let mut cm = CopyModeState::enter(&screen, "vi");
    cm.cy = 0;
    cm.cx = 79; // Last column

    // cursor_right at end of line should not go further (it doesn't wrap in this impl)
    cm.cursor_right(&screen);
    assert_eq!(cm.cx, 79); // Stays at max
}

#[test]
fn cursor_left_wraps_to_prev_line() {
    let screen = Screen::new(80, 24, 2000);
    let mut cm = CopyModeState::enter(&screen, "vi");
    cm.cy = 1;
    cm.cx = 0;

    // cursor_left at start of line uses saturating_sub, stays at 0
    cm.cursor_left();
    assert_eq!(cm.cx, 0);
}

#[test]
fn single_cell_selection_copies_cell() {
    let screen = make_screen_with_content(80, 24, &["Hello World"]);
    let mut cm = CopyModeState::enter(&screen, "vi");
    // Position cursor at 'H' (column 0, row 0) and begin selection
    cm.cy = 0;
    cm.cx = 0;
    cm.begin_selection(screen.grid.history_size());
    // Move cursor right to cover "He" (0..1 inclusive)
    cm.cx = 1;
    let data = copy_selection(&screen, &cm).unwrap();
    assert_eq!(data, b"He");
}

#[test]
fn block_selection() {
    let screen = make_screen_with_content(80, 24, &["ABCDE", "FGHIJ", "KLMNO"]);
    let mut cm = CopyModeState::enter(&screen, "vi");
    cm.cy = 0;
    cm.cx = 1; // Start at 'B'

    cm.begin_selection(screen.grid.history_size());
    cm.rectangle_toggle(); // Switch to block selection
    assert_eq!(cm.sel_type, SelectionType::Block);

    cm.cy = 2;
    cm.cx = 3; // End at 'N' (row 2, col 3)

    let data = copy_selection(&screen, &cm).unwrap();
    let text = String::from_utf8_lossy(&data);
    // Block selection cols 1-3, rows 0-2: "BCD", "GHI", "LMN"
    assert!(text.contains("BCD"));
    assert!(text.contains("GHI"));
    assert!(text.contains("LMN"));
}

#[test]
fn goto_line_positions_cursor() {
    let screen = make_screen_with_content(
        80,
        24,
        &[
            "line 1", "line 2", "line 3", "line 4", "line 5", "", "", "", "", "", "", "", "",
            "", "", "", "", "", "", "", "", "", "", "",
        ],
    );
    let mut cm = CopyModeState::enter(&screen, "vi");
    // Start at bottom
    assert_eq!(cm.cy, 23);

    // Go to line 1 (1-based)
    cm.goto_line(&screen, 1);
    assert_eq!(cm.cx, 0);
    // Should be at the top of the visible area
    let abs = cm.absolute_y(screen.grid.history_size());
    assert_eq!(abs, 0);

    // Go to line 3
    cm.goto_line(&screen, 3);
    let abs = cm.absolute_y(screen.grid.history_size());
    assert_eq!(abs, 2);
}

#[test]
fn goto_line_clamps_to_total() {
    let screen = Screen::new(80, 24, 2000);
    let mut cm = CopyModeState::enter(&screen, "vi");

    // Go beyond total lines — should clamp
    cm.goto_line(&screen, 99999);
    let abs = cm.absolute_y(screen.grid.history_size());
    assert!(abs < 99999);
}

#[test]
fn goto_line_zero_goes_to_top() {
    let screen = Screen::new(80, 24, 2000);
    let mut cm = CopyModeState::enter(&screen, "vi");

    // Line 0 saturates to 0
    cm.goto_line(&screen, 0);
    let abs = cm.absolute_y(screen.grid.history_size());
    assert_eq!(abs, 0);
    assert_eq!(cm.cx, 0);
}

#[test]
fn dispatch_goto_line_returns_prompt() {
    let screen = Screen::new(80, 24, 2000);
    let mut cm = CopyModeState::enter(&screen, "vi");

    match dispatch_copy_mode_action(&screen, &mut cm, "goto-line") {
        CopyModeAction::GotoLinePrompt => {}
        other => panic!("expected GotoLinePrompt, got {other:?}"),
    }
}
