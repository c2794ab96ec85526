use rmux::command::builtins::display::choose_tree_result;
use rmux::command::CommandResult;
use rmux::overlay::{ListKind, OverlayState};
use rmux::command::builtins::display::{big_digit, parse_popup_dimension, render_clock, time_of_day};

#[test]
fn popup_dimension_absolute() {
    assert_eq!(parse_popup_dimension("40", 100), 40);
}

#[test]
fn popup_dimension_percentage() {
    assert_eq!(parse_popup_dimension("50%", 100), 50);
}

#[test]
fn popup_dimension_percentage_rounding() {
    assert_eq!(parse_popup_dimension("33%", 100), 33);
}

#[test]
fn popup_dimension_100_percent() {
    assert_eq!(parse_popup_dimension("100%", 120), 120);
}

#[test]
fn popup_dimension_0_percent() {
    assert_eq!(parse_popup_dimension("0%", 100), 0);
}

#[test]
fn popup_dimension_invalid_falls_back() {
    assert_eq!(parse_popup_dimension("abc", 100), 80);
}

#[test]
fn popup_dimension_invalid_percent_falls_back() {
    assert_eq!(parse_popup_dimension("abc%", 100), 80);
}

#[test]
fn popup_dimension_large_base() {
    assert_eq!(parse_popup_dimension("75%", 200), 150);
}

#[test]
fn popup_dimension_zero_base() {
    assert_eq!(parse_popup_dimension("50%", 0), 0);
    assert_eq!(parse_popup_dimension("abc", 0), 0);
}

#[test]
fn popup_dimension_accepts_plus_sign() {
    assert_eq!(parse_popup_dimension("+12", 100), 12);
    assert_eq!(parse_popup_dimension("+25%", 40), 10);
}

#[test]
fn big_digits_rows() {
    assert_eq!(big_digit('0', 0), "###");
    assert_eq!(big_digit('0', 1), "# #");
    assert_eq!(big_digit('1', 2), "  #");
    assert_eq!(big_digit(':', 1), " # ");
    assert_eq!(big_digit('x', 0), "   ");
    assert_eq!(big_digit('8', 5), "   ");
}

#[test]
fn clock_rendering_of_a_time() {
    assert_eq!(time_of_day(86400 + 3 * 3600 + 25 * 60 + 7), (3, 25, 7));
    let text = render_clock((12, 0, 59));
    let rows: Vec<&str> = text.lines().collect();
    assert_eq!(rows.len(), 5);
    assert_eq!(rows[0], "  # ###     ### ###     ### ### ");
    assert_eq!(rows[1], "  #   #  #  # # # #  #  #   # # ");
}

#[test]
fn choose_tree_result_lists_sessions_and_windows() {
    let tree = vec![(
        "work".to_string(),
        1usize,
        vec![(0u32, "bash".to_string(), true, 1usize), (1u32, "vim".to_string(), false, 2usize)],
    )];
    match choose_tree_result(&tree, false) {
        CommandResult::Overlay(OverlayState::List(l)) => {
            let shown: Vec<&str> = l.items.iter().map(|i| i.display.as_str()).collect();
            assert_eq!(shown, vec!["work: 2 windows (attached: 1)", "0: bash*", "1: vim (2 panes)"]);
            let indents: Vec<u32> = l.items.iter().map(|i| i.indent as u32).collect();
            assert_eq!(indents, vec![0, 1, 1]);
            assert_eq!(l.items[0].command, vec!["switch-client", "-t", "work"]);
            assert_eq!(l.items[2].command, vec!["select-window", "-t", "work:1"]);
            assert!(l.items.iter().all(|i| i.deletable));
            assert_eq!(l.selected, 0);
            assert!(matches!(l.kind, ListKind::Tree));
        }
        _ => panic!("expected a list overlay"),
    }
}
