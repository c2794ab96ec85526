use rmux::command::builtins::pane::{
    join_capture_lines, neighbour_pane_id, next_pane_id, parse_pane_id, pane_ids_of, split_size_of, target_step,
    TargetStep,
};
use rmux::command::builtins::window::{layout_step, window_indices_except, second_field_of, last_field_of};
use rmux::command::{Direction, SplitSize};

fn strings(v: &[&str]) -> Vec<String> {
    v.iter().map(|s| (*s).to_string()).collect()
}

#[test]
fn layout_step_walks_the_cycle() {
    assert_eq!(layout_step("even-horizontal", true), "even-vertical");
    assert_eq!(layout_step("main-vertical", true), "tiled");
    assert_eq!(layout_step("tiled", true), "even-horizontal");
    assert_eq!(layout_step("even-horizontal", false), "tiled");
    assert_eq!(layout_step("main-horizontal", false), "even-vertical");
}

#[test]
fn layout_step_unknown_starts_at_first() {
    assert_eq!(layout_step("custom", true), "even-vertical");
    assert_eq!(layout_step("custom", false), "tiled");
}

#[test]
fn layout_step_there_and_back() {
    for name in ["even-horizontal", "even-vertical", "main-horizontal", "main-vertical", "tiled"] {
        assert_eq!(layout_step(layout_step(name, true), false), name);
        assert_eq!(layout_step(layout_step(name, false), true), name);
    }
}

#[test]
fn window_indices_skip_kept_and_unparsable() {
    let lines = strings(&["0: bash", "1: vim", " 2 : top", "x: bad", "3"]);
    assert_eq!(window_indices_except(&lines, 1), vec![0, 2, 3]);
}

#[test]
fn target_fields() {
    assert_eq!(second_field_of("work:2"), Some("2".to_string()));
    assert_eq!(second_field_of("work:2:9"), Some("2".to_string()));
    assert_eq!(second_field_of("work"), None);
    assert_eq!(last_field_of("a:b:c"), "c");
    assert_eq!(last_field_of("plain"), "plain");
}

#[test]
fn pane_id_forms() {
    assert_eq!(parse_pane_id("%12"), Some(12));
    assert_eq!(parse_pane_id("7"), Some(7));
    assert_eq!(parse_pane_id("%"), None);
    assert_eq!(parse_pane_id("%x"), None);
}

#[test]
fn pane_ids_from_list_lines() {
    let lines = strings(&["%3: [80x24]", "%10: [80x12]", "junk", "%x: no"]);
    assert_eq!(pane_ids_of(&lines), vec![3, 10]);
}

#[test]
fn next_pane_wraps_around() {
    let ids = vec![3, 5, 9];
    assert_eq!(next_pane_id(3, &ids, 5), Some(9));
    assert_eq!(next_pane_id(3, &ids, 9), Some(3));
    assert_eq!(next_pane_id(3, &ids, 4), None);
    assert_eq!(next_pane_id(1, &ids, 3), None);
}

#[test]
fn neighbour_pane_both_ways() {
    let ids = vec![3, 5, 9];
    assert_eq!(neighbour_pane_id(&ids, 3, true), Some(9));
    assert_eq!(neighbour_pane_id(&ids, 5, true), Some(3));
    assert_eq!(neighbour_pane_id(&ids, 9, false), Some(3));
    assert_eq!(neighbour_pane_id(&ids, 3, false), Some(5));
    assert_eq!(neighbour_pane_id(&ids, 4, false), None);
}

#[test]
fn split_size_forms() {
    assert_eq!(split_size_of(&strings(&["-l", "30%"])), Some(SplitSize::Percent(30)));
    assert_eq!(split_size_of(&strings(&["-l", "10"])), Some(SplitSize::Lines(10)));
    assert_eq!(split_size_of(&strings(&["-p", "40"])), Some(SplitSize::Percent(40)));
    assert_eq!(split_size_of(&strings(&["-l", "x"])), None);
    assert_eq!(split_size_of(&strings(&["-h"])), None);
    assert_eq!(split_size_of(&strings(&["-l", "5", "-p", "40"])), Some(SplitSize::Lines(5)));
}

#[test]
fn capture_lines_lose_trailing_blanks() {
    assert_eq!(join_capture_lines("a  \nb\t\n\nc"), "a\nb\n\nc\n");
    assert_eq!(join_capture_lines(""), "\n");
    assert_eq!(join_capture_lines("x \r\n"), "x\n");
}

#[test]
fn directions_compare() {
    assert_eq!(Direction::Up, Direction::Up);
    assert_ne!(Direction::Up, Direction::Down);
}

#[test]
fn target_step_cases() {
    assert_eq!(target_step("main:1", false), TargetStep::Done);
    assert_eq!(target_step("work", true), TargetStep::Done);
    assert_eq!(target_step("+", false), TargetStep::Next);
    assert_eq!(target_step("%7", false), TargetStep::Select(7));
    assert_eq!(target_step("3", false), TargetStep::Select(3));
    assert_eq!(target_step("abc", false), TargetStep::Invalid);
}
