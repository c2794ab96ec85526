use rmux::client::{process_prompt_input, ClickState, PromptAction, PromptState};

#[test]
fn click_state_single_click() {
    let mut cs = ClickState::default();
    assert_eq!(cs.register_click(5, 10), 1);
}

#[test]
fn click_state_double_click() {
    let mut cs = ClickState::default();
    assert_eq!(cs.register_click(5, 10), 1);
    assert_eq!(cs.register_click(5, 10), 2);
}

#[test]
fn click_state_triple_click() {
    let mut cs = ClickState::default();
    assert_eq!(cs.register_click(5, 10), 1);
    assert_eq!(cs.register_click(5, 10), 2);
    assert_eq!(cs.register_click(5, 10), 3);
}

#[test]
fn click_state_caps_at_three() {
    let mut cs = ClickState::default();
    cs.register_click(5, 10);
    cs.register_click(5, 10);
    cs.register_click(5, 10);
    assert_eq!(cs.register_click(5, 10), 1);
}

#[test]
fn click_state_different_position_resets() {
    let mut cs = ClickState::default();
    assert_eq!(cs.register_click(5, 10), 1);
    assert_eq!(cs.register_click(20, 10), 1);
}

#[test]
fn click_state_timeout_resets() {
    let mut cs = ClickState::default();
    assert_eq!(cs.register_click(5, 10), 1);
    cs.last_click =
        std::time::Instant::now().checked_sub(std::time::Duration::from_millis(600)).unwrap();
    assert_eq!(cs.register_click(5, 10), 1);
}

#[test]
fn register_click_at_counts_by_elapsed_time() {
    let mut cs = ClickState::default();
    let now = std::time::Instant::now();
    assert_eq!(cs.register_click_at(1, 1, now, 10_000), 1);
    assert_eq!(cs.register_click_at(1, 1, now, 499), 2);
    assert_eq!(cs.register_click_at(1, 1, now, 500), 1);
}

fn prompt_with(buf: &str) -> PromptState {
    PromptState { buffer: buf.to_string(), ..PromptState::default() }
}

#[test]
fn prompt_enter_submits() {
    let mut prompt = prompt_with("list-sessions");
    let (action, consumed) = process_prompt_input(&mut prompt, b"\r", 1);
    assert_eq!(action, PromptAction::Submit);
    assert_eq!(consumed, 1);
}

#[test]
fn prompt_newline_submits() {
    let mut prompt = PromptState::default();
    let (action, _) = process_prompt_input(&mut prompt, b"\n", 1);
    assert_eq!(action, PromptAction::Submit);
}

#[test]
fn prompt_escape_cancels() {
    let mut prompt = prompt_with("partial");
    let (action, _) = process_prompt_input(&mut prompt, b"\x1b", 1);
    assert_eq!(action, PromptAction::Cancel);
}

#[test]
fn prompt_double_escape_cancels() {
    let mut prompt = PromptState::default();
    let (action, _) = process_prompt_input(&mut prompt, b"\x1b\x1b", 1);
    assert_eq!(action, PromptAction::Cancel);
}

#[test]
fn prompt_printable_ascii() {
    let mut prompt = PromptState::default();
    let (action, consumed) = process_prompt_input(&mut prompt, b"a", 1);
    assert_eq!(action, PromptAction::Changed);
    assert_eq!(consumed, 1);
    assert_eq!(prompt.buffer, "a");
}

#[test]
fn prompt_builds_string() {
    let mut prompt = PromptState::default();
    for ch in b"hello" {
        process_prompt_input(&mut prompt, std::slice::from_ref(ch), 1);
    }
    assert_eq!(prompt.buffer, "hello");
}

#[test]
fn prompt_backspace_deletes() {
    let mut prompt = prompt_with("abc");
    let (action, _) = process_prompt_input(&mut prompt, b"\x7f", 1);
    assert_eq!(action, PromptAction::Changed);
    assert_eq!(prompt.buffer, "ab");
}

#[test]
fn prompt_ctrl_h_deletes() {
    let mut prompt = prompt_with("abc");
    let (action, _) = process_prompt_input(&mut prompt, b"\x08", 1);
    assert_eq!(action, PromptAction::Changed);
    assert_eq!(prompt.buffer, "ab");
}

#[test]
fn prompt_backspace_empty_noop() {
    let mut prompt = PromptState::default();
    let (action, _) = process_prompt_input(&mut prompt, b"\x7f", 1);
    assert_eq!(action, PromptAction::Changed);
    assert_eq!(prompt.buffer, "");
}

#[test]
fn prompt_ctrl_u_clears() {
    let mut prompt = prompt_with("some text");
    let (action, _) = process_prompt_input(&mut prompt, b"\x15", 1);
    assert_eq!(action, PromptAction::Changed);
    assert_eq!(prompt.buffer, "");
}

#[test]
fn prompt_control_char_ignored() {
    let mut prompt = PromptState::default();
    let (action, consumed) = process_prompt_input(&mut prompt, b"\x01", 1);
    assert_eq!(action, PromptAction::Ignored);
    assert_eq!(consumed, 1);
    assert_eq!(prompt.buffer, "");
}

#[test]
fn prompt_utf8_input() {
    let mut prompt = PromptState::default();
    let (action, consumed) = process_prompt_input(&mut prompt, "é".as_bytes(), 1);
    assert_eq!(action, PromptAction::Changed);
    assert_eq!(consumed, 2);
    assert_eq!(prompt.buffer, "é");
}

#[test]
fn prompt_utf8_cjk() {
    let mut prompt = PromptState::default();
    let (action, consumed) = process_prompt_input(&mut prompt, "世".as_bytes(), 1);
    assert_eq!(action, PromptAction::Changed);
    assert_eq!(consumed, 3);
    assert_eq!(prompt.buffer, "世");
}

#[test]
fn prompt_incomplete_utf8_needs_more() {
    let mut prompt = PromptState::default();
    let (action, consumed) = process_prompt_input(&mut prompt, &[0xC3], 1);
    assert_eq!(action, PromptAction::NeedMore);
    assert_eq!(consumed, 0);
}

#[test]
fn prompt_esc_sequence_ignored() {
    let mut prompt = PromptState::default();
    // CSI A (cursor up): the key parser reads three bytes.
    let (action, consumed) = process_prompt_input(&mut prompt, b"\x1b[A", 3);
    assert_eq!(action, PromptAction::Ignored);
    assert!(consumed >= 3);
    assert_eq!(prompt.buffer, "");
}

#[test]
fn prompt_empty_data_needs_more() {
    let mut prompt = PromptState::default();
    let (action, consumed) = process_prompt_input(&mut prompt, b"", 1);
    assert_eq!(action, PromptAction::NeedMore);
    assert_eq!(consumed, 0);
}

#[test]
fn prompt_invalid_utf8_skips_lead_byte() {
    let mut prompt = prompt_with("x");
    let (action, consumed) = process_prompt_input(&mut prompt, &[0xC3, 0x41], 1);
    assert_eq!(action, PromptAction::Ignored);
    assert_eq!(consumed, 1);
    assert_eq!(prompt.buffer, "x");
    let (action, consumed) = process_prompt_input(&mut prompt, &[0xC2, 0x85], 1);
    assert_eq!(action, PromptAction::Ignored);
    assert_eq!(consumed, 2);
}
