//! Per-client interaction state: the command prompt and mouse click counting.

use vstd::prelude::*;
use std::time::{Duration, Instant};

verus! {

/// `std::time::Instant`, carried through opaquely.
#[verifier::external_type_specification]
#[verifier::external_body]
pub struct ExInstant(Instant);

/// The current instant.
///
/// Trusted: wraps `Instant::now`; nothing is claimed of the value, which
/// depends on the clock.
#[verifier::external_body]
pub(crate) fn instant_now() -> Instant {
    Instant::now()
}

/// The time from `earlier` to `later`.
///
/// Trusted: wraps `Instant::duration_since`, which std documents to saturate
/// to zero when `earlier` is later; nothing is claimed of the value.
#[verifier::external_body]
fn duration_between(later: &Instant, earlier: &Instant) -> Duration {
    later.duration_since(*earlier)
}

/// Whole milliseconds of a duration.
///
/// Trusted: wraps `Duration::as_millis`; nothing is claimed of the value,
/// which comes from a measured time.
#[verifier::external_body]
fn duration_millis(d: &Duration) -> u128 {
    d.as_millis()
}

/// The double-click threshold in milliseconds.
pub const DOUBLE_CLICK_MS: u128 = 500;

/// State for detecting double/triple-click sequences.
pub struct ClickState {
    /// Timestamp of the last click.
    pub last_click: Instant,
    /// Position of the last click (x, y).
    pub last_x: u32,
    pub last_y: u32,
    /// Number of rapid consecutive clicks at the same position (1, 2, 3).
    pub count: u32,
}

/// The click count after a click at `(x, y)`, `elapsed_ms` after the previous one:
/// one more than before when it is at the same place, quick enough and below
/// three, else a new single click.
pub open spec fn next_click_count(count: u32, last_x: u32, last_y: u32, x: u32, y: u32, elapsed_ms: u128) -> u32 {
    if last_x == x && last_y == y && elapsed_ms < 500 && count < 3 {
        (count + 1) as u32
    } else {
        1
    }
}

impl Default for ClickState {
    fn default() -> (r: ClickState)
        ensures
            r.last_x == 0,
            r.last_y == 0,
            r.count == 0,
    {
        ClickState { last_click: instant_now(), last_x: 0, last_y: 0, count: 0 }
    }
}

impl ClickState {
    /// Register a click made at instant `now`, `elapsed_ms` milliseconds after the
    /// previous one, and return the click count (1=single, 2=double, 3=triple).
    pub fn register_click_at(&mut self, x: u32, y: u32, now: Instant, elapsed_ms: u128) -> (r: u32)
        ensures
            r == next_click_count(old(self).count, old(self).last_x, old(self).last_y, x, y, elapsed_ms),
            final(self).count == r,
            final(self).last_x == x,
            final(self).last_y == y,
            final(self).last_click == now,
    {
        let same_pos = self.last_x == x && self.last_y == y;
        if same_pos && elapsed_ms < DOUBLE_CLICK_MS && self.count < 3 {
            self.count = self.count + 1;
        } else {
            self.count = 1;
        }
        self.last_click = now;
        self.last_x = x;
        self.last_y = y;
        self.count
    }

    /// Register a click and return the click count (1=single, 2=double, 3=triple).
    /// Double-click threshold is 500ms and must be at the same position.
    pub fn register_click(&mut self, x: u32, y: u32) -> (r: u32)
        ensures
            1 <= r <= 3,
            r == 1 || (r == old(self).count + 1 && old(self).last_x == x && old(self).last_y == y),
            final(self).count == r,
            final(self).last_x == x,
            final(self).last_y == y,
    {
        let now = instant_now();
        let elapsed = duration_between(&now, &self.last_click);
        let ms = duration_millis(&elapsed);
        self.register_click_at(x, y, now, ms)
    }
}

/// What happens when the prompt is submitted.
#[derive(Debug, Clone, Copy, PartialEq, Eq, Structural)]
pub enum PromptType {
    /// Execute the buffer as a command.
    Command,
    /// Search forward in copy mode.
    SearchForward,
    /// Search backward in copy mode.
    SearchBackward,
    /// Go to line number in copy mode.
    GotoLine,
}

impl Default for PromptType {
    fn default() -> (r: Self)
        ensures
            r == PromptType::Command,
    {
        PromptType::Command
    }
}

/// State for the interactive command prompt (:).
#[derive(Debug, Clone)]
pub struct PromptState {
    /// Current input buffer.
    pub buffer: String,
    /// Cursor position in the buffer.
    pub cursor_pos: usize,
    /// What to do when submitted.
    pub prompt_type: PromptType,
    /// Custom prompt string (e.g., "(rename-session) ").
    pub prompt_str: Option<String>,
    /// Command template — input replaces `%%` (e.g., "rename-session '%%'").
    pub template: Option<String>,
}

impl Default for PromptState {
    fn default() -> (r: Self)
        ensures
            r.buffer@ == Seq::<char>::empty(),
            r.cursor_pos == 0,
            r.prompt_type == PromptType::Command,
            r.prompt_str is None,
            r.template is None,
    {
        PromptState { buffer: String::new(), cursor_pos: 0, prompt_type: PromptType::Command, prompt_str: None, template: None }
    }
}

/// Result of processing a single prompt input byte/sequence.
#[derive(Debug, Clone, Copy, PartialEq, Eq, Structural)]
pub enum PromptAction {
    /// Submit the prompt (Enter was pressed).
    Submit,
    /// Cancel the prompt (Escape was pressed).
    Cancel,
    /// The prompt buffer was modified (needs redraw).
    Changed,
    /// The byte was consumed but no action needed.
    Ignored,
    /// Need more bytes (incomplete UTF-8 or escape sequence).
    NeedMore,
}

/// The number of bytes of a UTF-8 sequence led by `b` (in `0xC2..=0xF4`).
pub open spec fn utf8_width(b: u8) -> int {
    if b <= 0xDF { 2 } else if b <= 0xEF { 3 } else { 4 }
}

/// What one prompt input does to the buffer `buf`: the new buffer, the
/// action and the bytes consumed. `escape_len` is how many bytes the key
/// parser reads for an escape sequence at the start of `data`.
pub open spec fn prompt_input(buf: Seq<char>, data: Seq<u8>, escape_len: int) -> (Seq<char>, PromptAction, int) {
    if data.len() == 0 {
        (buf, PromptAction::NeedMore, 0)
    } else {
        let b = data[0];
        if b == 0x0D || b == 0x0A {
            (buf, PromptAction::Submit, 1)
        } else if b == 0x1B && (data.len() == 1 || data[1] == 0x1B) {
            (buf, PromptAction::Cancel, 1)
        } else if b == 0x7F || b == 0x08 {
            (if buf.len() > 0 { buf.drop_last() } else { buf }, PromptAction::Changed, 1)
        } else if b == 0x15 {
            (Seq::empty(), PromptAction::Changed, 1)
        } else if 0x20 <= b <= 0x7E {
            (buf.push(b as char), PromptAction::Changed, 1)
        } else if 0xC2 <= b <= 0xF4 {
            let n = utf8_width(b);
            if data.len() < n {
                (buf, PromptAction::NeedMore, 0)
            } else if vstd::utf8::valid_utf8(data.subrange(0, n)) {
                let cs = vstd::utf8::decode_utf8(data.subrange(0, n));
                if cs.len() > 0 && !crate::format::is_control_char(cs[0]) {
                    (buf.push(cs[0]), PromptAction::Changed, n)
                } else {
                    (buf, PromptAction::Ignored, n)
                }
            } else {
                (buf, PromptAction::Ignored, 1)
            }
        } else if b == 0x1B {
            (buf, PromptAction::Ignored, escape_len)
        } else {
            (buf, PromptAction::Ignored, 1)
        }
    }
}

/// The text of UTF-8 bytes, when they are valid UTF-8.
///
/// Trusted: wraps `std::str::from_utf8`, which std documents as succeeding
/// exactly on valid UTF-8; the text then decodes the bytes.
#[verifier::external_body]
fn utf8_text(bytes: &[u8]) -> (r: Option<String>)
    ensures
        r is Some <==> vstd::utf8::valid_utf8(bytes@),
        r matches Some(s) ==> s@ == vstd::utf8::decode_utf8(bytes@),
{
    match std::str::from_utf8(bytes) {
        Ok(s) => Some(s.to_string()),
        Err(_) => None,
    }
}

/// Process prompt input bytes and return what action to take with the
/// number of bytes consumed. `escape_len` is the number of bytes the key
/// parser reads for an escape sequence at the start of `data` (1 when it
/// reads none); it is used only for such a sequence.
pub fn process_prompt_input(prompt: &mut PromptState, data: &[u8], escape_len: usize) -> (r: (PromptAction, usize))
    ensures
        ({
            let (b, a, n) = prompt_input(old(prompt).buffer@, data@, escape_len as int);
            final(prompt).buffer@ == b && r.0 == a && r.1 == n
        }),
        final(prompt).cursor_pos == old(prompt).cursor_pos,
        final(prompt).prompt_type == old(prompt).prompt_type,
        final(prompt).prompt_str == old(prompt).prompt_str,
        final(prompt).template == old(prompt).template,
{
    if data.len() == 0 {
        return (PromptAction::NeedMore, 0);
    }
    let b = data[0];
    if b == 0x0D || b == 0x0A {
        return (PromptAction::Submit, 1);
    }
    if b == 0x1B && (data.len() == 1 || data[1] == 0x1B) {
        return (PromptAction::Cancel, 1);
    }
    if b == 0x7F || b == 0x08 {
        let cs = crate::text::str_chars(prompt.buffer.as_str());
        if cs.len() > 0 {
            let kept = crate::text::chars_range(cs.as_slice(), 0, cs.len() - 1);
            prompt.buffer = crate::text::string_from_chars(kept.as_slice());
            assert(prompt.buffer@ =~= old(prompt).buffer@.drop_last());
        }
        return (PromptAction::Changed, 1);
    }
    if b == 0x15 {
        prompt.buffer = String::new();
        return (PromptAction::Changed, 1);
    }
    if 0x20 <= b && b <= 0x7E {
        crate::text::push_char(&mut prompt.buffer, b as char);
        return (PromptAction::Changed, 1);
    }
    if 0xC2 <= b && b <= 0xF4 {
        let n: usize = if b <= 0xDF { 2 } else if b <= 0xEF { 3 } else { 4 };
        if data.len() < n {
            return (PromptAction::NeedMore, 0);
        }
        let chunk = vstd::slice::slice_subrange(data, 0, n);
        return match utf8_text(chunk) {
            Some(s) => {
                let cs = crate::text::str_chars(s.as_str());
                if cs.len() > 0 {
                    let c = cs[0];
                    let v = c as u32;
                    if !(v <= 0x1F || (0x7F <= v && v <= 0x9F)) {
                        crate::text::push_char(&mut prompt.buffer, c);
                        return (PromptAction::Changed, n);
                    }
                }
                (PromptAction::Ignored, n)
            },
            None => (PromptAction::Ignored, 1),
        };
    }
    if b == 0x1B {
        return (PromptAction::Ignored, escape_len);
    }
    (PromptAction::Ignored, 1)
}

} // verus!
