//! Copy mode state machine and navigation.
//!
//! When a pane enters copy mode, the user can scroll through history,
//! move a cursor independently, select text, and copy it to a paste buffer.
//!
//! Rows are addressed either relative to the view (`cy`, with the view
//! scrolled `oy` lines into history) or absolutely (0 = oldest history line).

use vstd::prelude::*;
use crate::screen::{
    cell_at, line_view, normalized_spec, GridLine, Screen, Selection, SelectionType,
};
use crate::text::{str_chars, str_eq, string_from_chars, to_owned_string};

verus! {

/// Direction and character for jump-to-char (f/F/t/T).
#[derive(Debug, Clone, Copy, PartialEq, Eq, Structural)]
pub struct JumpState {
    /// The character to jump to.
    pub ch: char,
    /// The jump type.
    pub jump_type: JumpType,
}

/// Type of jump-to-char operation.
#[derive(Debug, Clone, Copy, PartialEq, Eq, Structural)]
pub enum JumpType {
    /// `f` — forward to character (land on it).
    Forward,
    /// `F` — backward to character (land on it).
    Backward,
    /// `t` — forward to character (land before it).
    ForwardTill,
    /// `T` — backward to character (land after it).
    BackwardTill,
}

/// Copy mode state for a single pane.
pub struct CopyModeState {
    /// Copy-mode cursor column (0-based, independent of live cursor).
    pub cx: u32,
    /// Copy-mode cursor row (0-based, relative to visible area top).
    pub cy: u32,
    /// Scroll offset: how many history lines above the current view.
    pub oy: u32,
    /// Whether a selection is currently active.
    pub selecting: bool,
    /// Selection start position (absolute x).
    pub sel_start_x: u32,
    /// Selection start position (absolute y, including history offset).
    pub sel_start_y: u32,
    /// Selection type.
    pub sel_type: SelectionType,
    /// Search string (if any active search).
    pub search_str: Option<String>,
    /// Whether last search was forward.
    pub search_forward: bool,
    /// Vi mode or emacs mode key table name.
    pub key_table: String,
    /// Last jump-to-char character and direction for repeat (`;` / `,`).
    pub last_jump: Option<JumpState>,
    /// Pending jump type — waiting for user to type the target character.
    pub pending_jump: Option<JumpType>,
}

// ---------------------------------------------------------------------------
// Specification helpers
// ---------------------------------------------------------------------------

/// `a - b`, or 0 when `b > a`.
pub open spec fn sat_sub(a: int, b: int) -> int {
    if a >= b { a - b } else { 0 }
}

/// The smaller of two integers.
pub open spec fn min(a: int, b: int) -> int {
    if a <= b { a } else { b }
}

/// The larger of two integers.
pub open spec fn max(a: int, b: int) -> int {
    if a >= b { a } else { b }
}

/// Number of history lines of a screen.
pub open spec fn hist(s: Screen) -> int {
    s.grid.hsize() as int
}

/// Number of visible lines of a screen.
pub open spec fn height(s: Screen) -> int {
    s.grid.height() as int
}

/// History plus visible lines.
pub open spec fn lines_total(s: Screen) -> int {
    hist(s) + height(s)
}

/// The absolute row of the copy cursor.
pub open spec fn abs_y_of(cm: CopyModeState, hs: int) -> int {
    sat_sub(hs, cm.oy as int) + cm.cy
}

/// The cells of absolute row `y`, when the row exists.
pub open spec fn row_of(s: Screen, y: int) -> Option<Seq<Option<char>>> {
    if 0 <= y < lines_total(s) { Some(s.grid.row(y)) } else { None }
}

/// A cell shows nothing: it is empty or a space.
pub open spec fn blank(c: Option<char>) -> bool {
    c is None || c == Some(' ')
}

/// A cell shows the character `ch` (an empty cell shows a space).
pub open spec fn char_matches(c: Option<char>, ch: char) -> bool {
    match c {
        None => ch == ' ',
        Some(d) => d == ch,
    }
}

/// First column `>= x` below `max` holding a blank cell, or `x` itself when `x >= max`,
/// or `max` when there is none.
pub open spec fn first_blank_from(row: Seq<Option<char>>, x: int, max: int) -> int
    decreases max - x,
{
    if x >= max || blank(cell_at(row, x)) { x } else { first_blank_from(row, x + 1, max) }
}

/// First column `>= x` below `max` holding a non-blank cell, as `first_blank_from`.
pub open spec fn first_nonblank_from(row: Seq<Option<char>>, x: int, max: int) -> int
    decreases max - x,
{
    if x >= max || !blank(cell_at(row, x)) { x } else { first_nonblank_from(row, x + 1, max) }
}

/// The largest column below `x` with a non-blank cell, or 0.
pub open spec fn prev_nonblank(row: Seq<Option<char>>, x: int) -> int
    decreases x,
{
    if x <= 0 { 0 } else if !blank(cell_at(row, x - 1)) { x - 1 } else { prev_nonblank(row, x - 1) }
}

/// The first column of the run of non-blank cells ending at column `x`.
pub open spec fn run_start(row: Seq<Option<char>>, x: int) -> int
    decreases x,
{
    if x <= 0 { 0 } else if !blank(cell_at(row, x - 1)) { run_start(row, x - 1) } else { x }
}

/// The last column of the run of non-blank cells starting at `x`, below `max`.
pub open spec fn run_end(row: Seq<Option<char>>, x: int, max: int) -> int
    decreases max - x,
{
    if x + 1 < max && !blank(cell_at(row, x + 1)) { run_end(row, x + 1, max) } else { x }
}

/// First column in `[x, max)` showing `ch`.
pub open spec fn find_char_from(row: Seq<Option<char>>, x: int, max: int, ch: char) -> Option<int>
    decreases max - x,
{
    if x >= max { None } else if char_matches(cell_at(row, x), ch) { Some(x) } else { find_char_from(row, x + 1, max, ch) }
}

/// Last column below `x` showing `ch`.
pub open spec fn find_char_before(row: Seq<Option<char>>, x: int, ch: char) -> Option<int>
    decreases x,
{
    if x <= 0 { None } else if char_matches(cell_at(row, x - 1), ch) { Some(x - 1) } else { find_char_before(row, x - 1, ch) }
}

/// Every cell of the row is blank; a missing row counts as blank.
pub open spec fn line_blank(s: Screen, y: int) -> bool {
    0 <= y < lines_total(s) ==> forall|i: int| 0 <= i < s.grid.row(y).len() ==> blank(#[trigger] s.grid.row(y)[i])
}

/// Moving down from `y`: the first blank row, or the last row.
pub open spec fn down_to_blank(s: Screen, y: int, total: int) -> int
    decreases total - y,
{
    if y + 1 < total { if line_blank(s, y + 1) { y + 1 } else { down_to_blank(s, y + 1, total) } } else { y }
}

/// Moving down from `y`: the first non-blank row, or the last row.
pub open spec fn down_to_nonblank(s: Screen, y: int, total: int) -> int
    decreases total - y,
{
    if y + 1 < total { if !line_blank(s, y + 1) { y + 1 } else { down_to_nonblank(s, y + 1, total) } } else { y }
}

/// Moving up from `y`: the first blank row, or row 0.
pub open spec fn up_to_blank(s: Screen, y: int) -> int
    decreases y,
{
    if y > 0 { if line_blank(s, y - 1) { y - 1 } else { up_to_blank(s, y - 1) } } else { y }
}

/// Moving up from `y`: the first non-blank row, or row 0.
pub open spec fn up_to_nonblank(s: Screen, y: int) -> int
    decreases y,
{
    if y > 0 { if !line_blank(s, y - 1) { y - 1 } else { up_to_nonblank(s, y - 1) } } else { y }
}

/// The text of a row: one character per cell, empty cells as spaces.
pub open spec fn row_text(row: Seq<Option<char>>) -> Seq<char> {
    row.map_values(|c: Option<char>| match c { Some(ch) => ch, None => ' ' })
}

/// The text of absolute row `y`; a missing row has no text.
pub open spec fn line_text_spec(s: Screen, y: int) -> Seq<char> {
    match row_of(s, y) {
        Some(row) => row_text(row),
        None => Seq::empty(),
    }
}

/// `needle` occurs in `text` at position `i`.
pub open spec fn occurs_at(text: Seq<char>, needle: Seq<char>, i: int) -> bool {
    0 <= i && i + needle.len() <= text.len() && text.subrange(i, i + needle.len()) == needle
}

/// The first position `>= i` where `needle` occurs in `text`.
pub open spec fn find_sub(text: Seq<char>, needle: Seq<char>, i: int) -> Option<int>
    decreases text.len() + 1 - i,
{
    if i < 0 || i + needle.len() > text.len() {
        None
    } else if occurs_at(text, needle, i) {
        Some(i)
    } else {
        find_sub(text, needle, i + 1)
    }
}

/// Searching forward from row `start`, trying offsets `k..=total` (wrapping):
/// the first match as `(column, row)`.
pub open spec fn search_fwd(s: Screen, start: int, needle: Seq<char>, k: int) -> Option<(int, int)>
    decreases lines_total(s) + 1 - k,
{
    let total = lines_total(s);
    if k > total || k < 1 || total <= 0 {
        None
    } else {
        let y = (start + k) % total;
        match find_sub(line_text_spec(s, y), needle, 0) {
            Some(x) => Some((x, y)),
            None => search_fwd(s, start, needle, k + 1),
        }
    }
}

/// Searching backward from row `start`, trying offsets `k..=total` (wrapping).
pub open spec fn search_bwd(s: Screen, start: int, needle: Seq<char>, k: int) -> Option<(int, int)>
    decreases lines_total(s) + 1 - k,
{
    let total = lines_total(s);
    if k > total || k < 1 || total <= 0 {
        None
    } else {
        let y = (start + total - k) % total;
        match find_sub(line_text_spec(s, y), needle, 0) {
            Some(x) => Some((x, y)),
            None => search_bwd(s, start, needle, k + 1),
        }
    }
}

/// The view position `(oy, cy)` that shows absolute row `y` with the cursor on it,
/// starting from cursor row `cy`.
pub open spec fn view_for(y: int, hs: int, h: int, cy: int) -> (int, int) {
    let (oy1, cy1) = if y < hs {
        (hs - y, 0)
    } else if y - hs < h {
        (0, y - hs)
    } else {
        (0, sat_sub(h, 1))
    };
    let target = sat_sub(y, sat_sub(hs, oy1));
    if target < h { (oy1, target) } else { (oy1, cy1) }
}

/// The state after moving the view to absolute row `y`.
pub open spec fn moved_to(cm: CopyModeState, s: Screen, y: int) -> CopyModeState {
    let (oy, cy) = view_for(y, hist(s), height(s), cm.cy as int);
    CopyModeState { oy: oy as u32, cy: cy as u32, ..cm }
}

/// The numbers copy mode computes with stay within `u32`.
pub open spec fn bounded(cm: CopyModeState, s: Screen) -> bool {
    &&& cm.oy + height(s) <= u32::MAX
    &&& cm.cx + 2 <= u32::MAX
    &&& abs_y_of(cm, hist(s)) + lines_total(s) + 1 <= u32::MAX
}

// ---------------------------------------------------------------------------
// Specifications of the operations
// ---------------------------------------------------------------------------

/// After `cursor_up(count)`.
pub open spec fn cursor_up_spec(cm: CopyModeState, s: Screen, count: int) -> CopyModeState {
    let a = min(cm.cy as int, count);
    let rest = count - a;
    let oy = if cm.oy < hist(s) { min(cm.oy + rest, hist(s)) } else { cm.oy as int };
    CopyModeState { cy: (cm.cy - a) as u32, oy: oy as u32, ..cm }
}

/// After `cursor_down(count)`.
pub open spec fn cursor_down_spec(cm: CopyModeState, s: Screen, count: int) -> CopyModeState {
    let max_y = sat_sub(height(s), 1);
    let a = if cm.cy < max_y { min(count, max_y - cm.cy) } else { 0 };
    let rest = count - a;
    CopyModeState { cy: (cm.cy + a) as u32, oy: sat_sub(cm.oy as int, rest) as u32, ..cm }
}

/// After `end_of_line`.
pub open spec fn end_of_line_spec(cm: CopyModeState, s: Screen) -> CopyModeState {
    match row_of(s, abs_y_of(cm, hist(s))) {
        Some(row) => CopyModeState { cx: sat_sub(row.len() as int, 1) as u32, ..cm },
        None => CopyModeState { cx: sat_sub(s.grid.width() as int, 1) as u32, ..cm },
    }
}

/// After `back_to_indentation`.
pub open spec fn back_to_indentation_spec(cm: CopyModeState, s: Screen) -> CopyModeState {
    match row_of(s, abs_y_of(cm, hist(s))) {
        Some(row) => {
            let x = first_nonblank_from(row, 0, row.len() as int);
            CopyModeState { cx: if x < row.len() { x as u32 } else { 0 }, ..cm }
        },
        None => CopyModeState { cx: 0, ..cm },
    }
}

/// After `next_word`.
pub open spec fn next_word_spec(cm: CopyModeState, s: Screen) -> CopyModeState {
    match row_of(s, abs_y_of(cm, hist(s))) {
        Some(row) => {
            let max = row.len() as int;
            let x = first_nonblank_from(row, first_blank_from(row, cm.cx as int, max), max);
            if x < max { CopyModeState { cx: x as u32, ..cm } } else { cm }
        },
        None => cm,
    }
}

/// After `previous_word`.
pub open spec fn previous_word_spec(cm: CopyModeState, s: Screen) -> CopyModeState {
    match row_of(s, abs_y_of(cm, hist(s))) {
        Some(row) => CopyModeState { cx: run_start(row, prev_nonblank(row, cm.cx as int)) as u32, ..cm },
        None => cm,
    }
}

/// After `next_word_end`.
pub open spec fn next_word_end_spec(cm: CopyModeState, s: Screen) -> CopyModeState {
    match row_of(s, abs_y_of(cm, hist(s))) {
        Some(row) => {
            let max = row.len() as int;
            let x = run_end(row, first_nonblank_from(row, cm.cx + 1, max), max);
            if x < max { CopyModeState { cx: x as u32, ..cm } } else { cm }
        },
        None => cm,
    }
}

/// After a jump of type `t` to `ch`, recording it as the last jump.
pub open spec fn jump_spec(cm: CopyModeState, s: Screen, ch: char, t: JumpType) -> CopyModeState {
    let cm1 = CopyModeState { last_jump: Some(JumpState { ch, jump_type: t }), ..cm };
    match row_of(s, abs_y_of(cm, hist(s))) {
        Some(row) => match t {
            JumpType::Forward => match find_char_from(row, cm.cx + 1, row.len() as int, ch) {
                Some(x) => CopyModeState { cx: x as u32, ..cm1 },
                None => cm1,
            },
            JumpType::Backward => match find_char_before(row, cm.cx as int, ch) {
                Some(x) => CopyModeState { cx: x as u32, ..cm1 },
                None => cm1,
            },
            JumpType::ForwardTill => match find_char_from(row, cm.cx + 1, row.len() as int, ch) {
                Some(x) => CopyModeState { cx: max(sat_sub(x, 1), cm.cx + 1) as u32, ..cm1 },
                None => cm1,
            },
            JumpType::BackwardTill => match find_char_before(row, cm.cx as int, ch) {
                Some(x) => CopyModeState { cx: min(x + 1, sat_sub(cm.cx as int, 1)) as u32, ..cm1 },
                None => cm1,
            },
        },
        None => cm1,
    }
}

/// The opposite jump direction.
pub open spec fn reverse_jump(t: JumpType) -> JumpType {
    match t {
        JumpType::Forward => JumpType::Backward,
        JumpType::Backward => JumpType::Forward,
        JumpType::ForwardTill => JumpType::BackwardTill,
        JumpType::BackwardTill => JumpType::ForwardTill,
    }
}

/// After `jump_again`.
pub open spec fn jump_again_spec(cm: CopyModeState, s: Screen) -> CopyModeState {
    match cm.last_jump {
        Some(j) => jump_spec(cm, s, j.ch, j.jump_type),
        None => cm,
    }
}

/// After `jump_reverse`: the reverse jump, keeping the recorded jump.
pub open spec fn jump_reverse_spec(cm: CopyModeState, s: Screen) -> CopyModeState {
    match cm.last_jump {
        Some(j) => CopyModeState { last_jump: Some(j), ..jump_spec(cm, s, j.ch, reverse_jump(j.jump_type)) },
        None => cm,
    }
}

/// After `next_paragraph`.
pub open spec fn next_paragraph_spec(cm: CopyModeState, s: Screen) -> CopyModeState {
    let total = lines_total(s);
    let y = down_to_nonblank(s, down_to_blank(s, abs_y_of(cm, hist(s)), total), total);
    CopyModeState { cx: 0, ..moved_to(cm, s, y) }
}

/// After `previous_paragraph`.
pub open spec fn previous_paragraph_spec(cm: CopyModeState, s: Screen) -> CopyModeState {
    let y = up_to_nonblank(s, up_to_blank(s, abs_y_of(cm, hist(s))));
    CopyModeState { cx: 0, ..moved_to(cm, s, y) }
}

/// After `goto_line(line)`.
pub open spec fn goto_line_spec(cm: CopyModeState, s: Screen, line: int) -> CopyModeState {
    let y = min(sat_sub(line, 1), sat_sub(lines_total(s), 1));
    CopyModeState { cx: 0, ..moved_to(cm, s, y) }
}

/// After searching forward for `needle` (without recording the search).
pub open spec fn search_forward_spec(cm: CopyModeState, s: Screen, needle: Seq<char>) -> CopyModeState {
    let start = abs_y_of(cm, hist(s));
    match search_fwd(s, start, needle, 1) {
        Some((x, y)) => moved_to(CopyModeState { cx: x as u32, ..cm }, s, y),
        None => {
            let text = line_text_spec(s, start);
            if cm.cx + 1 >= text.len() {
                cm
            } else {
                match find_sub(text, needle, cm.cx + 1) {
                    Some(x) => CopyModeState { cx: x as u32, ..cm },
                    None => cm,
                }
            }
        },
    }
}

/// After searching backward for `needle` (without recording the search).
pub open spec fn search_backward_spec(cm: CopyModeState, s: Screen, needle: Seq<char>) -> CopyModeState {
    match search_bwd(s, abs_y_of(cm, hist(s)), needle, 1) {
        Some((x, y)) => moved_to(CopyModeState { cx: x as u32, ..cm }, s, y),
        None => cm,
    }
}

/// The selection made from the copy-mode state, when one is active.
pub open spec fn selection_spec(cm: CopyModeState, hs: int) -> Option<Selection> {
    if cm.selecting {
        Some(Selection {
            sel_type: cm.sel_type,
            start_x: cm.sel_start_x,
            start_y: cm.sel_start_y,
            end_x: cm.cx,
            end_y: abs_y_of(cm, hs) as u32,
            active: true,
        })
    } else {
        None
    }
}

/// The character a cell contributes to copied text.
pub open spec fn cell_char(c: Option<char>) -> char {
    match c {
        Some(ch) => ch,
        None => ' ',
    }
}

/// The characters of the cells in columns `[a, b)`.
pub open spec fn cells_text(row: Seq<Option<char>>, a: int, b: int) -> Seq<char>
    decreases b - a,
{
    if a >= b { Seq::empty() } else { cells_text(row, a, b - 1).push(cell_char(cell_at(row, b - 1))) }
}

/// `s` without trailing spaces.
pub open spec fn trim_spaces(s: Seq<char>) -> Seq<char>
    decreases s.len(),
{
    if s.len() > 0 && s.last() == ' ' { trim_spaces(s.drop_last()) } else { s }
}

/// The part of row `y` a selection covers.
pub open spec fn selected_part(row: Seq<Option<char>>, t: SelectionType, y: int, sx: int, sy: int, ex: int, ey: int) -> Seq<char> {
    let count = row.len() as int;
    match t {
        SelectionType::Normal => {
            let start = if y == sy { sx } else { 0 };
            let end = if y == ey { ex + 1 } else { count };
            cells_text(row, start, min(end, count))
        },
        SelectionType::Line => cells_text(row, 0, count),
        SelectionType::Block => cells_text(row, sx, min(ex, sat_sub(count, 1)) + 1),
    }
}

/// The copied text of rows `y..=ey`, appended to `acc`.
pub open spec fn copy_rows(s: Screen, t: SelectionType, y: int, sx: int, sy: int, ex: int, ey: int, acc: Seq<char>) -> Seq<char>
    decreases ey + 1 - y,
{
    if y > ey {
        trim_spaces(acc)
    } else {
        match row_of(s, y) {
            Some(row) => {
                let acc2 = acc + selected_part(row, t, y, sx, sy, ex, ey);
                let acc3 = if y < ey { trim_spaces(acc2).push('\n') } else { acc2 };
                copy_rows(s, t, y + 1, sx, sy, ex, ey, acc3)
            },
            None => copy_rows(s, t, y + 1, sx, sy, ex, ey, acc),
        }
    }
}

/// The text a selection copies: each covered row's cells (empty cells as spaces),
/// rows separated by newlines, trailing spaces removed from every row.
pub open spec fn copy_text(s: Screen, sel: Selection) -> Seq<char> {
    let (sx, sy, ex, ey) = normalized_spec(sel);
    copy_rows(s, sel.sel_type, sy as int, sx as int, sy as int, ex as int, ey as int, Seq::empty())
}

// ---------------------------------------------------------------------------
// Line helpers
// ---------------------------------------------------------------------------

/// Whether the cell at column `x` is blank.
fn cell_blank(line: &GridLine, x: u32) -> (r: bool)
    ensures
        r == blank(cell_at(line_view(*line), x as int)),
{
    let c = line.get_cell(x);
    match c.data.ch {
        None => true,
        Some(ch) => ch == ' ',
    }
}

/// Check if a cell at position `x` on `line` shows character `ch`.
fn cell_matches_char(line: &GridLine, x: u32, ch: char) -> (r: bool)
    ensures
        r == char_matches(cell_at(line_view(*line), x as int), ch),
{
    let cell = line.get_cell(x);
    match cell.data.ch {
        None => ch == ' ',
        Some(c) => c == ch,
    }
}

/// Check if a line is blank (all spaces or empty cells).
fn is_line_blank(screen: &Screen, abs_y: u32) -> (r: bool)
    ensures
        r == line_blank(*screen, abs_y as int),
{
    let hs = screen.grid.history_size();
    match screen.grid.get_line_absolute(abs_y) {
        None => true,
        Some(line) => {
            let n = line.cells.len();
            let mut x: usize = 0;
            while x < n
                invariant
                    n == line.cells@.len(),
                    x <= n,
                    line_view(*line) == screen.grid.row(abs_y as int),
                    row_of(*screen, abs_y as int) == Some(line_view(*line)),
                    forall|i: int| 0 <= i < x ==> blank(#[trigger] line_view(*line)[i]),
                decreases n - x,
            {
                let c = line.cells[x];
                let is_blank = match c.data.ch {
                    None => true,
                    Some(ch) => ch == ' ',
                };
                if !is_blank {
                    assert(line_view(*line).len() == n);
                    let ghost row = screen.grid.row(abs_y as int);
                    assert(!blank(row[x as int]));
                    assert(!(forall|i: int| 0 <= i < row.len() ==> blank(#[trigger] row[i])));
                    assert(row_of(*screen, abs_y as int) == Some(row));
                    return false;
                }
                x = x + 1;
            }
            true
        },
    }
}

/// Extract the text content of a line: one character per cell, empty cells as spaces.
fn line_text(screen: &Screen, abs_y: u32) -> (r: Vec<char>)
    ensures
        r@ == line_text_spec(*screen, abs_y as int),
        r@.len() <= u32::MAX,
{
    let hs = screen.grid.history_size();
    match screen.grid.get_line_absolute(abs_y) {
        None => Vec::new(),
        Some(line) => {
            let mut text: Vec<char> = Vec::new();
            let mut x: usize = 0;
            while x < line.cells.len()
                invariant
                    x <= line.cells@.len(),
                    line_view(*line) == screen.grid.row(abs_y as int),
                    text@ == row_text(line_view(*line)).subrange(0, x as int),
                decreases line.cells@.len() - x,
            {
                let c = match line.cells[x].data.ch {
                    Some(ch) => ch,
                    None => ' ',
                };
                text.push(c);
                assert(row_text(line_view(*line)).subrange(0, x + 1) =~= row_text(line_view(*line)).subrange(0, x as int).push(c));
                x = x + 1;
            }
            assert(row_text(line_view(*line)).subrange(0, x as int) =~= row_text(line_view(*line)));
            text
        },
    }
}

/// Whether `needle` occurs in `text` at `i`.
fn occurs_at_exec(text: &[char], needle: &[char], i: usize) -> (r: bool)
    requires
        i + needle@.len() <= text@.len(),
    ensures
        r == occurs_at(text@, needle@, i as int),
{
    let tl = text.len();
    let mut k: usize = 0;
    while k < needle.len()
        invariant
            tl == text@.len(),
            i + needle@.len() <= text@.len(),
            k <= needle@.len(),
            forall|j: int| 0 <= j < k ==> text@[i + j] == needle@[j],
        decreases needle@.len() - k,
    {
        if text[i + k] != needle[k] {
            assert(text@.subrange(i as int, i + needle@.len())[k as int] != needle@[k as int]);
            return false;
        }
        k = k + 1;
    }
    assert(text@.subrange(i as int, i + needle@.len()) =~= needle@);
    true
}

/// The first position `>= from` where `needle` occurs in `text`.
fn find_sub_exec(text: &[char], needle: &[char], from: usize) -> (r: Option<usize>)
    ensures
        match find_sub(text@, needle@, from as int) {
            Some(x) => r == Some(x as usize),
            None => r is None,
        },
{
    let tl = text.len();
    let nl = needle.len();
    if nl > tl || from > tl - nl {
        return None;
    }
    proof {
        lemma_find_sub_range(text@, needle@, from as int);
    }
    let mut i: usize = from;
    loop
        invariant
            tl == text@.len(),
            nl == needle@.len(),
            nl <= tl,
            from <= i,
            needle@.len() <= text@.len(),
            i <= tl - nl,
            find_sub(text@, needle@, from as int) == find_sub(text@, needle@, i as int),
        decreases tl - i,
    {
        if occurs_at_exec(text, needle, i) {
            return Some(i);
        }
        if i == tl - nl {
            assert(find_sub(text@, needle@, i + 1) is None);
            return None;
        }
        i = i + 1;
    }
    None
}

proof fn lemma_find_sub_range(text: Seq<char>, needle: Seq<char>, i: int)
    ensures
        find_sub(text, needle, i) matches Some(x) ==> i <= x && x + needle.len() <= text.len(),
    decreases text.len() + 1 - i,
{
    if !(i < 0 || i + needle.len() > text.len()) && !occurs_at(text, needle, i) {
        lemma_find_sub_range(text, needle, i + 1);
    }
}

/// Find the first occurrence of `needle` in a line, returning the column.
fn find_in_line(screen: &Screen, abs_y: u32, needle: &[char]) -> (r: Option<u32>)
    ensures
        match find_sub(line_text_spec(*screen, abs_y as int), needle@, 0) {
            Some(x) => r == Some(x as u32),
            None => r is None,
        },
{
    let text = line_text(screen, abs_y);
    proof {
        lemma_find_sub_range(text@, needle@, 0);
    }
    match find_sub_exec(text.as_slice(), needle, 0) {
        Some(p) => Some(p as u32),
        None => None,
    }
}

/// Find `needle` in a line starting from column `start_x`.
fn find_in_line_after(screen: &Screen, abs_y: u32, start_x: u32, needle: &[char]) -> (r: Option<u32>)
    ensures
        ({
            let text = line_text_spec(*screen, abs_y as int);
            if start_x >= text.len() {
                r is None
            } else {
                match find_sub(text, needle@, start_x as int) {
                    Some(x) => r == Some(x as u32),
                    None => r is None,
                }
            }
        }),
{
    let text = line_text(screen, abs_y);
    let start = start_x as usize;
    if start >= text.len() {
        return None;
    }
    proof {
        lemma_find_sub_range(text@, needle@, start as int);
    }
    match find_sub_exec(text.as_slice(), needle, start) {
        Some(p) => Some(p as u32),
        None => None,
    }
}

impl CopyModeState {
    /// Create a new copy mode state from a pane's current screen.
    ///
    /// Cursor starts at the bottom-left of the visible area with no scroll offset.
    pub fn enter(screen: &Screen, mode_keys: &str) -> (r: Self)
        ensures
            r.cx == 0,
            r.cy == sat_sub(height(*screen), 1),
            r.oy == 0,
            !r.selecting,
            r.sel_start_x == 0,
            r.sel_start_y == 0,
            r.sel_type == SelectionType::Normal,
            r.search_str is None,
            r.search_forward,
            r.key_table@ == (if mode_keys@ == "vi"@ { "copy-mode-vi"@ } else { "copy-mode-emacs"@ }),
            r.last_jump is None,
            r.pending_jump is None,
    {
        let h = screen.height();
        let key_table = if str_eq(mode_keys, "vi") {
            to_owned_string("copy-mode-vi")
        } else {
            to_owned_string("copy-mode-emacs")
        };
        CopyModeState {
            cx: 0,
            cy: if h > 0 { h - 1 } else { 0 },
            oy: 0,
            selecting: false,
            sel_start_x: 0,
            sel_start_y: 0,
            sel_type: SelectionType::Normal,
            search_str: None,
            search_forward: true,
            key_table,
            last_jump: None,
            pending_jump: None,
        }
    }

    /// Convert copy mode cursor position to absolute y in the grid.
    ///
    /// Absolute y: 0 = oldest history line, history_size = first visible line.
    pub fn absolute_y(&self, history_size: u32) -> (r: u32)
        requires
            abs_y_of(*self, history_size as int) <= u32::MAX,
        ensures
            r == abs_y_of(*self, history_size as int),
    {
        let base = if history_size >= self.oy { history_size - self.oy } else { 0 };
        base + self.cy
    }

    // --- Navigation ---

    /// Move cursor up by `count` lines, scrolling into history if needed.
    pub fn cursor_up(&mut self, screen: &Screen, count: u32)
        ensures
            *final(self) == cursor_up_spec(*old(self), *screen, count as int),
    {
        let hs = screen.grid.history_size();
        let a = if self.cy < count { self.cy } else { count };
        let rest = count - a;
        self.cy = self.cy - a;
        if self.oy < hs {
            let want = self.oy as u64 + rest as u64;
            self.oy = if want < hs as u64 { want as u32 } else { hs };
        }
    }

    /// Move cursor down by `count` lines, scrolling towards live screen.
    pub fn cursor_down(&mut self, screen: &Screen, count: u32)
        ensures
            *final(self) == cursor_down_spec(*old(self), *screen, count as int),
    {
        let h = screen.height();
        let max_y = if h > 0 { h - 1 } else { 0 };
        let a = if self.cy < max_y {
            if count < max_y - self.cy { count } else { max_y - self.cy }
        } else {
            0
        };
        let rest = count - a;
        self.cy = self.cy + a;
        self.oy = if self.oy >= rest { self.oy - rest } else { 0 };
    }

    /// Move cursor left by one column.
    pub fn cursor_left(&mut self)
        ensures
            *final(self) == (CopyModeState { cx: sat_sub(old(self).cx as int, 1) as u32, ..*old(self) }),
    {
        self.cx = if self.cx > 0 { self.cx - 1 } else { 0 };
    }

    /// Move cursor right by one column.
    pub fn cursor_right(&mut self, screen: &Screen)
        ensures
            *final(self) == (if old(self).cx < sat_sub(screen.grid.width() as int, 1) {
                CopyModeState { cx: (old(self).cx + 1) as u32, ..*old(self) }
            } else {
                *old(self)
            }),
    {
        let w = screen.width();
        let max_x = if w > 0 { w - 1 } else { 0 };
        if self.cx < max_x {
            self.cx = self.cx + 1;
        }
    }

    /// Scroll up by one page (screen height).
    pub fn page_up(&mut self, screen: &Screen)
        requires
            old(self).oy + height(*screen) <= u32::MAX,
        ensures
            *final(self) == (CopyModeState { oy: min(old(self).oy + height(*screen), hist(*screen)) as u32, ..*old(self) }),
    {
        let page = screen.height();
        let max_oy = screen.grid.history_size();
        let want = self.oy + page;
        self.oy = if want < max_oy { want } else { max_oy };
    }

    /// Scroll down by one page.
    pub fn page_down(&mut self, screen: &Screen)
        ensures
            *final(self) == (CopyModeState { oy: sat_sub(old(self).oy as int, height(*screen)) as u32, ..*old(self) }),
    {
        let page = screen.height();
        self.oy = if self.oy >= page { self.oy - page } else { 0 };
    }

    /// Scroll up by half a page.
    pub fn halfpage_up(&mut self, screen: &Screen)
        requires
            old(self).oy + height(*screen) / 2 <= u32::MAX,
        ensures
            *final(self) == (CopyModeState { oy: min(old(self).oy + height(*screen) / 2, hist(*screen)) as u32, ..*old(self) }),
    {
        let half = screen.height() / 2;
        let max_oy = screen.grid.history_size();
        let want = self.oy + half;
        self.oy = if want < max_oy { want } else { max_oy };
    }

    /// Scroll down by half a page.
    pub fn halfpage_down(&mut self, screen: &Screen)
        ensures
            *final(self) == (CopyModeState { oy: sat_sub(old(self).oy as int, height(*screen) / 2) as u32, ..*old(self) }),
    {
        let half = screen.height() / 2;
        self.oy = if self.oy >= half { self.oy - half } else { 0 };
    }

    /// Jump to the top of history.
    pub fn history_top(&mut self, screen: &Screen)
        ensures
            *final(self) == (CopyModeState { oy: hist(*screen) as u32, cy: 0, cx: 0, ..*old(self) }),
    {
        self.oy = screen.grid.history_size();
        self.cy = 0;
        self.cx = 0;
    }

    /// Jump to the bottom (live screen).
    pub fn history_bottom(&mut self, screen: &Screen)
        ensures
            *final(self) == (CopyModeState { oy: 0, cy: sat_sub(height(*screen), 1) as u32, cx: 0, ..*old(self) }),
    {
        let h = screen.height();
        self.oy = 0;
        self.cy = if h > 0 { h - 1 } else { 0 };
        self.cx = 0;
    }

    /// Jump to a specific line number (1-based, from top of history).
    pub fn goto_line(&mut self, screen: &Screen, line: u32)
        ensures
            *final(self) == goto_line_spec(*old(self), *screen, line as int),
    {
        let hs = screen.grid.history_size();
        let abs_y = if line > 0 { line - 1 } else { 0 };
        let total = hs + screen.height();
        let last = if total > 0 { total - 1 } else { 0 };
        let clamped = if abs_y < last { abs_y } else { last };
        self.move_to_absolute_y(clamped, screen);
        self.cx = 0;
    }

    /// Move cursor to start of line.
    pub fn start_of_line(&mut self)
        ensures
            *final(self) == (CopyModeState { cx: 0, ..*old(self) }),
    {
        self.cx = 0;
    }

    /// Move cursor to the last written cell of the line.
    pub fn end_of_line(&mut self, screen: &Screen)
        requires
            bounded(*old(self), *screen),
        ensures
            *final(self) == end_of_line_spec(*old(self), *screen),
    {
        let hs = screen.grid.history_size();
        let abs_y = self.absolute_y(hs);
        if let Some(line) = screen.grid.get_line_absolute(abs_y) {
            let n = line.cell_count();
            self.cx = if n > 0 { n - 1 } else { 0 };
        } else {
            let w = screen.width();
            self.cx = if w > 0 { w - 1 } else { 0 };
        }
    }

    /// Move cursor to first non-space character on the line.
    pub fn back_to_indentation(&mut self, screen: &Screen)
        requires
            bounded(*old(self), *screen),
        ensures
            *final(self) == back_to_indentation_spec(*old(self), *screen),
    {
        let hs = screen.grid.history_size();
        let abs_y = self.absolute_y(hs);
        if let Some(line) = screen.grid.get_line_absolute(abs_y) {
            let n = line.cell_count();
            let ghost row = line_view(*line);
            let mut x: u32 = 0;
            while x < n
                invariant
                    n == row.len(),
                    row == line_view(*line),
                    row_of(*screen, abs_y_of(*old(self), hist(*screen))) == Some(row),
                    x <= n,
                    *self == *old(self),
                    first_nonblank_from(row, 0, n as int) == first_nonblank_from(row, x as int, n as int),
                decreases n - x,
            {
                if !cell_blank(line, x) {
                    self.cx = x;
                    return;
                }
                x = x + 1;
            }
        }
        self.cx = 0;
    }

    /// Move cursor to the start of the next word.
    pub fn next_word(&mut self, screen: &Screen)
        requires
            bounded(*old(self), *screen),
        ensures
            *final(self) == next_word_spec(*old(self), *screen),
    {
        let hs = screen.grid.history_size();
        let abs_y = self.absolute_y(hs);
        if let Some(line) = screen.grid.get_line_absolute(abs_y) {
            let max = line.cell_count();
            let ghost row = line_view(*line);
            let mut x = self.cx;
            // Skip current word (non-space)
            while x < max && !cell_blank(line, x)
                invariant
                    max == row.len(),
                    row == line_view(*line),
                    first_blank_from(row, old(self).cx as int, max as int) == first_blank_from(row, x as int, max as int),
                decreases max - x,
            {
                x = x + 1;
            }
            let ghost x1 = x;
            // Skip spaces
            while x < max && cell_blank(line, x)
                invariant
                    max == row.len(),
                    row == line_view(*line),
                    first_nonblank_from(row, x1 as int, max as int) == first_nonblank_from(row, x as int, max as int),
                decreases max - x,
            {
                x = x + 1;
            }
            if x < max {
                self.cx = x;
            }
        }
    }

    /// Move cursor to the start of the previous word.
    pub fn previous_word(&mut self, screen: &Screen)
        requires
            bounded(*old(self), *screen),
        ensures
            *final(self) == previous_word_spec(*old(self), *screen),
    {
        let hs = screen.grid.history_size();
        let abs_y = self.absolute_y(hs);
        if let Some(line) = screen.grid.get_line_absolute(abs_y) {
            let ghost row = line_view(*line);
            let mut x = self.cx;
            // Move left past spaces
            while x > 0                invariant_except_break
                    prev_nonblank(row, old(self).cx as int) == prev_nonblank(row, x as int),

                invariant
                    row == line_view(*line),
                ensures
                    x == prev_nonblank(row, old(self).cx as int),
                decreases x,
            {
                x = x - 1;
                if !cell_blank(line, x) {
                    break;
                }
            }
            let ghost x1 = x;
            assert(x == prev_nonblank(row, old(self).cx as int));
            // Move left through word characters
            while x > 0 && !cell_blank(line, x - 1)
                invariant
                    row == line_view(*line),
                    run_start(row, x1 as int) == run_start(row, x as int),
                decreases x,
            {
                x = x - 1;
            }
            self.cx = x;
        }
    }

    /// Move cursor to end of current word.
    pub fn next_word_end(&mut self, screen: &Screen)
        requires
            bounded(*old(self), *screen),
        ensures
            *final(self) == next_word_end_spec(*old(self), *screen),
    {
        let hs = screen.grid.history_size();
        let abs_y = self.absolute_y(hs);
        if let Some(line) = screen.grid.get_line_absolute(abs_y) {
            let max = line.cell_count();
            let ghost row = line_view(*line);
            let mut x = self.cx + 1;
            // Skip spaces
            while x < max && cell_blank(line, x)
                invariant
                    max == row.len(),
                    row == line_view(*line),
                    x <= old(self).cx + 1 || x <= max,
                    first_nonblank_from(row, old(self).cx + 1, max as int) == first_nonblank_from(row, x as int, max as int),
                decreases max - x,
            {
                x = x + 1;
            }
            let ghost x1 = x;
            // Move to end of word
            while x + 1 < max && !cell_blank(line, x + 1)
                invariant
                    max == row.len(),
                    row == line_view(*line),
                    x <= old(self).cx + 1 || x <= max,
                    max < u32::MAX,
                    old(self).cx + 2 <= u32::MAX,
                    run_end(row, x1 as int, max as int) == run_end(row, x as int, max as int),
                decreases max - x,
            {
                x = x + 1;
            }
            if x < max {
                self.cx = x;
            }
        }
    }

    // --- Jump to character (f/F/t/T) ---

    /// Shared body of the four jumps.
    fn jump(&mut self, screen: &Screen, ch: char, t: JumpType)
        requires
            bounded(*old(self), *screen),
        ensures
            *final(self) == jump_spec(*old(self), *screen, ch, t),
    {
        self.last_jump = Some(JumpState { ch, jump_type: t });
        let hs = screen.grid.history_size();
        let abs_y = self.absolute_y(hs);
        if let Some(line) = screen.grid.get_line_absolute(abs_y) {
            let ghost row = line_view(*line);
            match t {
                JumpType::Forward | JumpType::ForwardTill => {
                    let n = line.cell_count();
                    let mut x = self.cx + 1;
                    while x < n
                        invariant
                            row == line_view(*line),
                            row_of(*screen, abs_y_of(*old(self), hist(*screen))) == Some(row),
                            n == row.len(),
                            x >= old(self).cx + 1,
                            old(self).cx + 2 <= u32::MAX,
                            t == JumpType::Forward || t == JumpType::ForwardTill,
                            *self == (CopyModeState { last_jump: Some(JumpState { ch, jump_type: t }), ..*old(self) }),
                            find_char_from(row, old(self).cx + 1, n as int, ch) == find_char_from(row, x as int, n as int, ch),
                        decreases n - x,
                    {
                        if cell_matches_char(line, x, ch) {
                            assert(find_char_from(row, x as int, n as int, ch) == Some(x as int));
                            if t == JumpType::Forward {
                                self.cx = x;
                            } else {
                                let before = if x > 0 { x - 1 } else { 0 };
                                let lo = self.cx + 1;
                                self.cx = if before >= lo { before } else { lo };
                                assert(self.cx == max(sat_sub(x as int, 1), old(self).cx + 1));
                            }
                            return;
                        }
                        x = x + 1;
                    }
                },
                JumpType::Backward | JumpType::BackwardTill => {
                    let mut x = self.cx;
                    while x > 0
                        invariant
                            row == line_view(*line),
                            row_of(*screen, abs_y_of(*old(self), hist(*screen))) == Some(row),
                            x <= old(self).cx,
                            t == JumpType::Backward || t == JumpType::BackwardTill,
                            *self == (CopyModeState { last_jump: Some(JumpState { ch, jump_type: t }), ..*old(self) }),
                            find_char_before(row, old(self).cx as int, ch) == find_char_before(row, x as int, ch),
                        decreases x,
                    {
                        if cell_matches_char(line, x - 1, ch) {
                            if t == JumpType::Backward {
                                self.cx = x - 1;
                            } else {
                                let after = x;
                                let hi = if self.cx > 0 { self.cx - 1 } else { 0 };
                                self.cx = if after <= hi { after } else { hi };
                                assert(self.cx == min(x as int, sat_sub(old(self).cx as int, 1)));
                            }
                            return;
                        }
                        x = x - 1;
                    }
                },
            }
        }
    }

    /// Jump forward to the next occurrence of `ch` on the current line.
    pub fn jump_forward(&mut self, screen: &Screen, ch: char)
        requires
            bounded(*old(self), *screen),
        ensures
            *final(self) == jump_spec(*old(self), *screen, ch, JumpType::Forward),
    {
        self.jump(screen, ch, JumpType::Forward);
    }

    /// Jump backward to the previous occurrence of `ch` on the current line.
    pub fn jump_backward(&mut self, screen: &Screen, ch: char)
        requires
            bounded(*old(self), *screen),
        ensures
            *final(self) == jump_spec(*old(self), *screen, ch, JumpType::Backward),
    {
        self.jump(screen, ch, JumpType::Backward);
    }

    /// Jump forward to just before the next occurrence of `ch`.
    pub fn jump_forward_till(&mut self, screen: &Screen, ch: char)
        requires
            bounded(*old(self), *screen),
        ensures
            *final(self) == jump_spec(*old(self), *screen, ch, JumpType::ForwardTill),
    {
        self.jump(screen, ch, JumpType::ForwardTill);
    }

    /// Jump backward to just after the previous occurrence of `ch`.
    pub fn jump_backward_till(&mut self, screen: &Screen, ch: char)
        requires
            bounded(*old(self), *screen),
        ensures
            *final(self) == jump_spec(*old(self), *screen, ch, JumpType::BackwardTill),
    {
        self.jump(screen, ch, JumpType::BackwardTill);
    }

    /// Repeat the last jump-to-char in the same direction (`;`).
    pub fn jump_again(&mut self, screen: &Screen)
        requires
            bounded(*old(self), *screen),
        ensures
            *final(self) == jump_again_spec(*old(self), *screen),
    {
        if let Some(state) = self.last_jump {
            self.jump(screen, state.ch, state.jump_type);
        }
    }

    /// Repeat the last jump-to-char in the reverse direction (`,`); the recorded
    /// jump keeps its direction.
    pub fn jump_reverse(&mut self, screen: &Screen)
        requires
            bounded(*old(self), *screen),
        ensures
            *final(self) == jump_reverse_spec(*old(self), *screen),
    {
        if let Some(state) = self.last_jump {
            let rev = match state.jump_type {
                JumpType::Forward => JumpType::Backward,
                JumpType::Backward => JumpType::Forward,
                JumpType::ForwardTill => JumpType::BackwardTill,
                JumpType::BackwardTill => JumpType::ForwardTill,
            };
            self.jump(screen, state.ch, rev);
            self.last_jump = Some(state);
        }
    }

    // --- Position commands ---

    /// Move cursor to the middle line of the visible area.
    pub fn middle_line(&mut self, screen: &Screen)
        ensures
            *final(self) == (CopyModeState { cy: (height(*screen) / 2) as u32, ..*old(self) }),
    {
        self.cy = screen.height() / 2;
    }

    /// Move cursor to the top line of the visible area.
    pub fn top_line(&mut self)
        ensures
            *final(self) == (CopyModeState { cy: 0, ..*old(self) }),
    {
        self.cy = 0;
    }

    /// Move cursor to the bottom line of the visible area.
    pub fn bottom_line(&mut self, screen: &Screen)
        ensures
            *final(self) == (CopyModeState { cy: sat_sub(height(*screen), 1) as u32, ..*old(self) }),
    {
        let h = screen.height();
        self.cy = if h > 0 { h - 1 } else { 0 };
    }

    // --- Paragraph navigation ---

    /// Move cursor to the start of the next paragraph (next blank line after content).
    pub fn next_paragraph(&mut self, screen: &Screen)
        requires
            bounded(*old(self), *screen),
        ensures
            *final(self) == next_paragraph_spec(*old(self), *screen),
    {
        let history_size = screen.grid.history_size();
        let total_lines = history_size + screen.height();
        let mut abs_y = self.absolute_y(history_size);
        let ghost y0 = abs_y;
        // Skip current non-blank lines
        while abs_y + 1 < total_lines            invariant_except_break
                down_to_blank(*screen, y0 as int, total_lines as int) == down_to_blank(*screen, abs_y as int, total_lines as int),

            invariant
                total_lines == lines_total(*screen),
                abs_y + 1 <= u32::MAX,
            ensures
                down_to_blank(*screen, y0 as int, total_lines as int) == abs_y,
            decreases total_lines - abs_y,
        {
            abs_y = abs_y + 1;
            if is_line_blank(screen, abs_y) {
                break;
            }
        }
        let ghost y1 = abs_y;
        // Skip blank lines
        while abs_y + 1 < total_lines            invariant_except_break
                down_to_nonblank(*screen, y1 as int, total_lines as int) == down_to_nonblank(*screen, abs_y as int, total_lines as int),

            invariant
                total_lines == lines_total(*screen),
                abs_y + 1 <= u32::MAX,
            ensures
                down_to_nonblank(*screen, y1 as int, total_lines as int) == abs_y,
            decreases total_lines - abs_y,
        {
            abs_y = abs_y + 1;
            if !is_line_blank(screen, abs_y) {
                break;
            }
        }
        self.move_to_absolute_y(abs_y, screen);
        self.cx = 0;
    }

    /// Move cursor to the start of the previous paragraph.
    pub fn previous_paragraph(&mut self, screen: &Screen)
        requires
            bounded(*old(self), *screen),
        ensures
            *final(self) == previous_paragraph_spec(*old(self), *screen),
    {
        let history_size = screen.grid.history_size();
        let mut abs_y = self.absolute_y(history_size);
        let ghost y0 = abs_y;
        // Skip current non-blank lines going up
        while abs_y > 0
            invariant_except_break
                up_to_blank(*screen, y0 as int) == up_to_blank(*screen, abs_y as int),
            ensures
                up_to_blank(*screen, y0 as int) == abs_y,
            decreases abs_y,
        {
            abs_y = abs_y - 1;
            if is_line_blank(screen, abs_y) {
                break;
            }
        }
        let ghost y1 = abs_y;
        // Skip blank lines going up
        while abs_y > 0
            invariant_except_break
                up_to_nonblank(*screen, y1 as int) == up_to_nonblank(*screen, abs_y as int),
            ensures
                up_to_nonblank(*screen, y1 as int) == abs_y,
            decreases abs_y,
        {
            abs_y = abs_y - 1;
            if !is_line_blank(screen, abs_y) {
                break;
            }
        }
        self.move_to_absolute_y(abs_y, screen);
        self.cx = 0;
    }

    // --- Search ---

    /// Search forward from the current position for `needle`.
    /// Wraps around to the top if not found below.
    pub fn search_forward_for(&mut self, screen: &Screen, needle: &str)
        requires
            bounded(*old(self), *screen),
        ensures
            *final(self) == (CopyModeState {
                search_str: final(self).search_str,
                search_forward: true,
                ..search_forward_spec(*old(self), *screen, needle@)
            }),
            final(self).search_str matches Some(s) && s@ == needle@,
    {
        self.search_str = Some(to_owned_string(needle));
        self.search_forward = true;
        let n = str_chars(needle);
        self.do_search_forward(screen, n.as_slice());
    }

    /// Search backward from the current position for `needle`.
    /// Wraps around to the bottom if not found above.
    pub fn search_backward_for(&mut self, screen: &Screen, needle: &str)
        requires
            bounded(*old(self), *screen),
        ensures
            *final(self) == (CopyModeState {
                search_str: final(self).search_str,
                search_forward: false,
                ..search_backward_spec(*old(self), *screen, needle@)
            }),
            final(self).search_str matches Some(s) && s@ == needle@,
    {
        self.search_str = Some(to_owned_string(needle));
        self.search_forward = false;
        let n = str_chars(needle);
        self.do_search_backward(screen, n.as_slice());
    }

    /// Repeat the last search in the same direction.
    pub fn search_again(&mut self, screen: &Screen)
        requires
            bounded(*old(self), *screen),
        ensures
            *final(self) == match old(self).search_str {
                Some(s) => if old(self).search_forward {
                    search_forward_spec(*old(self), *screen, s@)
                } else {
                    search_backward_spec(*old(self), *screen, s@)
                },
                None => *old(self),
            },
    {
        if let Some(needle) = &self.search_str {
            let n = str_chars(needle.as_str());
            if self.search_forward {
                self.do_search_forward(screen, n.as_slice());
            } else {
                self.do_search_backward(screen, n.as_slice());
            }
        }
    }

    /// Repeat the last search in the reverse direction.
    pub fn search_reverse(&mut self, screen: &Screen)
        requires
            bounded(*old(self), *screen),
        ensures
            *final(self) == match old(self).search_str {
                Some(s) => if old(self).search_forward {
                    search_backward_spec(*old(self), *screen, s@)
                } else {
                    search_forward_spec(*old(self), *screen, s@)
                },
                None => *old(self),
            },
    {
        if let Some(needle) = &self.search_str {
            let n = str_chars(needle.as_str());
            if self.search_forward {
                self.do_search_backward(screen, n.as_slice());
            } else {
                self.do_search_forward(screen, n.as_slice());
            }
        }
    }

    fn do_search_forward(&mut self, screen: &Screen, needle: &[char])
        requires
            bounded(*old(self), *screen),
        ensures
            *final(self) == search_forward_spec(*old(self), *screen, needle@),
    {
        let history_size = screen.grid.history_size();
        let total_lines = history_size + screen.height();
        let start_abs_y = self.absolute_y(history_size);
        let mut offset: u64 = 1;
        while offset <= total_lines as u64
            invariant
                total_lines == lines_total(*screen),
                start_abs_y == abs_y_of(*old(self), hist(*screen)),
                start_abs_y + total_lines <= u32::MAX,
                1 <= offset,
                offset <= total_lines + 1,
                *self == *old(self),
                search_fwd(*screen, start_abs_y as int, needle@, 1) == search_fwd(*screen, start_abs_y as int, needle@, offset as int),
            decreases total_lines + 1 - offset,
        {
            let abs_y = (start_abs_y + offset as u32) % total_lines;
            if let Some(x) = find_in_line(screen, abs_y, needle) {
                self.cx = x;
                self.move_to_absolute_y(abs_y, screen);
                return;
            }
            offset = offset + 1;
        }
        // Also check current line after cursor
        if let Some(x) = find_in_line_after(screen, start_abs_y, self.cx + 1, needle) {
            self.cx = x;
        }
    }

    fn do_search_backward(&mut self, screen: &Screen, needle: &[char])
        requires
            bounded(*old(self), *screen),
        ensures
            *final(self) == search_backward_spec(*old(self), *screen, needle@),
    {
        let history_size = screen.grid.history_size();
        let total_lines = history_size + screen.height();
        let start_abs_y = self.absolute_y(history_size);
        let mut offset: u64 = 1;
        while offset <= total_lines as u64
            invariant
                total_lines == lines_total(*screen),
                start_abs_y == abs_y_of(*old(self), hist(*screen)),
                start_abs_y + total_lines <= u32::MAX,
                1 <= offset,
                offset <= total_lines + 1,
                *self == *old(self),
                search_bwd(*screen, start_abs_y as int, needle@, 1) == search_bwd(*screen, start_abs_y as int, needle@, offset as int),
            decreases total_lines + 1 - offset,
        {
            let abs_y = (start_abs_y + total_lines - offset as u32) % total_lines;
            if let Some(x) = find_in_line(screen, abs_y, needle) {
                self.cx = x;
                self.move_to_absolute_y(abs_y, screen);
                return;
            }
            offset = offset + 1;
        }
    }

    // --- Helpers ---

    /// Move the view so that absolute y `abs_y` is visible, adjusting oy and cy.
    fn move_to_absolute_y(&mut self, abs_y: u32, screen: &Screen)
        ensures
            *final(self) == moved_to(*old(self), *screen, abs_y as int),
    {
        let history_size = screen.grid.history_size();
        let height = screen.height();
        if abs_y < history_size {
            self.oy = history_size - abs_y;
            self.cy = 0;
        } else {
            let visible_row = abs_y - history_size;
            if visible_row < height {
                self.oy = 0;
                self.cy = visible_row;
            } else {
                self.oy = 0;
                self.cy = if height > 0 { height - 1 } else { 0 };
            }
        }
        let base = if history_size >= self.oy { history_size - self.oy } else { 0 };
        let target_cy = if abs_y >= base { abs_y - base } else { 0 };
        if target_cy < height {
            self.cy = target_cy;
        }
    }

    // --- Selection ---

    /// Start a character-wise selection at the current cursor position.
    pub fn begin_selection(&mut self, history_size: u32)
        requires
            abs_y_of(*old(self), history_size as int) <= u32::MAX,
        ensures
            *final(self) == (CopyModeState {
                selecting: true,
                sel_start_x: old(self).cx,
                sel_start_y: abs_y_of(*old(self), history_size as int) as u32,
                sel_type: SelectionType::Normal,
                ..*old(self)
            }),
    {
        let abs_y = self.absolute_y(history_size);
        self.selecting = true;
        self.sel_start_x = self.cx;
        self.sel_start_y = abs_y;
        self.sel_type = SelectionType::Normal;
    }

    /// Start a line-wise selection.
    pub fn select_line(&mut self, history_size: u32)
        requires
            abs_y_of(*old(self), history_size as int) <= u32::MAX,
        ensures
            *final(self) == (CopyModeState {
                selecting: true,
                sel_start_x: old(self).cx,
                sel_start_y: abs_y_of(*old(self), history_size as int) as u32,
                sel_type: SelectionType::Line,
                ..*old(self)
            }),
    {
        let abs_y = self.absolute_y(history_size);
        self.selecting = true;
        self.sel_start_x = self.cx;
        self.sel_start_y = abs_y;
        self.sel_type = SelectionType::Line;
    }

    /// Toggle between normal and block (rectangular) selection.
    pub fn rectangle_toggle(&mut self)
        ensures
            *final(self) == (if old(self).selecting {
                CopyModeState {
                    sel_type: match old(self).sel_type {
                        SelectionType::Normal => SelectionType::Block,
                        SelectionType::Block => SelectionType::Normal,
                        SelectionType::Line => SelectionType::Line,
                    },
                    ..*old(self)
                }
            } else {
                *old(self)
            }),
    {
        if self.selecting {
            self.sel_type = match self.sel_type {
                SelectionType::Normal => SelectionType::Block,
                SelectionType::Block => SelectionType::Normal,
                SelectionType::Line => SelectionType::Line,
            };
        }
    }

    /// Build a `Selection` from the current copy mode state.
    ///
    /// Returns `None` if no selection is active.
    pub fn current_selection(&self, history_size: u32) -> (r: Option<Selection>)
        requires
            abs_y_of(*self, history_size as int) <= u32::MAX,
        ensures
            r == selection_spec(*self, history_size as int),
    {
        if !self.selecting {
            return None;
        }
        let abs_y = self.absolute_y(history_size);
        Some(Selection {
            sel_type: self.sel_type,
            start_x: self.sel_start_x,
            start_y: self.sel_start_y,
            end_x: self.cx,
            end_y: abs_y,
            active: true,
        })
    }
}

/// Result of handling a copy-mode key action.
#[derive(Debug)]
pub enum CopyModeAction {
    /// Key was handled, pane remains in copy mode. Redraw needed.
    Handled,
    /// Exit copy mode (optionally with data to copy to paste buffer).
    Exit { copy_data: Option<Vec<u8>> },
    /// Enter search prompt (forward or backward).
    SearchPrompt { forward: bool },
    /// Wait for next character for jump-to-char (f/F/t/T).
    JumpPrompt { jump_type: JumpType },
    /// Enter goto-line prompt (`:` in vi copy mode).
    GotoLinePrompt,
    /// Copy selection and pipe to a command (copy-pipe / copy-pipe-and-cancel).
    CopyPipe {
        /// The copied data (None if no selection).
        copy_data: Option<Vec<u8>>,
        /// The shell command to pipe to.
        command: String,
        /// Whether to exit copy mode after.
        cancel: bool,
    },
    /// Key not recognized in copy mode.
    Unhandled,
}

/// The bytes copied from a selection: the UTF-8 encoding of its text.
pub open spec fn copy_bytes(s: Screen, cm: CopyModeState) -> Option<Seq<u8>> {
    match selection_spec(cm, hist(s)) {
        Some(sel) => Some(vstd::utf8::encode_utf8(copy_text(s, sel))),
        None => None,
    }
}

/// Appends the text of cells `[a, b)` of `line`.
fn push_cells(out: &mut Vec<char>, line: &GridLine, a: u64, b: u64)
    requires
        b <= u32::MAX + 1,
    ensures
        final(out)@ == old(out)@ + cells_text(line_view(*line), a as int, b as int),
{
    let ghost row = line_view(*line);
    let ghost base = old(out)@;
    if a >= b {
        return;
    }
    let mut x: u64 = a;
    while x < b
        invariant
            a <= x <= b,
            b <= u32::MAX + 1,
            row == line_view(*line),
            out@ == base + cells_text(row, a as int, x as int),
        decreases b - x,
    {
        let cell = line.get_cell(x as u32);
        let c = match cell.data.ch {
            Some(ch) => ch,
            None => ' ',
        };
        out.push(c);
        assert(out@ =~= base + cells_text(row, a as int, x + 1));
        x = x + 1;
    }
}

/// Removes trailing spaces.
fn pop_spaces(out: &mut Vec<char>)
    ensures
        final(out)@ == trim_spaces(old(out)@),
{
    while out.len() > 0 && out[out.len() - 1] == ' '
        invariant
            trim_spaces(out@) == trim_spaces(old(out)@),
        decreases out@.len(),
    {
        let ghost prev = out@;
        out.pop();
        assert(out@ =~= prev.drop_last());
    }
}

/// Extract the selected text from a pane's grid.
///
/// Returns the selected text as bytes, or `None` if no selection is active.
pub fn copy_selection(screen: &Screen, cm: &CopyModeState) -> (r: Option<Vec<u8>>)
    requires
        abs_y_of(*cm, hist(*screen)) <= u32::MAX,
    ensures
        match copy_bytes(*screen, *cm) {
            Some(b) => r matches Some(v) && v@ == b,
            None => r is None,
        },
{
    if !cm.selecting {
        return None;
    }
    let history_size = screen.grid.history_size();
    let selection = match cm.current_selection(history_size) {
        Some(sel) => sel,
        None => { return None; },
    };
    let (sx, sy, ex, ey) = selection.normalized();
    let t = selection.sel_type;
    let mut result: Vec<char> = Vec::new();
    let mut abs_y: u64 = sy as u64;
    while abs_y <= ey as u64
        invariant
            sy <= abs_y <= ey as u64 + 1,
            copy_rows(*screen, t, sy as int, sx as int, sy as int, ex as int, ey as int, Seq::empty())
                == copy_rows(*screen, t, abs_y as int, sx as int, sy as int, ex as int, ey as int, result@),
        decreases ey as u64 + 1 - abs_y,
    {
        let y = abs_y as u32;
        match screen.grid.get_line_absolute(y) {
            None => {},
            Some(line) => {
                let count = line.cell_count() as u64;
                let ghost acc = result@;
                match t {
                    SelectionType::Normal => {
                        let start: u64 = if abs_y == sy as u64 { sx as u64 } else { 0 };
                        let end: u64 = if abs_y == ey as u64 { ex as u64 + 1 } else { count };
                        let stop = if end < count { end } else { count };
                        push_cells(&mut result, line, start, stop);
                    },
                    SelectionType::Line => {
                        push_cells(&mut result, line, 0, count);
                    },
                    SelectionType::Block => {
                        let last = if count > 0 { count - 1 } else { 0 };
                        let hi = if (ex as u64) < last { ex as u64 } else { last };
                        push_cells(&mut result, line, sx as u64, hi + 1);
                    },
                }
                assert(result@ == acc + selected_part(screen.grid.row(y as int), t, y as int, sx as int, sy as int, ex as int, ey as int));
                if abs_y < ey as u64 {
                    pop_spaces(&mut result);
                    result.push('\n');
                }
            },
        }
        abs_y = abs_y + 1;
    }
    pop_spaces(&mut result);
    let text = string_from_chars(result.as_slice());
    Some(text.as_str().as_bytes_vec())
}

/// The names of the navigation actions.
pub open spec fn navigation_action(a: Seq<char>) -> bool {
    a == "cursor-up"@ || a == "cursor-down"@ || a == "cursor-left"@ || a == "cursor-right"@
        || a == "page-up"@ || a == "page-down"@ || a == "halfpage-up"@ || a == "halfpage-down"@
        || a == "history-top"@ || a == "history-bottom"@ || a == "start-of-line"@
        || a == "end-of-line"@ || a == "back-to-indentation"@ || a == "next-word"@
        || a == "previous-word"@ || a == "next-word-end"@ || a == "next-paragraph"@
        || a == "previous-paragraph"@ || a == "middle-line"@ || a == "top-line"@
        || a == "bottom-line"@
}

/// The state after a navigation action.
pub open spec fn navigation_spec(cm: CopyModeState, s: Screen, a: Seq<char>) -> CopyModeState {
    if a == "cursor-up"@ { cursor_up_spec(cm, s, 1) }
    else if a == "cursor-down"@ { cursor_down_spec(cm, s, 1) }
    else if a == "cursor-left"@ { CopyModeState { cx: sat_sub(cm.cx as int, 1) as u32, ..cm } }
    else if a == "cursor-right"@ {
        if cm.cx < sat_sub(s.grid.width() as int, 1) { CopyModeState { cx: (cm.cx + 1) as u32, ..cm } } else { cm }
    }
    else if a == "page-up"@ { CopyModeState { oy: min(cm.oy + height(s), hist(s)) as u32, ..cm } }
    else if a == "page-down"@ { CopyModeState { oy: sat_sub(cm.oy as int, height(s)) as u32, ..cm } }
    else if a == "halfpage-up"@ { CopyModeState { oy: min(cm.oy + height(s) / 2, hist(s)) as u32, ..cm } }
    else if a == "halfpage-down"@ { CopyModeState { oy: sat_sub(cm.oy as int, height(s) / 2) as u32, ..cm } }
    else if a == "history-top"@ { CopyModeState { oy: hist(s) as u32, cy: 0, cx: 0, ..cm } }
    else if a == "history-bottom"@ { CopyModeState { oy: 0, cy: sat_sub(height(s), 1) as u32, cx: 0, ..cm } }
    else if a == "start-of-line"@ { CopyModeState { cx: 0, ..cm } }
    else if a == "end-of-line"@ { end_of_line_spec(cm, s) }
    else if a == "back-to-indentation"@ { back_to_indentation_spec(cm, s) }
    else if a == "next-word"@ { next_word_spec(cm, s) }
    else if a == "previous-word"@ { previous_word_spec(cm, s) }
    else if a == "next-word-end"@ { next_word_end_spec(cm, s) }
    else if a == "next-paragraph"@ { next_paragraph_spec(cm, s) }
    else if a == "previous-paragraph"@ { previous_paragraph_spec(cm, s) }
    else if a == "middle-line"@ { CopyModeState { cy: (height(s) / 2) as u32, ..cm } }
    else if a == "top-line"@ { CopyModeState { cy: 0, ..cm } }
    else { CopyModeState { cy: sat_sub(height(s), 1) as u32, ..cm } }
}

/// The names of the selection actions.
pub open spec fn selection_action(a: Seq<char>) -> bool {
    a == "begin-selection"@ || a == "select-line"@ || a == "rectangle-toggle"@ || a == "clear-selection"@
}

/// The state after a selection action.
pub open spec fn selection_action_spec(cm: CopyModeState, s: Screen, a: Seq<char>) -> CopyModeState {
    if a == "begin-selection"@ {
        CopyModeState { selecting: true, sel_start_x: cm.cx, sel_start_y: abs_y_of(cm, hist(s)) as u32, sel_type: SelectionType::Normal, ..cm }
    } else if a == "select-line"@ {
        CopyModeState { selecting: true, sel_start_x: cm.cx, sel_start_y: abs_y_of(cm, hist(s)) as u32, sel_type: SelectionType::Line, ..cm }
    } else if a == "rectangle-toggle"@ {
        if cm.selecting {
            CopyModeState {
                sel_type: match cm.sel_type {
                    SelectionType::Normal => SelectionType::Block,
                    SelectionType::Block => SelectionType::Normal,
                    SelectionType::Line => SelectionType::Line,
                },
                ..cm
            }
        } else {
            cm
        }
    } else {
        CopyModeState { selecting: false, ..cm }
    }
}

/// The state after a search-repeat or jump-repeat action.
pub open spec fn repeat_action_spec(cm: CopyModeState, s: Screen, a: Seq<char>) -> CopyModeState {
    if a == "search-again"@ {
        match cm.search_str {
            Some(n) => if cm.search_forward { search_forward_spec(cm, s, n@) } else { search_backward_spec(cm, s, n@) },
            None => cm,
        }
    } else if a == "search-reverse"@ {
        match cm.search_str {
            Some(n) => if cm.search_forward { search_backward_spec(cm, s, n@) } else { search_forward_spec(cm, s, n@) },
            None => cm,
        }
    } else if a == "jump-again"@ {
        jump_again_spec(cm, s)
    } else {
        jump_reverse_spec(cm, s)
    }
}

/// The prompt an action asks for, if it is a prompting action.
pub open spec fn prompt_action(a: Seq<char>) -> Option<CopyModeAction> {
    if a == "search-forward"@ { Some(CopyModeAction::SearchPrompt { forward: true }) }
    else if a == "search-backward"@ { Some(CopyModeAction::SearchPrompt { forward: false }) }
    else if a == "jump-forward"@ { Some(CopyModeAction::JumpPrompt { jump_type: JumpType::Forward }) }
    else if a == "jump-backward"@ { Some(CopyModeAction::JumpPrompt { jump_type: JumpType::Backward }) }
    else if a == "jump-to-forward"@ { Some(CopyModeAction::JumpPrompt { jump_type: JumpType::ForwardTill }) }
    else if a == "jump-to-backward"@ { Some(CopyModeAction::JumpPrompt { jump_type: JumpType::BackwardTill }) }
    else if a == "goto-line"@ { Some(CopyModeAction::GotoLinePrompt) }
    else { None }
}

/// The names of the search-repeat and jump-repeat actions.
pub open spec fn repeat_action(a: Seq<char>) -> bool {
    a == "search-again"@ || a == "search-reverse"@ || a == "jump-again"@ || a == "jump-reverse"@
}

/// The names of the actions that leave copy mode with the selection.
pub open spec fn copy_action(a: Seq<char>) -> bool {
    a == "copy-selection-and-cancel"@ || a == "copy-selection"@ || a == "copy-selection-no-clear"@
}

fn dispatch_navigation(screen: &Screen, cm: &mut CopyModeState, action: &str) -> (r: bool)
    requires
        bounded(*old(cm), *screen),
    ensures
        r == navigation_action(action@),
        r ==> *final(cm) == navigation_spec(*old(cm), *screen, action@),
        !r ==> *final(cm) == *old(cm),
{
    proof {
        reveal_strlit("cursor-up");
        reveal_strlit("cursor-down");
        reveal_strlit("cursor-left");
        reveal_strlit("cursor-right");
        reveal_strlit("page-up");
        reveal_strlit("page-down");
        reveal_strlit("halfpage-up");
        reveal_strlit("halfpage-down");
        reveal_strlit("history-top");
        reveal_strlit("history-bottom");
        reveal_strlit("start-of-line");
        reveal_strlit("end-of-line");
        reveal_strlit("back-to-indentation");
        reveal_strlit("next-word");
        reveal_strlit("previous-word");
        reveal_strlit("next-word-end");
        reveal_strlit("next-paragraph");
        reveal_strlit("previous-paragraph");
        reveal_strlit("middle-line");
        reveal_strlit("top-line");
        reveal_strlit("bottom-line");
    }
    if str_eq(action, "cursor-up") { cm.cursor_up(screen, 1); }
    else if str_eq(action, "cursor-down") { cm.cursor_down(screen, 1); }
    else if str_eq(action, "cursor-left") { cm.cursor_left(); }
    else if str_eq(action, "cursor-right") { cm.cursor_right(screen); }
    else if str_eq(action, "page-up") { cm.page_up(screen); }
    else if str_eq(action, "page-down") { cm.page_down(screen); }
    else if str_eq(action, "halfpage-up") { cm.halfpage_up(screen); }
    else if str_eq(action, "halfpage-down") { cm.halfpage_down(screen); }
    else if str_eq(action, "history-top") { cm.history_top(screen); }
    else if str_eq(action, "history-bottom") { cm.history_bottom(screen); }
    else if str_eq(action, "start-of-line") { cm.start_of_line(); }
    else if str_eq(action, "end-of-line") { cm.end_of_line(screen); }
    else if str_eq(action, "back-to-indentation") { cm.back_to_indentation(screen); }
    else if str_eq(action, "next-word") { cm.next_word(screen); }
    else if str_eq(action, "previous-word") { cm.previous_word(screen); }
    else if str_eq(action, "next-word-end") { cm.next_word_end(screen); }
    else if str_eq(action, "next-paragraph") { cm.next_paragraph(screen); }
    else if str_eq(action, "previous-paragraph") { cm.previous_paragraph(screen); }
    else if str_eq(action, "middle-line") { cm.middle_line(screen); }
    else if str_eq(action, "top-line") { cm.top_line(); }
    else if str_eq(action, "bottom-line") { cm.bottom_line(screen); }
    else { return false; }
    true
}

fn dispatch_selection(screen: &Screen, cm: &mut CopyModeState, action: &str) -> (r: bool)
    requires
        bounded(*old(cm), *screen),
    ensures
        r == selection_action(action@),
        r ==> *final(cm) == selection_action_spec(*old(cm), *screen, action@),
        !r ==> *final(cm) == *old(cm),
{
    proof {
        reveal_strlit("begin-selection");
        reveal_strlit("select-line");
        reveal_strlit("rectangle-toggle");
        reveal_strlit("clear-selection");
    }
    if str_eq(action, "begin-selection") {
        let hs = screen.grid.history_size();
        cm.begin_selection(hs);
    } else if str_eq(action, "select-line") {
        let hs = screen.grid.history_size();
        cm.select_line(hs);
    } else if str_eq(action, "rectangle-toggle") {
        cm.rectangle_toggle();
    } else if str_eq(action, "clear-selection") {
        cm.selecting = false;
    } else {
        return false;
    }
    true
}

fn dispatch_search_and_jump(screen: &Screen, cm: &mut CopyModeState, action: &str) -> (r: Option<CopyModeAction>)
    requires
        bounded(*old(cm), *screen),
    ensures
        if prompt_action(action@) is Some {
            r == prompt_action(action@) && *final(cm) == *old(cm)
        } else if repeat_action(action@) {
            r == Some(CopyModeAction::Handled) && *final(cm) == repeat_action_spec(*old(cm), *screen, action@)
        } else {
            r is None && *final(cm) == *old(cm)
        },
{
    proof {
        reveal_strlit("search-forward");
        reveal_strlit("search-backward");
        reveal_strlit("search-again");
        reveal_strlit("search-reverse");
        reveal_strlit("jump-forward");
        reveal_strlit("jump-backward");
        reveal_strlit("jump-to-forward");
        reveal_strlit("jump-to-backward");
        reveal_strlit("jump-again");
        reveal_strlit("jump-reverse");
        reveal_strlit("goto-line");
    }
    if str_eq(action, "search-forward") {
        return Some(CopyModeAction::SearchPrompt { forward: true });
    } else if str_eq(action, "search-backward") {
        return Some(CopyModeAction::SearchPrompt { forward: false });
    } else if str_eq(action, "jump-forward") {
        return Some(CopyModeAction::JumpPrompt { jump_type: JumpType::Forward });
    } else if str_eq(action, "jump-backward") {
        return Some(CopyModeAction::JumpPrompt { jump_type: JumpType::Backward });
    } else if str_eq(action, "jump-to-forward") {
        return Some(CopyModeAction::JumpPrompt { jump_type: JumpType::ForwardTill });
    } else if str_eq(action, "jump-to-backward") {
        return Some(CopyModeAction::JumpPrompt { jump_type: JumpType::BackwardTill });
    } else if str_eq(action, "goto-line") {
        return Some(CopyModeAction::GotoLinePrompt);
    } else if str_eq(action, "search-again") {
        cm.search_again(screen);
    } else if str_eq(action, "search-reverse") {
        cm.search_reverse(screen);
    } else if str_eq(action, "jump-again") {
        cm.jump_again(screen);
    } else if str_eq(action, "jump-reverse") {
        cm.jump_reverse(screen);
    } else {
        return None;
    }
    Some(CopyModeAction::Handled)
}

/// Dispatch a copy-mode action by name.
///
/// Navigation and selection actions change the state and report `Handled`;
/// search and jump prompts are reported for the caller to ask for input;
/// the copy actions leave copy mode with the selected text; `cancel` leaves
/// without it; any other name is `Unhandled` and changes nothing.
pub fn dispatch_copy_mode_action(screen: &Screen, cm: &mut CopyModeState, action: &str) -> (r: CopyModeAction)
    requires
        bounded(*old(cm), *screen),
    ensures
        if navigation_action(action@) {
            r is Handled && *final(cm) == navigation_spec(*old(cm), *screen, action@)
        } else if selection_action(action@) {
            r is Handled && *final(cm) == selection_action_spec(*old(cm), *screen, action@)
        } else if prompt_action(action@) is Some {
            Some(r) == prompt_action(action@) && *final(cm) == *old(cm)
        } else if repeat_action(action@) {
            r is Handled && *final(cm) == repeat_action_spec(*old(cm), *screen, action@)
        } else if copy_action(action@) {
            *final(cm) == *old(cm) && (match copy_bytes(*screen, *old(cm)) {
                Some(b) => r matches CopyModeAction::Exit { copy_data: Some(d) } && d@ == b,
                None => r matches CopyModeAction::Exit { copy_data: None },
            })
        } else if action@ == "cancel"@ {
            *final(cm) == *old(cm) && r matches CopyModeAction::Exit { copy_data: None }
        } else {
            r is Unhandled && *final(cm) == *old(cm)
        },
{
    proof {
        reveal_strlit("copy-selection-and-cancel");
        reveal_strlit("copy-selection");
        reveal_strlit("copy-selection-no-clear");
        reveal_strlit("cancel");
        reveal_strlit("cursor-up");
        reveal_strlit("cursor-down");
        reveal_strlit("cursor-left");
        reveal_strlit("cursor-right");
        reveal_strlit("page-up");
        reveal_strlit("page-down");
        reveal_strlit("halfpage-up");
        reveal_strlit("halfpage-down");
        reveal_strlit("history-top");
        reveal_strlit("history-bottom");
        reveal_strlit("start-of-line");
        reveal_strlit("end-of-line");
        reveal_strlit("back-to-indentation");
        reveal_strlit("next-word");
        reveal_strlit("previous-word");
        reveal_strlit("next-word-end");
        reveal_strlit("next-paragraph");
        reveal_strlit("previous-paragraph");
        reveal_strlit("middle-line");
        reveal_strlit("top-line");
        reveal_strlit("bottom-line");
        reveal_strlit("begin-selection");
        reveal_strlit("select-line");
        reveal_strlit("rectangle-toggle");
        reveal_strlit("clear-selection");
        reveal_strlit("search-forward");
        reveal_strlit("search-backward");
        reveal_strlit("search-again");
        reveal_strlit("search-reverse");
        reveal_strlit("jump-forward");
        reveal_strlit("jump-backward");
        reveal_strlit("jump-to-forward");
        reveal_strlit("jump-to-backward");
        reveal_strlit("jump-again");
        reveal_strlit("jump-reverse");
        reveal_strlit("goto-line");
    }
    if dispatch_navigation(screen, cm, action) {
        return CopyModeAction::Handled;
    }
    if dispatch_selection(screen, cm, action) {
        return CopyModeAction::Handled;
    }
    if let Some(a) = dispatch_search_and_jump(screen, cm, action) {
        return a;
    }
    if str_eq(action, "copy-selection-and-cancel") || str_eq(action, "copy-selection")
        || str_eq(action, "copy-selection-no-clear") {
        let data = copy_selection(screen, cm);
        return CopyModeAction::Exit { copy_data: data };
    }
    if str_eq(action, "cancel") {
        return CopyModeAction::Exit { copy_data: None };
    }
    CopyModeAction::Unhandled
}

/// Moving up `count` lines (with the view inside the history and the
/// cursor on the screen) moves the cursor's absolute row up by `count`,
/// stopping at the top of the history; it keeps the view inside the
/// history, never moves the cursor row down, and changes nothing else.
pub proof fn law_cursor_up(cm: CopyModeState, s: Screen, count: u32)
    requires
        lines_total(s) <= u32::MAX,
        cm.oy <= hist(s),
        cm.cy < height(s),
    ensures
        ({
            let n = cursor_up_spec(cm, s, count as int);
            &&& abs_y_of(n, hist(s)) == sat_sub(abs_y_of(cm, hist(s)), count as int)
            &&& n.oy <= hist(s)
            &&& n.cy <= cm.cy
            &&& n == (CopyModeState { oy: n.oy, cy: n.cy, ..cm })
        }),
{
}

/// Going to line `line` (1-based from the top of the history, 0 read as 1)
/// puts the cursor at column 0 on that absolute row, or on the last row
/// when there are fewer, with the view inside the history and the cursor
/// on the screen; nothing else changes.
pub proof fn law_goto_line(cm: CopyModeState, s: Screen, line: u32)
    requires
        lines_total(s) <= u32::MAX,
        height(s) >= 1,
    ensures
        ({
            let n = goto_line_spec(cm, s, line as int);
            &&& abs_y_of(n, hist(s)) == min(sat_sub(line as int, 1), hist(s) + height(s) - 1)
            &&& n.cx == 0
            &&& n.oy <= hist(s)
            &&& n.cy < height(s)
            &&& n == (CopyModeState { cx: 0, oy: n.oy, cy: n.cy, ..cm })
        }),
{
}

/// Row `y` of the screen holds `needle` somewhere.
pub open spec fn row_holds(s: Screen, y: int, needle: Seq<char>) -> bool {
    exists|i: int| occurs_at(line_text_spec(s, y), needle, i)
}

/// The first occurrence found from position `i` on is an occurrence.
proof fn lemma_find_sub_found(text: Seq<char>, needle: Seq<char>, i: int)
    ensures
        find_sub(text, needle, i) matches Some(x) ==> occurs_at(text, needle, x),
    decreases text.len() + 1 - i,
{
    if !(i < 0 || i + needle.len() > text.len()) && !occurs_at(text, needle, i) {
        lemma_find_sub_found(text, needle, i + 1);
    }
}

/// An occurrence at or after `i` is found from `i`.
proof fn lemma_find_sub_some(text: Seq<char>, needle: Seq<char>, i: int, j: int)
    requires
        0 <= i <= j,
        occurs_at(text, needle, j),
    ensures
        find_sub(text, needle, i) is Some,
    decreases j - i,
{
    if !occurs_at(text, needle, i) {
        lemma_find_sub_some(text, needle, i + 1, j);
    }
}

/// A row's search finds something exactly when the row holds the needle.
proof fn lemma_row_search(s: Screen, y: int, needle: Seq<char>)
    ensures
        (find_sub(line_text_spec(s, y), needle, 0) is Some) == row_holds(s, y, needle),
        find_sub(line_text_spec(s, y), needle, 0) matches Some(x) ==> occurs_at(line_text_spec(s, y), needle, x),
{
    let t = line_text_spec(s, y);
    lemma_find_sub_found(t, needle, 0);
    if row_holds(s, y, needle) {
        let j = choose|j: int| occurs_at(t, needle, j);
        lemma_find_sub_some(t, needle, 0, j);
    }
}

/// Searching backward from offset `k` (the row `start - k` and those above
/// it) finds the nearest row at or above `start - k` holding the needle.
proof fn lemma_search_bwd_above(s: Screen, start: int, needle: Seq<char>, k: int)
    requires
        1 <= k <= start < lines_total(s),
        exists|y: int| 0 <= y <= start - k && #[trigger] row_holds(s, y, needle),
    ensures
        search_bwd(s, start, needle, k) matches Some((x, y)) && 0 <= y <= start - k && occurs_at(
            line_text_spec(s, y),
            needle,
            x,
        ) && forall|y2: int| y < y2 <= start - k ==> !#[trigger] row_holds(s, y2, needle),
    decreases start - k,
{
    let total = lines_total(s);
    let yk = start - k;
    assert((start + total - k) % total == yk) by {
        vstd::arithmetic::div_mod::lemma_mod_add_multiples_vanish(yk, total);
        vstd::arithmetic::div_mod::lemma_small_mod(yk as nat, total as nat);
    }
    lemma_row_search(s, yk, needle);
    if !row_holds(s, yk, needle) {
        let w = choose|y: int| 0 <= y <= start - k && #[trigger] row_holds(s, y, needle);
        assert(w < yk);
        lemma_search_bwd_above(s, start, needle, k + 1);
    }
}

/// A backward search finds the nearest row above the cursor that holds the
/// needle, when there is one: no row between it and the cursor's row holds
/// the needle, and the column is an occurrence on that row.
pub proof fn law_search_backward_nearest_above(s: Screen, start: int, needle: Seq<char>)
    requires
        0 <= start < lines_total(s),
        exists|y: int| 0 <= y < start && #[trigger] row_holds(s, y, needle),
    ensures
        search_bwd(s, start, needle, 1) matches Some((x, y)) && 0 <= y < start && occurs_at(
            line_text_spec(s, y),
            needle,
            x,
        ) && forall|y2: int| y < y2 < start ==> !#[trigger] row_holds(s, y2, needle),
{
    let w = choose|y: int| 0 <= y < start && #[trigger] row_holds(s, y, needle);
    assert(0 <= w <= start - 1 && row_holds(s, w, needle));
    lemma_search_bwd_above(s, start, needle, 1);
}

/// In copy mode, searching backward moves the cursor to the nearest row
/// above it that holds the needle (when there is one), onto an occurrence.
pub proof fn law_copy_search_backward(cm: CopyModeState, s: Screen, needle: Seq<char>)
    requires
        lines_total(s) <= u32::MAX,
        height(s) >= 1,
        cm.oy <= hist(s),
        cm.cy < height(s),
        forall|y: int| 0 <= y < lines_total(s) ==> #[trigger] line_text_spec(s, y).len() <= u32::MAX,
        exists|y: int| 0 <= y < abs_y_of(cm, hist(s)) && #[trigger] row_holds(s, y, needle),
    ensures
        ({
            let n = search_backward_spec(cm, s, needle);
            let start = abs_y_of(cm, hist(s));
            let y = abs_y_of(n, hist(s));
            &&& 0 <= y < start
            &&& occurs_at(line_text_spec(s, y), needle, n.cx as int)
            &&& forall|y2: int| y < y2 < start ==> !#[trigger] row_holds(s, y2, needle)
        }),
{
    let start = abs_y_of(cm, hist(s));
    law_search_backward_nearest_above(s, start, needle);
    let (x, y) = search_bwd(s, start, needle, 1).unwrap();
    lemma_find_sub_range(line_text_spec(s, y), needle, 0);
    assert(x <= line_text_spec(s, y).len());
    assert(line_text_spec(s, y).len() <= u32::MAX);
    let n = search_backward_spec(cm, s, needle);
    assert(n == moved_to(CopyModeState { cx: x as u32, ..cm }, s, y));
    assert(n.cx == x);
    assert(abs_y_of(n, hist(s)) == y);
}

/// Searching forward from offset `k` (the row `start + k` and those below
/// it) finds the nearest row at or below `start + k` holding the needle.
proof fn lemma_search_fwd_below(s: Screen, start: int, needle: Seq<char>, k: int)
    requires
        0 <= start,
        1 <= k,
        start + k < lines_total(s),
        exists|y: int| start + k <= y < lines_total(s) && #[trigger] row_holds(s, y, needle),
    ensures
        search_fwd(s, start, needle, k) matches Some((x, y)) && start + k <= y < lines_total(s) && occurs_at(
            line_text_spec(s, y),
            needle,
            x,
        ) && forall|y2: int| start + k <= y2 < y ==> !#[trigger] row_holds(s, y2, needle),
    decreases lines_total(s) - k,
{
    let total = lines_total(s);
    let yk = start + k;
    assert((start + k) % total == yk) by {
        vstd::arithmetic::div_mod::lemma_small_mod(yk as nat, total as nat);
    }
    lemma_row_search(s, yk, needle);
    if !row_holds(s, yk, needle) {
        let w = choose|y: int| start + k <= y < lines_total(s) && #[trigger] row_holds(s, y, needle);
        assert(w > yk);
        lemma_search_fwd_below(s, start, needle, k + 1);
    }
}

/// A forward search finds the nearest row below the cursor's row that holds
/// the needle, when there is one, at an occurrence on that row.
pub proof fn law_search_forward_nearest_below(s: Screen, start: int, needle: Seq<char>)
    requires
        0 <= start < lines_total(s),
        exists|y: int| start < y < lines_total(s) && #[trigger] row_holds(s, y, needle),
    ensures
        search_fwd(s, start, needle, 1) matches Some((x, y)) && start < y < lines_total(s) && occurs_at(
            line_text_spec(s, y),
            needle,
            x,
        ) && forall|y2: int| start < y2 < y ==> !#[trigger] row_holds(s, y2, needle),
{
    let w = choose|y: int| start < y < lines_total(s) && #[trigger] row_holds(s, y, needle);
    assert(start + 1 <= w);
    lemma_search_fwd_below(s, start, needle, 1);
}

/// Past the cursor's row, a backward search wraps to the bottom: from
/// offset `k` (row `start + total - k`, below the cursor) it finds the
/// lowest row at or above that one, and below the cursor, holding the needle.
proof fn lemma_search_bwd_wrapped(s: Screen, start: int, needle: Seq<char>, k: int)
    requires
        0 <= start < k < lines_total(s),
        exists|y: int| start < y <= start + lines_total(s) - k && #[trigger] row_holds(s, y, needle),
    ensures
        search_bwd(s, start, needle, k) matches Some((x, y)) && start < y <= start + lines_total(s) - k
            && occurs_at(line_text_spec(s, y), needle, x) && forall|y2: int| y < y2 <= start + lines_total(s) - k
            ==> !#[trigger] row_holds(s, y2, needle),
    decreases lines_total(s) - k,
{
    let total = lines_total(s);
    let yk = start + total - k;
    assert((start + total - k) % total == yk) by {
        vstd::arithmetic::div_mod::lemma_small_mod(yk as nat, total as nat);
    }
    lemma_row_search(s, yk, needle);
    if !row_holds(s, yk, needle) {
        let w = choose|y: int| start < y <= start + total - k && #[trigger] row_holds(s, y, needle);
        assert(w < yk);
        lemma_search_bwd_wrapped(s, start, needle, k + 1);
    }
}

/// Searching backward through rows that do not hold the needle changes
/// nothing: the search from offset `k` is the search from `start + 1`.
proof fn lemma_search_bwd_skip_above(s: Screen, start: int, needle: Seq<char>, k: int)
    requires
        1 <= k <= start + 1,
        start < lines_total(s),
        forall|y: int| 0 <= y < start ==> !#[trigger] row_holds(s, y, needle),
    ensures
        k <= start ==> search_bwd(s, start, needle, k) == search_bwd(s, start, needle, start + 1),
    decreases start + 1 - k,
{
    if k <= start {
        let total = lines_total(s);
        let yk = start - k;
        assert((start + total - k) % total == yk) by {
            vstd::arithmetic::div_mod::lemma_mod_add_multiples_vanish(yk, total);
            vstd::arithmetic::div_mod::lemma_small_mod(yk as nat, total as nat);
        }
        lemma_row_search(s, yk, needle);
        lemma_search_bwd_skip_above(s, start, needle, k + 1);
    }
}

/// When no row above the cursor holds the needle, a backward search wraps
/// around: it finds the lowest row below the cursor that holds the needle.
pub proof fn law_search_backward_wraps(s: Screen, start: int, needle: Seq<char>)
    requires
        0 <= start < lines_total(s),
        forall|y: int| 0 <= y < start ==> !#[trigger] row_holds(s, y, needle),
        exists|y: int| start < y < lines_total(s) && #[trigger] row_holds(s, y, needle),
    ensures
        search_bwd(s, start, needle, 1) matches Some((x, y)) && start < y < lines_total(s) && occurs_at(
            line_text_spec(s, y),
            needle,
            x,
        ) && forall|y2: int| y < y2 < lines_total(s) ==> !#[trigger] row_holds(s, y2, needle),
{
    let total = lines_total(s);
    lemma_search_bwd_skip_above(s, start, needle, 1);
    let w = choose|y: int| start < y < total && #[trigger] row_holds(s, y, needle);
    assert(start < w <= start + total - (start + 1));
    lemma_search_bwd_wrapped(s, start, needle, start + 1);
}

} // verus!
