//! The status line: its format variables and its text.

use vstd::prelude::*;
use crate::assoc::assoc_insert;
use crate::format::{expansion, try_format_expand, ContextView, FormatContext};
use crate::layout::{in_subtree, is_pane_in_subtree, LayoutCell, LayoutType};
use crate::style::Style;
use crate::text::{byte_len, decimal, push_all, push_char, to_owned_string, u32_to_string, usize_to_string};

verus! {

/// Info about each window in the session, for rendering the status line.
pub struct WindowInfo {
    pub idx: u32,
    pub name: String,
    pub is_active: bool,
}

/// Status line and border configuration from options.
pub struct StatusConfig {
    pub left: String,
    pub right: String,
    pub window_status_format: String,
    pub window_status_current_format: String,
    pub status_style: Style,
    pub pane_border_style: Style,
    pub pane_active_border_style: Style,
}

/// A window of the status line as plain values: index, name, whether active.
pub open spec fn window_view(w: WindowInfo) -> (u32, Seq<char>, bool) {
    (w.idx, w.name@, w.is_active)
}

/// The windows as plain values.
pub open spec fn windows_view(ws: Seq<WindowInfo>) -> Seq<(u32, Seq<char>, bool)> {
    ws.map_values(|w: WindowInfo| window_view(w))
}

/// The first active window of the list, if any.
pub open spec fn first_active(ws: Seq<(u32, Seq<char>, bool)>, i: int) -> Option<u32>
    decreases ws.len() - i,
{
    if i < 0 || i >= ws.len() {
        None
    } else if ws[i].2 {
        Some(ws[i].0)
    } else {
        first_active(ws, i + 1)
    }
}

/// The text before the first `.` (a host's short name).
pub open spec fn before_dot(s: Seq<char>) -> Seq<char>
    decreases s.len(),
{
    if s.len() == 0 {
        s
    } else if s[0] == '.' {
        Seq::empty()
    } else {
        seq![s[0]] + before_dot(s.drop_first())
    }
}

/// The variables of the status line's context, set in order: session and
/// window name, the active window's index, the active pane's index, id
/// (`%N`), title and activity, the pane counts and the host names.
pub open spec fn status_vars(
    session_name: Seq<char>,
    window_name: Seq<char>,
    windows: Seq<(u32, Seq<char>, bool)>,
    active_pane: Option<(u32, Seq<char>)>,
    pane_count: nat,
    hostname: Option<Seq<char>>,
) -> Seq<(Seq<char>, Seq<char>)> {
    let v1 = assoc_insert(assoc_insert(Seq::empty(), "session_name"@, session_name), "window_name"@, window_name);
    let v2 = match first_active(windows, 0) {
        Some(idx) => assoc_insert(v1, "window_index"@, decimal(idx as nat)),
        None => v1,
    };
    let v3 = match active_pane {
        Some((id, title)) => assoc_insert(
            assoc_insert(
                assoc_insert(assoc_insert(v2, "pane_index"@, decimal(id as nat)), "pane_id"@, seq!['%'] + decimal(id as nat)),
                "pane_title"@,
                title,
            ),
            "pane_active"@,
            "1"@,
        ),
        None => v2,
    };
    let v4 = assoc_insert(assoc_insert(v3, "pane_count"@, decimal(pane_count)), "window_panes"@, decimal(pane_count));
    match hostname {
        Some(h) => assoc_insert(assoc_insert(v4, "host_short"@, before_dot(h)), "host"@, h),
        None => v4,
    }
}

/// The index of the first active window.
fn active_window_index(window_list: &[WindowInfo]) -> (r: Option<u32>)
    ensures
        r == first_active(windows_view(window_list@), 0),
{
    let ghost ws = windows_view(window_list@);
    let mut i: usize = 0;
    while i < window_list.len()
        invariant
            ws == windows_view(window_list@),
            i <= window_list@.len(),
            first_active(ws, 0) == first_active(ws, i as int),
        decreases window_list@.len() - i,
    {
        assert(ws[i as int] == window_view(window_list@[i as int]));
        if window_list[i].is_active {
            return Some(window_list[i].idx);
        }
        i = i + 1;
    }
    None
}

/// The text before the first `.` of `s`.
fn text_before_dot(s: &str) -> (r: String)
    ensures
        r@ == before_dot(s@),
{
    let cs = crate::text::str_chars(s);
    let mut out = String::new();
    let mut i: usize = 0;
    assert(cs@.subrange(0, cs@.len() as int) =~= s@);
    assert(out@ + before_dot(s@) =~= before_dot(s@));
    while i < cs.len() && cs[i] != '.'
        invariant
            cs@ == s@,
            i <= cs@.len(),
            out@ + before_dot(cs@.subrange(i as int, cs@.len() as int)) == before_dot(s@),
        decreases cs@.len() - i,
    {
        let ghost rest = cs@.subrange(i as int, cs@.len() as int);
        assert(rest.drop_first() =~= cs@.subrange(i + 1, cs@.len() as int));
        push_char(&mut out, cs[i]);
        assert(out@ + before_dot(rest.drop_first()) =~= before_dot(s@));
        i = i + 1;
    }
    if i < cs.len() {
        let ghost rest = cs@.subrange(i as int, cs@.len() as int);
        assert(rest[0] == '.');
        assert(out@ + Seq::<char>::empty() =~= out@);
    } else {
        assert(cs@.subrange(i as int, cs@.len() as int) =~= Seq::<char>::empty());
        assert(out@ + Seq::<char>::empty() =~= out@);
    }
    out
}

/// Build a `FormatContext` for status line expansion: the session and the
/// active window and pane (id and title), the window's pane count, and the
/// host name when known.
pub fn build_status_context(
    session_name: &str,
    window_name: &str,
    window_list: &[WindowInfo],
    active_pane: Option<(u32, &str)>,
    pane_count: usize,
    hostname: Option<&str>,
) -> (r: FormatContext)
    ensures
        r@ == (ContextView {
            vars: status_vars(
                session_name@,
                window_name@,
                windows_view(window_list@),
                match active_pane {
                    Some((id, t)) => Some((id, t@)),
                    None => None,
                },
                pane_count as nat,
                match hostname {
                    Some(h) => Some(h@),
                    None => None,
                },
            ),
            options: Seq::empty(),
        }),
{
    let mut ctx = FormatContext::new();
    ctx.set("session_name", session_name);
    ctx.set("window_name", window_name);
    match active_window_index(window_list) {
        Some(idx) => {
            let t = u32_to_string(idx);
            ctx.set("window_index", t.as_str());
        },
        None => {},
    }
    match active_pane {
        Some((id, title)) => {
            let n = u32_to_string(id);
            ctx.set("pane_index", n.as_str());
            let mut pid = String::new();
            push_char(&mut pid, '%');
            push_all(&mut pid, n.as_str());
            ctx.set("pane_id", pid.as_str());
            ctx.set("pane_title", title);
            ctx.set("pane_active", "1");
        },
        None => {},
    }
    let count = usize_to_string(pane_count);
    ctx.set("pane_count", count.as_str());
    ctx.set("window_panes", count.as_str());
    match hostname {
        Some(h) => {
            let short = text_before_dot(h);
            ctx.set("host_short", short.as_str());
            ctx.set("host", h);
        },
        None => {},
    }
    ctx
}

/// The variables of the context one window's status entry is expanded in.
pub open spec fn window_entry_vars(w: (u32, Seq<char>, bool), session_name: Seq<char>) -> Seq<(Seq<char>, Seq<char>)> {
    assoc_insert(
        assoc_insert(
            assoc_insert(
                assoc_insert(assoc_insert(Seq::empty(), "window_index"@, decimal(w.0 as nat)), "window_name"@, w.1),
                "window_flags"@,
                if w.2 { "*"@ } else { "-"@ },
            ),
            "window_active"@,
            if w.2 { "1"@ } else { "0"@ },
        ),
        "session_name"@,
        session_name,
    )
}

/// One window's entry in the status line: without configuration
/// `idx:name` (with `*` for the active one), else the window status format
/// (the current one for the active window) expanded for the window.
pub open spec fn window_entry(
    w: (u32, Seq<char>, bool),
    session_name: Seq<char>,
    formats: Option<(Seq<char>, Seq<char>)>,
) -> Option<Seq<char>> {
    match formats {
        None => Some(decimal(w.0 as nat) + seq![':'] + w.1 + if w.2 { seq!['*'] } else { Seq::empty() }),
        Some((fmt, current)) => expansion(
            if w.2 { current } else { fmt },
            ContextView { vars: window_entry_vars(w, session_name), options: Seq::empty() },
        ),
    }
}

/// The entries of the first `n` windows, separated by blanks.
pub open spec fn window_entries(
    ws: Seq<(u32, Seq<char>, bool)>,
    n: int,
    session_name: Seq<char>,
    formats: Option<(Seq<char>, Seq<char>)>,
) -> Option<Seq<char>>
    decreases n,
{
    if n <= 0 || n > ws.len() {
        Some(Seq::empty())
    } else {
        match (window_entries(ws, n - 1, session_name, formats), window_entry(ws[n - 1], session_name, formats)) {
            (Some(before), Some(e)) => Some(before + (if n > 1 { seq![' '] } else { Seq::empty() }) + e),
            _ => None,
        }
    }
}

/// `n` blanks.
pub open spec fn blanks(n: int) -> Seq<char>
    decreases n,
{
    if n <= 0 { Seq::empty() } else { blanks(n - 1).push(' ') }
}

/// The status line's text: the left part, the window list (with the pane
/// count when above one and the copy-mode position when the active pane is
/// in copy mode), blanks up to the width, and the right part. Without
/// configuration the left part is `[session] ` and the right part empty.
/// `None` when a format has no expansion.
pub open spec fn status_text(
    session_name: Seq<char>,
    ws: Seq<(u32, Seq<char>, bool)>,
    pane_count: nat,
    copy_position: Option<(u32, usize)>,
    width: u32,
    cfg: Option<(Seq<char>, Seq<char>, Seq<char>, Seq<char>)>,
    ctx: ContextView,
) -> Option<Seq<char>> {
    let left = match cfg {
        Some((l, r, f, c)) => expansion(l, ctx),
        None => Some(seq!['['] + session_name + seq![']', ' ']),
    };
    let right = match cfg {
        Some((l, r, f, c)) => expansion(r, ctx),
        None => Some(Seq::empty()),
    };
    let formats = match cfg {
        Some((l, r, f, c)) => Some((f, c)),
        None => None,
    };
    match (left, window_entries(ws, ws.len() as int, session_name, formats), right) {
        (Some(left), Some(windows), Some(right)) => {
            let center = windows + (if pane_count > 1 { " ("@ + decimal(pane_count) + " panes)"@ } else {
                Seq::empty()
            }) + match copy_position {
                Some((oy, hs)) => " [Copy mode - "@ + decimal(oy as nat) + seq!['/'] + decimal(hs as nat) + seq![']'],
                None => Seq::empty(),
            };
            let used = byte_len(left) + byte_len(center) + byte_len(right);
            Some(left + center + blanks(width - used) + right)
        },
        _ => None,
    }
}

/// Expands a format in a fresh context holding one window's variables.
fn expand_window_entry(fmt: &str, w: &WindowInfo, session_name: &str) -> (r: Option<String>)
    ensures
        r matches Some(t) ==> expansion(fmt@, ContextView { vars: window_entry_vars(window_view(*w), session_name@), options: Seq::empty() }) == Some(t@),
        r is None ==> expansion(fmt@, ContextView { vars: window_entry_vars(window_view(*w), session_name@), options: Seq::empty() }) is None,
{
    let mut wctx = FormatContext::new();
    let idx = u32_to_string(w.idx);
    wctx.set("window_index", idx.as_str());
    wctx.set("window_name", w.name.as_str());
    wctx.set("window_flags", if w.is_active { "*" } else { "-" });
    wctx.set("window_active", if w.is_active { "1" } else { "0" });
    wctx.set("session_name", session_name);
    proof {
        reveal_strlit("*");
        reveal_strlit("-");
        reveal_strlit("1");
        reveal_strlit("0");
    }
    assert(wctx@.vars == window_entry_vars(window_view(*w), session_name@));
    try_format_expand(fmt, &wctx)
}

/// Compose the status line's text (see `status_text`).
pub fn status_line_text(
    session_name: &str,
    window_list: &[WindowInfo],
    pane_count: usize,
    copy_position: Option<(u32, usize)>,
    width: u32,
    status_config: Option<&StatusConfig>,
    ctx: &FormatContext,
) -> (r: Option<String>)
    ensures
        ({
            let cfg = match status_config {
                Some(c) => Some((c.left@, c.right@, c.window_status_format@, c.window_status_current_format@)),
                None => None,
            };
            let t = status_text(session_name@, windows_view(window_list@), pane_count as nat, copy_position, width, cfg, ctx@);
            match r {
                Some(s) => t == Some(s@),
                None => t is None,
            }
        }),
{
    let ghost cfg = match status_config {
        Some(c) => Some((c.left@, c.right@, c.window_status_format@, c.window_status_current_format@)),
        None => None,
    };
    let ghost formats = match cfg {
        Some((l, r, f, c)) => Some((f, c)),
        None => None,
    };
    let ghost ws = windows_view(window_list@);
    let left: String = match status_config {
        Some(c) => match try_format_expand(c.left.as_str(), ctx) {
            Some(t) => t,
            None => {
                return None;
            },
        },
        None => {
            let mut t = String::new();
            push_char(&mut t, '[');
            push_all(&mut t, session_name);
            push_char(&mut t, ']');
            push_char(&mut t, ' ');
            assert(t@ =~= seq!['['] + session_name@ + seq![']', ' ']);
            t
        },
    };
    let mut center = String::new();
    let mut i: usize = 0;
    assert(window_entries(ws, 0, session_name@, formats) == Some(Seq::<char>::empty()));
    while i < window_list.len()
        invariant
            ws == windows_view(window_list@),
            i <= window_list@.len(),
            formats == match status_config {
                Some(c) => Some((c.window_status_format@, c.window_status_current_format@)),
                None => None::<(Seq<char>, Seq<char>)>,
            },
            window_entries(ws, i as int, session_name@, formats) == Some(center@),
        decreases window_list@.len() - i,
    {
        let ghost before = center@;
        if i > 0 {
            push_char(&mut center, ' ');
        }
        let w = &window_list[i];
        assert(ws[i as int] == window_view(*w));
        match status_config {
            Some(c) => {
                let fmt = if w.is_active { c.window_status_current_format.as_str() } else { c.window_status_format.as_str() };
                match expand_window_entry(fmt, w, session_name) {
                    Some(e) => push_all(&mut center, e.as_str()),
                    None => {
                        assert(window_entry(ws[i as int], session_name@, formats) is None);
                        assert(window_entries(ws, i + 1, session_name@, formats) is None);
                        proof {
                            lemma_entries_none_stays(ws, i + 1, session_name@, formats);
                        }
                        return None;
                    },
                }
            },
            None => {
                let idx = u32_to_string(w.idx);
                push_all(&mut center, idx.as_str());
                push_char(&mut center, ':');
                push_all(&mut center, w.name.as_str());
                if w.is_active {
                    push_char(&mut center, '*');
                }
            },
        }
        assert(center@ =~= before + (if i + 1 > 1 { seq![' '] } else { Seq::<char>::empty() }) + window_entry(
            ws[i as int],
            session_name@,
            formats,
        ).unwrap());
        i = i + 1;
    }
    assert(window_list@.len() == ws.len());
    let ghost windows_text = center@;
    let ghost panes_text: Seq<char> = if pane_count > 1 { " ("@ + decimal(pane_count as nat) + " panes)"@ } else { Seq::empty() };
    let ghost copy_text: Seq<char> = match copy_position {
        Some((oy, hs)) => " [Copy mode - "@ + decimal(oy as nat) + seq!['/'] + decimal(hs as nat) + seq![']'],
        None => Seq::empty(),
    };
    if pane_count > 1 {
        push_all(&mut center, " (");
        let n = usize_to_string(pane_count);
        push_all(&mut center, n.as_str());
        push_all(&mut center, " panes)");
    }
    assert(center@ =~= windows_text + panes_text);
    match copy_position {
        Some((oy, hs)) => {
            push_all(&mut center, " [Copy mode - ");
            let a = u32_to_string(oy);
            push_all(&mut center, a.as_str());
            push_char(&mut center, '/');
            let b = usize_to_string(hs);
            push_all(&mut center, b.as_str());
            push_char(&mut center, ']');
        },
        None => {},
    }
    assert(center@ =~= windows_text + panes_text + copy_text);
    let right: String = match status_config {
        Some(c) => match try_format_expand(c.right.as_str(), ctx) {
            Some(t) => t,
            None => {
                return None;
            },
        },
        None => String::new(),
    };
    let ghost left_text = left@;
    let ghost center_text = center@;
    let used: u128 = left.as_str().len() as u128 + center.as_str().len() as u128 + right.as_str().len() as u128;
    assert(used == byte_len(left_text) + byte_len(center_text) + byte_len(right@));
    let mut out = left;
    push_all(&mut out, center.as_str());
    let mut k: u128 = 0;
    assert(blanks(0) =~= Seq::<char>::empty());
    while k + used < width as u128
        invariant
            k + used <= width as u128 || k == 0,
            out@ == left_text + center_text + blanks(k as int),
        decreases width as u128 - k,
    {
        push_char(&mut out, ' ');
        k = k + 1;
    }
    assert(blanks(k as int) == blanks(width - used));
        push_all(&mut out, right.as_str());
    Some(out)
}

/// Once the window entries fail, every longer prefix fails too.
proof fn lemma_entries_none_stays(
    ws: Seq<(u32, Seq<char>, bool)>,
    n: int,
    session_name: Seq<char>,
    formats: Option<(Seq<char>, Seq<char>)>,
)
    requires
        0 < n <= ws.len(),
        window_entries(ws, n, session_name, formats) is None,
    ensures
        window_entries(ws, ws.len() as int, session_name, formats) is None,
    decreases ws.len() - n,
{
    if n < ws.len() {
        lemma_entries_none_stays(ws, n + 1, session_name, formats);
    }
}

// ---------------------------------------------------------------------------
// Pane clipping and borders
// ---------------------------------------------------------------------------

/// How much of a pane `size` cells long, placed at `off`, fits before `max`.
pub open spec fn clipped(size: u32, max: u32, off: u32) -> int {
    let room: int = if max >= off { max - off } else { 0 };
    if size <= room { size as int } else { room }
}

/// The width (or height) of a pane that is drawn: its size, cut at the edge
/// of the area.
pub fn clip_size(size: u32, max: u32, off: u32) -> (r: u32)
    ensures
        r == clipped(size, max, off),
{
    let room: u32 = if max >= off { max - off } else { 0 };
    if size <= room { size } else { room }
}

/// A border line drawn between two cells of a split: `len` cells from
/// `(x, y)`, down when `vertical`, else across; `active` when the active pane
/// is on either side.
#[derive(Debug, Clone, Copy, PartialEq, Eq, Structural)]
pub struct BorderSegment {
    pub x: u32,
    pub y: u32,
    pub len: u32,
    pub vertical: bool,
    pub active: bool,
}

/// The far edge of a split child lies within `u32`: its right edge in a
/// left-right split, its bottom edge in a top-bottom one.
pub open spec fn edge_fits(ty: LayoutType, c: LayoutCell) -> bool {
    if ty == LayoutType::LeftRight { c.x_off + c.sx <= u32::MAX } else { c.y_off + c.sy <= u32::MAX }
}

/// Every border of the tree lies within `u32`.
pub open spec fn borders_fit(c: LayoutCell) -> bool
    decreases c,
{
    if c.cell_type == LayoutType::Pane {
        true
    } else {
        &&& forall|i: int| 0 <= i < c.children@.len() - 1 ==> edge_fits(c.cell_type, #[trigger] c.children@[i])
        &&& forall|i: int| 0 <= i < c.children@.len() ==> borders_fit(#[trigger] c.children@[i])
    }
}

/// The border between neighbours `a` and `b` of a split of type `ty`: after
/// `a`, as long as `a` but cut at row `max_height`; a horizontal border at or
/// below that row is not drawn.
pub open spec fn border_between(ty: LayoutType, a: LayoutCell, b: LayoutCell, active: u32, max_height: u32) -> Option<
    BorderSegment,
> {
    let act = in_subtree(a, active) || in_subtree(b, active);
    if ty == LayoutType::LeftRight {
        Some(
            BorderSegment {
                x: (a.x_off + a.sx) as u32,
                y: a.y_off,
                len: clipped(a.sy, max_height, a.y_off) as u32,
                vertical: true,
                active: act,
            },
        )
    } else if a.y_off + a.sy >= max_height {
        None
    } else {
        Some(BorderSegment { x: a.x_off, y: (a.y_off + a.sy) as u32, len: a.sx, vertical: false, active: act })
    }
}

/// The borders between the first `k + 1` children of a split, in order.
pub open spec fn split_borders(ty: LayoutType, cs: Seq<LayoutCell>, active: u32, max_height: u32, k: int) -> Seq<
    BorderSegment,
>
    decreases k,
{
    if k <= 0 || k >= cs.len() {
        Seq::empty()
    } else {
        split_borders(ty, cs, active, max_height, k - 1) + match border_between(
            ty,
            cs[k - 1],
            cs[k],
            active,
            max_height,
        ) {
            Some(b) => seq![b],
            None => Seq::empty(),
        }
    }
}

/// The borders of a layout tree: a split's own borders, then those of each
/// child in order.
pub open spec fn cell_borders(c: LayoutCell, active: u32, max_height: u32) -> Seq<BorderSegment>
    decreases c,
{
    if c.cell_type == LayoutType::Pane {
        Seq::empty()
    } else {
        split_borders(c.cell_type, c.children@, active, max_height, c.children@.len() - 1) + children_borders(
            c.children@,
            active,
            max_height,
        )
    }
}

/// The borders of a sequence of subtrees, in order.
pub open spec fn children_borders(cs: Seq<LayoutCell>, active: u32, max_height: u32) -> Seq<BorderSegment>
    decreases cs,
{
    if cs.len() == 0 {
        Seq::empty()
    } else {
        children_borders(cs.drop_last(), active, max_height) + cell_borders(cs.last(), active, max_height)
    }
}

/// The border lines of a window's layout, with `active_pane` marking the
/// active ones and rows from `max_height` on left out.
pub fn border_segments(layout: &LayoutCell, active_pane: u32, max_height: u32) -> (r: Vec<BorderSegment>)
    requires
        borders_fit(*layout),
    ensures
        r@ == cell_borders(*layout, active_pane, max_height),
{
    let mut out: Vec<BorderSegment> = Vec::new();
    collect_borders(layout, active_pane, max_height, &mut out);
    assert(out@ =~= cell_borders(*layout, active_pane, max_height));
    out
}

fn collect_borders(cell: &LayoutCell, active: u32, max_height: u32, out: &mut Vec<BorderSegment>)
    requires
        borders_fit(*cell),
    ensures
        final(out)@ == old(out)@ + cell_borders(*cell, active, max_height),
    decreases cell,
{
    let ghost start = out@;
    if cell.cell_type == LayoutType::Pane {
        assert(out@ =~= start + Seq::<BorderSegment>::empty());
        return;
    }
    let ty = cell.cell_type;
    let ghost cs = cell.children@;
    let n = cell.children.len();
    let mut k: usize = 1;
    assert(start + split_borders(ty, cs, active, max_height, 0) =~= start);
    while k < n
        invariant
            cs == cell.children@,
            n == cs.len(),
            ty == cell.cell_type,
            ty != LayoutType::Pane,
            borders_fit(*cell),
            1 <= k,
            k <= n || n == 0,
            out@ == start + split_borders(ty, cs, active, max_height, (k - 1) as int),
        decreases n - k,
    {
        let a = &cell.children[k - 1];
        let b = &cell.children[k];
        assert(edge_fits(ty, cs[k - 1]));
        let act = is_pane_in_subtree(a, active) || is_pane_in_subtree(b, active);
        let ghost before = out@;
        if ty == LayoutType::LeftRight {
            out.push(BorderSegment {
                x: a.x_off + a.sx,
                y: a.y_off,
                len: clip_size(a.sy, max_height, a.y_off),
                vertical: true,
                active: act,
            });
        } else if (a.y_off as u64) + (a.sy as u64) < max_height as u64 {
            out.push(BorderSegment { x: a.x_off, y: a.y_off + a.sy, len: a.sx, vertical: false, active: act });
        }
        assert(out@ =~= start + split_borders(ty, cs, active, max_height, k as int));
        k = k + 1;
    }
    let ghost mid = out@;
    assert(out@ == start + split_borders(ty, cs, active, max_height, cs.len() - 1)) by {
        if n == 0 {
            assert(split_borders(ty, cs, active, max_height, -1) =~= Seq::<BorderSegment>::empty());
            assert(split_borders(ty, cs, active, max_height, 0) =~= Seq::<BorderSegment>::empty());
        }
    }
    let mut i: usize = 0;
    while i < n
        invariant
            cs == cell.children@,
            n == cs.len(),
            ty == cell.cell_type,
            ty != LayoutType::Pane,
            borders_fit(*cell),
            i <= n,
            out@ == mid + children_borders(cs.take(i as int), active, max_height),
        decreases n - i,
    {
        assert(cs.take(i + 1).drop_last() =~= cs.take(i as int));
        assert(cs.take(i + 1).last() == cs[i as int]);
        assert(borders_fit(cs[i as int]));
        collect_borders(&cell.children[i], active, max_height, out);
        assert(mid + children_borders(cs.take(i as int), active, max_height) + cell_borders(cs[i as int], active, max_height)
            =~= mid + children_borders(cs.take(i + 1), active, max_height));
        i = i + 1;
    }
    assert(cs.take(n as int) =~= cs);
    assert(out@ =~= start + cell_borders(*cell, active, max_height));
}

} // verus!
