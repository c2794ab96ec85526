//! Interactive overlays for choose-tree, choose-buffer, choose-client and
//! display-menu: their state and how input bytes change it.
//!
//! Overlays are client-level state that take over the client's input and
//! render on top of pane content.

use vstd::prelude::*;
use crate::text::{chars_occur, clone_strings, occurs_in, push_char, str_chars, string_from_chars, strings_view};

verus! {

/// A single item in a list overlay (choose-tree, choose-buffer, choose-client).
#[derive(Debug, Clone)]
pub struct ListItem {
    /// Display text (already format-expanded).
    pub display: String,
    /// Command to execute on selection.
    pub command: Vec<String>,
    /// Indentation level (for tree views).
    pub indent: u32,
    /// Whether this tree node is collapsed (has hidden children).
    pub collapsed: bool,
    /// Number of hidden children when collapsed.
    pub hidden_children: usize,
    /// Whether this item supports the 'd' (delete/detach) action.
    pub deletable: bool,
    /// Delete command (e.g., detach-client, delete-buffer).
    pub delete_command: Vec<String>,
}

/// A list item as plain values.
pub struct ItemView {
    pub display: Seq<char>,
    pub command: Seq<Seq<char>>,
    pub indent: u32,
    pub collapsed: bool,
    pub hidden_children: usize,
    pub deletable: bool,
    pub delete_command: Seq<Seq<char>>,
}

impl View for ListItem {
    type V = ItemView;

    open spec fn view(&self) -> ItemView {
        ItemView {
            display: self.display@,
            command: strings_view(self.command@),
            indent: self.indent,
            collapsed: self.collapsed,
            hidden_children: self.hidden_children,
            deletable: self.deletable,
            delete_command: strings_view(self.delete_command@),
        }
    }
}

/// What kind of list overlay this is.
#[derive(Debug, Clone, Copy, PartialEq, Eq, Structural)]
pub enum ListKind {
    Tree,
    Buffer,
    Client,
}

/// State for list-style overlays (choose-tree, choose-buffer, choose-client).
#[derive(Debug)]
pub struct ListOverlay {
    /// All visible items.
    pub items: Vec<ListItem>,
    /// Currently selected index.
    pub selected: usize,
    /// Scroll offset (index of first visible item).
    pub scroll_offset: usize,
    /// Search/filter string.
    pub filter: String,
    /// Whether the filter input is active.
    pub filtering: bool,
    /// Title displayed at the top of the overlay.
    pub title: String,
    /// The kind of list, for rebuild-on-delete behavior.
    pub kind: ListKind,
}

/// A list overlay as plain values.
pub struct ListView {
    pub items: Seq<ItemView>,
    pub selected: usize,
    pub scroll_offset: usize,
    pub filter: Seq<char>,
    pub filtering: bool,
    pub title: Seq<char>,
    pub kind: ListKind,
}

/// The views of a sequence of list items.
pub open spec fn items_view(v: Seq<ListItem>) -> Seq<ItemView> {
    v.map_values(|i: ListItem| i@)
}

impl View for ListOverlay {
    type V = ListView;

    open spec fn view(&self) -> ListView {
        ListView {
            items: items_view(self.items@),
            selected: self.selected,
            scroll_offset: self.scroll_offset,
            filter: self.filter@,
            filtering: self.filtering,
            title: self.title@,
            kind: self.kind,
        }
    }
}

/// A menu item for display-menu.
#[derive(Debug, Clone)]
pub struct MenuItem {
    /// Display name (empty = separator line).
    pub name: String,
    /// Key shortcut (if any).
    pub key: Option<char>,
    /// Command to run on selection.
    pub command: Vec<String>,
}

/// State for display-menu.
#[derive(Debug)]
pub struct MenuOverlay {
    pub items: Vec<MenuItem>,
    pub selected: usize,
    pub title: String,
    pub x: u32,
    pub y: u32,
    pub width: u32,
}

/// The overlay currently active on a client: a choose list or a menu.
#[derive(Debug)]
pub enum OverlayState {
    /// choose-tree, choose-buffer, choose-client.
    List(ListOverlay),
    /// display-menu.
    Menu(MenuOverlay),
}

/// Action returned from overlay input processing.
#[derive(Debug, PartialEq)]
pub enum OverlayAction {
    /// Input consumed, overlay state updated, needs redraw.
    Handled,
    /// Overlay dismissed with no selection.
    Cancel,
    /// Item selected — execute the associated command.
    Select { command: Vec<String> },
    /// Delete action on current item.
    Delete { command: Vec<String> },
    /// Tree node toggled — server should rebuild the tree overlay.
    RebuildTree,
    /// Input not consumed by overlay.
    Unhandled,
}

/// An overlay action as plain values.
pub enum ActionView {
    Handled,
    Cancel,
    Select(Seq<Seq<char>>),
    Delete(Seq<Seq<char>>),
    RebuildTree,
    Unhandled,
}

impl View for OverlayAction {
    type V = ActionView;

    open spec fn view(&self) -> ActionView {
        match self {
            OverlayAction::Handled => ActionView::Handled,
            OverlayAction::Cancel => ActionView::Cancel,
            OverlayAction::Select { command } => ActionView::Select(strings_view(command@)),
            OverlayAction::Delete { command } => ActionView::Delete(strings_view(command@)),
            OverlayAction::RebuildTree => ActionView::RebuildTree,
            OverlayAction::Unhandled => ActionView::Unhandled,
        }
    }
}

// ---------------------------------------------------------------------------
// List overlays
// ---------------------------------------------------------------------------

/// The byte values the overlays react to.
pub open spec fn is_enter(b: u8) -> bool {
    b == 0x0D || b == 0x0A
}

/// `ESC [` followed by a third byte: a cursor key.
pub open spec fn is_csi(data: Seq<u8>) -> bool {
    data.len() >= 3 && data[0] == 0x1B && data[1] == 0x5B
}

/// `s` with the selection moved down one item, unless it is on the last.
pub open spec fn list_down(s: ListView) -> ListView {
    if s.selected + 1 < s.items.len() {
        ListView { selected: (s.selected + 1) as usize, ..s }
    } else {
        s
    }
}

/// `s` with the selection moved up one item, staying at the top.
pub open spec fn list_up(s: ListView) -> ListView {
    ListView { selected: if s.selected > 0 { (s.selected - 1) as usize } else { 0 }, ..s }
}

/// The number of items from index `j` on, in a row, indented deeper than `ind`.
pub open spec fn child_run(items: Seq<ItemView>, j: int, ind: u32) -> nat
    decreases items.len() - j,
{
    if 0 <= j < items.len() && items[j].indent > ind {
        1 + child_run(items, j + 1, ind)
    } else {
        0
    }
}

/// Expanding (`expand`) or collapsing the selected top-level node of a tree:
/// expanding a collapsed node marks it expanded and asks for a rebuild;
/// collapsing an expanded node removes its deeper-indented items that follow
/// and records how many were hidden. Anything else changes nothing.
pub open spec fn toggle_node(s: ListView, expand: bool) -> (ListView, bool) {
    let idx = s.selected as int;
    if s.kind != ListKind::Tree || idx >= s.items.len() {
        (s, false)
    } else {
        let it = s.items[idx];
        if expand {
            if it.indent != 0 || !it.collapsed {
                (s, false)
            } else {
                (ListView { items: s.items.update(idx, ItemView { collapsed: false, ..it }), ..s }, true)
            }
        } else {
            if it.indent != 0 || it.collapsed {
                (s, false)
            } else {
                let n = child_run(s.items, idx + 1, it.indent);
                if n > 0 {
                    (
                        ListView {
                            items: s.items.subrange(0, idx).push(
                                ItemView { collapsed: true, hidden_children: n as usize, ..it },
                            ) + s.items.subrange(idx + 1 + n, s.items.len() as int),
                            ..s
                        },
                        false,
                    )
                } else {
                    (s, false)
                }
            }
        }
    }
}

/// A filter edit: the filter replaced and the selection and scroll reset.
pub open spec fn filter_edit(s: ListView, f: Seq<char>, filtering: bool) -> ListView {
    ListView { filter: f, filtering, selected: 0, scroll_offset: 0, ..s }
}

/// Input in filter mode: Enter confirms, Escape cancels and clears,
/// Backspace deletes the last character, Ctrl-U clears, printable ASCII is
/// appended; each edit resets the selection. One byte is consumed.
pub open spec fn filter_input(s: ListView, data: Seq<u8>) -> (ListView, ActionView, int) {
    if data.len() == 0 {
        (s, ActionView::Handled, 0)
    } else {
        let b = data[0];
        if is_enter(b) {
            (filter_edit(s, s.filter, false), ActionView::Handled, 1)
        } else if b == 0x1B {
            (filter_edit(s, Seq::empty(), false), ActionView::Handled, 1)
        } else if b == 0x7F || b == 0x08 {
            let f = if s.filter.len() > 0 { s.filter.drop_last() } else { s.filter };
            (filter_edit(s, f, s.filtering), ActionView::Handled, 1)
        } else if b == 0x15 {
            (filter_edit(s, Seq::empty(), s.filtering), ActionView::Handled, 1)
        } else if 0x20 <= b <= 0x7E {
            (filter_edit(s, s.filter.push(b as char), s.filtering), ActionView::Handled, 1)
        } else {
            (s, ActionView::Handled, 1)
        }
    }
}

/// Input on a list overlay: the new state, the action and the bytes consumed.
/// Enter selects, the cursor keys and `j`/`k`/Ctrl-N/Ctrl-P move, right and
/// left expand and collapse tree nodes, Escape and `q` cancel, `g` and `G`
/// go to the top and bottom, `/` starts filtering, `d` deletes a deletable
/// item; in filter mode the bytes edit the filter.
pub open spec fn list_input(s: ListView, data: Seq<u8>) -> (ListView, ActionView, int) {
    if data.len() == 0 {
        (s, ActionView::Handled, 0)
    } else if s.filtering {
        filter_input(s, data)
    } else {
        let b = data[0];
        let sel = s.selected as int;
        if is_enter(b) {
            if sel < s.items.len() {
                (s, ActionView::Select(s.items[sel].command), 1)
            } else {
                (s, ActionView::Cancel, 1)
            }
        } else if is_csi(data) {
            let c = data[2];
            if c == 0x41 {
                (list_up(s), ActionView::Handled, 3)
            } else if c == 0x42 {
                (list_down(s), ActionView::Handled, 3)
            } else if c == 0x43 {
                let (s2, rebuild) = toggle_node(s, true);
                (s2, if rebuild { ActionView::RebuildTree } else { ActionView::Handled }, 3)
            } else if c == 0x44 {
                (toggle_node(s, false).0, ActionView::Handled, 3)
            } else {
                (s, ActionView::Handled, 3)
            }
        } else if b == 0x1B || b == 0x71 {
            (s, ActionView::Cancel, 1)
        } else if b == 0x6A || b == 0x0E {
            (list_down(s), ActionView::Handled, 1)
        } else if b == 0x6B || b == 0x10 {
            (list_up(s), ActionView::Handled, 1)
        } else if b == 0x67 {
            (ListView { selected: 0, ..s }, ActionView::Handled, 1)
        } else if b == 0x47 {
            if s.items.len() > 0 {
                (ListView { selected: (s.items.len() - 1) as usize, ..s }, ActionView::Handled, 1)
            } else {
                (s, ActionView::Handled, 1)
            }
        } else if b == 0x2F {
            (ListView { filtering: true, filter: Seq::empty(), ..s }, ActionView::Handled, 1)
        } else if b == 0x64 {
            if sel < s.items.len() && s.items[sel].deletable {
                (s, ActionView::Delete(s.items[sel].delete_command), 1)
            } else {
                (s, ActionView::Handled, 1)
            }
        } else {
            (s, ActionView::Handled, 1)
        }
    }
}

/// Whether the input moves a list selection down (which reads the position after it).
pub open spec fn list_moves_down(s: ListView, data: Seq<u8>) -> bool {
    data.len() > 0 && !s.filtering && ((is_csi(data) && data[2] == 0x42) || (!is_csi(data) && (data[0]
        == 0x6A || data[0] == 0x0E)))
}

impl ListOverlay {
    /// Ensure `selected` is within bounds and adjust scroll.
    pub fn clamp(&mut self, visible_height: usize)
        ensures
            final(self).items@ == old(self).items@,
            final(self).filter@ == old(self).filter@,
            final(self).filtering == old(self).filtering,
            final(self).kind == old(self).kind,
            final(self).title@ == old(self).title@,
            old(self).items@.len() == 0 ==> final(self).selected == 0 && final(self).scroll_offset == 0,
            old(self).items@.len() > 0 ==> {
                let sel = if old(self).selected >= old(self).items@.len() {
                    (old(self).items@.len() - 1) as usize
                } else {
                    old(self).selected
                };
                let sc = if sel < old(self).scroll_offset { sel } else { old(self).scroll_offset };
                &&& final(self).selected == sel
                &&& final(self).scroll_offset == (if visible_height > 0 && sel >= sc + visible_height {
                    (sel - visible_height + 1) as usize
                } else {
                    sc
                })
            },
            old(self).items@.len() > 0 ==> final(self).selected < final(self).items@.len()
                && final(self).scroll_offset <= final(self).selected
                && (visible_height > 0 ==> final(self).selected < final(self).scroll_offset + visible_height),
    {
        if self.items.len() == 0 {
            self.selected = 0;
            self.scroll_offset = 0;
            return;
        }
        if self.selected >= self.items.len() {
            self.selected = self.items.len() - 1;
        }
        if self.selected < self.scroll_offset {
            self.scroll_offset = self.selected;
        }
        if visible_height > 0 && self.selected - self.scroll_offset >= visible_height {
            self.scroll_offset = self.selected - visible_height + 1;
        }
    }

    /// The number of visible rows for the list area (reserves 1 row for the
    /// status bar and 1 for the title/filter).
    pub fn visible_height(&self, terminal_height: u32) -> (r: usize)
        ensures
            r == (if terminal_height >= 2 { terminal_height - 2 } else { 0 }),
    {
        if terminal_height >= 2 {
            (terminal_height - 2) as usize
        } else {
            0
        }
    }
}

/// A copy of a list of strings.
fn copy_command(v: &Vec<String>) -> (r: Vec<String>)
    ensures
        strings_view(r@) == strings_view(v@),
{
    let r = clone_strings(v);
    assert(strings_view(r@) =~= strings_view(v@));
    r
}

/// Process input for a list overlay. Returns `(action, bytes_consumed)`.
pub fn process_list_input(state: &mut ListOverlay, data: &[u8]) -> (r: (OverlayAction, usize))
    requires
        list_moves_down(old(state)@, data@) ==> old(state).selected < usize::MAX,
    ensures
        ({
            let (s2, a, n) = list_input(old(state)@, data@);
            final(state)@ == s2 && r.0@ == a && r.1 == n
        }),
        data@.len() > 0 ==> 1 <= r.1 <= data@.len(),
        old(state).items@.len() > 0 && old(state).selected < old(state).items@.len()
            ==> final(state).selected < final(state).items@.len(),
{
    if data.len() == 0 {
        return (OverlayAction::Handled, 0);
    }
    if state.filtering {
        return process_filter_input(state, data);
    }
    let b = data[0];
    let n = state.items.len();
    let sel = state.selected;
    if b == 0x0D || b == 0x0A {
        if sel < n {
            let cmd = copy_command(&state.items[sel].command);
            return (OverlayAction::Select { command: cmd }, 1);
        }
        return (OverlayAction::Cancel, 1);
    }
    if b == 0x1B && data.len() >= 3 && data[1] == 0x5B {
        let c = data[2];
        if c == 0x41 {
            if sel > 0 {
                state.selected = sel - 1;
            }
            return (OverlayAction::Handled, 3);
        } else if c == 0x42 {
            if sel + 1 < n {
                state.selected = sel + 1;
            }
            return (OverlayAction::Handled, 3);
        } else if c == 0x43 {
            if toggle_tree_node(state, true) {
                return (OverlayAction::RebuildTree, 3);
            }
            return (OverlayAction::Handled, 3);
        } else if c == 0x44 {
            toggle_tree_node(state, false);
            return (OverlayAction::Handled, 3);
        }
        return (OverlayAction::Handled, 3);
    }
    if b == 0x1B || b == 0x71 {
        return (OverlayAction::Cancel, 1);
    }
    if b == 0x6A || b == 0x0E {
        if sel + 1 < n {
            state.selected = sel + 1;
        }
    } else if b == 0x6B || b == 0x10 {
        if sel > 0 {
            state.selected = sel - 1;
        }
    } else if b == 0x67 {
        state.selected = 0;
    } else if b == 0x47 {
        if n > 0 {
            state.selected = n - 1;
        }
    } else if b == 0x2F {
        state.filtering = true;
        state.filter = String::new();
    } else if b == 0x64 {
        if sel < n && state.items[sel].deletable {
            let cmd = copy_command(&state.items[sel].delete_command);
            return (OverlayAction::Delete { command: cmd }, 1);
        }
    }
    (OverlayAction::Handled, 1)
}

/// Toggle expand/collapse on a tree node. Returns true if a rebuild is needed.
///
/// Collapse removes child items from the vec directly.
/// Expand marks the node as expanded and returns true so the server can rebuild.
fn toggle_tree_node(state: &mut ListOverlay, expand: bool) -> (r: bool)
    ensures
        (final(state)@, r) == toggle_node(old(state)@, expand),
        final(state).selected == old(state).selected,
        old(state).selected < old(state).items@.len() ==> final(state).selected < final(state).items@.len(),
{
    if state.kind != ListKind::Tree {
        return false;
    }
    let idx = state.selected;
    let n = state.items.len();
    if idx >= n {
        return false;
    }
    let ghost s0 = state@;
    assert(s0.items[idx as int] == state.items@[idx as int]@);
    let indent = state.items[idx].indent;
    let collapsed = state.items[idx].collapsed;
    if expand {
        if indent != 0 || !collapsed {
            return false;
        }
        let mut it = state.items.remove(idx);
        it.collapsed = false;
        state.items.insert(idx, it);
        assert(state@.items =~= s0.items.update(idx as int, ItemView { collapsed: false, ..s0.items[idx as int] }));
        return true;
    }
    if indent != 0 || collapsed {
        return false;
    }
    let mut children: usize = 0;
    while idx + 1 + children < n && state.items[idx + 1 + children].indent > indent
        invariant
            n == state.items@.len(),
            idx < n,
            idx + 1 + children <= n,
            state@ == s0,
            indent == s0.items[idx as int].indent,
            child_run(s0.items, idx + 1, indent) == children + child_run(s0.items, idx + 1 + children, indent),
        decreases n - idx - 1 - children,
    {
        assert(s0.items[idx + 1 + children] == state.items@[idx + 1 + children]@);
        children = children + 1;
    }
    proof {
        if idx + 1 + children < n {
            assert(s0.items[idx + 1 + children] == state.items@[idx + 1 + children]@);
        }
    }
    if children > 0 {
        let mut k: usize = 0;
        while k < children
            invariant
                k <= children,
                idx + 1 + children <= n,
                n == s0.items.len(),
                state.items@.len() == n - k,
                items_view(state.items@) == s0.items.subrange(0, idx + 1) + s0.items.subrange(idx + 1 + k, n as int),
                state.kind == s0.kind,
                state.selected == s0.selected,
                state.scroll_offset == s0.scroll_offset,
                state.filter@ == s0.filter,
                state.filtering == s0.filtering,
                state.title@ == s0.title,
            decreases children - k,
        {
            let ghost raw = state.items@;
            let ghost before = items_view(raw);
            state.items.remove(idx + 1);
            assert(state.items@ == raw.remove(idx + 1));
            let ghost target = s0.items.subrange(0, idx + 1) + s0.items.subrange(idx + 1 + k + 1, n as int);
            assert forall|j: int| 0 <= j < state.items@.len() implies #[trigger] items_view(state.items@)[j]
                == target[j] by {
                if j <= idx {
                    assert(state.items@[j] == raw[j]);
                    assert(before[j] == raw[j]@);
                } else {
                    assert(state.items@[j] == raw[j + 1]);
                    assert(before[j + 1] == raw[j + 1]@);
                }
            }
            assert(items_view(state.items@) =~= target);
            k = k + 1;
        }
        let ghost raw = state.items@;
        let ghost mid = items_view(raw);
        assert(mid[idx as int] == raw[idx as int]@);
        let mut it = state.items.remove(idx);
        assert(it@ == s0.items[idx as int]);
        it.collapsed = true;
        it.hidden_children = children;
        let ghost itv = it@;
        state.items.insert(idx, it);
        let ghost target = s0.items.subrange(0, idx as int).push(
            ItemView { collapsed: true, hidden_children: children, ..s0.items[idx as int] },
        ) + s0.items.subrange(idx + 1 + children, n as int);
        assert(state.items@ == raw.remove(idx as int).insert(idx as int, state.items@[idx as int]));
        assert forall|j: int| 0 <= j < state.items@.len() implies #[trigger] items_view(state.items@)[j]
            == target[j] by {
            if j < idx {
                assert(state.items@[j] == raw[j]);
                assert(mid[j] == raw[j]@);
            } else if j == idx {
                assert(state.items@[j]@ == itv);
            } else {
                assert(state.items@[j] == raw[j]);
                assert(mid[j] == raw[j]@);
            }
        }
        assert(state@.items =~= target);
    }
    false
}

/// The characters of `s` without the last one.
fn drop_last_char(s: &String) -> (r: String)
    ensures
        r@ == (if s@.len() > 0 { s@.drop_last() } else { s@ }),
{
    let cs = str_chars(s.as_str());
    if cs.len() == 0 {
        return String::new();
    }
    let mut out = String::new();
    let mut i: usize = 0;
    while i < cs.len() - 1
        invariant
            cs@ == s@,
            cs@.len() > 0,
            i + 1 <= cs@.len(),
            out@ == cs@.subrange(0, i as int),
        decreases cs@.len() - i,
    {
        push_char(&mut out, cs[i]);
        i = i + 1;
    }
    assert(out@ =~= s@.drop_last());
    out
}

/// Process input while in filter mode.
fn process_filter_input(state: &mut ListOverlay, data: &[u8]) -> (r: (OverlayAction, usize))
    ensures
        ({
            let (s2, a, n) = filter_input(old(state)@, data@);
            final(state)@ == s2 && r.0@ == a && r.1 == n
        }),
{
    if data.len() == 0 {
        return (OverlayAction::Handled, 0);
    }
    let b = data[0];
    if b == 0x0D || b == 0x0A {
        state.filtering = false;
    } else if b == 0x1B {
        state.filtering = false;
        state.filter = String::new();
    } else if b == 0x7F || b == 0x08 {
        state.filter = drop_last_char(&state.filter);
    } else if b == 0x15 {
        state.filter = String::new();
    } else if 0x20 <= b && b <= 0x7E {
        push_char(&mut state.filter, b as char);
    } else {
        return (OverlayAction::Handled, 1);
    }
    state.selected = 0;
    state.scroll_offset = 0;
    (OverlayAction::Handled, 1)
}

// ---------------------------------------------------------------------------
// Filtering
// ---------------------------------------------------------------------------

/// What `str::to_lowercase` returns for `s` (full Unicode lowercase mapping).
pub uninterp spec fn lowercase(s: Seq<char>) -> Seq<char>;

/// The lowercase form of a string.
///
/// Trusted: calls `str::to_lowercase`; its result is named `lowercase` and
/// nothing more is stated of it.
#[verifier::external_body]
fn to_lower(s: &str) -> (r: String)
    ensures
        r@ == lowercase(s@),
{
    s.to_lowercase()
}

/// The indices of the items shown under `filter`, in order, from index `j` on:
/// all items when the filter is empty, else those whose lowercase display
/// text contains the lowercase filter.
pub open spec fn shown_from(items: Seq<ItemView>, filter: Seq<char>, j: int) -> Seq<int>
    decreases items.len() - j,
{
    if j >= items.len() || j < 0 {
        Seq::empty()
    } else if filter.len() == 0 || occurs_in(lowercase(filter), lowercase(items[j].display)) {
        seq![j] + shown_from(items, filter, j + 1)
    } else {
        shown_from(items, filter, j + 1)
    }
}

/// Get the filtered items for a list overlay.
pub fn filtered_items(state: &ListOverlay) -> (r: Vec<(usize, &ListItem)>)
    ensures
        r@.map_values(|p: (usize, &ListItem)| p.0 as int) == shown_from(state@.items, state@.filter, 0),
        forall|k: int| 0 <= k < r@.len() ==> *(#[trigger] r@[k]).1 == state.items@[r@[k].0 as int],
{
    let mut out: Vec<(usize, &ListItem)> = Vec::new();
    let n = state.items.len();
    let empty = state.filter.as_str().unicode_len() == 0;
    let fl = str_chars(to_lower(state.filter.as_str()).as_str());
    let ghost view = state@;
    let mut j: usize = 0;
    while j < n
        invariant
            n == state.items@.len(),
            view == state@,
            j <= n,
            empty == (view.filter.len() == 0),
            fl@ == lowercase(view.filter),
            shown_from(view.items, view.filter, 0) == out@.map_values(|p: (usize, &ListItem)| p.0 as int)
                + shown_from(view.items, view.filter, j as int),
            forall|k: int| 0 <= k < out@.len() ==> *(#[trigger] out@[k]).1 == state.items@[out@[k].0 as int],
        decreases n - j,
    {
        let ghost before = out@.map_values(|p: (usize, &ListItem)| p.0 as int);
        assert(view.items[j as int] == state.items@[j as int]@);
        let keep = if empty {
            true
        } else {
            let dl = str_chars(to_lower(state.items[j].display.as_str()).as_str());
            chars_occur(fl.as_slice(), dl.as_slice())
        };
        if keep {
            out.push((j, &state.items[j]));
            assert(out@.map_values(|p: (usize, &ListItem)| p.0 as int) =~= before.push(j as int));
            assert(before + shown_from(view.items, view.filter, j as int) =~= before.push(j as int) + shown_from(
                view.items,
                view.filter,
                j + 1,
            ));
        }
        j = j + 1;
    }
    assert(out@.map_values(|p: (usize, &ListItem)| p.0 as int) + Seq::<int>::empty() =~= out@.map_values(
        |p: (usize, &ListItem)| p.0 as int,
    ));
    out
}

// ---------------------------------------------------------------------------
// Menus
// ---------------------------------------------------------------------------

/// A menu item as plain values.
pub struct MenuItemView {
    pub name: Seq<char>,
    pub key: Option<char>,
    pub command: Seq<Seq<char>>,
}

impl View for MenuItem {
    type V = MenuItemView;

    open spec fn view(&self) -> MenuItemView {
        MenuItemView { name: self.name@, key: self.key, command: strings_view(self.command@) }
    }
}

/// A menu as plain values.
pub struct MenuView {
    pub items: Seq<MenuItemView>,
    pub selected: usize,
    pub title: Seq<char>,
    pub x: u32,
    pub y: u32,
    pub width: u32,
}

impl View for MenuOverlay {
    type V = MenuView;

    open spec fn view(&self) -> MenuView {
        MenuView {
            items: self.items@.map_values(|i: MenuItem| i@),
            selected: self.selected,
            title: self.title@,
            x: self.x,
            y: self.y,
            width: self.width,
        }
    }
}

/// The first item from index `j` on that is no separator and has shortcut `ch`.
pub open spec fn shortcut_from(items: Seq<MenuItemView>, ch: char, j: int) -> Option<int>
    decreases items.len() - j,
{
    if j < 0 || j >= items.len() {
        None
    } else if items[j].key == Some(ch) && items[j].name.len() > 0 {
        Some(j)
    } else {
        shortcut_from(items, ch, j + 1)
    }
}

/// The first item from index `j` on that is no separator.
pub open spec fn named_from(items: Seq<MenuItemView>, j: int) -> Option<int>
    decreases items.len() - j,
{
    if j < 0 || j >= items.len() {
        None
    } else if items[j].name.len() > 0 {
        Some(j)
    } else {
        named_from(items, j + 1)
    }
}

/// The last item before index `j` that is no separator.
pub open spec fn named_before(items: Seq<MenuItemView>, j: int) -> Option<int>
    decreases j,
{
    if j <= 0 {
        None
    } else if items[j - 1].name.len() > 0 {
        Some(j - 1)
    } else {
        named_before(items, j - 1)
    }
}

/// The selection moved to the next item that is no separator, if any.
pub open spec fn menu_down(m: MenuView) -> MenuView {
    match named_from(m.items, m.selected + 1) {
        Some(k) => MenuView { selected: k as usize, ..m },
        None => m,
    }
}

/// The selection moved to the previous item that is no separator, if any.
pub open spec fn menu_up(m: MenuView) -> MenuView {
    match named_before(m.items, m.selected as int) {
        Some(k) => MenuView { selected: k as usize, ..m },
        None => m,
    }
}

/// The printable byte `b` selects an item by its shortcut.
pub open spec fn menu_shortcut(m: MenuView, data: Seq<u8>) -> Option<int> {
    if data.len() > 0 && 0x20 <= data[0] <= 0x7E {
        shortcut_from(m.items, data[0] as char, 0)
    } else {
        None
    }
}

/// Input on a menu: a printable shortcut selects its item; Enter selects
/// the current item unless it is a separator; the cursor keys and `j`/`k`
/// move over separators; Escape and `q` cancel.
pub open spec fn menu_input(m: MenuView, data: Seq<u8>) -> (MenuView, ActionView, int) {
    if data.len() == 0 {
        (m, ActionView::Handled, 0)
    } else if menu_shortcut(m, data) is Some {
        (m, ActionView::Select(m.items[menu_shortcut(m, data)->0].command), 1)
    } else {
        let b = data[0];
        let sel = m.selected as int;
        if is_enter(b) {
            if sel < m.items.len() && m.items[sel].name.len() > 0 {
                (m, ActionView::Select(m.items[sel].command), 1)
            } else {
                (m, ActionView::Handled, 1)
            }
        } else if is_csi(data) {
            if data[2] == 0x41 {
                (menu_up(m), ActionView::Handled, 3)
            } else if data[2] == 0x42 {
                (menu_down(m), ActionView::Handled, 3)
            } else {
                (m, ActionView::Handled, 3)
            }
        } else if b == 0x1B || b == 0x71 {
            (m, ActionView::Cancel, 1)
        } else if b == 0x6A {
            (menu_down(m), ActionView::Handled, 1)
        } else if b == 0x6B {
            (menu_up(m), ActionView::Handled, 1)
        } else {
            (m, ActionView::Handled, 1)
        }
    }
}

/// Whether the input moves the menu selection up (which reads the items
/// before the selection).
pub open spec fn menu_moves_up(m: MenuView, data: Seq<u8>) -> bool {
    data.len() > 0 && menu_shortcut(m, data) is None && ((is_csi(data) && data[2] == 0x41) || (!is_csi(data)
        && data[0] == 0x6B))
}

/// Whether the input moves the menu selection down.
pub open spec fn menu_moves_down(m: MenuView, data: Seq<u8>) -> bool {
    data.len() > 0 && menu_shortcut(m, data) is None && ((is_csi(data) && data[2] == 0x42) || (!is_csi(data)
        && data[0] == 0x6A))
}

/// Process input for a menu overlay. Returns `(action, bytes_consumed)`.
pub fn process_menu_input(state: &mut MenuOverlay, data: &[u8]) -> (r: (OverlayAction, usize))
    requires
        menu_moves_up(old(state)@, data@) ==> old(state).selected <= old(state).items@.len(),
        menu_moves_down(old(state)@, data@) ==> old(state).selected < usize::MAX,
    ensures
        ({
            let (m2, a, n) = menu_input(old(state)@, data@);
            final(state)@ == m2 && r.0@ == a && r.1 == n
        }),
        data@.len() > 0 ==> 1 <= r.1 <= data@.len(),
{
    if data.len() == 0 {
        return (OverlayAction::Handled, 0);
    }
    let ghost m0 = state@;
    let b = data[0];
    if 0x20 <= b && b <= 0x7E {
        let ch = b as char;
        let mut j: usize = 0;
        let mut found = false;
        while j < state.items.len()
            invariant_except_break
                !found,
                shortcut_from(m0.items, ch, 0) == shortcut_from(m0.items, ch, j as int),
            invariant
                m0 == state@,
                j <= state.items@.len(),
            ensures
                found ==> j < state.items@.len() && shortcut_from(m0.items, ch, 0) == Some(j as int),
                !found ==> shortcut_from(m0.items, ch, 0) is None,
            decreases state.items@.len() - j,
        {
            assert(m0.items[j as int] == state.items@[j as int]@);
            let named = state.items[j].name.as_str().unicode_len() > 0;
            let hit = match state.items[j].key {
                Some(k) => k == ch,
                None => false,
            };
            if hit && named {
                assert(shortcut_from(m0.items, ch, j as int) == Some(j as int));
                found = true;
                break;
            }
            j = j + 1;
        }
        if found {
            assert(m0.items[j as int] == state.items@[j as int]@);
            let cmd = copy_command(&state.items[j].command);
            return (OverlayAction::Select { command: cmd }, 1);
        }
    }
    let sel = state.selected;
    let n = state.items.len();
    if b == 0x0D || b == 0x0A {
        if sel < n {
            assert(m0.items[sel as int] == state.items@[sel as int]@);
            if state.items[sel].name.as_str().unicode_len() > 0 {
                let cmd = copy_command(&state.items[sel].command);
                return (OverlayAction::Select { command: cmd }, 1);
            }
        }
        return (OverlayAction::Handled, 1);
    }
    if b == 0x1B && data.len() >= 3 && data[1] == 0x5B {
        if data[2] == 0x41 {
            move_menu_up(state);
        } else if data[2] == 0x42 {
            move_menu_down(state);
        }
        return (OverlayAction::Handled, 3);
    }
    if b == 0x1B || b == 0x71 {
        return (OverlayAction::Cancel, 1);
    }
    if b == 0x6A {
        move_menu_down(state);
    } else if b == 0x6B {
        move_menu_up(state);
    }
    (OverlayAction::Handled, 1)
}

/// Move menu selection down, skipping separators.
fn move_menu_down(state: &mut MenuOverlay)
    requires
        old(state).selected < usize::MAX,
    ensures
        final(state)@ == menu_down(old(state)@),
{
    let ghost m0 = state@;
    let mut next = state.selected + 1;
    let mut found = false;
    while next < state.items.len()
        invariant_except_break
            !found,
            named_from(m0.items, m0.selected + 1) == named_from(m0.items, next as int),
        invariant
            m0 == state@,
            next >= 1,
        ensures
            found ==> next < state.items@.len() && named_from(m0.items, m0.selected + 1) == Some(next as int),
            !found ==> named_from(m0.items, m0.selected + 1) is None,
        decreases state.items@.len() - next,
    {
        assert(m0.items[next as int] == state.items@[next as int]@);
        if state.items[next].name.as_str().unicode_len() > 0 {
            found = true;
            break;
        }
        next = next + 1;
    }
    if found {
        state.selected = next;
        assert(state@ =~= MenuView { selected: next, ..m0 });
    }
}

/// Move menu selection up, skipping separators.
fn move_menu_up(state: &mut MenuOverlay)
    requires
        old(state).selected <= old(state).items@.len(),
    ensures
        final(state)@ == menu_up(old(state)@),
{
    let ghost m0 = state@;
    let mut prev = state.selected;
    let mut found = false;
    while prev > 0
        invariant_except_break
            !found,
            named_before(m0.items, m0.selected as int) == named_before(m0.items, prev as int),
        invariant
            m0 == state@,
            prev <= m0.items.len(),
        ensures
            found ==> prev < m0.items.len() && named_before(m0.items, m0.selected as int) == Some(prev as int),
            !found ==> named_before(m0.items, m0.selected as int) is None,
        decreases prev,
    {
        assert(m0.items[prev - 1] == state.items@[prev - 1]@);
        if state.items[prev - 1].name.as_str().unicode_len() > 0 {
            prev = prev - 1;
            found = true;
            break;
        }
        prev = prev - 1;
    }
    if found {
        state.selected = prev;
        assert(state@ =~= MenuView { selected: prev, ..m0 });
    }
}
// ---------------------------------------------------------------------------
// Laws
// ---------------------------------------------------------------------------

/// The state after feeding `bytes` to a list overlay one byte at a time.
pub open spec fn feed_list(s: ListView, bytes: Seq<u8>) -> ListView
    decreases bytes.len(),
{
    if bytes.len() == 0 {
        s
    } else {
        feed_list(list_input(s, seq![bytes[0]]).0, bytes.drop_first())
    }
}

/// One input keeps a selection that is on an item on an item.
pub proof fn law_list_selection_in_bounds(s: ListView, data: Seq<u8>)
    requires
        s.selected < s.items.len(),
    ensures
        list_input(s, data).0.selected < list_input(s, data).0.items.len(),
{
    if data.len() > 0 && !s.filtering && is_csi(data) && data[2] == 0x44 {
        let idx = s.selected as int;
        let it = s.items[idx];
        if s.kind == ListKind::Tree && it.indent == 0 && !it.collapsed {
            lemma_child_run_bound(s.items, idx + 1, it.indent);
        }
    }
}

/// A run of deeper items fits in what follows.
proof fn lemma_child_run_bound(items: Seq<ItemView>, j: int, ind: u32)
    requires
        0 <= j <= items.len(),
    ensures
        j + child_run(items, j, ind) <= items.len(),
    decreases items.len() - j,
{
    if j < items.len() && items[j].indent > ind {
        lemma_child_run_bound(items, j + 1, ind);
    }
}

/// Whatever bytes are fed one at a time, a selection on an item stays on an item.
pub proof fn law_feed_selection_in_bounds(s: ListView, bytes: Seq<u8>)
    requires
        s.selected < s.items.len(),
    ensures
        feed_list(s, bytes).selected < feed_list(s, bytes).items.len(),
    decreases bytes.len(),
{
    if bytes.len() > 0 {
        law_list_selection_in_bounds(s, seq![bytes[0]]);
        law_feed_selection_in_bounds(list_input(s, seq![bytes[0]]).0, bytes.drop_first());
    }
}

/// In filter mode, printable bytes fed one at a time are appended to the
/// filter, in order, and filtering goes on.
pub proof fn law_filter_accumulates(s: ListView, bytes: Seq<u8>)
    requires
        s.filtering,
        forall|i: int| 0 <= i < bytes.len() ==> 0x20 <= #[trigger] bytes[i] <= 0x7E,
    ensures
        feed_list(s, bytes).filter == s.filter + bytes.map_values(|b: u8| b as char),
        feed_list(s, bytes).filtering,
    decreases bytes.len(),
{
    if bytes.len() == 0 {
        assert(s.filter + bytes.map_values(|b: u8| b as char) =~= s.filter);
    } else {
        let s1 = list_input(s, seq![bytes[0]]).0;
        assert(s1.filter == s.filter.push(bytes[0] as char));
        law_filter_accumulates(s1, bytes.drop_first());
        assert(s.filter.push(bytes[0] as char) + bytes.drop_first().map_values(|b: u8| b as char)
            =~= s.filter + bytes.map_values(|b: u8| b as char));
    }
}

} // verus!
