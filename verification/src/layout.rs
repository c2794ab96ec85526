//! Layout tree for arranging panes within a window.
//!
//! The layout is a tree of cells. Internal nodes are either horizontal (left-right)
//! or vertical (top-bottom) splits. Leaf nodes correspond to panes.
//! This matches tmux's `struct layout_cell`.

use vstd::prelude::*;

verus! {

/// Layout cell type.
#[derive(Debug, Clone, Copy, PartialEq, Eq, Structural)]
pub enum LayoutType {
    /// Left-right split (children are arranged horizontally).
    LeftRight,
    /// Top-bottom split (children are arranged vertically).
    TopBottom,
    /// Leaf node (a pane).
    Pane,
}

/// A node in the layout tree.
#[derive(Debug)]
pub struct LayoutCell {
    /// Cell type.
    pub cell_type: LayoutType,
    /// Position (column offset within parent).
    pub x_off: u32,
    /// Position (row offset within parent).
    pub y_off: u32,
    /// Width (columns).
    pub sx: u32,
    /// Height (rows).
    pub sy: u32,
    /// Pane ID (only valid for LayoutType::Pane).
    pub pane_id: Option<u32>,
    /// Child cells (for LeftRight and TopBottom).
    pub children: Vec<LayoutCell>,
}

/// Direction for resize operations.
#[derive(Debug, Clone, Copy, PartialEq, Eq, Structural)]
pub enum ResizeDirection {
    Up,
    Down,
    Left,
    Right,
}

/// Minimum pane size.
pub const PANE_MINIMUM_WIDTH: u32 = 1;
pub const PANE_MINIMUM_HEIGHT: u32 = 1;

/// `c` is a pane leaf with the given geometry and id.
pub open spec fn is_leaf(c: LayoutCell, x: int, y: int, sx: int, sy: int, id: u32) -> bool {
    &&& c.cell_type == LayoutType::Pane
    &&& c.x_off == x
    &&& c.y_off == y
    &&& c.sx == sx
    &&& c.sy == sy
    &&& c.pane_id == Some(id)
    &&& c.children@.len() == 0
}

/// The pane ids of a subtree in depth-first order: a node's own id first,
/// then those of its children in order.
pub open spec fn cell_ids(c: LayoutCell) -> Seq<u32>
    decreases c,
{
    (match c.pane_id {
        Some(id) => seq![id],
        None => Seq::empty(),
    }) + cells_ids(c.children@)
}

/// The pane ids of a sequence of subtrees, in order.
pub open spec fn cells_ids(cs: Seq<LayoutCell>) -> Seq<u32>
    decreases cs,
{
    if cs.len() == 0 {
        Seq::empty()
    } else {
        cells_ids(cs.drop_last()) + cell_ids(cs.last())
    }
}

/// The number of pane leaves of a subtree.
pub open spec fn cell_count(c: LayoutCell) -> nat
    decreases c,
{
    if c.cell_type == LayoutType::Pane {
        1
    } else {
        cells_count(c.children@)
    }
}

/// The number of pane leaves of a sequence of subtrees.
pub open spec fn cells_count(cs: Seq<LayoutCell>) -> nat
    decreases cs,
{
    if cs.len() == 0 {
        0
    } else {
        cells_count(cs.drop_last()) + cell_count(cs.last())
    }
}

/// The first pane leaf (depth-first) with id `id`.
pub open spec fn cell_find(c: LayoutCell, id: u32) -> Option<LayoutCell>
    decreases c,
{
    if c.cell_type == LayoutType::Pane && c.pane_id == Some(id) {
        Some(c)
    } else {
        cells_find(c.children@, id)
    }
}

/// The first pane leaf with id `id` in a sequence of subtrees.
pub open spec fn cells_find(cs: Seq<LayoutCell>, id: u32) -> Option<LayoutCell>
    decreases cs,
{
    if cs.len() == 0 {
        None
    } else {
        match cells_find(cs.drop_last(), id) {
            Some(f) => Some(f),
            None => cell_find(cs.last(), id),
        }
    }
}

/// Whether `(x, y)` lies in the rectangle of cell `c`.
pub open spec fn contains_point(c: LayoutCell, x: u32, y: u32) -> bool {
    c.x_off <= x < c.x_off + c.sx && c.y_off <= y < c.y_off + c.sy
}

/// The id of the first pane leaf (depth-first) whose rectangle holds `(x, y)`.
pub open spec fn cell_pane_at(c: LayoutCell, x: u32, y: u32) -> Option<u32>
    decreases c,
{
    if c.cell_type == LayoutType::Pane {
        if contains_point(c, x, y) { c.pane_id } else { None }
    } else {
        cells_pane_at(c.children@, x, y)
    }
}

/// The id of the first pane leaf holding `(x, y)` in a sequence of subtrees.
pub open spec fn cells_pane_at(cs: Seq<LayoutCell>, x: u32, y: u32) -> Option<u32>
    decreases cs,
{
    if cs.len() == 0 {
        None
    } else {
        match cells_pane_at(cs.drop_last(), x, y) {
            Some(p) => Some(p),
            None => cell_pane_at(cs.last(), x, y),
        }
    }
}

impl LayoutCell {
    /// Create a new pane leaf cell.
    pub fn new_pane(x: u32, y: u32, sx: u32, sy: u32, pane_id: u32) -> (c: Self)
        ensures
            is_leaf(c, x as int, y as int, sx as int, sy as int, pane_id),
    {
        LayoutCell {
            cell_type: LayoutType::Pane,
            x_off: x,
            y_off: y,
            sx,
            sy,
            pane_id: Some(pane_id),
            children: Vec::new(),
        }
    }

    /// Create a new split node.
    pub fn new_split(cell_type: LayoutType, x: u32, y: u32, sx: u32, sy: u32) -> (c: Self)
        requires
            cell_type != LayoutType::Pane,
        ensures
            c.cell_type == cell_type,
            c.x_off == x,
            c.y_off == y,
            c.sx == sx,
            c.sy == sy,
            c.pane_id is None,
            c.children@.len() == 0,
    {
        LayoutCell { cell_type, x_off: x, y_off: y, sx, sy, pane_id: None, children: Vec::new() }
    }

    /// Whether this is a leaf (pane) node.
    pub fn is_pane(&self) -> (r: bool)
        ensures
            r == (self.cell_type == LayoutType::Pane),
    {
        self.cell_type == LayoutType::Pane
    }

    /// Find the cell for a given pane ID.
    pub fn find_pane(&self, pane_id: u32) -> (r: Option<&LayoutCell>)
        ensures
            match cell_find(*self, pane_id) {
                Some(f) => r matches Some(c) && *c == f,
                None => r is None,
            },
        decreases self,
    {
        let own = match self.pane_id {
            Some(p) => self.is_pane() && p == pane_id,
            None => false,
        };
        if own {
            return Some(self);
        }
        let mut i: usize = 0;
        while i < self.children.len()
            invariant
                !(self.cell_type == LayoutType::Pane && self.pane_id == Some(pane_id)),
                i <= self.children@.len(),
                cells_find(self.children@.take(i as int), pane_id) is None,
            decreases self.children@.len() - i,
        {
            assert(self.children@.take(i + 1).drop_last() =~= self.children@.take(i as int));
            assert(self.children@.take(i + 1).last() == self.children@[i as int]);
            match self.children[i].find_pane(pane_id) {
                Some(found) => {
                    proof {
                        lemma_cells_find_prefix(self.children@, (i + 1) as int, pane_id);
                    }
                    return Some(found);
                },
                None => {},
            }
            i = i + 1;
        }
        assert(self.children@.take(i as int) =~= self.children@);
        None
    }
}

impl LayoutCell {
    /// Find the pane ID at screen coordinates (x, y).
    ///
    /// Returns the pane ID of the leaf cell whose region contains (x, y), or `None`.
    pub fn pane_at(&self, x: u32, y: u32) -> (r: Option<u32>)
        ensures
            r == cell_pane_at(*self, x, y),
        decreases self,
    {
        if self.is_pane() {
            if x >= self.x_off && x - self.x_off < self.sx && y >= self.y_off && y - self.y_off < self.sy {
                return self.pane_id;
            }
            return None;
        }
        let mut i: usize = 0;
        while i < self.children.len()
            invariant
                self.cell_type != LayoutType::Pane,
                i <= self.children@.len(),
                cells_pane_at(self.children@.take(i as int), x, y) is None,
            decreases self.children@.len() - i,
        {
            assert(self.children@.take(i + 1).drop_last() =~= self.children@.take(i as int));
            assert(self.children@.take(i + 1).last() == self.children@[i as int]);
            match self.children[i].pane_at(x, y) {
                Some(pid) => {
                    proof {
                        lemma_cells_pane_at_prefix(self.children@, (i + 1) as int, x, y);
                    }
                    return Some(pid);
                },
                None => {},
            }
            i = i + 1;
        }
        assert(self.children@.take(i as int) =~= self.children@);
        None
    }

    /// Count the number of panes in this layout subtree.
    pub fn pane_count(&self) -> (r: usize)
        requires
            cell_count(*self) <= usize::MAX,
        ensures
            r == cell_count(*self),
        decreases self,
    {
        if self.is_pane() {
            return 1;
        }
        let mut total: usize = 0;
        let mut i: usize = 0;
        while i < self.children.len()
            invariant
                self.cell_type != LayoutType::Pane,
                cell_count(*self) <= usize::MAX,
                i <= self.children@.len(),
                total == cells_count(self.children@.take(i as int)),
            decreases self.children@.len() - i,
        {
            assert(self.children@.take(i + 1).drop_last() =~= self.children@.take(i as int));
            assert(self.children@.take(i + 1).last() == self.children@[i as int]);
            proof {
                lemma_cells_count_prefix(self.children@, (i + 1) as int);
            }
            let c = self.children[i].pane_count();
            total = total + c;
            i = i + 1;
        }
        assert(self.children@.take(i as int) =~= self.children@);
        total
    }

    /// Collect all pane IDs in this layout.
    pub fn pane_ids(&self) -> (r: Vec<u32>)
        ensures
            r@ == cell_ids(*self),
    {
        let mut ids: Vec<u32> = Vec::new();
        self.collect_pane_ids(&mut ids);
        assert(ids@ =~= cell_ids(*self));
        ids
    }

    fn collect_pane_ids(&self, ids: &mut Vec<u32>)
        ensures
            final(ids)@ == old(ids)@ + cell_ids(*self),
        decreases self,
    {
        let ghost start = ids@;
        match self.pane_id {
            Some(id) => ids.push(id),
            None => {},
        }
        let ghost own = ids@;
        let mut i: usize = 0;
        while i < self.children.len()
            invariant
                i <= self.children@.len(),
                ids@ == own + cells_ids(self.children@.take(i as int)),
            decreases self.children@.len() - i,
        {
            assert(self.children@.take(i + 1).drop_last() =~= self.children@.take(i as int));
            assert(self.children@.take(i + 1).last() == self.children@[i as int]);
            self.children[i].collect_pane_ids(ids);
            assert(own + cells_ids(self.children@.take(i as int)) + cell_ids(self.children@[i as int])
                =~= own + cells_ids(self.children@.take(i + 1)));
            i = i + 1;
        }
        assert(self.children@.take(i as int) =~= self.children@);
        assert(ids@ =~= start + cell_ids(*self));
    }
}

/// A hit found in a prefix of a sequence of subtrees is the hit of the whole.
proof fn lemma_cells_pane_at_prefix(cs: Seq<LayoutCell>, k: int, x: u32, y: u32)
    requires
        0 <= k <= cs.len(),
        cells_pane_at(cs.take(k), x, y) is Some,
    ensures
        cells_pane_at(cs, x, y) == cells_pane_at(cs.take(k), x, y),
    decreases cs.len() - k,
{
    if k < cs.len() {
        assert(cs.take(k + 1).drop_last() =~= cs.take(k));
        lemma_cells_pane_at_prefix(cs, k + 1, x, y);
    } else {
        assert(cs.take(k) =~= cs);
    }
}

/// The count of a prefix is at most the count of the whole.
proof fn lemma_cells_count_prefix(cs: Seq<LayoutCell>, k: int)
    requires
        0 <= k <= cs.len(),
    ensures
        cells_count(cs.take(k)) <= cells_count(cs),
    decreases cs.len() - k,
{
    if k < cs.len() {
        assert(cs.take(k + 1).drop_last() =~= cs.take(k));
        lemma_cells_count_prefix(cs, k + 1);
    } else {
        assert(cs.take(k) =~= cs);
    }
}

/// A match found in a prefix of a sequence of subtrees is the match of the whole.
proof fn lemma_cells_find_prefix(cs: Seq<LayoutCell>, k: int, id: u32)
    requires
        0 <= k <= cs.len(),
        cells_find(cs.take(k), id) is Some,
    ensures
        cells_find(cs, id) == cells_find(cs.take(k), id),
    decreases cs.len() - k,
{
    if k < cs.len() {
        assert(cs.take(k + 1).drop_last() =~= cs.take(k));
        lemma_cells_find_prefix(cs, k + 1, id);
    } else {
        assert(cs.take(k) =~= cs);
    }
}

/// Whether pane `id` is in the subtree: a pane node is checked by its own
/// id, a split node through its children.
pub open spec fn in_subtree(c: LayoutCell, id: u32) -> bool
    decreases c,
{
    if c.cell_type == LayoutType::Pane {
        c.pane_id == Some(id)
    } else {
        in_any_subtree(c.children@, id)
    }
}

/// Whether pane `id` is in one of the subtrees.
pub open spec fn in_any_subtree(cs: Seq<LayoutCell>, id: u32) -> bool
    decreases cs,
{
    if cs.len() == 0 {
        false
    } else {
        in_any_subtree(cs.drop_last(), id) || in_subtree(cs.last(), id)
    }
}

proof fn lemma_in_any_prefix(cs: Seq<LayoutCell>, k: int, id: u32)
    requires
        0 <= k <= cs.len(),
        in_any_subtree(cs.take(k), id),
    ensures
        in_any_subtree(cs, id),
    decreases cs.len() - k,
{
    if k < cs.len() {
        assert(cs.take(k + 1).drop_last() =~= cs.take(k));
        lemma_in_any_prefix(cs, k + 1, id);
    } else {
        assert(cs.take(k) =~= cs);
    }
}

/// Check if a layout subtree contains a specific pane.
pub fn is_pane_in_subtree(cell: &LayoutCell, pane_id: u32) -> (r: bool)
    ensures
        r == in_subtree(*cell, pane_id),
    decreases cell,
{
    if cell.is_pane() {
        return match cell.pane_id {
            Some(p) => p == pane_id,
            None => false,
        };
    }
    let mut i: usize = 0;
    while i < cell.children.len()
        invariant
            cell.cell_type != LayoutType::Pane,
            i <= cell.children@.len(),
            !in_any_subtree(cell.children@.take(i as int), pane_id),
        decreases cell.children@.len() - i,
    {
        assert(cell.children@.take(i + 1).drop_last() =~= cell.children@.take(i as int));
        assert(cell.children@.take(i + 1).last() == cell.children@[i as int]);
        if is_pane_in_subtree(&cell.children[i], pane_id) {
            proof {
                lemma_in_any_prefix(cell.children@, (i + 1) as int, pane_id);
            }
            return true;
        }
        i = i + 1;
    }
    assert(cell.children@.take(i as int) =~= cell.children@);
    false
}


// ---------------------------------------------------------------------------
// Preset layouts
// ---------------------------------------------------------------------------

/// `a - b`, or zero when `b > a`.
pub open spec fn sat_sub(a: int, b: int) -> int {
    if a > b { a - b } else { 0 }
}

/// The size of the `i`-th of `n` parts sharing `avail` cells: the first
/// `avail % n` parts get one cell more than the others.
pub open spec fn even_share(avail: int, n: int, i: int) -> int {
    avail / n + if i < avail % n { 1int } else { 0int }
}

/// The offset of the `i`-th of `n` parts sharing `avail` cells, each part
/// followed by a one-cell separator.
pub open spec fn even_offset(avail: int, n: int, i: int) -> int {
    i * (avail / n) + (if i < avail % n { i } else { avail % n }) + i
}

/// `c` divides the rectangle at `(x0, y0)` of size `sx` x `sy` among the
/// panes `ids` (at least two): side by side in equal widths for `LeftRight`,
/// stacked in equal heights for `TopBottom`, with one-cell separators.
pub open spec fn is_even_split(c: LayoutCell, ty: LayoutType, x0: int, y0: int, sx: int, sy: int, ids: Seq<u32>) -> bool {
    let n = ids.len() as int;
    let total = if ty == LayoutType::LeftRight { sx } else { sy };
    let avail = sat_sub(total, n - 1);
    &&& ty != LayoutType::Pane
    &&& c.cell_type == ty
    &&& c.x_off == x0
    &&& c.y_off == y0
    &&& c.sx == sx
    &&& c.sy == sy
    &&& c.pane_id is None
    &&& c.children@.len() == n
    &&& forall|i: int| 0 <= i < n ==> (if ty == LayoutType::LeftRight {
            is_leaf(#[trigger] c.children@[i], x0 + even_offset(avail, n, i), y0, even_share(avail, n, i), sy, ids[i])
        } else {
            is_leaf(c.children@[i], x0, y0 + even_offset(avail, n, i), sx, even_share(avail, n, i), ids[i])
        })
}

/// Offsets advance by a part and its separator, and stay within `avail + i`.
proof fn lemma_even_step(avail: int, n: int, i: int)
    requires
        n >= 1,
        avail >= 0,
        0 <= i < n,
    ensures
        even_offset(avail, n, i + 1) == even_offset(avail, n, i) + even_share(avail, n, i) + 1,
        even_offset(avail, n, i + 1) <= avail + i + 1,
        even_share(avail, n, i) >= 0,
{
    let q = avail / n;
    let e = avail % n;
    assert((i + 1) * q == i * q + q) by (nonlinear_arith);
    assert(avail == n * q + e && 0 <= e < n && q >= 0) by (nonlinear_arith)
        requires n >= 1, avail >= 0, q == avail / n, e == avail % n;
    assert((i + 1) * q <= n * q) by (nonlinear_arith)
        requires i + 1 <= n, q >= 0;
}

/// Builds an even split of the rectangle at `(x0, y0)` among `ids`.
fn even_split(ty: LayoutType, x0: u32, y0: u32, sx: u32, sy: u32, ids: &[u32]) -> (c: LayoutCell)
    requires
        ty != LayoutType::Pane,
        2 <= ids@.len() <= u32::MAX,
        ty == LayoutType::LeftRight ==> x0 + sx <= u32::MAX && x0 + ids@.len() - 1 <= u32::MAX,
        ty == LayoutType::TopBottom ==> y0 + sy <= u32::MAX && y0 + ids@.len() - 1 <= u32::MAX,
    ensures
        is_even_split(c, ty, x0 as int, y0 as int, sx as int, sy as int, ids@),
{
    let n = ids.len() as u32;
    let separators = n - 1;
    let total = if ty == LayoutType::LeftRight { sx } else { sy };
    let available = if total > separators { total - separators } else { 0 };
    let base = available / n;
    let extra = (available % n) as usize;
    let mut root = LayoutCell::new_split(ty, x0, y0, sx, sy);
    let mut pos: u64 = 0;
    let mut i: usize = 0;
    while i < ids.len()
        invariant
            ty != LayoutType::Pane,
            n == ids@.len(),
            2 <= n,
            ty == LayoutType::LeftRight ==> x0 + sx <= u32::MAX && x0 + ids@.len() - 1 <= u32::MAX,
            ty == LayoutType::TopBottom ==> y0 + sy <= u32::MAX && y0 + ids@.len() - 1 <= u32::MAX,
            total == (if ty == LayoutType::LeftRight { sx } else { sy }),
            available == sat_sub(total as int, n - 1),
            base == available / n,
            extra == available % n,
            i <= n,
            pos == even_offset(available as int, n as int, i as int),
            pos <= available + i,
            root.cell_type == ty,
            root.x_off == x0,
            root.y_off == y0,
            root.sx == sx,
            root.sy == sy,
            root.pane_id is None,
            root.children@.len() == i,
            forall|k: int| 0 <= k < i ==> (if ty == LayoutType::LeftRight {
                is_leaf(#[trigger] root.children@[k], x0 + even_offset(available as int, n as int, k), y0 as int,
                    even_share(available as int, n as int, k), sy as int, ids@[k])
            } else {
                is_leaf(root.children@[k], x0 as int, y0 + even_offset(available as int, n as int, k), sx as int,
                    even_share(available as int, n as int, k), ids@[k])
            }),
        decreases n - i,
    {
        proof {
            lemma_even_step(available as int, n as int, i as int);
        }
        let w: u32 = base + if i < extra { 1 } else { 0 };
        if ty == LayoutType::LeftRight {
            root.children.push(LayoutCell::new_pane(x0 + pos as u32, y0, w, sy, ids[i]));
        } else {
            root.children.push(LayoutCell::new_pane(x0, y0 + pos as u32, sx, w, ids[i]));
        }
        pos = pos + w as u64 + 1;
        i = i + 1;
    }
    root
}

/// The single pane a layout of at most one pane holds: the given one, or pane 0.
pub open spec fn lone_pane(ids: Seq<u32>) -> u32 {
    if ids.len() == 1 { ids[0] } else { 0 }
}

/// Create an even-horizontal layout for the given panes. With two or more
/// panes, the width must leave room for the column after the last pane.
pub fn layout_even_horizontal(sx: u32, sy: u32, pane_ids: &[u32]) -> (c: LayoutCell)
    requires
        pane_ids@.len() >= 2 ==> sx < u32::MAX && pane_ids@.len() <= u32::MAX,
    ensures
        pane_ids@.len() <= 1 ==> is_leaf(c, 0, 0, sx as int, sy as int, lone_pane(pane_ids@)),
        pane_ids@.len() >= 2 ==> is_even_split(c, LayoutType::LeftRight, 0, 0, sx as int, sy as int, pane_ids@),
{
    if pane_ids.len() <= 1 {
        let id = if pane_ids.len() == 1 { pane_ids[0] } else { 0 };
        return LayoutCell::new_pane(0, 0, sx, sy, id);
    }
    even_split(LayoutType::LeftRight, 0, 0, sx, sy, pane_ids)
}

/// Create an even-vertical layout for the given panes.
pub fn layout_even_vertical(sx: u32, sy: u32, pane_ids: &[u32]) -> (c: LayoutCell)
    requires
        pane_ids@.len() >= 2 ==> sy < u32::MAX && pane_ids@.len() <= u32::MAX,
    ensures
        pane_ids@.len() <= 1 ==> is_leaf(c, 0, 0, sx as int, sy as int, lone_pane(pane_ids@)),
        pane_ids@.len() >= 2 ==> is_even_split(c, LayoutType::TopBottom, 0, 0, sx as int, sy as int, pane_ids@),
{
    if pane_ids.len() <= 1 {
        let id = if pane_ids.len() == 1 { pane_ids[0] } else { 0 };
        return LayoutCell::new_pane(0, 0, sx, sy, id);
    }
    even_split(LayoutType::TopBottom, 0, 0, sx, sy, pane_ids)
}

/// The size of the main pane: two thirds of `size`, at least one cell.
pub open spec fn main_size(size: int) -> int {
    if size * 2 / 3 > 1 { size * 2 / 3 } else { 1 }
}

/// `c` is a main layout of `ids` (at least two panes) in an `sx` x `sy`
/// window: the first pane takes the main part (top for `TopBottom`, left for
/// `LeftRight`), the others share the rest evenly.
pub open spec fn is_main_layout(c: LayoutCell, ty: LayoutType, sx: int, sy: int, ids: Seq<u32>) -> bool {
    let along = if ty == LayoutType::TopBottom { sy } else { sx };
    let main = main_size(along);
    let rest = sat_sub(along, main + 1);
    let others = ids.subrange(1, ids.len() as int);
    &&& ty != LayoutType::Pane
    &&& c.cell_type == ty
    &&& c.x_off == 0 && c.y_off == 0 && c.sx == sx && c.sy == sy
    &&& c.pane_id is None
    &&& c.children@.len() == 2
    &&& if ty == LayoutType::TopBottom {
        &&& is_leaf(c.children@[0], 0, 0, sx, main, ids[0])
        &&& if ids.len() == 2 {
            is_leaf(c.children@[1], 0, main + 1, sx, rest, ids[1])
        } else {
            is_even_split(c.children@[1], LayoutType::LeftRight, 0, main + 1, sx, rest, others)
        }
    } else {
        &&& is_leaf(c.children@[0], 0, 0, main, sy, ids[0])
        &&& if ids.len() == 2 {
            is_leaf(c.children@[1], main + 1, 0, rest, sy, ids[1])
        } else {
            is_even_split(c.children@[1], LayoutType::TopBottom, main + 1, 0, rest, sy, others)
        }
    }
}

/// Create a main-horizontal layout: one large pane on top, others split below.
pub fn layout_main_horizontal(sx: u32, sy: u32, pane_ids: &[u32]) -> (c: LayoutCell)
    requires
        sy * 2 <= u32::MAX,
        pane_ids@.len() >= 3 ==> sx < u32::MAX && pane_ids@.len() <= u32::MAX,
    ensures
        pane_ids@.len() <= 1 ==> is_leaf(c, 0, 0, sx as int, sy as int, lone_pane(pane_ids@)),
        pane_ids@.len() >= 2 ==> is_main_layout(c, LayoutType::TopBottom, sx as int, sy as int, pane_ids@),
{
    if pane_ids.len() <= 1 {
        let id = if pane_ids.len() == 1 { pane_ids[0] } else { 0 };
        return LayoutCell::new_pane(0, 0, sx, sy, id);
    }
    let third = sy * 2 / 3;
    let main_height = if third > PANE_MINIMUM_HEIGHT { third } else { PANE_MINIMUM_HEIGHT };
    let bottom_height = if sy > main_height + 1 { sy - (main_height + 1) } else { 0 };
    let mut root = LayoutCell::new_split(LayoutType::TopBottom, 0, 0, sx, sy);
    root.children.push(LayoutCell::new_pane(0, 0, sx, main_height, pane_ids[0]));
    if pane_ids.len() == 2 {
        root.children.push(LayoutCell::new_pane(0, main_height + 1, sx, bottom_height, pane_ids[1]));
    } else {
        let bottom_ids = vstd::slice::slice_subrange(pane_ids, 1, pane_ids.len());
        assert(bottom_ids@ =~= pane_ids@.subrange(1, pane_ids@.len() as int));
        let bottom = even_split(LayoutType::LeftRight, 0, main_height + 1, sx, bottom_height, bottom_ids);
        root.children.push(bottom);
    }
    root
}

/// Create a main-vertical layout: one large pane on the left, others split right.
pub fn layout_main_vertical(sx: u32, sy: u32, pane_ids: &[u32]) -> (c: LayoutCell)
    requires
        sx * 2 <= u32::MAX,
        pane_ids@.len() >= 3 ==> sy < u32::MAX && pane_ids@.len() <= u32::MAX,
    ensures
        pane_ids@.len() <= 1 ==> is_leaf(c, 0, 0, sx as int, sy as int, lone_pane(pane_ids@)),
        pane_ids@.len() >= 2 ==> is_main_layout(c, LayoutType::LeftRight, sx as int, sy as int, pane_ids@),
{
    if pane_ids.len() <= 1 {
        let id = if pane_ids.len() == 1 { pane_ids[0] } else { 0 };
        return LayoutCell::new_pane(0, 0, sx, sy, id);
    }
    let third = sx * 2 / 3;
    let main_width = if third > PANE_MINIMUM_WIDTH { third } else { PANE_MINIMUM_WIDTH };
    let right_width = if sx > main_width + 1 { sx - (main_width + 1) } else { 0 };
    let mut root = LayoutCell::new_split(LayoutType::LeftRight, 0, 0, sx, sy);
    root.children.push(LayoutCell::new_pane(0, 0, main_width, sy, pane_ids[0]));
    if pane_ids.len() == 2 {
        root.children.push(LayoutCell::new_pane(main_width + 1, 0, right_width, sy, pane_ids[1]));
    } else {
        let right_ids = vstd::slice::slice_subrange(pane_ids, 1, pane_ids.len());
        assert(right_ids@ =~= pane_ids@.subrange(1, pane_ids@.len() as int));
        let right = even_split(LayoutType::TopBottom, main_width + 1, 0, right_width, sy, right_ids);
        root.children.push(right);
    }
    root
}


/// The smallest `c` from `start` on with `c * c >= n` (searching upward).
pub open spec fn ceil_sqrt_from(n: int, c: int) -> int
    decreases n - c,
{
    if c >= n || c * c >= n {
        c
    } else {
        ceil_sqrt_from(n, c + 1)
    }
}

/// The smallest positive `c` with `c * c >= n`: the ceiling of the square root
/// of `n` for `n >= 1`.
pub open spec fn ceil_sqrt(n: int) -> int {
    ceil_sqrt_from(n, 1)
}

/// The ceiling of the square root of `n`.
///
/// Computed on integers; for counts that fit in `u32` it is the value that
/// `(n as f64).sqrt().ceil()` yields, since the floating-point square root is
/// correctly rounded and no non-square below 2^52 has a root within half an
/// ulp of an integer.
fn ceil_sqrt_u32(n: u32) -> (c: u32)
    requires
        n >= 1,
    ensures
        c == ceil_sqrt(n as int),
        1 <= c <= n,
        c * c >= n,
        (c - 1) * (c - 1) < n,
{
    let mut c: u64 = 1;
    loop
        invariant_except_break
            n >= 1,
            1 <= c <= n,
            ceil_sqrt_from(n as int, c as int) == ceil_sqrt(n as int),
            (c - 1) * (c - 1) < n,
        ensures
            1 <= c <= n,
            c == ceil_sqrt(n as int),
            (c - 1) * (c - 1) < n,
            c >= n || c * c >= n,
        decreases n - c,
    {
        assert(c * c <= (n as u64) * (n as u64)) by (nonlinear_arith)
            requires c <= n;
        assert((n as u64) * (n as u64) <= 0xffff_ffff_ffff_ffffu64) by (nonlinear_arith)
            requires n <= 0xffff_ffffu32;
        if c >= n as u64 || c * c >= n as u64 {
            break;
        }
        c = c + 1;
    }
    assert(c * c >= n) by (nonlinear_arith)
        requires c >= 1, (c >= n || c * c >= n);
    c as u32
}

/// The ids of row `r` of a grid `cols` wide filled row by row.
pub open spec fn row_ids(ids: Seq<u32>, cols: int, r: int) -> Seq<u32> {
    let end = if (r + 1) * cols < ids.len() { (r + 1) * cols } else { ids.len() as int };
    ids.subrange(r * cols, end)
}

/// `c` is one row of a tiled layout at height `y`: a single pane, or the
/// row's panes side by side in equal widths.
pub open spec fn is_tiled_row(c: LayoutCell, y: int, sx: int, h: int, ids: Seq<u32>) -> bool {
    if ids.len() == 1 {
        is_leaf(c, 0, y, sx, h, ids[0])
    } else {
        is_even_split(c, LayoutType::LeftRight, 0, y, sx, h, ids)
    }
}

/// The number of grid columns of a tiled layout of `n` panes.
pub open spec fn tiled_cols(n: int) -> int {
    ceil_sqrt(n)
}

/// The number of grid rows of a tiled layout of `n` panes.
pub open spec fn tiled_rows(n: int) -> int {
    (n + tiled_cols(n) - 1) / tiled_cols(n)
}

/// `c` is the tiled layout of `ids` (at least two panes) in an `sx` x `sy`
/// window: a grid of `ceil(sqrt(n))` columns filled row by row, rows of equal
/// height; a layout of one row is that row alone.
pub open spec fn is_tiled(c: LayoutCell, sx: int, sy: int, ids: Seq<u32>) -> bool {
    let n = ids.len() as int;
    let cols = tiled_cols(n);
    let rows = tiled_rows(n);
    let avail = sat_sub(sy, rows - 1);
    if rows == 1 {
        is_tiled_row(c, 0, sx, sy, ids)
    } else {
        &&& c.cell_type == LayoutType::TopBottom
        &&& c.x_off == 0 && c.y_off == 0 && c.sx == sx && c.sy == sy
        &&& c.pane_id is None
        &&& c.children@.len() == rows
        &&& forall|r: int| 0 <= r < rows ==> is_tiled_row(#[trigger] c.children@[r], even_offset(avail, rows, r), sx,
            even_share(avail, rows, r), row_ids(ids, cols, r))
    }
}

/// Grid facts: every row but the last is full, and the last is not empty.
proof fn lemma_grid(n: int, cols: int, rows: int)
    requires
        n >= 1,
        cols >= 1,
        rows == (n + cols - 1) / cols,
    ensures
        rows >= 1,
        (rows - 1) * cols < n <= rows * cols,
        rows <= n,
{
    let q = (n + cols - 1) / cols;
    let m = (n + cols - 1) % cols;
    assert(n + cols - 1 == q * cols + m && 0 <= m < cols) by (nonlinear_arith)
        requires cols >= 1, q == (n + cols - 1) / cols, m == (n + cols - 1) % cols;
    assert(q * cols - cols == (q - 1) * cols) by (nonlinear_arith);
    assert(q >= 1) by (nonlinear_arith)
        requires n + cols - 1 == q * cols + m, 0 <= m < cols, n >= 1, cols >= 1;
    assert(q <= n) by (nonlinear_arith)
        requires n + cols - 1 == q * cols + m, 0 <= m < cols, n >= 1, cols >= 1, q >= 1;
}

/// Create a tiled layout: fill a grid as evenly as possible.
pub fn layout_tiled(sx: u32, sy: u32, pane_ids: &[u32]) -> (c: LayoutCell)
    requires
        pane_ids@.len() >= 2 ==> sx < u32::MAX && sy < u32::MAX && pane_ids@.len() <= u32::MAX,
    ensures
        pane_ids@.len() <= 1 ==> is_leaf(c, 0, 0, sx as int, sy as int, lone_pane(pane_ids@)),
        pane_ids@.len() >= 2 ==> is_tiled(c, sx as int, sy as int, pane_ids@),
{
    if pane_ids.len() <= 1 {
        let id = if pane_ids.len() == 1 { pane_ids[0] } else { 0 };
        return LayoutCell::new_pane(0, 0, sx, sy, id);
    }
    let num_panes = pane_ids.len() as u32;
    let grid_cols = ceil_sqrt_u32(num_panes);
    let rows64: u64 = (num_panes as u64 + grid_cols as u64 - 1) / grid_cols as u64;
    proof {
        lemma_grid(num_panes as int, grid_cols as int, rows64 as int);
    }
    let grid_rows = rows64 as u32;
    let row_seps = grid_rows - 1;
    let avail_h = if sy > row_seps { sy - row_seps } else { 0 };
    let base_h = avail_h / grid_rows;
    let extra_h = avail_h % grid_rows;
    let mut root = LayoutCell::new_split(LayoutType::TopBottom, 0, 0, sx, sy);
    let mut cur_y: u64 = 0;
    let mut idx: usize = 0;
    let mut row: u32 = 0;
    while row < grid_rows
        invariant
            num_panes == pane_ids@.len(),
            2 <= num_panes,
            sx < u32::MAX && sy < u32::MAX && pane_ids@.len() <= u32::MAX,
            grid_cols == tiled_cols(num_panes as int),
            grid_rows == tiled_rows(num_panes as int),
            1 <= grid_cols,
            1 <= grid_rows <= num_panes,
            (grid_rows - 1) * grid_cols < num_panes <= grid_rows * grid_cols,
            avail_h == sat_sub(sy as int, grid_rows - 1),
            base_h == avail_h / grid_rows,
            extra_h == avail_h % grid_rows,
            row <= grid_rows,
            row < grid_rows ==> idx == row * grid_cols,
            idx <= num_panes,
            cur_y == even_offset(avail_h as int, grid_rows as int, row as int),
            cur_y <= avail_h + row,
            root.cell_type == LayoutType::TopBottom,
            root.x_off == 0 && root.y_off == 0 && root.sx == sx && root.sy == sy,
            root.pane_id is None,
            root.children@.len() == row,
            forall|r: int| 0 <= r < row ==> is_tiled_row(#[trigger] root.children@[r],
                even_offset(avail_h as int, grid_rows as int, r), sx as int,
                even_share(avail_h as int, grid_rows as int, r), row_ids(pane_ids@, grid_cols as int, r)),
        decreases grid_rows - row,
    {
        proof {
            lemma_even_step(avail_h as int, grid_rows as int, row as int);
            assert((row + 1) * grid_cols == row * grid_cols + grid_cols) by (nonlinear_arith);
            if row + 1 < grid_rows {
                assert((row + 1) * grid_cols <= (grid_rows - 1) * grid_cols) by (nonlinear_arith)
                    requires row + 1 <= grid_rows - 1, grid_cols >= 1;
            } else {
                assert(row * grid_cols == (grid_rows - 1) * grid_cols);
            }
        }
        let row_height: u32 = base_h + if row < extra_h { 1 } else { 0 };
        let panes_in_row: u32 = if row < grid_rows - 1 {
            if grid_cols < num_panes - idx as u32 { grid_cols } else { num_panes - idx as u32 }
        } else {
            num_panes - idx as u32
        };
        let ghost rids = row_ids(pane_ids@, grid_cols as int, row as int);
        assert(rids.len() == panes_in_row);
        if panes_in_row == 1 {
            root.children.push(LayoutCell::new_pane(0, cur_y as u32, sx, row_height, pane_ids[idx]));
            idx = idx + 1;
        } else {
            let end = idx + panes_in_row as usize;
            let row_slice = vstd::slice::slice_subrange(pane_ids, idx, end);
            assert(row_slice@ =~= rids);
            let row_cell = even_split(LayoutType::LeftRight, 0, cur_y as u32, sx, row_height, row_slice);
            root.children.push(row_cell);
            idx = end;
        }
        cur_y = cur_y + row_height as u64 + 1;
        row = row + 1;
    }
    if root.children.len() == 1 {
        proof {
            assert(grid_rows == 1);
            assert(row_ids(pane_ids@, grid_cols as int, 0) =~= pane_ids@);
            assert(even_offset(avail_h as int, 1, 0) == 0);
            assert(avail_h as int / 1 == avail_h as int && avail_h as int % 1 == 0) by (nonlinear_arith);
            assert(even_share(avail_h as int, 1, 0) == sy);
        }
        let only = root.children.remove(0);
        return only;
    }
    root
}


// ---------------------------------------------------------------------------
// Splitting
// ---------------------------------------------------------------------------

/// The id a split keeps for the original pane: its id, or 0 if it had none.
pub open spec fn kept_id(c: LayoutCell) -> u32 {
    match c.pane_id {
        Some(id) => id,
        None => 0,
    }
}

/// Whether `c` can be split across its width: a pane at least three columns wide.
pub open spec fn can_split_h(c: LayoutCell) -> bool {
    c.cell_type == LayoutType::Pane && c.sx >= 2 * PANE_MINIMUM_WIDTH + 1
}

/// Whether `c` can be split across its height: a pane at least three rows high.
pub open spec fn can_split_v(c: LayoutCell) -> bool {
    c.cell_type == LayoutType::Pane && c.sy >= 2 * PANE_MINIMUM_HEIGHT + 1
}

/// `n` is pane `o` split by `ty`: `o`'s rectangle becomes a split node whose
/// first child keeps `o`'s pane in the first half (rounded down) and whose
/// second child, after a one-cell separator, is the new pane.
pub open spec fn split_result(o: LayoutCell, n: LayoutCell, ty: LayoutType, new_id: u32) -> bool {
    &&& n.cell_type == ty
    &&& n.x_off == o.x_off && n.y_off == o.y_off
    &&& n.sx == o.sx && n.sy == o.sy
    &&& n.pane_id is None
    &&& n.children@.len() == 2
    &&& if ty == LayoutType::LeftRight {
        let half = o.sx / 2;
        &&& is_leaf(n.children@[0], o.x_off as int, o.y_off as int, half as int, o.sy as int, kept_id(o))
        &&& is_leaf(n.children@[1], o.x_off + half + 1, o.y_off as int, o.sx - half - 1, o.sy as int, new_id)
    } else {
        let half = o.sy / 2;
        &&& is_leaf(n.children@[0], o.x_off as int, o.y_off as int, o.sx as int, half as int, kept_id(o))
        &&& is_leaf(n.children@[1], o.x_off as int, o.y_off + half + 1, o.sx as int, o.sy - half - 1, new_id)
    }
}

/// Splitting a pane keeps its id and adds the new one after it.
pub proof fn law_split_adds_pane(o: LayoutCell, n: LayoutCell, ty: LayoutType, new_id: u32)
    requires
        ty != LayoutType::Pane,
        o.cell_type == LayoutType::Pane,
        o.pane_id is Some,
        o.children@.len() == 0,
        split_result(o, n, ty, new_id),
    ensures
        cell_ids(n) == cell_ids(o).push(new_id),
        cell_count(n) == cell_count(o) + 1,
{
    assert(cells_ids(o.children@) =~= Seq::<u32>::empty());
    assert(cell_ids(o) =~= seq![kept_id(o)]);
    lemma_leaves(n.children@, seq![kept_id(o), new_id]);
    assert(cell_ids(n) =~= seq![kept_id(o), new_id]);
}

impl LayoutCell {
    /// Split this pane horizontally (creating left and right).
    ///
    /// Returns the new pane cell. The original pane becomes the left child,
    /// half the width (rounded down); a one-column separator precedes the new
    /// pane on the right.
    pub fn split_horizontal(&mut self, new_pane_id: u32) -> (r: Option<&LayoutCell>)
        requires
            can_split_h(*old(self)) ==> old(self).x_off + old(self).sx / 2 + 1 <= u32::MAX,
        ensures
            !can_split_h(*old(self)) ==> r is None && *final(self) == *old(self),
            can_split_h(*old(self)) ==> split_result(*old(self), *final(self), LayoutType::LeftRight, new_pane_id)
                && (r matches Some(c) && *c == final(self).children@[1]),
    {
        if !self.is_pane() || self.sx < PANE_MINIMUM_WIDTH * 2 + 1 {
            return None;
        }
        let old_pane_id = match self.pane_id {
            Some(id) => id,
            None => 0,
        };
        self.pane_id = None;
        let half = self.sx / 2;
        let left = LayoutCell::new_pane(self.x_off, self.y_off, half, self.sy, old_pane_id);
        let right = LayoutCell::new_pane(self.x_off + half + 1, self.y_off, self.sx - half - 1, self.sy, new_pane_id);
        self.cell_type = LayoutType::LeftRight;
        let mut children: Vec<LayoutCell> = Vec::new();
        children.push(left);
        children.push(right);
        self.children = children;
        Some(&self.children[1])
    }

    /// Split this pane vertically (creating top and bottom).
    ///
    /// Returns the new pane cell. The original pane becomes the top child,
    /// half the height (rounded down); a one-row separator precedes the new
    /// pane below.
    pub fn split_vertical(&mut self, new_pane_id: u32) -> (r: Option<&LayoutCell>)
        requires
            can_split_v(*old(self)) ==> old(self).y_off + old(self).sy / 2 + 1 <= u32::MAX,
        ensures
            !can_split_v(*old(self)) ==> r is None && *final(self) == *old(self),
            can_split_v(*old(self)) ==> split_result(*old(self), *final(self), LayoutType::TopBottom, new_pane_id)
                && (r matches Some(c) && *c == final(self).children@[1]),
    {
        if !self.is_pane() || self.sy < PANE_MINIMUM_HEIGHT * 2 + 1 {
            return None;
        }
        let old_pane_id = match self.pane_id {
            Some(id) => id,
            None => 0,
        };
        self.pane_id = None;
        let half = self.sy / 2;
        let top = LayoutCell::new_pane(self.x_off, self.y_off, self.sx, half, old_pane_id);
        let bottom = LayoutCell::new_pane(self.x_off, self.y_off + half + 1, self.sx, self.sy - half - 1, new_pane_id);
        self.cell_type = LayoutType::TopBottom;
        let mut children: Vec<LayoutCell> = Vec::new();
        children.push(top);
        children.push(bottom);
        self.children = children;
        Some(&self.children[1])
    }
}


// ---------------------------------------------------------------------------
// Laws of the preset layouts
// ---------------------------------------------------------------------------

/// Leaves holding `ids` in order contribute exactly `ids`, one pane each.
proof fn lemma_leaves(cs: Seq<LayoutCell>, ids: Seq<u32>)
    requires
        cs.len() == ids.len(),
        forall|i: int| 0 <= i < cs.len() ==> (#[trigger] cs[i]).cell_type == LayoutType::Pane
            && cs[i].pane_id == Some(ids[i]) && cs[i].children@.len() == 0,
    ensures
        cells_ids(cs) == ids,
        cells_count(cs) == ids.len(),
    decreases cs.len(),
{
    if cs.len() > 0 {
        let c = cs.last();
        assert(c == cs[cs.len() - 1]);
        assert(cell_count(c) == 1);
        assert(cells_ids(c.children@) =~= Seq::<u32>::empty());
        assert(cell_ids(c) =~= seq![ids.last()]);
        lemma_leaves(cs.drop_last(), ids.drop_last());
        assert(ids.drop_last().push(ids.last()) =~= ids);
    } else {
        assert(ids =~= Seq::<u32>::empty());
    }
}

/// An even split holds its panes in order, one leaf each.
pub proof fn law_even_split_panes(c: LayoutCell, ty: LayoutType, x0: int, y0: int, sx: int, sy: int, ids: Seq<u32>)
    requires
        is_even_split(c, ty, x0, y0, sx, sy, ids),
    ensures
        cell_ids(c) == ids,
        cell_count(c) == ids.len(),
{
    lemma_leaves(c.children@, ids);
    assert(cell_ids(c) =~= ids);
}

/// A single leaf holds its one pane.
pub proof fn law_leaf_panes(c: LayoutCell, x: int, y: int, sx: int, sy: int, id: u32)
    requires
        is_leaf(c, x, y, sx, sy, id),
    ensures
        cell_ids(c) == seq![id],
        cell_count(c) == 1,
{
    assert(cells_ids(c.children@) =~= Seq::<u32>::empty());
    assert(cell_ids(c) =~= seq![id]);
}

/// Sequences of subtrees concatenate their panes.
proof fn lemma_cells_concat(a: Seq<LayoutCell>, b: Seq<LayoutCell>)
    ensures
        cells_ids(a + b) == cells_ids(a) + cells_ids(b),
        cells_count(a + b) == cells_count(a) + cells_count(b),
    decreases b.len(),
{
    if b.len() == 0 {
        assert(a + b =~= a);
        assert(cells_ids(a) + cells_ids(b) =~= cells_ids(a));
    } else {
        lemma_cells_concat(a, b.drop_last());
        assert((a + b).drop_last() =~= a + b.drop_last());
        assert((a + b).last() == b.last());
        assert(cells_ids(a) + cells_ids(b) =~= cells_ids(a) + cells_ids(b.drop_last()) + cell_ids(b.last()));
    }
}

/// A one-element sequence holds the panes of its element.
proof fn lemma_cells_single(c: LayoutCell)
    ensures
        cells_ids(seq![c]) == cell_ids(c),
        cells_count(seq![c]) == cell_count(c),
{
    let s = seq![c];
    let e = s.drop_last();
    assert(e.len() == 0);
    assert(cells_ids(e) == Seq::<u32>::empty());
    assert(cells_count(e) == 0);
    assert(s.last() == c);
    assert(cells_ids(s) =~= cell_ids(c));
}

/// A main layout holds its panes in order: the main pane, then the others.
pub proof fn law_main_layout_panes(c: LayoutCell, ty: LayoutType, sx: int, sy: int, ids: Seq<u32>)
    requires
        ids.len() >= 2,
        is_main_layout(c, ty, sx, sy, ids),
    ensures
        cell_ids(c) == ids,
        cell_count(c) == ids.len(),
{
    let k = c.children@;
    let others = ids.subrange(1, ids.len() as int);
    let c0 = k[0];
    let c1 = k[1];
    assert(k.drop_last() =~= seq![c0]);
    lemma_cells_single(c0);
    assert(cells_ids(k) =~= cell_ids(c0) + cell_ids(c1));
    assert(cells_count(k) == cell_count(c0) + cell_count(c1));
    if ty == LayoutType::TopBottom {
        law_leaf_panes(c0, 0, 0, sx, main_size(sy), ids[0]);
        if ids.len() == 2 {
            law_leaf_panes(c1, 0, main_size(sy) + 1, sx, sat_sub(sy, main_size(sy) + 1), ids[1]);
        } else {
            law_even_split_panes(c1, LayoutType::LeftRight, 0, main_size(sy) + 1, sx, sat_sub(sy, main_size(sy) + 1), others);
        }
    } else {
        law_leaf_panes(c0, 0, 0, main_size(sx), sy, ids[0]);
        if ids.len() == 2 {
            law_leaf_panes(c1, main_size(sx) + 1, 0, sat_sub(sx, main_size(sx) + 1), sy, ids[1]);
        } else {
            law_even_split_panes(c1, LayoutType::TopBottom, main_size(sx) + 1, 0, sat_sub(sx, main_size(sx) + 1), sy, others);
        }
    }
    if ids.len() == 2 {
        assert(seq![ids[0]] + seq![ids[1]] =~= ids);
    } else {
        assert(seq![ids[0]] + others =~= ids);
    }
    assert(cell_ids(c) =~= cells_ids(k));
}


/// A tiled row holds the panes of its row.
proof fn lemma_tiled_row(c: LayoutCell, y: int, sx: int, h: int, ids: Seq<u32>)
    requires
        ids.len() >= 1,
        is_tiled_row(c, y, sx, h, ids),
    ensures
        cell_ids(c) == ids,
        cell_count(c) == ids.len(),
{
    if ids.len() == 1 {
        law_leaf_panes(c, 0, y, sx, h, ids[0]);
        assert(seq![ids[0]] =~= ids);
    } else {
        law_even_split_panes(c, LayoutType::LeftRight, 0, y, sx, h, ids);
    }
}

/// A tiled layout holds its panes in order, row by row.
pub proof fn law_tiled_panes(c: LayoutCell, sx: int, sy: int, ids: Seq<u32>)
    requires
        ids.len() >= 2,
        is_tiled(c, sx, sy, ids),
    ensures
        cell_ids(c) == ids,
        cell_count(c) == ids.len(),
{
    let n = ids.len() as int;
    let cols = tiled_cols(n);
    let rows = tiled_rows(n);
    let avail = sat_sub(sy, rows - 1);
    lemma_ceil_sqrt(n);
    lemma_grid(n, cols, rows);
    if rows == 1 {
        lemma_tiled_row(c, 0, sx, sy, ids);
    } else {
        let k = c.children@;
        lemma_tiled_prefix(k, ids, sx, cols, rows, avail, rows);
        assert(k.take(rows) =~= k);
        assert(rows * cols >= n);
        assert(ids.subrange(0, n) =~= ids);
    }
}

/// The first `r` rows of a tiled layout hold the first `r` rows of panes.
proof fn lemma_tiled_prefix(k: Seq<LayoutCell>, ids: Seq<u32>, sx: int, cols: int, rows: int, avail: int, r: int)
    requires
        0 <= r <= rows,
        k.len() == rows,
        (rows - 1) * cols < ids.len() <= rows * cols,
        cols >= 1,
        forall|j: int| 0 <= j < rows ==> is_tiled_row(#[trigger] k[j], even_offset(avail, rows, j), sx,
            even_share(avail, rows, j), row_ids(ids, cols, j)),
    ensures
        cells_ids(k.take(r)) == ids.subrange(0, if r * cols < ids.len() { r * cols } else { ids.len() as int }),
        cells_count(k.take(r)) == (if r * cols < ids.len() { r * cols } else { ids.len() as int }),
    decreases r,
{
    let n = ids.len() as int;
    if r == 0 {
        assert(r * cols == 0) by (nonlinear_arith)
            requires r == 0;
        assert(k.take(0) =~= Seq::<LayoutCell>::empty());
        assert(cells_ids(k.take(0)) =~= Seq::<u32>::empty());
        assert(ids.subrange(0, 0) =~= Seq::<u32>::empty());
    } else {
        let q = r - 1;
        lemma_tiled_prefix(k, ids, sx, cols, rows, avail, q);
        assert(q * cols <= (rows - 1) * cols) by (nonlinear_arith)
            requires q <= rows - 1, cols >= 1;
        assert(r * cols == q * cols + cols) by (nonlinear_arith)
            requires r == q + 1;
        let rid = row_ids(ids, cols, q);
        assert(rid.len() >= 1);
        lemma_tiled_row(k[q], even_offset(avail, rows, q), sx, even_share(avail, rows, q), rid);
        assert(k.take(r).drop_last() =~= k.take(q));
        assert(k.take(r).last() == k[q]);
        let end = if r * cols < n { r * cols } else { n };
        assert((q + 1) * cols == r * cols);
        assert(rid == ids.subrange(q * cols, end));
        assert(cells_ids(k.take(q)) == ids.subrange(0, q * cols));
        assert(cells_ids(k.take(r)) == cells_ids(k.take(q)) + cell_ids(k[q]));
        assert(ids.subrange(0, q * cols) + ids.subrange(q * cols, end) =~= ids.subrange(0, end));
    }
}

/// The ceiling square root of a positive count is between 1 and the count.
proof fn lemma_ceil_sqrt(n: int)
    requires
        n >= 1,
    ensures
        1 <= ceil_sqrt(n) <= n,
{
    lemma_ceil_sqrt_from(n, 1);
}

proof fn lemma_ceil_sqrt_from(n: int, c: int)
    requires
        1 <= c <= n,
    ensures
        c <= ceil_sqrt_from(n, c) <= n,
    decreases n - c,
{
    if !(c >= n || c * c >= n) {
        lemma_ceil_sqrt_from(n, c + 1);
    }
}


// ---------------------------------------------------------------------------
// Resizing a whole layout
// ---------------------------------------------------------------------------

/// Every node of the subtree has fewer than `u32::MAX` children.
pub open spec fn fanout_fits(c: LayoutCell) -> bool
    decreases c,
{
    c.children@.len() < u32::MAX && all_fanout_fit(c.children@)
}

/// Every subtree of the sequence satisfies `fanout_fits`.
pub open spec fn all_fanout_fit(cs: Seq<LayoutCell>) -> bool
    decreases cs,
{
    cs.len() == 0 || (fanout_fits(cs[0]) && all_fanout_fit(cs.drop_first()))
}

proof fn lemma_all_fanout_fit(cs: Seq<LayoutCell>, i: int)
    requires
        all_fanout_fit(cs),
        0 <= i < cs.len(),
    ensures
        fanout_fits(cs[i]),
        all_fanout_fit(cs.subrange(i, cs.len() as int)),
    decreases i,
{
    if i > 0 {
        lemma_all_fanout_fit(cs.drop_first(), i - 1);
        assert(cs.drop_first().subrange(i - 1, cs.drop_first().len() as int) =~= cs.subrange(i, cs.len() as int));
    } else {
        assert(cs.subrange(0, cs.len() as int) =~= cs);
    }
}

/// The width (or height) the `i`-th of `cnt` children gets when `remaining`
/// cells are left: the last takes all that is left; the others keep their
/// share of the old size (`size * new_avail / old_avail`, truncated to
/// `u32`), at least one cell, leaving one cell for each later child.
pub open spec fn new_extent(size: u32, i: int, cnt: u32, remaining: u32, new_avail: u32, old_avail: u32) -> u32 {
    if i + 1 == cnt {
        remaining
    } else {
        let share = ((size as int * new_avail as int) / old_avail as int) as u32;
        let lo: u32 = if share > 1 { share } else { 1 };
        let cap = remaining - (cnt - 1 - i);
        if lo < cap { lo } else { cap as u32 }
    }
}

/// `a - b`, or zero (`u32::saturating_sub`).
pub open spec fn sat_sub_u32(a: u32, b: u32) -> u32 {
    if a > b { (a - b) as u32 } else { 0 }
}

/// `a + b + 1` modulo 2^32: the next child's offset.
pub open spec fn next_pos(pos: u32, w: u32) -> u32 {
    ((pos as int + w as int + 1) % 0x1_0000_0000) as u32
}

/// `n` is `o` resized to `nsx` x `nsy` with its corner moved to `(x, y)`:
/// pane leaves only change size; a split gives each child its proportional
/// share along the split (see `new_extent`), one-cell separators between
/// them, and its full size across.
pub open spec fn resized_at(o: LayoutCell, n: LayoutCell, x: u32, y: u32, nsx: u32, nsy: u32) -> bool
    decreases o,
{
    &&& n.cell_type == o.cell_type
    &&& n.pane_id == o.pane_id
    &&& n.x_off == x && n.y_off == y
    &&& n.sx == nsx && n.sy == nsy
    &&& if o.cell_type == LayoutType::Pane {
        n.children == o.children
    } else {
        let cnt = o.children@.len() as u32;
        let seps: u32 = if cnt > 0 { (cnt - 1) as u32 } else { 0 };
        let horiz = o.cell_type == LayoutType::LeftRight;
        let old_total = if horiz { o.sx } else { o.sy };
        let new_total = if horiz { nsx } else { nsy };
        let old_avail: u32 = if sat_sub_u32(old_total, seps) > cnt { sat_sub_u32(old_total, seps) } else { cnt };
        let new_avail: u32 = if sat_sub_u32(new_total, seps) > cnt { sat_sub_u32(new_total, seps) } else { cnt };
        children_resized(o.children@, n.children@, horiz, if horiz { x } else { y }, new_avail, 0, cnt,
            new_avail, old_avail, if horiz { nsy } else { nsx })
    }
}

/// The children `ns` are `os` resized in order, from position `pos` with
/// `remaining` cells left, `i` being the index of the first of them.
pub open spec fn children_resized(
    os: Seq<LayoutCell>,
    ns: Seq<LayoutCell>,
    horiz: bool,
    pos: u32,
    remaining: u32,
    i: int,
    cnt: u32,
    new_avail: u32,
    old_avail: u32,
    other: u32,
) -> bool
    decreases os,
{
    if os.len() == 0 {
        ns.len() == 0
    } else {
        let c = os[0];
        let w = new_extent(if horiz { c.sx } else { c.sy }, i, cnt, remaining, new_avail, old_avail);
        &&& ns.len() > 0
        &&& (if horiz {
            resized_at(c, ns[0], pos, c.y_off, w, other)
        } else {
            resized_at(c, ns[0], c.x_off, pos, other, w)
        })
        &&& children_resized(os.drop_first(), ns.drop_first(), horiz, next_pos(pos, w), sat_sub_u32(remaining, w),
            i + 1, cnt, new_avail, old_avail, other)
    }
}

impl LayoutCell {
    /// Resize this layout tree to new dimensions, redistributing space.
    ///
    /// Offsets of children are computed modulo 2^32.
    pub fn resize_layout(&mut self, new_sx: u32, new_sy: u32)
        requires
            fanout_fits(*old(self)),
        ensures
            resized_at(*old(self), *final(self), old(self).x_off, old(self).y_off, new_sx, new_sy),
    {
        let x = self.x_off;
        let y = self.y_off;
        self.resize_at(x, y, new_sx, new_sy);
    }

    /// Moves this cell to `(x, y)` and resizes it to `new_sx` x `new_sy`.
    fn resize_at(&mut self, x: u32, y: u32, new_sx: u32, new_sy: u32)
        requires
            fanout_fits(*old(self)),
        ensures
            resized_at(*old(self), *final(self), x, y, new_sx, new_sy),
        decreases *old(self),
    {
        let ghost o = *self;
        let old_sx = self.sx;
        let old_sy = self.sy;
        self.x_off = x;
        self.y_off = y;
        self.sx = new_sx;
        self.sy = new_sy;
        if self.is_pane() {
            return;
        }
        let horiz = self.cell_type == LayoutType::LeftRight;
        let n = self.children.len() as u32;
        let seps: u32 = if n > 0 { n - 1 } else { 0 };
        let old_total = if horiz { old_sx } else { old_sy };
        let new_total = if horiz { new_sx } else { new_sy };
        let old_sat = if old_total > seps { old_total - seps } else { 0 };
        let new_sat = if new_total > seps { new_total - seps } else { 0 };
        let old_avail: u32 = if old_sat > n { old_sat } else { n };
        let new_avail: u32 = if new_sat > n { new_sat } else { n };
        let other = if horiz { new_sy } else { new_sx };
        let mut pos: u32 = if horiz { x } else { y };
        let mut remaining: u32 = new_avail;
        let mut kids: Vec<LayoutCell> = Vec::new();
        std::mem::swap(&mut kids, &mut self.children);
        let ghost old_kids = kids@;
        let ghost pos0 = pos;
        assert(old_kids == o.children@);
        let mut done: Vec<LayoutCell> = Vec::new();
        let mut i: usize = 0;
        while kids.len() > 0
            invariant
                old_kids == o.children@,
                o == *old(self),
                fanout_fits(o),
                n == old_kids.len(),
                old_kids.len() < u32::MAX,
                i <= old_kids.len(),
                kids@ == old_kids.subrange(i as int, old_kids.len() as int),
                done@.len() == i,
                old_avail >= n,
                old_avail > 0 || n == 0,
                i < n ==> remaining >= n - i,
                forall|rest: Seq<LayoutCell>| #[trigger] children_resized(kids@, rest, horiz, pos, remaining, i as int, n,
                    new_avail, old_avail, other) ==> children_resized(old_kids, done@ + rest, horiz, pos0, new_avail, 0, n,
                    new_avail, old_avail, other),
            decreases kids@.len(),
        {
            let ghost kids0 = kids@;
            let ghost done0 = done@;
            let ghost pos_i = pos;
            let ghost rem_i = remaining;
            let ghost i0 = i as int;
            let mut c = kids.remove(0);
            let ghost c0 = c;
            proof {
                lemma_all_fanout_fit(old_kids, i as int);
                assert(c == old_kids[i as int]);
                assert(decreases_to!(o => o.children));
                assert(decreases_to!(o.children => o.children@));
                assert(decreases_to!(o.children@ => o.children@[i as int]));
                assert(decreases_to!(o => c));
            }
            let size = if horiz { c.sx } else { c.sy };
            let w: u32 = if i + 1 == n as usize {
                remaining
            } else {
                assert((size as u64) * (new_avail as u64) <= 0xffff_ffff_ffff_ffffu64) by (nonlinear_arith)
                    requires size <= 0xffff_ffffu32, new_avail <= 0xffff_ffffu32;
                let share = ((size as u64 * new_avail as u64) / old_avail as u64) as u32;
                let lo: u32 = if share > 1 { share } else { 1 };
                let cap: u32 = remaining - (n - 1 - i as u32);
                if lo < cap { lo } else { cap }
            };
            assert(w == new_extent(size, i as int, n, remaining, new_avail, old_avail));
            if horiz {
                let cy = c.y_off;
                c.resize_at(pos, cy, w, other);
            } else {
                let cx = c.x_off;
                c.resize_at(cx, pos, other, w);
            }
            let ghost cn = c;
            done.push(c);
            pos = ((pos as u64 + w as u64 + 1) % 0x1_0000_0000) as u32;
            remaining = if remaining > w { remaining - w } else { 0 };
            i = i + 1;
            proof {
                assert(kids0.drop_first() =~= kids@);
                assert(kids0[0] == c0);
                assert forall|rest: Seq<LayoutCell>| #[trigger] children_resized(kids@, rest, horiz, pos, remaining, i as int, n,
                    new_avail, old_avail, other) implies children_resized(old_kids, done@ + rest, horiz, pos0, new_avail, 0, n,
                    new_avail, old_avail, other) by {
                    let r2 = seq![cn] + rest;
                    assert(r2.drop_first() =~= rest);
                    assert(r2[0] == cn);
                    assert(children_resized(kids0, r2, horiz, pos_i, rem_i, i0, n, new_avail, old_avail, other));
                    assert(done0 + r2 =~= done@ + rest);
                }
            }
        }
        proof {
            assert(kids@.len() == 0);
            assert(children_resized(kids@, Seq::<LayoutCell>::empty(), horiz, pos, remaining, i as int, n,
                new_avail, old_avail, other));
            assert(done@ + Seq::<LayoutCell>::empty() =~= done@);
        }
        self.children = done;
    }
}


// ---------------------------------------------------------------------------
// Resizing one pane
// ---------------------------------------------------------------------------

/// The child indices leading from `c` to the first pane leaf (depth-first)
/// with id `id`; the search does not look below pane leaves.
pub open spec fn pane_path(c: LayoutCell, id: u32) -> Option<Seq<usize>>
    decreases c,
{
    if c.cell_type == LayoutType::Pane {
        if c.pane_id == Some(id) { Some(Seq::empty()) } else { None }
    } else {
        children_path(c.children@, id, 0)
    }
}

/// The path to pane `id` through the subtrees `cs`, the first of which has index `i`.
pub open spec fn children_path(cs: Seq<LayoutCell>, id: u32, i: int) -> Option<Seq<usize>>
    decreases cs,
{
    if cs.len() == 0 {
        None
    } else {
        match pane_path(cs[0], id) {
            Some(p) => Some(seq![i as usize] + p),
            None => children_path(cs.drop_first(), id, i + 1),
        }
    }
}

/// Whether a split of type `ty` resizes in `dir`: left-right splits move
/// their vertical separators, top-bottom splits their horizontal ones.
pub open spec fn handles(ty: LayoutType, dir: ResizeDirection) -> bool {
    (ty == LayoutType::LeftRight && (dir == ResizeDirection::Left || dir == ResizeDirection::Right))
        || (ty == LayoutType::TopBottom && (dir == ResizeDirection::Up || dir == ResizeDirection::Down))
}

/// The (shrinking, growing) children when child `k` of `cnt` grows towards
/// `dir`: its neighbour on that side shrinks.
pub open spec fn resize_pair(dir: ResizeDirection, k: int, cnt: int) -> Option<(int, int)> {
    if dir == ResizeDirection::Left || dir == ResizeDirection::Up {
        if k == 0 { None } else { Some((k - 1, k)) }
    } else {
        if k + 1 >= cnt { None } else { Some((k + 1, k)) }
    }
}

/// The size of a cell along a split: its width in a left-right split, else its height.
pub open spec fn extent(c: LayoutCell, horiz: bool) -> u32 {
    if horiz { c.sx } else { c.sy }
}

/// How far the separator moves: `amount`, but leaving the shrinking cell at
/// least the minimum pane size along the split.
pub open spec fn resize_amount(shrink_size: u32, amount: u32, horiz: bool) -> u32 {
    let min: u32 = if horiz { PANE_MINIMUM_WIDTH } else { PANE_MINIMUM_HEIGHT };
    let room: u32 = if shrink_size > min { (shrink_size - min) as u32 } else { 0 };
    if amount < room { amount } else { room }
}

/// `n` is `o` placed at `x` with width `sx`; a top-bottom split passes both
/// down to all its children, which share its width.
pub open spec fn width_set(o: LayoutCell, n: LayoutCell, x: u32, sx: u32) -> bool
    decreases o,
{
    &&& n.cell_type == o.cell_type && n.pane_id == o.pane_id
    &&& n.x_off == x && n.sx == sx && n.y_off == o.y_off && n.sy == o.sy
    &&& if o.cell_type == LayoutType::TopBottom {
        all_width_set(o.children@, n.children@, x, sx)
    } else {
        n.children == o.children
    }
}

/// Each of `ns` is the matching one of `os` placed at `x` with width `sx`.
pub open spec fn all_width_set(os: Seq<LayoutCell>, ns: Seq<LayoutCell>, x: u32, sx: u32) -> bool
    decreases os,
{
    if os.len() == 0 {
        ns.len() == 0
    } else {
        ns.len() > 0 && width_set(os[0], ns[0], x, sx) && all_width_set(os.drop_first(), ns.drop_first(), x, sx)
    }
}

/// `n` is `o` placed at `y` with height `sy`; a left-right split passes both
/// down to all its children, which share its height.
pub open spec fn height_set(o: LayoutCell, n: LayoutCell, y: u32, sy: u32) -> bool
    decreases o,
{
    &&& n.cell_type == o.cell_type && n.pane_id == o.pane_id
    &&& n.y_off == y && n.sy == sy && n.x_off == o.x_off && n.sx == o.sx
    &&& if o.cell_type == LayoutType::LeftRight {
        all_height_set(o.children@, n.children@, y, sy)
    } else {
        n.children == o.children
    }
}

/// Each of `ns` is the matching one of `os` placed at `y` with height `sy`.
pub open spec fn all_height_set(os: Seq<LayoutCell>, ns: Seq<LayoutCell>, y: u32, sy: u32) -> bool
    decreases os,
{
    if os.len() == 0 {
        ns.len() == 0
    } else {
        ns.len() > 0 && height_set(os[0], ns[0], y, sy) && all_height_set(os.drop_first(), ns.drop_first(), y, sy)
    }
}

/// The children `ns` are `os` after the separator moved by `act` between
/// children `shrink` and `grow`, laid out again from `pos` (modulo 2^32),
/// the first of them having index `j`.
pub open spec fn children_adjusted(
    os: Seq<LayoutCell>,
    ns: Seq<LayoutCell>,
    horiz: bool,
    pos: u32,
    j: int,
    shrink: int,
    grow: int,
    act: u32,
) -> bool
    decreases os,
{
    if os.len() == 0 {
        ns.len() == 0
    } else {
        let c = os[0];
        let size = extent(c, horiz);
        let new_size: u32 = if j == shrink {
            (size - act) as u32
        } else if j == grow {
            ((size as int + act as int) % 0x1_0000_0000) as u32
        } else {
            size
        };
        &&& ns.len() > 0
        &&& (if horiz { width_set(c, ns[0], pos, new_size) } else { height_set(c, ns[0], pos, new_size) })
        &&& children_adjusted(os.drop_first(), ns.drop_first(), horiz, next_pos(pos, new_size), j + 1, shrink, grow, act)
    }
}

/// Whether a pane resize along `path` (from `depth` on) takes effect: the
/// nearest split on the path that handles `dir` has a neighbour on that side
/// with room to give.
pub open spec fn resize_applies(o: LayoutCell, path: Seq<usize>, depth: int, dir: ResizeDirection, amount: u32) -> bool
    decreases o,
{
    if depth < 0 || depth >= path.len() || o.cell_type == LayoutType::Pane {
        false
    } else {
        let k = path[depth] as int;
        let cnt = o.children@.len() as int;
        if handles(o.cell_type, dir) {
            match resize_pair(dir, k, cnt) {
                None => false,
                Some((s, g)) => 0 <= s < cnt && 0 <= g < cnt
                    && resize_amount(extent(o.children@[s], o.cell_type == LayoutType::LeftRight), amount,
                        o.cell_type == LayoutType::LeftRight) > 0,
            }
        } else {
            0 <= k < cnt && resize_applies(o.children@[k], path, depth + 1, dir, amount)
        }
    }
}

/// `n` is the same layout tree as `o`: the same type, pane and geometry in
/// every cell.
pub open spec fn same_layout(o: LayoutCell, n: LayoutCell) -> bool
    decreases o,
{
    &&& n.cell_type == o.cell_type && n.pane_id == o.pane_id
    &&& n.x_off == o.x_off && n.y_off == o.y_off && n.sx == o.sx && n.sy == o.sy
    &&& n.children@.len() == o.children@.len()
    &&& forall|i: int| 0 <= i < o.children@.len() ==>
        same_layout(#[trigger] o.children@[i], n.children@[i])
}

/// Every layout tree is the same as itself.
pub proof fn lemma_same_layout_refl(c: LayoutCell)
    ensures
        same_layout(c, c),
    decreases c,
{
    assert forall|i: int| 0 <= i < c.children@.len() implies same_layout(
        #[trigger] c.children@[i], c.children@[i]) by {
        assert(decreases_to!(c => c.children@[i]));
        lemma_same_layout_refl(c.children@[i]);
    }
}

/// `n` is `o` after resizing along `path` from `depth` on: unchanged when the
/// resize does not apply; otherwise the handling split's children are
/// adjusted (see `children_adjusted`), or the path goes on into child `k`.
pub open spec fn resize_result(o: LayoutCell, n: LayoutCell, path: Seq<usize>, depth: int, dir: ResizeDirection, amount: u32) -> bool
    decreases o,
{
    if !resize_applies(o, path, depth, dir, amount) {
        same_layout(o, n)
    } else {
        let k = path[depth] as int;
        let cnt = o.children@.len() as int;
        &&& n.cell_type == o.cell_type && n.pane_id == o.pane_id
        &&& n.x_off == o.x_off && n.y_off == o.y_off && n.sx == o.sx && n.sy == o.sy
        &&& if handles(o.cell_type, dir) {
            let horiz = o.cell_type == LayoutType::LeftRight;
            let (s, g) = resize_pair(dir, k, cnt).unwrap();
            let act = resize_amount(extent(o.children@[s], horiz), amount, horiz);
            children_adjusted(o.children@, n.children@, horiz, if horiz { o.x_off } else { o.y_off }, 0, s, g, act)
        } else {
            &&& n.children@.len() == cnt
            &&& forall|j: int| 0 <= j < cnt && j != k ==> n.children@[j] == #[trigger] o.children@[j]
            &&& resize_result(o.children@[k], n.children@[k], path, depth + 1, dir, amount)
        }
    }
}

/// Places `cell` at its own `x_off` and width down its top-bottom splits.
fn resize_subtree_width(cell: &mut LayoutCell)
    ensures
        width_set(*old(cell), *final(cell), old(cell).x_off, old(cell).sx),
{
    let x = cell.x_off;
    let sx = cell.sx;
    place_width(cell, x, sx);
}

/// Places `cell` at its own `y_off` and height down its left-right splits.
fn resize_subtree_height(cell: &mut LayoutCell)
    ensures
        height_set(*old(cell), *final(cell), old(cell).y_off, old(cell).sy),
{
    let y = cell.y_off;
    let sy = cell.sy;
    place_height(cell, y, sy);
}

/// Moves `cell` to column `x` with width `sx`, and so all children of its
/// top-bottom splits.
fn place_width(cell: &mut LayoutCell, x: u32, sx: u32)
    ensures
        width_set(*old(cell), *final(cell), x, sx),
    decreases *old(cell),
{
    let ghost o = *cell;
    cell.x_off = x;
    cell.sx = sx;
    if cell.cell_type != LayoutType::TopBottom {
        return;
    }
    let mut kids: Vec<LayoutCell> = Vec::new();
    std::mem::swap(&mut kids, &mut cell.children);
    let ghost old_kids = kids@;
    let total = kids.len();
    let mut done: Vec<LayoutCell> = Vec::new();
    let mut i: usize = 0;
    while kids.len() > 0
        invariant
            old_kids == o.children@,
            o == *old(cell),
            old_kids.len() == total,
            i <= old_kids.len(),
            kids@ == old_kids.subrange(i as int, old_kids.len() as int),
            done@.len() == i,
            forall|rest: Seq<LayoutCell>| #[trigger] all_width_set(kids@, rest, x, sx)
                ==> all_width_set(old_kids, done@ + rest, x, sx),
        decreases kids@.len(),
    {
        let ghost kids0 = kids@;
        let ghost done0 = done@;
        let mut c = kids.remove(0);
        let ghost c0 = c;
        proof {
            assert(c == old_kids[i as int]);
            assert(decreases_to!(o => c));
        }
        place_width(&mut c, x, sx);
        let ghost cn = c;
        done.push(c);
        assert(i < old_kids.len());
        i = i + 1;
        proof {
            assert(kids0.drop_first() =~= kids@);
            assert forall|rest: Seq<LayoutCell>| #[trigger] all_width_set(kids@, rest, x, sx)
                implies all_width_set(old_kids, done@ + rest, x, sx) by {
                let r2 = seq![cn] + rest;
                assert(r2.drop_first() =~= rest);
                assert(all_width_set(kids0, r2, x, sx));
                assert(done0 + r2 =~= done@ + rest);
            }
        }
    }
    assert(all_width_set(kids@, Seq::<LayoutCell>::empty(), x, sx));
    assert(done@ + Seq::<LayoutCell>::empty() =~= done@);
    cell.children = done;
}

/// Moves `cell` to row `y` with height `sy`, and so all children of its
/// left-right splits.
fn place_height(cell: &mut LayoutCell, y: u32, sy: u32)
    ensures
        height_set(*old(cell), *final(cell), y, sy),
    decreases *old(cell),
{
    let ghost o = *cell;
    cell.y_off = y;
    cell.sy = sy;
    if cell.cell_type != LayoutType::LeftRight {
        return;
    }
    let mut kids: Vec<LayoutCell> = Vec::new();
    std::mem::swap(&mut kids, &mut cell.children);
    let ghost old_kids = kids@;
    let total = kids.len();
    let mut done: Vec<LayoutCell> = Vec::new();
    let mut i: usize = 0;
    while kids.len() > 0
        invariant
            old_kids == o.children@,
            o == *old(cell),
            old_kids.len() == total,
            i <= old_kids.len(),
            kids@ == old_kids.subrange(i as int, old_kids.len() as int),
            done@.len() == i,
            forall|rest: Seq<LayoutCell>| #[trigger] all_height_set(kids@, rest, y, sy)
                ==> all_height_set(old_kids, done@ + rest, y, sy),
        decreases kids@.len(),
    {
        let ghost kids0 = kids@;
        let ghost done0 = done@;
        let mut c = kids.remove(0);
        let ghost c0 = c;
        proof {
            assert(c == old_kids[i as int]);
            assert(decreases_to!(o => c));
        }
        place_height(&mut c, y, sy);
        let ghost cn = c;
        done.push(c);
        assert(i < old_kids.len());
        i = i + 1;
        proof {
            assert(kids0.drop_first() =~= kids@);
            assert forall|rest: Seq<LayoutCell>| #[trigger] all_height_set(kids@, rest, y, sy)
                implies all_height_set(old_kids, done@ + rest, y, sy) by {
                let r2 = seq![cn] + rest;
                assert(r2.drop_first() =~= rest);
                assert(all_height_set(kids0, r2, y, sy));
                assert(done0 + r2 =~= done@ + rest);
            }
        }
    }
    assert(all_height_set(kids@, Seq::<LayoutCell>::empty(), y, sy));
    assert(done@ + Seq::<LayoutCell>::empty() =~= done@);
    cell.children = done;
}


impl LayoutCell {
    /// Resize a pane in the given direction by the given amount.
    ///
    /// The nearest split above the pane that runs in the direction moves its
    /// separator between the pane's cell and the neighbour on that side, by
    /// `amount` but leaving the neighbour at least one cell. Returns `true` if
    /// the resize took effect. Sizes and offsets are computed modulo 2^32. The
    /// caller must update pane screen sizes after this call.
    pub fn resize_pane(&mut self, pane_id: u32, direction: ResizeDirection, amount: u32) -> (r: bool)
        ensures
            pane_resized(*old(self), *final(self), pane_id, direction, amount, r),
    {
        let mut path: Vec<usize> = Vec::new();
        if !self.find_path(pane_id, &mut path) {
            return false;
        }
        assert(path@ =~= Seq::<usize>::empty() + pane_path(*self, pane_id).unwrap());
        self.apply_resize(path.as_slice(), 0, direction, amount)
    }

    /// Find the path of child indices to reach a pane.
    fn find_path(&self, pane_id: u32, path: &mut Vec<usize>) -> (r: bool)
        ensures
            match pane_path(*self, pane_id) {
                Some(p) => r && final(path)@ == old(path)@ + p,
                None => !r && final(path)@ == old(path)@,
            },
        decreases self,
    {
        if self.is_pane() {
            let found = match self.pane_id {
                Some(p) => p == pane_id,
                None => false,
            };
            assert(path@ + Seq::<usize>::empty() =~= path@);
            return found;
        }
        let ghost start = path@;
        let mut i: usize = 0;
        let mut found = false;
        assert(self.children@.subrange(0, self.children@.len() as int) =~= self.children@);
        while i < self.children.len()
            invariant_except_break
                !found,
                path@ == start,
                i <= self.children@.len(),
                children_path(self.children@, pane_id, 0) == children_path(
                    self.children@.subrange(i as int, self.children@.len() as int), pane_id, i as int),
            invariant
                self.cell_type != LayoutType::Pane,
            ensures
                found ==> pane_path(*self, pane_id) is Some && path@ == start + pane_path(*self, pane_id).unwrap(),
                !found ==> pane_path(*self, pane_id) is None && path@ == start,
            decreases self.children@.len() - i,
        {
            let ghost rest = self.children@.subrange(i as int, self.children@.len() as int);
            assert(rest[0] == self.children@[i as int]);
            assert(rest.drop_first() =~= self.children@.subrange(i + 1, self.children@.len() as int));
            path.push(i);
            if self.children[i].find_path(pane_id, path) {
                let ghost q = pane_path(self.children@[i as int], pane_id).unwrap();
                assert(children_path(rest, pane_id, i as int) == Some(seq![i] + q));
                assert(pane_path(*self, pane_id) == Some(seq![i] + q));
                assert(path@ =~= start + (seq![i] + q));
                found = true;
                break;
            }
            path.pop();
            assert(path@ =~= start);
            i = i + 1;
        }
        found
    }

    /// Apply resize along the path.
    fn apply_resize(&mut self, path: &[usize], depth: usize, direction: ResizeDirection, amount: u32) -> (r: bool)
        ensures
            r == resize_applies(*old(self), path@, depth as int, direction, amount),
            resize_result(*old(self), *final(self), path@, depth as int, direction, amount),
        decreases *old(self),
    {
        let ghost o = *self;
        proof {
            lemma_same_layout_refl(o);
        }
        if depth >= path.len() || self.is_pane() {
            return false;
        }
        let child_idx = path[depth];
        let n = self.children.len();
        let horiz = self.cell_type == LayoutType::LeftRight;
        let can_handle = match direction {
            ResizeDirection::Left | ResizeDirection::Right => horiz,
            ResizeDirection::Up | ResizeDirection::Down => self.cell_type == LayoutType::TopBottom,
        };
        if can_handle {
            let (shrink, grow): (usize, usize) = match direction {
                ResizeDirection::Left | ResizeDirection::Up => {
                    if child_idx == 0 {
                        return false;
                    }
                    (child_idx - 1, child_idx)
                },
                ResizeDirection::Right | ResizeDirection::Down => {
                    if child_idx >= n || child_idx + 1 >= n {
                        return false;
                    }
                    (child_idx + 1, child_idx)
                },
            };
            if shrink >= n || grow >= n {
                return false;
            }
            let shrink_size = if horiz { self.children[shrink].sx } else { self.children[shrink].sy };
            let min_size = if horiz { PANE_MINIMUM_WIDTH } else { PANE_MINIMUM_HEIGHT };
            let room: u32 = if shrink_size > min_size { shrink_size - min_size } else { 0 };
            let actual_amount: u32 = if amount < room { amount } else { room };
            if actual_amount == 0 {
                return false;
            }
            let mut pos: u32 = if horiz { self.x_off } else { self.y_off };
            let ghost pos0 = pos;
            let mut kids: Vec<LayoutCell> = Vec::new();
            std::mem::swap(&mut kids, &mut self.children);
            let ghost old_kids = kids@;
            let total = kids.len();
            let mut done: Vec<LayoutCell> = Vec::new();
            let mut j: usize = 0;
            while kids.len() > 0
                invariant
                    old_kids == o.children@,
                    old_kids.len() == total,
                    j <= old_kids.len(),
                    kids@ == old_kids.subrange(j as int, old_kids.len() as int),
                    done@.len() == j,
                    shrink < total,
                    shrink_size == extent(old_kids[shrink as int], horiz),
                    actual_amount <= shrink_size,
                    forall|rest: Seq<LayoutCell>| #[trigger] children_adjusted(kids@, rest, horiz, pos, j as int,
                        shrink as int, grow as int, actual_amount) ==> children_adjusted(old_kids, done@ + rest, horiz,
                        pos0, 0, shrink as int, grow as int, actual_amount),
                decreases kids@.len(),
            {
                let ghost kids0 = kids@;
                let ghost done0 = done@;
                let ghost pos_j = pos;
                let mut c = kids.remove(0);
                let ghost c0 = c;
                let size = if horiz { c.sx } else { c.sy };
                assert(c == old_kids[j as int]);
                let new_size: u32 = if j == shrink {
                    size - actual_amount
                } else if j == grow {
                    ((size as u64 + actual_amount as u64) % 0x1_0000_0000) as u32
                } else {
                    size
                };
                if horiz {
                    c.x_off = pos;
                    c.sx = new_size;
                    resize_subtree_width(&mut c);
                } else {
                    c.y_off = pos;
                    c.sy = new_size;
                    resize_subtree_height(&mut c);
                }
                let ghost cn = c;
                done.push(c);
                pos = ((pos as u64 + new_size as u64 + 1) % 0x1_0000_0000) as u32;
                assert(j < old_kids.len());
                j = j + 1;
                proof {
                    assert(kids0.drop_first() =~= kids@);
                    assert(kids0[0] == c0);
                    assert forall|rest: Seq<LayoutCell>| #[trigger] children_adjusted(kids@, rest, horiz, pos, j as int,
                        shrink as int, grow as int, actual_amount) implies children_adjusted(old_kids, done@ + rest, horiz,
                        pos0, 0, shrink as int, grow as int, actual_amount) by {
                        let r2 = seq![cn] + rest;
                        assert(r2.drop_first() =~= rest);
                        assert(r2[0] == cn);
                        assert(children_adjusted(kids0, r2, horiz, pos_j, j - 1, shrink as int, grow as int, actual_amount));
                        assert(done0 + r2 =~= done@ + rest);
                    }
                }
            }
            assert(children_adjusted(kids@, Seq::<LayoutCell>::empty(), horiz, pos, j as int, shrink as int, grow as int,
                actual_amount));
            assert(done@ + Seq::<LayoutCell>::empty() =~= done@);
            self.children = done;
            return true;
        }
        if child_idx >= n {
            return false;
        }
        let mut kids: Vec<LayoutCell> = Vec::new();
        std::mem::swap(&mut kids, &mut self.children);
        let ghost old_kids = kids@;
        let mut c = kids.remove(child_idx);
        proof {
            assert(c == o.children@[child_idx as int]);
            assert(decreases_to!(o => c));
        }
        let r = c.apply_resize(path, depth + 1, direction, amount);
        kids.insert(child_idx, c);
        proof {
            assert forall|j: int| 0 <= j < old_kids.len() && j != child_idx implies kids@[j] == #[trigger] old_kids[j] by {}
            assert(kids@ =~= old_kids.update(child_idx as int, c));
        }
        self.children = kids;
        r
    }
}


// ---------------------------------------------------------------------------
// Laws of pane ids and resizing
// ---------------------------------------------------------------------------

/// A sequence of subtrees holds the panes of its first, then of the rest.
proof fn lemma_cells_first(cs: Seq<LayoutCell>)
    requires
        cs.len() > 0,
    ensures
        cells_ids(cs) == cell_ids(cs[0]) + cells_ids(cs.drop_first()),
{
    assert(cs =~= seq![cs[0]] + cs.drop_first());
    lemma_cells_concat(seq![cs[0]], cs.drop_first());
    lemma_cells_single(cs[0]);
}

/// An element of `a` is an element of `a + b` and of `b + a`.
proof fn lemma_contains_concat(a: Seq<u32>, b: Seq<u32>, x: u32)
    requires
        a.contains(x),
    ensures
        (a + b).contains(x),
        (b + a).contains(x),
{
    let j = choose|j: int| 0 <= j < a.len() && a[j] == x;
    assert((a + b)[j] == x);
    assert((b + a)[b.len() + j] == x);
}

/// A pane that a path leads to is among the subtree's pane ids.
proof fn lemma_path_in_ids(c: LayoutCell, id: u32)
    requires
        pane_path(c, id) is Some,
    ensures
        cell_ids(c).contains(id),
    decreases c,
{
    let own: Seq<u32> = match c.pane_id {
        Some(p) => seq![p],
        None => Seq::empty(),
    };
    if c.cell_type == LayoutType::Pane {
        assert(own[0] == id);
        lemma_contains_concat(own, cells_ids(c.children@), id);
    } else {
        assert(decreases_to!(c => c.children));
        assert(decreases_to!(c.children => c.children@));
        lemma_children_path_in_ids(c.children@, id, 0);
        lemma_contains_concat(cells_ids(c.children@), own, id);
    }
}

/// A pane that a path through `cs` leads to is among their pane ids.
proof fn lemma_children_path_in_ids(cs: Seq<LayoutCell>, id: u32, i: int)
    requires
        children_path(cs, id, i) is Some,
    ensures
        cells_ids(cs).contains(id),
    decreases cs,
{
    lemma_cells_first(cs);
    if pane_path(cs[0], id) is Some {
        assert(decreases_to!(cs => cs[0]));
        lemma_path_in_ids(cs[0], id);
        lemma_contains_concat(cell_ids(cs[0]), cells_ids(cs.drop_first()), id);
    } else {
        lemma_children_path_in_ids(cs.drop_first(), id, i + 1);
        lemma_contains_concat(cells_ids(cs.drop_first()), cell_ids(cs[0]), id);
    }
}

/// Sequences of subtrees with the same pane ids one by one have the same
/// pane ids.
proof fn lemma_cells_ids_pointwise(os: Seq<LayoutCell>, ns: Seq<LayoutCell>)
    requires
        os.len() == ns.len(),
        forall|i: int| 0 <= i < os.len() ==> cell_ids(#[trigger] os[i]) == cell_ids(ns[i]),
    ensures
        cells_ids(os) == cells_ids(ns),
    decreases os.len(),
{
    if os.len() > 0 {
        let (a, b) = (os.drop_last(), ns.drop_last());
        assert forall|i: int| 0 <= i < a.len() implies cell_ids(#[trigger] a[i]) == cell_ids(b[i]) by {
            assert(a[i] == os[i]);
            assert(b[i] == ns[i]);
        }
        lemma_cells_ids_pointwise(a, b);
        assert(cell_ids(os[os.len() - 1]) == cell_ids(ns[ns.len() - 1]));
    }
}

/// Placing a subtree at a new column and width keeps its pane ids.
proof fn lemma_width_set_ids(o: LayoutCell, n: LayoutCell, x: u32, sx: u32)
    requires
        width_set(o, n, x, sx),
    ensures
        cell_ids(n) == cell_ids(o),
    decreases o,
{
    if o.cell_type == LayoutType::TopBottom {
        assert(decreases_to!(o => o.children));
        assert(decreases_to!(o.children => o.children@));
        lemma_all_width_set_ids(o.children@, n.children@, x, sx);
    }
}

/// Placing subtrees at a new column and width keeps their pane ids.
proof fn lemma_all_width_set_ids(os: Seq<LayoutCell>, ns: Seq<LayoutCell>, x: u32, sx: u32)
    requires
        all_width_set(os, ns, x, sx),
    ensures
        cells_ids(ns) == cells_ids(os),
    decreases os,
{
    if os.len() > 0 {
        assert(decreases_to!(os => os[0]));
        lemma_width_set_ids(os[0], ns[0], x, sx);
        lemma_all_width_set_ids(os.drop_first(), ns.drop_first(), x, sx);
        lemma_cells_first(os);
        lemma_cells_first(ns);
    } else {
        assert(cells_ids(ns) =~= cells_ids(os));
    }
}

/// Placing a subtree at a new row and height keeps its pane ids.
proof fn lemma_height_set_ids(o: LayoutCell, n: LayoutCell, y: u32, sy: u32)
    requires
        height_set(o, n, y, sy),
    ensures
        cell_ids(n) == cell_ids(o),
    decreases o,
{
    if o.cell_type == LayoutType::LeftRight {
        assert(decreases_to!(o => o.children));
        assert(decreases_to!(o.children => o.children@));
        lemma_all_height_set_ids(o.children@, n.children@, y, sy);
    }
}

/// Placing subtrees at a new row and height keeps their pane ids.
proof fn lemma_all_height_set_ids(os: Seq<LayoutCell>, ns: Seq<LayoutCell>, y: u32, sy: u32)
    requires
        all_height_set(os, ns, y, sy),
    ensures
        cells_ids(ns) == cells_ids(os),
    decreases os,
{
    if os.len() > 0 {
        assert(decreases_to!(os => os[0]));
        lemma_height_set_ids(os[0], ns[0], y, sy);
        lemma_all_height_set_ids(os.drop_first(), ns.drop_first(), y, sy);
        lemma_cells_first(os);
        lemma_cells_first(ns);
    } else {
        assert(cells_ids(ns) =~= cells_ids(os));
    }
}

/// Moving a separator between children keeps their pane ids.
proof fn lemma_adjusted_ids(
    os: Seq<LayoutCell>,
    ns: Seq<LayoutCell>,
    horiz: bool,
    pos: u32,
    j: int,
    shrink: int,
    grow: int,
    act: u32,
)
    requires
        children_adjusted(os, ns, horiz, pos, j, shrink, grow, act),
    ensures
        cells_ids(ns) == cells_ids(os),
    decreases os,
{
    if os.len() > 0 {
        let c = os[0];
        let size = extent(c, horiz);
        let new_size: u32 = if j == shrink {
            (size - act) as u32
        } else if j == grow {
            ((size as int + act as int) % 0x1_0000_0000) as u32
        } else {
            size
        };
        if horiz {
            lemma_width_set_ids(c, ns[0], pos, new_size);
        } else {
            lemma_height_set_ids(c, ns[0], pos, new_size);
        }
        lemma_adjusted_ids(os.drop_first(), ns.drop_first(), horiz, next_pos(pos, new_size), j + 1, shrink, grow, act);
        lemma_cells_first(os);
        lemma_cells_first(ns);
    } else {
        assert(cells_ids(ns) =~= cells_ids(os));
    }
}

/// The same layout tree has the same pane ids.
proof fn lemma_same_layout_ids(o: LayoutCell, n: LayoutCell)
    requires
        same_layout(o, n),
    ensures
        cell_ids(n) == cell_ids(o),
    decreases o,
{
    assert forall|i: int| 0 <= i < o.children@.len() implies cell_ids(#[trigger] o.children@[i]) == cell_ids(
        n.children@[i],
    ) by {
        assert(decreases_to!(o => o.children));
        assert(decreases_to!(o.children => o.children@));
        assert(decreases_to!(o.children@ => o.children@[i]));
        lemma_same_layout_ids(o.children@[i], n.children@[i]);
    }
    lemma_cells_ids_pointwise(o.children@, n.children@);
}

/// A resize keeps the pane ids of the tree.
proof fn lemma_resize_result_ids(
    o: LayoutCell,
    n: LayoutCell,
    path: Seq<usize>,
    depth: int,
    dir: ResizeDirection,
    amount: u32,
)
    requires
        resize_result(o, n, path, depth, dir, amount),
    ensures
        cell_ids(n) == cell_ids(o),
    decreases o,
{
    if !resize_applies(o, path, depth, dir, amount) {
        lemma_same_layout_ids(o, n);
    } else {
        let k = path[depth] as int;
        let cnt = o.children@.len() as int;
        if handles(o.cell_type, dir) {
            let horiz = o.cell_type == LayoutType::LeftRight;
            let (s, g) = resize_pair(dir, k, cnt).unwrap();
            let act = resize_amount(extent(o.children@[s], horiz), amount, horiz);
            lemma_adjusted_ids(o.children@, n.children@, horiz, if horiz { o.x_off } else { o.y_off }, 0, s, g, act);
        } else {
            assert forall|j: int| 0 <= j < cnt implies cell_ids(#[trigger] o.children@[j]) == cell_ids(n.children@[j]) by {
                if j == k {
                    assert(decreases_to!(o => o.children));
                    assert(decreases_to!(o.children => o.children@));
                    assert(decreases_to!(o.children@ => o.children@[k]));
                    lemma_resize_result_ids(o.children@[k], n.children@[k], path, depth + 1, dir, amount);
                } else {
                    assert(n.children@[j] == o.children@[j]);
                }
            }
            lemma_cells_ids_pointwise(o.children@, n.children@);
        }
    }
}

/// What `resize_pane` does: with no path to the pane nothing changes and it
/// fails; else it succeeds exactly when the resize applies, leaving the tree
/// as `resize_result` describes.
pub open spec fn pane_resized(o: LayoutCell, n: LayoutCell, pane_id: u32, dir: ResizeDirection, amount: u32, r: bool) -> bool {
    match pane_path(o, pane_id) {
        None => !r && n == o,
        Some(p) => r == resize_applies(o, p, 0, dir, amount) && resize_result(o, n, p, 0, dir, amount),
    }
}

/// Resizing a pane that is not in the tree fails; a resize that fails leaves
/// the tree as it was; one that succeeds keeps the root's position and size
/// and the pane ids.
pub proof fn law_resize_pane(o: LayoutCell, n: LayoutCell, pane_id: u32, dir: ResizeDirection, amount: u32, r: bool)
    requires
        pane_resized(o, n, pane_id, dir, amount, r),
    ensures
        !cell_ids(o).contains(pane_id) ==> !r,
        !r ==> same_layout(o, n),
        r ==> n.x_off == o.x_off && n.y_off == o.y_off && n.sx == o.sx && n.sy == o.sy && cell_ids(n) == cell_ids(o),
{
    match pane_path(o, pane_id) {
        None => {
            lemma_same_layout_refl(o);
        },
        Some(p) => {
            lemma_path_in_ids(o, pane_id);
            if r {
                lemma_resize_result_ids(o, n, p, 0, dir, amount);
            }
        },
    }
}

/// The tree's pane ids sit on its leaves: every pane leaf has an id and no
/// children, and no split has an id.
pub open spec fn ids_on_leaves(c: LayoutCell) -> bool
    decreases c,
{
    if c.cell_type == LayoutType::Pane {
        c.pane_id is Some && c.children@.len() == 0
    } else {
        c.pane_id is None && forall|i: int| 0 <= i < c.children@.len() ==> ids_on_leaves(#[trigger] c.children@[i])
    }
}

/// The ids of the pane leaves of a subtree in pre-order (left to right, top
/// to bottom); the search does not look below pane leaves.
pub open spec fn leaf_ids(c: LayoutCell) -> Seq<u32>
    decreases c,
{
    if c.cell_type == LayoutType::Pane {
        match c.pane_id {
            Some(id) => seq![id],
            None => Seq::empty(),
        }
    } else {
        leaves_ids(c.children@)
    }
}

/// The ids of the pane leaves of a sequence of subtrees, in order.
pub open spec fn leaves_ids(cs: Seq<LayoutCell>) -> Seq<u32>
    decreases cs,
{
    if cs.len() == 0 {
        Seq::empty()
    } else {
        leaves_ids(cs.drop_last()) + leaf_ids(cs.last())
    }
}

proof fn lemma_ids_on_leaves_cell(c: LayoutCell)
    requires
        ids_on_leaves(c),
    ensures
        cell_ids(c) == leaf_ids(c),
        cell_ids(c).len() == cell_count(c),
    decreases c,
{
    if c.cell_type == LayoutType::Pane {
        assert(cells_ids(c.children@) =~= Seq::<u32>::empty());
    } else {
        assert(decreases_to!(c => c.children));
        assert(decreases_to!(c.children => c.children@));
        lemma_ids_on_leaves_cells(c.children@);
        assert(cell_ids(c) =~= cells_ids(c.children@));
    }
}

proof fn lemma_ids_on_leaves_cells(cs: Seq<LayoutCell>)
    requires
        forall|i: int| 0 <= i < cs.len() ==> ids_on_leaves(#[trigger] cs[i]),
    ensures
        cells_ids(cs) == leaves_ids(cs),
        cells_ids(cs).len() == cells_count(cs),
    decreases cs,
{
    if cs.len() > 0 {
        let a = cs.drop_last();
        assert forall|i: int| 0 <= i < a.len() implies ids_on_leaves(#[trigger] a[i]) by {
            assert(a[i] == cs[i]);
        }
        lemma_ids_on_leaves_cells(a);
        assert(ids_on_leaves(cs[cs.len() - 1]));
        assert(decreases_to!(cs => cs[cs.len() - 1]));
        lemma_ids_on_leaves_cell(cs.last());
    }
}

/// Where the pane ids sit on the leaves, `pane_ids` lists the leaves' ids
/// in pre-order, as many as `pane_count` counts.
pub proof fn law_pane_ids_are_leaves(c: LayoutCell)
    requires
        ids_on_leaves(c),
    ensures
        cell_ids(c) == leaf_ids(c),
        cell_ids(c).len() == cell_count(c),
{
    lemma_ids_on_leaves_cell(c);
}

/// The extent along a split of child `i` after a separator move: as
/// `children_adjusted` leaves it, counted from the first child.
proof fn lemma_adjusted_extent(
    os: Seq<LayoutCell>,
    ns: Seq<LayoutCell>,
    horiz: bool,
    pos: u32,
    j: int,
    shrink: int,
    grow: int,
    act: u32,
    i: int,
)
    requires
        children_adjusted(os, ns, horiz, pos, j, shrink, grow, act),
        0 <= i < os.len(),
    ensures
        ns.len() == os.len(),
        extent(ns[i], horiz) == (if j + i == shrink {
            (extent(os[i], horiz) - act) as u32
        } else if j + i == grow {
            ((extent(os[i], horiz) as int + act as int) % 0x1_0000_0000) as u32
        } else {
            extent(os[i], horiz)
        }),
    decreases os.len(),
{
    lemma_adjusted_len(os, ns, horiz, pos, j, shrink, grow, act);
    if i > 0 {
        let c = os[0];
        let size = extent(c, horiz);
        let new_size: u32 = if j == shrink {
            (size - act) as u32
        } else if j == grow {
            ((size as int + act as int) % 0x1_0000_0000) as u32
        } else {
            size
        };
        lemma_adjusted_extent(os.drop_first(), ns.drop_first(), horiz, next_pos(pos, new_size), j + 1, shrink, grow, act, i - 1);
        assert(os.drop_first()[i - 1] == os[i]);
        assert(ns.drop_first()[i - 1] == ns[i]);
    }
}

/// A separator move keeps the number of children.
proof fn lemma_adjusted_len(
    os: Seq<LayoutCell>,
    ns: Seq<LayoutCell>,
    horiz: bool,
    pos: u32,
    j: int,
    shrink: int,
    grow: int,
    act: u32,
)
    requires
        children_adjusted(os, ns, horiz, pos, j, shrink, grow, act),
    ensures
        ns.len() == os.len(),
    decreases os.len(),
{
    if os.len() > 0 {
        let c = os[0];
        let size = extent(c, horiz);
        let new_size: u32 = if j == shrink {
            (size - act) as u32
        } else if j == grow {
            ((size as int + act as int) % 0x1_0000_0000) as u32
        } else {
            size
        };
        lemma_adjusted_len(os.drop_first(), ns.drop_first(), horiz, next_pos(pos, new_size), j + 1, shrink, grow, act);
    }
}

/// The neighbour a pane resize towards `dir` takes room from: the child
/// before `k` for left and up, the one after it for right and down.
pub open spec fn toward(dir: ResizeDirection, k: int) -> int {
    if dir == ResizeDirection::Left || dir == ResizeDirection::Up { k - 1 } else { k + 1 }
}

/// Along `path` (from `depth`), down to the first split that runs in
/// `dir`: there, the child on the path is larger along the split by some
/// positive amount, its neighbour towards `dir` smaller by the same amount,
/// and every other child keeps its size.
pub open spec fn border_moved(o: LayoutCell, n: LayoutCell, path: Seq<usize>, depth: int, dir: ResizeDirection) -> bool
    decreases o,
{
    if depth < 0 || depth >= path.len() || o.cell_type == LayoutType::Pane {
        false
    } else {
        let k = path[depth] as int;
        let cnt = o.children@.len() as int;
        if handles(o.cell_type, dir) {
            let horiz = o.cell_type == LayoutType::LeftRight;
            let j = toward(dir, k);
            &&& 0 <= k < cnt && 0 <= j < cnt
            &&& n.children@.len() == cnt
            &&& extent(n.children@[k], horiz) > extent(o.children@[k], horiz)
            &&& extent(n.children@[k], horiz) - extent(o.children@[k], horiz) == extent(o.children@[j], horiz)
                - extent(n.children@[j], horiz)
            &&& forall|i: int| 0 <= i < cnt && i != k && i != j ==> extent(#[trigger] n.children@[i], horiz)
                == extent(o.children@[i], horiz)
        } else {
            0 <= k < cnt && n.children@.len() == cnt && border_moved(o.children@[k], n.children@[k], path, depth + 1, dir)
        }
    }
}

/// The sizes along each split of the tree leave room to grow: two
/// neighbouring children together fit in `u32`.
pub open spec fn sizes_fit(c: LayoutCell) -> bool
    decreases c,
{
    if c.cell_type == LayoutType::Pane {
        true
    } else {
        &&& forall|i: int| 0 <= i < c.children@.len() - 1 ==> extent(#[trigger] c.children@[i], c.cell_type
            == LayoutType::LeftRight) + extent(c.children@[i + 1], c.cell_type == LayoutType::LeftRight) <= u32::MAX
        &&& forall|i: int| 0 <= i < c.children@.len() ==> sizes_fit(#[trigger] c.children@[i])
    }
}

/// A resize that takes effect moves the border of the first split on the
/// path that runs in its direction: the child holding the pane grows
/// towards `dir` and its neighbour on that side shrinks by as much.
pub proof fn law_resize_moves_border(
    o: LayoutCell,
    n: LayoutCell,
    path: Seq<usize>,
    depth: int,
    dir: ResizeDirection,
    amount: u32,
)
    requires
        sizes_fit(o),
        resize_applies(o, path, depth, dir, amount),
        resize_result(o, n, path, depth, dir, amount),
    ensures
        border_moved(o, n, path, depth, dir),
    decreases o,
{
    let k = path[depth] as int;
    let cnt = o.children@.len() as int;
    if handles(o.cell_type, dir) {
        let horiz = o.cell_type == LayoutType::LeftRight;
        let (sh, g) = resize_pair(dir, k, cnt).unwrap();
        let act = resize_amount(extent(o.children@[sh], horiz), amount, horiz);
        let pos0 = if horiz { o.x_off } else { o.y_off };
        lemma_adjusted_len(o.children@, n.children@, horiz, pos0, 0, sh, g, act);
        lemma_adjusted_extent(o.children@, n.children@, horiz, pos0, 0, sh, g, act, g);
        lemma_adjusted_extent(o.children@, n.children@, horiz, pos0, 0, sh, g, act, sh);
        let j = toward(dir, k);
        assert(g == k && sh == j);
        if g < sh {
            assert(extent(o.children@[g], horiz) + extent(o.children@[g + 1], horiz) <= u32::MAX);
        } else {
            assert(extent(o.children@[sh], horiz) + extent(o.children@[sh + 1], horiz) <= u32::MAX);
        }
        assert forall|i: int| 0 <= i < cnt && i != k && i != j implies extent(#[trigger] n.children@[i], horiz)
            == extent(o.children@[i], horiz) by {
            lemma_adjusted_extent(o.children@, n.children@, horiz, pos0, 0, sh, g, act, i);
        }
    } else {
        assert(decreases_to!(o => o.children));
        assert(decreases_to!(o.children => o.children@));
        assert(decreases_to!(o.children@ => o.children@[k]));
        assert(sizes_fit(o.children@[k]));
        law_resize_moves_border(o.children@[k], n.children@[k], path, depth + 1, dir, amount);
    }
}

/// When `resize_pane` succeeds, the pane's side of the first split on its
/// path that runs in the direction grows towards it, and the neighbour on
/// that side shrinks by as much.
pub proof fn law_resize_pane_grows(o: LayoutCell, n: LayoutCell, pane_id: u32, dir: ResizeDirection, amount: u32)
    requires
        sizes_fit(o),
        pane_resized(o, n, pane_id, dir, amount, true),
    ensures
        pane_path(o, pane_id) matches Some(p) && border_moved(o, n, p, 0, dir),
{
    let p = pane_path(o, pane_id).unwrap();
    law_resize_moves_border(o, n, p, 0, dir, amount);
}

} // verus!
