//! The screen content that copy mode reads: a grid of cells made of a
//! scrollback history followed by the visible lines, and selections over it.

use vstd::prelude::*;

verus! {

/// The character stored in one cell; `None` is an empty (padding) cell.
#[derive(Debug, Clone, Copy, PartialEq, Eq, Structural)]
pub struct Utf8Char {
    pub ch: Option<char>,
}

impl Utf8Char {
    /// A cell character from an ASCII byte.
    pub fn from_ascii(b: u8) -> (r: Utf8Char)
        requires
            b < 128,
        ensures
            r.ch == Some(b as char),
    {
        Utf8Char { ch: Some(b as char) }
    }

    /// A cell character.
    pub fn from_char(c: char) -> (r: Utf8Char)
        ensures
            r.ch == Some(c),
    {
        Utf8Char { ch: Some(c) }
    }

    /// The empty cell character.
    pub fn empty() -> (r: Utf8Char)
        ensures
            r.ch is None,
    {
        Utf8Char { ch: None }
    }
}

/// One cell of the grid.
#[derive(Debug, Clone, Copy, PartialEq, Eq, Structural)]
pub struct GridCell {
    pub data: Utf8Char,
}

/// One line of the grid: the cells written so far.
#[derive(Debug)]
pub struct GridLine {
    pub cells: Vec<GridCell>,
}

/// The character data of a line's cells.
pub open spec fn line_view(l: GridLine) -> Seq<Option<char>> {
    l.cells@.map_values(|c: GridCell| c.data.ch)
}

/// The character of cell `x` of a row; cells past the end read as spaces.
pub open spec fn cell_at(row: Seq<Option<char>>, x: int) -> Option<char> {
    if 0 <= x < row.len() { row[x] } else { Some(' ') }
}

impl GridLine {
    /// The number of cells written on this line.
    pub fn cell_count(&self) -> (r: u32)
        requires
            self.cells@.len() <= u32::MAX,
        ensures
            r == self.cells@.len(),
    {
        self.cells.len() as u32
    }

    /// The cell at column `x`; columns past the end read as cleared cells.
    pub fn get_cell(&self, x: u32) -> (r: GridCell)
        ensures
            r.data.ch == cell_at(line_view(*self), x as int),
    {
        if (x as usize) < self.cells.len() {
            self.cells[x as usize]
        } else {
            GridCell { data: Utf8Char { ch: Some(' ') } }
        }
    }
}

/// The grid: `hsize` history lines followed by `sy` visible lines of width `sx`.
pub struct Grid {
    sx: u32,
    sy: u32,
    hlimit: u32,
    hsize: u32,
    lines: Vec<GridLine>,
}

impl Grid {
    #[verifier::type_invariant]
    closed spec fn wf(&self) -> bool {
        &&& self.lines@.len() == self.hsize + self.sy
        &&& self.hsize + self.sy <= u32::MAX
        &&& self.hsize <= self.hlimit
        &&& forall|i: int| 0 <= i < self.lines@.len() ==> #[trigger] self.lines@[i].cells@.len() <= self.sx
        &&& forall|i: int| 0 <= i < self.lines@.len() ==> #[trigger] self.lines@[i].cells@.len() < u32::MAX
    }

    /// Number of history lines.
    pub closed spec fn hsize(&self) -> nat {
        self.hsize as nat
    }

    /// Number of visible lines.
    pub closed spec fn height(&self) -> nat {
        self.sy as nat
    }

    /// Width in columns.
    pub closed spec fn width(&self) -> nat {
        self.sx as nat
    }

    /// The cells of absolute line `y` (0 = oldest history line).
    pub closed spec fn row(&self, y: int) -> Seq<Option<char>> {
        line_view(self.lines@[y])
    }

    /// An empty grid of `sx` columns and `sy` lines, keeping up to `hlimit` history lines.
    pub fn new(sx: u32, sy: u32, hlimit: u32) -> (g: Grid)
        ensures
            g.width() == sx,
            g.height() == sy,
            g.hsize() == 0,
            forall|y: int| 0 <= y < sy ==> #[trigger] g.row(y) == Seq::<Option<char>>::empty(),
    {
        let mut lines: Vec<GridLine> = Vec::new();
        let mut i: u32 = 0;
        while i < sy
            invariant
                i <= sy,
                lines@.len() == i,
                forall|j: int| 0 <= j < i ==> (#[trigger] lines@[j]).cells@.len() == 0,
            decreases sy - i,
        {
            lines.push(GridLine { cells: Vec::new() });
            i = i + 1;
        }
        let g = Grid { sx, sy, hlimit, hsize: 0, lines };
        assert forall|y: int| 0 <= y < sy implies #[trigger] g.row(y) == Seq::<Option<char>>::empty() by {
            assert(g.row(y) =~= Seq::<Option<char>>::empty());
        }
        g
    }

    /// Number of history lines.
    pub fn history_size(&self) -> (r: u32)
        ensures
            r == self.hsize(),
            self.hsize() + self.height() <= u32::MAX,
    {
        proof {
            use_type_invariant(self);
        }
        self.hsize
    }

    /// Number of visible lines.
    pub fn visible_lines(&self) -> (r: u32)
        ensures
            r == self.height(),
    {
        self.sy
    }

    /// Width in columns.
    pub fn columns(&self) -> (r: u32)
        ensures
            r == self.width(),
    {
        self.sx
    }

    /// The line at absolute row `y`, counting history lines first.
    pub fn get_line_absolute(&self, y: u32) -> (r: Option<&GridLine>)
        ensures
            y < self.hsize() + self.height() ==> (r matches Some(l) && line_view(*l) == self.row(
                y as int,
            ) && l.cells@.len() <= self.width() && l.cells@.len() < u32::MAX),
            y >= self.hsize() + self.height() ==> r is None,
    {
        proof {
            use_type_invariant(self);
        }
        if (y as usize) < self.lines.len() {
            Some(&self.lines[y as usize])
        } else {
            None
        }
    }

    /// Writes `cell` at column `x` of visible row `y`; the line grows with cleared
    /// cells up to `x`. Writes outside the visible area, or at the last column
    /// `u32` can count, are ignored.
    pub fn set_cell(&mut self, x: u32, y: u32, cell: &GridCell)
        ensures
            final(self).width() == old(self).width(),
            final(self).height() == old(self).height(),
            final(self).hsize() == old(self).hsize(),
            forall|r: int| 0 <= r < old(self).hsize() + old(self).height() && r != old(self).hsize() + y
                ==> #[trigger] final(self).row(r) == old(self).row(r),
            (x < old(self).width() && y < old(self).height() && x + 1 < u32::MAX) ==> ({
                let r = old(self).hsize() + y;
                let before = old(self).row(r as int);
                &&& final(self).row(r as int).len() == if x < before.len() { before.len() as int } else { x + 1 }
                &&& final(self).row(r as int)[x as int] == cell.data.ch
                &&& forall|i: int| 0 <= i < final(self).row(r as int).len() && i != x ==>
                    #[trigger] final(self).row(r as int)[i] == cell_at(before, i)
            }),
            !(x < old(self).width() && y < old(self).height() && x + 1 < u32::MAX) ==> final(self).row(
                old(self).hsize() + y,
            ) == old(self).row(old(self).hsize() + y),
    {
        proof {
            use_type_invariant(&*self);
        }
        if x >= self.sx || y >= self.sy || x >= u32::MAX - 1 {
            return;
        }
        let mut g = Grid { sx: 0, sy: 0, hlimit: 0, hsize: 0, lines: Vec::new() };
        std::mem::swap(&mut g, self);
        proof {
            use_type_invariant(&g);
        }
        let Grid { sx, sy, hlimit, hsize, lines } = g;
        let mut lines = lines;
        let idx = (hsize + y) as usize;
        let ghost old_lines = lines@;
        let line = lines.remove(idx);
        let mut line = line;
        let ghost before = line_view(line);
        assert(old_lines[idx as int] == line);
        while line.cells.len() <= x as usize
            invariant
                line.cells@.len() == before.len() || line.cells@.len() <= x + 1,
                x < sx,
                before.len() <= sx,
                forall|i: int| 0 <= i < line.cells@.len() ==> #[trigger] line_view(line)[i] == cell_at(before, i),
                line.cells@.len() >= before.len(),
            decreases x + 1 - line.cells@.len(),
        {
            let ghost prev = line;
            line.cells.push(GridCell { data: Utf8Char { ch: Some(' ') } });
            assert forall|i: int| 0 <= i < line.cells@.len() implies #[trigger] line_view(line)[i] == cell_at(before, i) by {
                if i < prev.cells@.len() {
                    assert(line_view(line)[i] == line_view(prev)[i]);
                }
            }
        }
        let ghost grown = line;
        line.cells.set(x as usize, *cell);
        assert(line_view(line).len() == if x < before.len() { before.len() as int } else { x + 1 });
        assert(line_view(line)[x as int] == cell.data.ch);
        assert forall|i: int| 0 <= i < line_view(line).len() && i != x implies #[trigger] line_view(line)[i] == cell_at(before, i) by {
            assert(line_view(line)[i] == line_view(grown)[i]);
        }
        lines.insert(idx, line);
        assert forall|i: int| 0 <= i < lines@.len() implies #[trigger] lines@[i].cells@.len() <= sx
            && lines@[i].cells@.len() < u32::MAX by {
            if i != idx {
                assert(lines@[i] == old_lines[i]);
            }
        }
        *self = Grid { sx, sy, hlimit, hsize, lines };
        assert(self.row(idx as int) == line_view(line));
        assert forall|r: int| 0 <= r < old(self).hsize() + old(self).height() && r != old(self).hsize() + y
            implies #[trigger] self.row(r) == old(self).row(r) by {
            assert(self.lines@[r] == old_lines[r]);
        }
    }

    /// Scrolls the visible area up by one line: the top visible line becomes the
    /// newest history line (the oldest history line is dropped when the history
    /// is full) and an empty line appears at the bottom.
    pub fn scroll_up(&mut self)
        ensures
            final(self).width() == old(self).width(),
            final(self).height() == old(self).height(),
            old(self).height() > 0 && old(self).hsize() < old(self).hlimit_spec() && old(self).hsize()
                + old(self).height() < u32::MAX ==> final(self).hsize() == old(self).hsize() + 1,
            !(old(self).height() > 0 && old(self).hsize() < old(self).hlimit_spec() && old(self).hsize()
                + old(self).height() < u32::MAX) ==> final(self).hsize() == old(self).hsize(),
            final(self).hlimit_spec() == old(self).hlimit_spec(),
    {
        proof {
            use_type_invariant(&*self);
        }
        if self.sy == 0 {
            return;
        }
        let mut g = Grid { sx: 0, sy: 0, hlimit: 0, hsize: 0, lines: Vec::new() };
        std::mem::swap(&mut g, self);
        proof {
            use_type_invariant(&g);
        }
        let Grid { sx, sy, hlimit, hsize, lines } = g;
        let mut lines = lines;
        let ghost old_lines = lines@;
        if hsize < hlimit && hsize + sy < u32::MAX {
            lines.push(GridLine { cells: Vec::new() });
            assert forall|i: int| 0 <= i < lines@.len() implies #[trigger] lines@[i].cells@.len() <= sx
                && lines@[i].cells@.len() < u32::MAX by {
                if i < old_lines.len() {
                    assert(lines@[i] == old_lines[i]);
                }
            }
            *self = Grid { sx, sy, hlimit, hsize: hsize + 1, lines };
        } else {
            let _oldest = lines.remove(0);
            lines.push(GridLine { cells: Vec::new() });
            assert forall|i: int| 0 <= i < lines@.len() implies #[trigger] lines@[i].cells@.len() <= sx
                && lines@[i].cells@.len() < u32::MAX by {
                if i < lines@.len() - 1 {
                    assert(lines@[i] == old_lines[i + 1]);
                }
            }
            *self = Grid { sx, sy, hlimit, hsize, lines };
        }
    }

    /// The history limit.
    pub closed spec fn hlimit_spec(&self) -> nat {
        self.hlimit as nat
    }
}

/// A terminal screen: its grid of cells.
pub struct Screen {
    pub grid: Grid,
}

impl Screen {
    /// An empty screen of `sx` columns and `sy` lines keeping up to `hlimit` history lines.
    pub fn new(sx: u32, sy: u32, hlimit: u32) -> (s: Screen)
        ensures
            s.grid.width() == sx,
            s.grid.height() == sy,
            s.grid.hsize() == 0,
    {
        Screen { grid: Grid::new(sx, sy, hlimit) }
    }

    /// Width in columns.
    pub fn width(&self) -> (r: u32)
        ensures
            r == self.grid.width(),
    {
        self.grid.columns()
    }

    /// Height in lines.
    pub fn height(&self) -> (r: u32)
        ensures
            r == self.grid.height(),
    {
        self.grid.visible_lines()
    }
}

/// How a selection extends across lines.
#[derive(Debug, Clone, Copy, PartialEq, Eq, Structural)]
pub enum SelectionType {
    /// From the start position to the end position, wrapping across lines.
    Normal,
    /// Whole lines.
    Line,
    /// A rectangle of columns.
    Block,
}

/// A selection between two absolute positions.
#[derive(Debug, Clone, Copy, PartialEq, Eq, Structural)]
pub struct Selection {
    pub sel_type: SelectionType,
    pub start_x: u32,
    pub start_y: u32,
    pub end_x: u32,
    pub end_y: u32,
    pub active: bool,
}

/// The selection's corners ordered top to bottom: `(sx, sy, ex, ey)`. For block
/// selections the columns are ordered too.
pub open spec fn normalized_spec(s: Selection) -> (u32, u32, u32, u32) {
    let (sx, sy, ex, ey) = if s.start_y < s.end_y || (s.start_y == s.end_y && s.start_x <= s.end_x) {
        (s.start_x, s.start_y, s.end_x, s.end_y)
    } else {
        (s.end_x, s.end_y, s.start_x, s.start_y)
    };
    if s.sel_type == SelectionType::Block && sx > ex {
        (ex, sy, sx, ey)
    } else {
        (sx, sy, ex, ey)
    }
}

impl Selection {
    /// The selection's corners ordered top to bottom: `(sx, sy, ex, ey)`.
    pub fn normalized(&self) -> (r: (u32, u32, u32, u32))
        ensures
            r == normalized_spec(*self),
    {
        let (sx, sy, ex, ey) = if self.start_y < self.end_y || (self.start_y == self.end_y
            && self.start_x <= self.end_x) {
            (self.start_x, self.start_y, self.end_x, self.end_y)
        } else {
            (self.end_x, self.end_y, self.start_x, self.start_y)
        };
        if self.sel_type == SelectionType::Block && sx > ex {
            (ex, sy, sx, ey)
        } else {
            (sx, sy, ex, ey)
        }
    }
}

} // verus!
