//! The authoritative two-dimensional cell buffer of the terminal: cells,
//! cursor, title and per-row dirty flags, together with the mathematical
//! model (`GridView`) that every mutator is specified against.

use vstd::prelude::*;

verus! {

/// A colour as selected by SGR escape sequences.  `Default` stands for the
/// terminal's configured foreground or background colour; the embedding
/// renderer maps each name to a concrete palette entry.
#[derive(Clone, Copy, PartialEq, Eq, Structural, Debug)]
pub enum Color {
    Default,
    Black,
    Red,
    Green,
    Yellow,
    Blue,
    Magenta,
    Cyan,
    White,
    BrightBlack,
    BrightRed,
    BrightGreen,
    BrightYellow,
    BrightBlue,
    BrightMagenta,
    BrightCyan,
    BrightWhite,
}

/// One character cell of the grid: a single scalar character with its
/// colours and style flags.
#[derive(Clone, Copy, PartialEq, Eq, Structural, Debug)]
pub struct TerminalCell {
    pub ch: char,
    pub fg: Color,
    pub bg: Color,
    pub bold: bool,
    pub italic: bool,
    pub underline: bool,
    pub strikethrough: bool,
}

/// The cursor: a column, a row, and whether a renderer should draw it.
#[derive(Clone, Copy, PartialEq, Eq, Structural, Debug)]
pub struct TerminalCursor {
    pub x: usize,
    pub y: usize,
    pub visible: bool,
}

/// The blank cell every operation pads or erases with: a space in the
/// default colours, with no style flags.
pub open spec fn default_cell() -> TerminalCell {
    TerminalCell {
        ch: ' ',
        fg: Color::Default,
        bg: Color::Default,
        bold: false,
        italic: false,
        underline: false,
        strikethrough: false,
    }
}

impl Default for TerminalCell {
    /// The blank cell.
    fn default() -> (c: Self)
        ensures
            c == default_cell(),
    {
        TerminalCell {
            ch: ' ',
            fg: Color::Default,
            bg: Color::Default,
            bold: false,
            italic: false,
            underline: false,
            strikethrough: false,
        }
    }
}

/// A row of `cols` blank cells.
pub open spec fn blank_row(cols: int) -> Seq<TerminalCell> {
    Seq::new(cols as nat, |j: int| default_cell())
}

/// The mathematical value of a `TerminalGrid`: the contracts of every
/// mutator, and the escape-sequence interpreter's transition function, are
/// stated over this type.
#[verifier::ext_equal]
pub struct GridView {
    pub cells: Seq<Seq<TerminalCell>>,
    pub cursor_x: int,
    pub cursor_y: int,
    pub cursor_visible: bool,
    pub cols: int,
    pub rows: int,
    pub title: Seq<char>,
    pub dirty: Seq<bool>,
}

impl GridView {
    /// Well-formedness: the matrix is exactly `rows` by `cols`, there is one
    /// dirty flag per row, and the cursor lies strictly inside the bounds.
    pub open spec fn wf(self) -> bool {
        &&& 1 <= self.cols
        &&& 1 <= self.rows
        &&& self.cells.len() == self.rows
        &&& forall|i: int| 0 <= i < self.rows ==> (#[trigger] self.cells[i]).len() == self.cols
        &&& self.dirty.len() == self.rows
        &&& 0 <= self.cursor_x < self.cols
        &&& 0 <= self.cursor_y < self.rows
    }
}

/// A freshly created grid: all cells blank, cursor at the origin and
/// visible, every row dirty, and the default title.
pub open spec fn grid_new(cols: int, rows: int) -> GridView {
    GridView {
        cells: Seq::new(rows as nat, |i: int| blank_row(cols)),
        cursor_x: 0,
        cursor_y: 0,
        cursor_visible: true,
        cols: cols,
        rows: rows,
        title: "Terminal"@,
        dirty: Seq::new(rows as nat, |i: int| true),
    }
}

/// The cell a print writes: the character and the pen's colours and bold
/// flag are taken over, the remaining style flags stay clear.
pub open spec fn styled_cell(ch: char, fg: Color, bg: Color, bold: bool) -> TerminalCell {
    TerminalCell { ch, fg, bg, bold, italic: false, underline: false, strikethrough: false }
}

/// Writing one character at the cursor: the cell under the cursor is
/// replaced, its row is marked dirty, and the cursor does not move.
pub open spec fn grid_put_char(g: GridView, ch: char, fg: Color, bg: Color, bold: bool) -> GridView {
    GridView {
        cells: g.cells.update(
            g.cursor_y,
            g.cells[g.cursor_y].update(g.cursor_x, styled_cell(ch, fg, bg, bold)),
        ),
        dirty: g.dirty.update(g.cursor_y, true),
        ..g
    }
}

/// Moving the cursor to `(x, y)`, clamped into the grid bounds.
pub open spec fn grid_move_cursor(g: GridView, x: int, y: int) -> GridView {
    GridView {
        cursor_x: if x < g.cols { x } else { g.cols - 1 },
        cursor_y: if y < g.rows { y } else { g.rows - 1 },
        ..g
    }
}

/// Clearing row `y` to blank cells and marking it dirty; a row outside the
/// grid leaves the grid unchanged.
pub open spec fn grid_clear_line(g: GridView, y: int) -> GridView {
    if 0 <= y < g.rows {
        GridView {
            cells: g.cells.update(y, blank_row(g.cols)),
            dirty: g.dirty.update(y, true),
            ..g
        }
    } else {
        g
    }
}

/// Scrolling up by `n` rows: the top `n` rows are discarded, the remaining
/// rows move up, `n` blank rows appear at the bottom, and every row is
/// marked dirty.  The cursor does not move.
pub open spec fn grid_scroll_up(g: GridView, n: int) -> GridView {
    GridView {
        cells: Seq::new(
            g.rows as nat,
            |i: int| if i + n < g.rows { g.cells[i + n] } else { blank_row(g.cols) },
        ),
        dirty: Seq::new(g.rows as nat, |i: int| true),
        ..g
    }
}

/// Resizing to `cols` by `rows`: content is preserved anchored at the
/// top-left, truncated or padded with blank cells; rows that already existed
/// keep their dirty flag and new rows start dirty; the cursor is clamped
/// into the new bounds.
pub open spec fn grid_resize(g: GridView, cols: int, rows: int) -> GridView {
    GridView {
        cells: Seq::new(
            rows as nat,
            |i: int|
                Seq::new(
                    cols as nat,
                    |j: int|
                        if i < g.rows && j < g.cols {
                            g.cells[i][j]
                        } else {
                            default_cell()
                        },
                ),
        ),
        cursor_x: if g.cursor_x < cols { g.cursor_x } else { cols - 1 },
        cursor_y: if g.cursor_y < rows { g.cursor_y } else { rows - 1 },
        cols: cols,
        rows: rows,
        dirty: Seq::new(rows as nat, |i: int| if i < g.rows { g.dirty[i] } else { true }),
        ..g
    }
}

/// The authoritative cell buffer.  No I/O: pure data plus mutators, shared
/// between the reader loop and the renderer only through the engine facade.
pub struct TerminalGrid {
    pub cells: Vec<Vec<TerminalCell>>,
    pub cursor: TerminalCursor,
    /// `(cols, rows)`: the last successfully applied size.
    pub size: (usize, usize),
    pub title: String,
    pub dirty_lines: Vec<bool>,
}

impl View for TerminalGrid {
    type V = GridView;

    open spec fn view(&self) -> GridView {
        GridView {
            cells: Seq::new(self.cells@.len(), |i: int| self.cells@[i]@),
            cursor_x: self.cursor.x as int,
            cursor_y: self.cursor.y as int,
            cursor_visible: self.cursor.visible,
            cols: self.size.0 as int,
            rows: self.size.1 as int,
            title: self.title@,
            dirty: self.dirty_lines@,
        }
    }
}

impl TerminalGrid {
    /// A row of `cols` blank cells, as a vector.
    fn make_blank_row(cols: usize) -> (v: Vec<TerminalCell>)
        ensures
            v@ == blank_row(cols as int),
    {
        let mut v: Vec<TerminalCell> = Vec::new();
        let mut j: usize = 0;
        while j < cols
            invariant
                j <= cols,
                v@.len() == j,
                forall|k: int| 0 <= k < j ==> v@[k] == default_cell(),
            decreases cols - j,
        {
            v.push(TerminalCell::default());
            j = j + 1;
        }
        proof {
            assert(v@ =~= blank_row(cols as int));
        }
        v
    }

    /// A new grid of the given size.
    pub fn new(cols: usize, rows: usize) -> (g: TerminalGrid)
        requires
            1 <= cols,
            1 <= rows,
        ensures
            g@ == grid_new(cols as int, rows as int),
            g@.wf(),
    {
        let mut cells: Vec<Vec<TerminalCell>> = Vec::new();
        let mut dirty_lines: Vec<bool> = Vec::new();
        let mut i: usize = 0;
        while i < rows
            invariant
                i <= rows,
                cells@.len() == i,
                dirty_lines@.len() == i,
                forall|k: int| 0 <= k < i ==> (#[trigger] cells@[k])@ == blank_row(cols as int),
                forall|k: int| 0 <= k < i ==> dirty_lines@[k] == true,
            decreases rows - i,
        {
            cells.push(Self::make_blank_row(cols));
            dirty_lines.push(true);
            i = i + 1;
        }
        let g = TerminalGrid {
            cells,
            cursor: TerminalCursor { x: 0, y: 0, visible: true },
            size: (cols, rows),
            title: String::from_str("Terminal"),
            dirty_lines,
        };
        proof {
            assert(g@ =~~= grid_new(cols as int, rows as int));
        }
        g
    }

    /// Writes `ch` at the cursor cell with the given attributes.  The cursor
    /// does not move; the cursor's row is marked dirty.
    pub fn put_char(&mut self, ch: char, fg: Color, bg: Color, bold: bool)
        requires
            old(self)@.wf(),
        ensures
            final(self)@ == grid_put_char(old(self)@, ch, fg, bg, bold),
            final(self)@.wf(),
    {
        let y = self.cursor.y;
        let x = self.cursor.x;
        let cell = TerminalCell { ch, fg, bg, bold, italic: false, underline: false, strikethrough: false };
        proof {
            assert(self@.cells[y as int] == self.cells@[y as int]@);
            assert(self.cells@[y as int]@.len() == self@.cols);
        }
        self.cells[y].set(x, cell);
        self.dirty_lines.set(y, true);
        proof {
            assert(self@ =~~= grid_put_char(old(self)@, ch, fg, bg, bold));
        }
    }

    /// Moves the cursor to `(x, y)`, clamped into the grid bounds.
    pub fn move_cursor(&mut self, x: usize, y: usize)
        requires
            old(self)@.wf(),
        ensures
            final(self)@ == grid_move_cursor(old(self)@, x as int, y as int),
            final(self)@.wf(),
    {
        let cols = self.size.0;
        let rows = self.size.1;
        self.cursor.x = if x < cols { x } else { cols - 1 };
        self.cursor.y = if y < rows { y } else { rows - 1 };
        proof {
            assert(self@ =~~= grid_move_cursor(old(self)@, x as int, y as int));
        }
    }

    /// Clears row `y` to blank cells and marks it dirty.  A row outside the
    /// grid is ignored.
    pub fn clear_line(&mut self, y: usize)
        requires
            old(self)@.wf(),
        ensures
            final(self)@ == grid_clear_line(old(self)@, y as int),
            final(self)@.wf(),
    {
        if y < self.size.1 {
            let row = Self::make_blank_row(self.size.0);
            self.cells.set(y, row);
            self.dirty_lines.set(y, true);
        }
        proof {
            assert(self@ =~~= grid_clear_line(old(self)@, y as int));
        }
    }

    /// Scrolls up by `n` rows and marks every row dirty.
    pub fn scroll_up(&mut self, n: usize)
        requires
            old(self)@.wf(),
        ensures
            final(self)@ == grid_scroll_up(old(self)@, n as int),
            final(self)@.wf(),
    {
        let rows = self.size.1;
        let cols = self.size.0;
        let mut k: usize = 0;
        while k < n
            invariant
                k <= n,
                self.size == old(self).size,
                self.cursor == old(self).cursor,
                self.title == old(self).title,
                self.dirty_lines == old(self).dirty_lines,
                old(self)@.wf(),
                rows == self.size.1,
                cols == self.size.0,
                self.cells@.len() == rows,
                forall|i: int|
                    0 <= i < rows ==> (#[trigger] self.cells@[i])@ == (
                    if i + k < rows {
                        old(self)@.cells[i + k]
                    } else {
                        blank_row(cols as int)
                    }),
            decreases n - k,
        {
            let ghost prev = self.cells@;
            self.cells.remove(0);
            self.cells.push(Self::make_blank_row(cols));
            k = k + 1;
            proof {
                assert forall|i: int| 0 <= i < rows implies (#[trigger] self.cells@[i])@ == (
                    if i + k < rows {
                        old(self)@.cells[i + k]
                    } else {
                        blank_row(cols as int)
                    }) by {
                    if i < rows - 1 {
                        assert(self.cells@[i] == prev[i + 1]);
                    }
                }
            }
        }
        let mut y: usize = 0;
        while y < rows
            invariant
                self.size == old(self).size,
                self.cursor == old(self).cursor,
                self.title == old(self).title,
                old(self)@.wf(),
                rows == self.size.1,
                cols == self.size.0,
                self.cells@.len() == rows,
                forall|i: int|
                    0 <= i < rows ==> (#[trigger] self.cells@[i])@ == (
                    if i + n < rows {
                        old(self)@.cells[i + n]
                    } else {
                        blank_row(cols as int)
                    }),
                self.dirty_lines@.len() == rows,
                forall|i: int| 0 <= i < y ==> self.dirty_lines@[i] == true,
                forall|i: int| y <= i < rows ==> self.dirty_lines@[i] == old(self)@.dirty[i],
            decreases rows - y,
        {
            self.dirty_lines.set(y, true);
            y = y + 1;
        }
        proof {
            assert(self@ =~~= grid_scroll_up(old(self)@, n as int));
        }
    }

    /// Resizes the grid to `cols` by `rows`, preserving content anchored at
    /// the top-left and clamping the cursor into the new bounds.
    pub fn resize(&mut self, cols: usize, rows: usize)
        requires
            old(self)@.wf(),
            1 <= cols,
            1 <= rows,
        ensures
            final(self)@ == grid_resize(old(self)@, cols as int, rows as int),
            final(self)@.wf(),
    {
        let old_cols = self.size.0;
        let old_rows = self.size.1;
        let mut new_cells: Vec<Vec<TerminalCell>> = Vec::new();
        let mut i: usize = 0;
        while i < rows
            invariant
                old(self) == self,
                old(self)@.wf(),
                old_cols == self.size.0,
                old_rows == self.size.1,
                i <= rows,
                new_cells@.len() == i,
                forall|a: int|
                    0 <= a < i ==> (#[trigger] new_cells@[a])@ == grid_resize(
                        self@,
                        cols as int,
                        rows as int,
                    ).cells[a],
            decreases rows - i,
        {
            let mut row: Vec<TerminalCell> = Vec::new();
            let mut j: usize = 0;
            while j < cols
                invariant
                    old(self) == self,
                    old(self)@.wf(),
                    old_cols == self.size.0,
                    old_rows == self.size.1,
                    i < rows,
                    j <= cols,
                    row@.len() == j,
                    forall|b: int|
                        0 <= b < j ==> row@[b] == (
                        if i < old_rows && b < old_cols {
                            self@.cells[i as int][b]
                        } else {
                            default_cell()
                        }),
                decreases cols - j,
            {
                if i < old_rows && j < old_cols {
                    let c = self.cells[i][j];
                    row.push(c);
                } else {
                    row.push(TerminalCell::default());
                }
                j = j + 1;
            }
            proof {
                assert(row@ =~= grid_resize(self@, cols as int, rows as int).cells[i as int]);
            }
            new_cells.push(row);
            i = i + 1;
        }
        let mut new_dirty: Vec<bool> = Vec::new();
        let mut y: usize = 0;
        while y < rows
            invariant
                old(self) == self,
                old(self)@.wf(),
                old_rows == self.size.1,
                y <= rows,
                new_dirty@.len() == y,
                forall|a: int|
                    0 <= a < y ==> new_dirty@[a] == (
                    if a < old_rows {
                        self@.dirty[a]
                    } else {
                        true
                    }),
            decreases rows - y,
        {
            if y < old_rows {
                let d = self.dirty_lines[y];
                new_dirty.push(d);
            } else {
                new_dirty.push(true);
            }
            y = y + 1;
        }
        self.cells = new_cells;
        self.dirty_lines = new_dirty;
        self.size = (cols, rows);
        self.cursor.x = if self.cursor.x < cols { self.cursor.x } else { cols - 1 };
        self.cursor.y = if self.cursor.y < rows { self.cursor.y } else { rows - 1 };
        proof {
            assert(self@ =~~= grid_resize(old(self)@, cols as int, rows as int));
        }
    }

    /// Replaces row `y` wholesale, leaving cursor and dirty flags untouched.
    pub(crate) fn set_row(&mut self, y: usize, row: Vec<TerminalCell>)
        requires
            old(self)@.wf(),
            y < old(self)@.rows,
            row@.len() == old(self)@.cols,
        ensures
            final(self)@ == (GridView { cells: old(self)@.cells.update(y as int, row@), ..old(self)@ }),
            final(self)@.wf(),
    {
        self.cells.set(y, row);
        proof {
            assert(self@ =~~= (GridView {
                cells: old(self)@.cells.update(y as int, row@),
                ..old(self)@
            }));
        }
    }

    /// Marks row `y` dirty.
    pub(crate) fn mark_dirty(&mut self, y: usize)
        requires
            old(self)@.wf(),
            y < old(self)@.rows,
        ensures
            final(self)@ == (GridView { dirty: old(self)@.dirty.update(y as int, true), ..old(self)@ }),
            final(self)@.wf(),
    {
        self.dirty_lines.set(y, true);
        proof {
            assert(self@ =~~= (GridView {
                dirty: old(self)@.dirty.update(y as int, true),
                ..old(self)@
            }));
        }
    }

    /// An internally consistent copy of the whole grid, for a renderer.
    pub fn snapshot(&self) -> (g: TerminalGrid)
        requires
            self@.wf(),
        ensures
            g@ == self@,
            g@.wf(),
    {
        let mut cells: Vec<Vec<TerminalCell>> = Vec::new();
        let mut i: usize = 0;
        while i < self.cells.len()
            invariant
                i <= self.cells@.len(),
                cells@.len() == i,
                forall|a: int| 0 <= a < i ==> (#[trigger] cells@[a])@ == self@.cells[a],
            decreases self.cells@.len() - i,
        {
            let src_row = &self.cells[i];
            let mut row: Vec<TerminalCell> = Vec::new();
            let mut j: usize = 0;
            while j < src_row.len()
                invariant
                    j <= src_row@.len(),
                    row@.len() == j,
                    forall|b: int| 0 <= b < j ==> row@[b] == src_row@[b],
                decreases src_row@.len() - j,
            {
                let c = src_row[j];
                row.push(c);
                j = j + 1;
            }
            proof {
                assert(row@ =~= src_row@);
            }
            cells.push(row);
            i = i + 1;
        }
        let mut dirty_lines: Vec<bool> = Vec::new();
        let mut y: usize = 0;
        while y < self.dirty_lines.len()
            invariant
                y <= self.dirty_lines@.len(),
                dirty_lines@.len() == y,
                forall|a: int| 0 <= a < y ==> dirty_lines@[a] == self.dirty_lines@[a],
            decreases self.dirty_lines@.len() - y,
        {
            let d = self.dirty_lines[y];
            dirty_lines.push(d);
            y = y + 1;
        }
        let g = TerminalGrid {
            cells,
            cursor: self.cursor,
            size: self.size,
            title: self.title.clone(),
            dirty_lines,
        };
        proof {
            assert(g@ =~~= self@);
        }
        g
    }
}

} // verus!
