//! The escape-sequence interpreter: a byte-driven state machine over the
//! states Ground, Escape, Csi and Osc that mutates a `TerminalGrid` and
//! tracks the pen (the colours and styles applied to printed cells).
//!
//! The whole byte semantics is captured by the transition function [`step`]
//! (one byte) and [`run`] (a byte sequence); the executable interpreter is
//! proved to follow them exactly.  Bytes are treated as single-width scalar
//! characters; multi-byte encodings are out of scope.

use vstd::prelude::*;

use crate::grid::Color;
use crate::grid::GridView;
use crate::grid::TerminalCell;
use crate::grid::TerminalCursor;
use crate::grid::TerminalGrid;
use crate::grid::blank_row;
use crate::grid::default_cell;
use crate::grid::grid_move_cursor;
use crate::grid::grid_put_char;
use crate::grid::grid_scroll_up;

verus! {

/// The pen: the colours and the bold flag applied to every printed cell
/// until an SGR sequence changes them.
#[derive(Clone, Copy, PartialEq, Eq, Structural, Debug)]
pub struct Pen {
    pub fg: Color,
    pub bg: Color,
    pub bold: bool,
}

/// The pen after a reset: default colours, not bold.
pub open spec fn pen_default() -> Pen {
    Pen { fg: Color::Default, bg: Color::Default, bold: false }
}

/// The transient parser state, owned solely by the interpreter.
pub enum ParserState {
    /// Plain bytes: printable characters and C0 controls.
    Ground,
    /// An ESC byte was seen and the introducer is awaited.
    Escape,
    /// Inside `ESC [`: collecting semicolon-separated numeric parameters.
    /// `cur` is the parameter being accumulated; `any` says whether any
    /// parameter byte was seen at all (an absent list takes defaults).
    Csi { params: Vec<u16>, cur: u16, any: bool },
    /// Inside `ESC ]`: collecting a string until BEL or ST; `esc` says
    /// whether the previous byte was ESC (a possible ST terminator).
    Osc { data: Vec<u8>, esc: bool },
}

/// The mathematical value of a `ParserState`.
#[verifier::ext_equal]
pub enum ParserView {
    Ground,
    Escape,
    Csi { params: Seq<u16>, cur: u16, any: bool },
    Osc { data: Seq<u8>, esc: bool },
}

impl View for ParserState {
    type V = ParserView;

    open spec fn view(&self) -> ParserView {
        match self {
            ParserState::Ground => ParserView::Ground,
            ParserState::Escape => ParserView::Escape,
            ParserState::Csi { params, cur, any } => ParserView::Csi {
                params: params@,
                cur: *cur,
                any: *any,
            },
            ParserState::Osc { data, esc } => ParserView::Osc { data: data@, esc: *esc },
        }
    }
}

/// The complete state the interpreter acts on: parser state, pen, and the
/// grid it mutates.
#[verifier::ext_equal]
pub struct EmuView {
    pub parser: ParserView,
    pub pen: Pen,
    pub grid: GridView,
}

impl EmuView {
    /// Well-formedness of the grid part.
    pub open spec fn wf(self) -> bool {
        self.grid.wf()
    }
}

/// The single-width scalar a byte prints as.
pub open spec fn byte_char(b: u8) -> char {
    b as char
}

/// Whether a byte prints in the Ground state: everything from space
/// upwards, except DEL.
pub open spec fn printable(b: u8) -> bool {
    0x20 <= b && b != 0x7f
}

/// Line feed: the cursor moves down one row, scrolling when it already
/// stands on the last row.
pub open spec fn grid_line_feed(g: GridView) -> GridView {
    if g.cursor_y < g.rows - 1 {
        GridView { cursor_y: g.cursor_y + 1, ..g }
    } else {
        grid_scroll_up(g, 1)
    }
}

/// Carriage return: the cursor moves to column 0.
pub open spec fn grid_carriage_return(g: GridView) -> GridView {
    GridView { cursor_x: 0, ..g }
}

/// Tab: the cursor advances to the next multiple-of-8 column, clamped to
/// the last column.
pub open spec fn grid_tab(g: GridView) -> GridView {
    let next = (g.cursor_x / 8 + 1) * 8;
    GridView { cursor_x: if next < g.cols { next } else { g.cols - 1 }, ..g }
}

/// Backspace: the cursor moves one column left, floored at column 0.
pub open spec fn grid_backspace(g: GridView) -> GridView {
    GridView { cursor_x: if g.cursor_x > 0 { g.cursor_x - 1 } else { 0 }, ..g }
}

/// Printing one character: the cell under the cursor is written with the
/// pen, then the cursor advances with wraparound, scrolling one row when it
/// stood on the bottom-right cell.
pub open spec fn grid_print(g: GridView, ch: char, pen: Pen) -> GridView {
    let g1 = grid_put_char(g, ch, pen.fg, pen.bg, pen.bold);
    if g.cursor_x < g.cols - 1 {
        GridView { cursor_x: g.cursor_x + 1, ..g1 }
    } else if g.cursor_y < g.rows - 1 {
        GridView { cursor_x: 0, cursor_y: g.cursor_y + 1, ..g1 }
    } else {
        GridView { cursor_x: 0, ..grid_scroll_up(g1, 1) }
    }
}

fn do_line_feed(grid: &mut TerminalGrid)
    requires
        old(grid)@.wf(),
    ensures
        final(grid)@ == grid_line_feed(old(grid)@),
        final(grid)@.wf(),
{
    let y = grid.cursor.y;
    let rows = grid.size.1;
    if y + 1 < rows {
        let x = grid.cursor.x;
        grid.move_cursor(x, y + 1);
    } else {
        grid.scroll_up(1);
    }
    proof {
        assert(grid@ =~~= grid_line_feed(old(grid)@));
    }
}

fn do_carriage_return(grid: &mut TerminalGrid)
    requires
        old(grid)@.wf(),
    ensures
        final(grid)@ == grid_carriage_return(old(grid)@),
        final(grid)@.wf(),
{
    let y = grid.cursor.y;
    grid.move_cursor(0, y);
    proof {
        assert(grid@ =~~= grid_carriage_return(old(grid)@));
    }
}

fn do_tab(grid: &mut TerminalGrid)
    requires
        old(grid)@.wf(),
    ensures
        final(grid)@ == grid_tab(old(grid)@),
        final(grid)@.wf(),
{
    let x = grid.cursor.x;
    let y = grid.cursor.y;
    let cols = grid.size.0;
    let next128: u128 = (x as u128 / 8 + 1) * 8;
    let target: usize = if next128 < cols as u128 {
        next128 as usize
    } else {
        cols - 1
    };
    grid.move_cursor(target, y);
    proof {
        assert(grid@ =~~= grid_tab(old(grid)@));
    }
}

fn do_backspace(grid: &mut TerminalGrid)
    requires
        old(grid)@.wf(),
    ensures
        final(grid)@ == grid_backspace(old(grid)@),
        final(grid)@.wf(),
{
    let x = grid.cursor.x;
    let y = grid.cursor.y;
    let target: usize = if x > 0 {
        x - 1
    } else {
        0
    };
    grid.move_cursor(target, y);
    proof {
        assert(grid@ =~~= grid_backspace(old(grid)@));
    }
}

fn do_print(grid: &mut TerminalGrid, ch: char, pen: Pen)
    requires
        old(grid)@.wf(),
    ensures
        final(grid)@ == grid_print(old(grid)@, ch, pen),
        final(grid)@.wf(),
{
    grid.put_char(ch, pen.fg, pen.bg, pen.bold);
    let x = grid.cursor.x;
    let y = grid.cursor.y;
    let cols = grid.size.0;
    let rows = grid.size.1;
    if x < cols - 1 {
        grid.move_cursor(x + 1, y);
    } else if y < rows - 1 {
        grid.move_cursor(0, y + 1);
    } else {
        grid.scroll_up(1);
        grid.move_cursor(0, y);
    }
    proof {
        assert(grid@ =~~= grid_print(old(grid)@, ch, pen));
    }
}

/// The `i`-th numeric parameter of a CSI sequence, or `default` when it was
/// omitted.
pub open spec fn csi_param(ps: Seq<u16>, i: int, default: int) -> int {
    if 0 <= i < ps.len() {
        ps[i] as int
    } else {
        default
    }
}

/// The basic colour with code `30 + i` (foreground) or `40 + i`
/// (background).
pub open spec fn basic_color(i: int) -> Color {
    if i == 0 {
        Color::Black
    } else if i == 1 {
        Color::Red
    } else if i == 2 {
        Color::Green
    } else if i == 3 {
        Color::Yellow
    } else if i == 4 {
        Color::Blue
    } else if i == 5 {
        Color::Magenta
    } else if i == 6 {
        Color::Cyan
    } else {
        Color::White
    }
}

/// The bright colour with code `90 + i`.
pub open spec fn bright_color(i: int) -> Color {
    if i == 0 {
        Color::BrightBlack
    } else if i == 1 {
        Color::BrightRed
    } else if i == 2 {
        Color::BrightGreen
    } else if i == 3 {
        Color::BrightYellow
    } else if i == 4 {
        Color::BrightBlue
    } else if i == 5 {
        Color::BrightMagenta
    } else if i == 6 {
        Color::BrightCyan
    } else {
        Color::BrightWhite
    }
}

/// One SGR parameter applied to the pen: 0 resets everything, 1/22 set and
/// clear bold, 30-37/39 select the foreground, 40-47/49 the background,
/// 90-97 the bright foregrounds; anything else is ignored.
pub open spec fn sgr_apply(pen: Pen, p: u16) -> Pen {
    if p == 0 {
        pen_default()
    } else if p == 1 {
        Pen { bold: true, ..pen }
    } else if p == 22 {
        Pen { bold: false, ..pen }
    } else if 30 <= p <= 37 {
        Pen { fg: basic_color(p - 30), ..pen }
    } else if p == 39 {
        Pen { fg: Color::Default, ..pen }
    } else if 40 <= p <= 47 {
        Pen { bg: basic_color(p - 40), ..pen }
    } else if p == 49 {
        Pen { bg: Color::Default, ..pen }
    } else if 90 <= p <= 97 {
        Pen { fg: bright_color(p - 90), ..pen }
    } else {
        pen
    }
}

/// A whole SGR parameter list applied left to right.
pub open spec fn sgr_run(pen: Pen, ps: Seq<u16>) -> Pen
    decreases ps.len(),
{
    if ps.len() == 0 {
        pen
    } else {
        sgr_run(sgr_apply(pen, ps[0]), ps.drop_first())
    }
}

/// Erase-in-line at the cursor's row: mode 0 clears from the cursor to the
/// end of the line, mode 1 from the start through the cursor, mode 2 the
/// whole line; other modes clear nothing.  The row is marked dirty in every
/// case.
pub open spec fn erase_in_line(g: GridView, mode: int) -> GridView {
    let y = g.cursor_y;
    let row = g.cells[y];
    let row2 = if mode == 0 {
        Seq::new(row.len(), |j: int| if j >= g.cursor_x { default_cell() } else { row[j] })
    } else if mode == 1 {
        Seq::new(row.len(), |j: int| if j <= g.cursor_x { default_cell() } else { row[j] })
    } else if mode == 2 {
        blank_row(g.cols)
    } else {
        row
    };
    GridView { cells: g.cells.update(y, row2), dirty: g.dirty.update(y, true), ..g }
}

/// Erase-in-display: mode 0 clears from the cursor to the end of the
/// screen, mode 1 from the start of the screen through the cursor, mode 2
/// the whole screen, additionally homing the cursor; other modes clear
/// nothing.  Fully cleared rows are marked dirty; the partially cleared
/// cursor row keeps its flag.
pub open spec fn erase_in_display(g: GridView, mode: int) -> GridView {
    let x = g.cursor_x;
    let y = g.cursor_y;
    if mode == 0 {
        GridView {
            cells: Seq::new(
                g.cells.len(),
                |i: int|
                    if i < y {
                        g.cells[i]
                    } else if i == y {
                        Seq::new(
                            g.cells[y].len(),
                            |j: int| if j >= x { default_cell() } else { g.cells[y][j] },
                        )
                    } else {
                        blank_row(g.cols)
                    },
            ),
            dirty: Seq::new(g.dirty.len(), |i: int| if i > y { true } else { g.dirty[i] }),
            ..g
        }
    } else if mode == 1 {
        GridView {
            cells: Seq::new(
                g.cells.len(),
                |i: int|
                    if i < y {
                        blank_row(g.cols)
                    } else if i == y {
                        Seq::new(
                            g.cells[y].len(),
                            |j: int| if j <= x { default_cell() } else { g.cells[y][j] },
                        )
                    } else {
                        g.cells[i]
                    },
            ),
            dirty: Seq::new(g.dirty.len(), |i: int| if i < y { true } else { g.dirty[i] }),
            ..g
        }
    } else if mode == 2 {
        GridView {
            cells: Seq::new(g.cells.len(), |i: int| blank_row(g.cols)),
            dirty: Seq::new(g.dirty.len(), |i: int| true),
            cursor_x: 0,
            cursor_y: 0,
            cursor_visible: true,
            ..g
        }
    } else {
        g
    }
}

/// A dispatched CSI sequence: the final byte selects the action, the
/// collected parameters feed it (with their documented defaults), and every
/// resulting coordinate is clamped to the grid bounds.  Unrecognised final
/// bytes change nothing.
pub open spec fn csi_apply(g: GridView, pen: Pen, ps: Seq<u16>, b: u8) -> (Pen, GridView) {
    if b == 0x48 || b == 0x66 {  // 'H' | 'f': cursor position, 1-based
        let row = csi_param(ps, 0, 1);
        let col = csi_param(ps, 1, 1);
        (
            pen,
            grid_move_cursor(
                g,
                if col >= 1 { col - 1 } else { 0 },
                if row >= 1 { row - 1 } else { 0 },
            ),
        )
    } else if b == 0x41 {  // 'A': cursor up
        let n = csi_param(ps, 0, 1);
        (pen, GridView { cursor_y: if g.cursor_y - n > 0 { g.cursor_y - n } else { 0 }, ..g })
    } else if b == 0x42 {  // 'B': cursor down
        let n = csi_param(ps, 0, 1);
        (
            pen,
            GridView {
                cursor_y: if g.cursor_y + n < g.rows { g.cursor_y + n } else { g.rows - 1 },
                ..g
            },
        )
    } else if b == 0x43 {  // 'C': cursor forward
        let n = csi_param(ps, 0, 1);
        (
            pen,
            GridView {
                cursor_x: if g.cursor_x + n < g.cols { g.cursor_x + n } else { g.cols - 1 },
                ..g
            },
        )
    } else if b == 0x44 {  // 'D': cursor back
        let n = csi_param(ps, 0, 1);
        (pen, GridView { cursor_x: if g.cursor_x - n > 0 { g.cursor_x - n } else { 0 }, ..g })
    } else if b == 0x4b {  // 'K': erase in line
        (pen, erase_in_line(g, csi_param(ps, 0, 0)))
    } else if b == 0x4a {  // 'J': erase in display
        (pen, erase_in_display(g, csi_param(ps, 0, 0)))
    } else if b == 0x6d {  // 'm': select graphic rendition
        (sgr_run(pen, if ps.len() == 0 { seq![0u16] } else { ps }), g)
    } else {
        (pen, g)
    }
}

/// Applying one more SGR parameter at the end of a list is applying the
/// list and then the parameter.
proof fn lemma_sgr_run_snoc(pen: Pen, ps: Seq<u16>, p: u16)
    ensures
        sgr_run(pen, ps.push(p)) == sgr_apply(sgr_run(pen, ps), p),
    decreases ps.len(),
{
    if ps.len() == 0 {
        assert(ps.push(p)[0] == p);
        assert(ps.push(p).drop_first() =~= Seq::<u16>::empty());
        assert(sgr_run(pen, ps.push(p)) == sgr_run(sgr_apply(pen, p), Seq::<u16>::empty()));
        assert(sgr_run(sgr_apply(pen, p), Seq::<u16>::empty()) == sgr_apply(pen, p));
        assert(sgr_run(pen, ps) == pen);
    } else {
        assert(ps.push(p)[0] == ps[0]);
        assert(ps.push(p).drop_first() =~= ps.drop_first().push(p));
        assert(sgr_run(pen, ps.push(p)) == sgr_run(sgr_apply(pen, ps[0]), ps.drop_first().push(p)));
        lemma_sgr_run_snoc(sgr_apply(pen, ps[0]), ps.drop_first(), p);
        assert(sgr_run(pen, ps) == sgr_run(sgr_apply(pen, ps[0]), ps.drop_first()));
    }
}

fn exec_basic_color(i: u16) -> (c: Color)
    requires
        i <= 7,
    ensures
        c == basic_color(i as int),
{
    if i == 0 {
        Color::Black
    } else if i == 1 {
        Color::Red
    } else if i == 2 {
        Color::Green
    } else if i == 3 {
        Color::Yellow
    } else if i == 4 {
        Color::Blue
    } else if i == 5 {
        Color::Magenta
    } else if i == 6 {
        Color::Cyan
    } else {
        Color::White
    }
}

fn exec_bright_color(i: u16) -> (c: Color)
    requires
        i <= 7,
    ensures
        c == bright_color(i as int),
{
    if i == 0 {
        Color::BrightBlack
    } else if i == 1 {
        Color::BrightRed
    } else if i == 2 {
        Color::BrightGreen
    } else if i == 3 {
        Color::BrightYellow
    } else if i == 4 {
        Color::BrightBlue
    } else if i == 5 {
        Color::BrightMagenta
    } else if i == 6 {
        Color::BrightCyan
    } else {
        Color::BrightWhite
    }
}

fn exec_sgr_apply(pen: Pen, p: u16) -> (r: Pen)
    ensures
        r == sgr_apply(pen, p),
{
    if p == 0 {
        Pen { fg: Color::Default, bg: Color::Default, bold: false }
    } else if p == 1 {
        Pen { bold: true, ..pen }
    } else if p == 22 {
        Pen { bold: false, ..pen }
    } else if 30 <= p && p <= 37 {
        Pen { fg: exec_basic_color(p - 30), ..pen }
    } else if p == 39 {
        Pen { fg: Color::Default, ..pen }
    } else if 40 <= p && p <= 47 {
        Pen { bg: exec_basic_color(p - 40), ..pen }
    } else if p == 49 {
        Pen { bg: Color::Default, ..pen }
    } else if 90 <= p && p <= 97 {
        Pen { fg: exec_bright_color(p - 90), ..pen }
    } else {
        pen
    }
}

fn exec_sgr(pen: Pen, params: &Vec<u16>) -> (r: Pen)
    ensures
        r == sgr_run(pen, if params@.len() == 0 { seq![0u16] } else { params@ }),
{
    if params.len() == 0 {
        let r = exec_sgr_apply(pen, 0);
        proof {
            assert(seq![0u16].drop_first() =~= Seq::<u16>::empty());
            assert(sgr_run(pen, seq![0u16]) == sgr_run(sgr_apply(pen, 0), Seq::<u16>::empty()));
            assert(sgr_run(sgr_apply(pen, 0), Seq::<u16>::empty()) == sgr_apply(pen, 0));
        }
        r
    } else {
        let mut p = pen;
        let mut i: usize = 0;
        while i < params.len()
            invariant
                i <= params@.len(),
                p == sgr_run(pen, params@.subrange(0, i as int)),
            decreases params@.len() - i,
        {
            proof {
                assert(params@.subrange(0, i as int).push(params@[i as int]) =~= params@.subrange(
                    0,
                    i as int + 1,
                ));
                lemma_sgr_run_snoc(pen, params@.subrange(0, i as int), params@[i as int]);
            }
            p = exec_sgr_apply(p, params[i]);
            i = i + 1;
        }
        proof {
            assert(params@.subrange(0, params@.len() as int) =~= params@);
        }
        p
    }
}

/// The `i`-th collected parameter, or `default` when it was omitted.
fn param_or(params: &Vec<u16>, i: usize, default: u16) -> (r: u16)
    ensures
        r as int == csi_param(params@, i as int, default as int),
{
    if i < params.len() {
        params[i]
    } else {
        default
    }
}

fn do_erase_line(grid: &mut TerminalGrid, mode: u16)
    requires
        old(grid)@.wf(),
    ensures
        final(grid)@ == erase_in_line(old(grid)@, mode as int),
        final(grid)@.wf(),
{
    let y = grid.cursor.y;
    let x = grid.cursor.x;
    let cols = grid.size.0;
    if mode == 0 || mode == 1 {
        let mut row: Vec<TerminalCell> = Vec::new();
        let mut j: usize = 0;
        while j < cols
            invariant
                old(grid) == grid,
                old(grid)@.wf(),
                y == grid.cursor.y,
                x == grid.cursor.x,
                cols == grid.size.0,
                mode == 0 || mode == 1,
                j <= cols,
                row@.len() == j,
                forall|k: int|
                    0 <= k < j ==> row@[k] == (
                    if (mode == 0 && k >= x) || (mode == 1 && k <= x) {
                        default_cell()
                    } else {
                        grid@.cells[y as int][k]
                    }),
            decreases cols - j,
        {
            let erased = if mode == 0 {
                j >= x
            } else {
                j <= x
            };
            if erased {
                row.push(TerminalCell::default());
            } else {
                let c = grid.cells[y][j];
                row.push(c);
            }
            j = j + 1;
        }
        proof {
            assert(row@ =~= erase_in_line(grid@, mode as int).cells[y as int]);
        }
        grid.set_row(y, row);
        grid.mark_dirty(y);
    } else if mode == 2 {
        grid.clear_line(y);
        grid.mark_dirty(y);
    } else {
        grid.mark_dirty(y);
    }
    proof {
        assert(grid@ =~~= erase_in_line(old(grid)@, mode as int));
    }
}

fn do_erase_display(grid: &mut TerminalGrid, mode: u16)
    requires
        old(grid)@.wf(),
    ensures
        final(grid)@ == erase_in_display(old(grid)@, mode as int),
        final(grid)@.wf(),
{
    let y = grid.cursor.y;
    let x = grid.cursor.x;
    let cols = grid.size.0;
    let rows = grid.size.1;
    if mode == 0 {
        let mut row: Vec<TerminalCell> = Vec::new();
        let mut j: usize = 0;
        while j < cols
            invariant
                old(grid) == grid,
                old(grid)@.wf(),
                y == grid.cursor.y,
                x == grid.cursor.x,
                cols == grid.size.0,
                j <= cols,
                row@.len() == j,
                forall|k: int|
                    0 <= k < j ==> row@[k] == (
                    if k >= x {
                        default_cell()
                    } else {
                        grid@.cells[y as int][k]
                    }),
            decreases cols - j,
        {
            if j >= x {
                row.push(TerminalCell::default());
            } else {
                let c = grid.cells[y][j];
                row.push(c);
            }
            j = j + 1;
        }
        grid.set_row(y, row);
        let mut i: usize = y + 1;
        while i < rows
            invariant
                old(grid)@.wf(),
                y < rows,
                y + 1 <= i <= rows,
                rows == grid.size.1,
                grid.size == old(grid).size,
                grid.cursor == old(grid).cursor,
                grid@.title == old(grid)@.title,
                grid@.cells.len() == old(grid)@.cells.len(),
                grid@.dirty.len() == old(grid)@.dirty.len(),
                forall|a: int|
                    0 <= a < grid@.cells.len() ==> #[trigger] grid@.cells[a] == (
                    if a < y {
                        old(grid)@.cells[a]
                    } else if a == y {
                        erase_in_display(old(grid)@, 0).cells[y as int]
                    } else if a < i {
                        blank_row(old(grid)@.cols)
                    } else {
                        old(grid)@.cells[a]
                    }),
                forall|a: int|
                    0 <= a < grid@.dirty.len() ==> #[trigger] grid@.dirty[a] == (
                    if y < a < i {
                        true
                    } else {
                        old(grid)@.dirty[a]
                    }),
            decreases rows - i,
        {
            grid.clear_line(i);
            i = i + 1;
        }
        proof {
            assert(grid@ =~~= erase_in_display(old(grid)@, 0));
        }
    } else if mode == 1 {
        let mut i: usize = 0;
        while i < y
            invariant
                old(grid)@.wf(),
                i <= y,
                y < grid.size.1,
                grid.size == old(grid).size,
                grid.cursor == old(grid).cursor,
                grid@.title == old(grid)@.title,
                grid@.cells.len() == old(grid)@.cells.len(),
                grid@.dirty.len() == old(grid)@.dirty.len(),
                forall|a: int|
                    0 <= a < grid@.cells.len() ==> #[trigger] grid@.cells[a] == (
                    if a < i {
                        blank_row(old(grid)@.cols)
                    } else {
                        old(grid)@.cells[a]
                    }),
                forall|a: int|
                    0 <= a < grid@.dirty.len() ==> #[trigger] grid@.dirty[a] == (
                    if a < i {
                        true
                    } else {
                        old(grid)@.dirty[a]
                    }),
            decreases y - i,
        {
            grid.clear_line(i);
            i = i + 1;
        }
        let ghost mid = grid@;
        let mut row: Vec<TerminalCell> = Vec::new();
        let mut j: usize = 0;
        while j < cols
            invariant
                old(grid)@.wf(),
                mid == grid@,
                mid.wf(),
                y == grid.cursor.y,
                x == grid.cursor.x,
                cols == grid.size.0,
                y < grid.size.1,
                grid@.cells[y as int] == old(grid)@.cells[y as int],
                j <= cols,
                row@.len() == j,
                forall|k: int|
                    0 <= k < j ==> row@[k] == (
                    if k <= x {
                        default_cell()
                    } else {
                        old(grid)@.cells[y as int][k]
                    }),
            decreases cols - j,
        {
            if j <= x {
                row.push(TerminalCell::default());
            } else {
                let c = grid.cells[y][j];
                row.push(c);
            }
            j = j + 1;
        }
        grid.set_row(y, row);
        proof {
            assert(grid@ =~~= erase_in_display(old(grid)@, 1));
        }
    } else if mode == 2 {
        let mut i: usize = 0;
        while i < rows
            invariant
                old(grid)@.wf(),
                i <= rows,
                rows == grid.size.1,
                grid.size == old(grid).size,
                grid.cursor == old(grid).cursor,
                grid@.title == old(grid)@.title,
                grid@.cells.len() == old(grid)@.cells.len(),
                grid@.dirty.len() == old(grid)@.dirty.len(),
                forall|a: int|
                    0 <= a < grid@.cells.len() ==> #[trigger] grid@.cells[a] == (
                    if a < i {
                        blank_row(old(grid)@.cols)
                    } else {
                        old(grid)@.cells[a]
                    }),
                forall|a: int|
                    0 <= a < grid@.dirty.len() ==> #[trigger] grid@.dirty[a] == (
                    if a < i {
                        true
                    } else {
                        old(grid)@.dirty[a]
                    }),
            decreases rows - i,
        {
            grid.clear_line(i);
            i = i + 1;
        }
        grid.cursor = TerminalCursor { x: 0, y: 0, visible: true };
        proof {
            assert(grid@ =~~= erase_in_display(old(grid)@, 2));
        }
    } else {
        proof {
            assert(grid@ =~~= erase_in_display(old(grid)@, mode as int));
        }
    }
}


/// Applies a dispatched CSI sequence to the grid and returns the new pen.
fn apply_csi(grid: &mut TerminalGrid, pen: Pen, params: &Vec<u16>, b: u8) -> (r: Pen)
    requires
        old(grid)@.wf(),
    ensures
        r == csi_apply(old(grid)@, pen, params@, b).0,
        final(grid)@ == csi_apply(old(grid)@, pen, params@, b).1,
        final(grid)@.wf(),
{
    let cols = grid.size.0;
    let rows = grid.size.1;
    if b == 0x48 || b == 0x66 {
        let row = param_or(params, 0, 1);
        let col = param_or(params, 1, 1);
        let xt: usize = if col >= 1 {
            (col - 1) as usize
        } else {
            0
        };
        let yt: usize = if row >= 1 {
            (row - 1) as usize
        } else {
            0
        };
        grid.move_cursor(xt, yt);
        proof {
            assert(grid@ =~~= csi_apply(old(grid)@, pen, params@, b).1);
        }
        pen
    } else if b == 0x41 {
        let n = param_or(params, 0, 1) as usize;
        let y = grid.cursor.y;
        let x = grid.cursor.x;
        let yt = if y >= n {
            y - n
        } else {
            0
        };
        grid.move_cursor(x, yt);
        proof {
            assert(grid@ =~~= csi_apply(old(grid)@, pen, params@, b).1);
        }
        pen
    } else if b == 0x42 {
        let n = param_or(params, 0, 1) as usize;
        let y = grid.cursor.y;
        let x = grid.cursor.x;
        let yt = if n < rows - y {
            y + n
        } else {
            rows - 1
        };
        grid.move_cursor(x, yt);
        proof {
            assert(grid@ =~~= csi_apply(old(grid)@, pen, params@, b).1);
        }
        pen
    } else if b == 0x43 {
        let n = param_or(params, 0, 1) as usize;
        let y = grid.cursor.y;
        let x = grid.cursor.x;
        let xt = if n < cols - x {
            x + n
        } else {
            cols - 1
        };
        grid.move_cursor(xt, y);
        proof {
            assert(grid@ =~~= csi_apply(old(grid)@, pen, params@, b).1);
        }
        pen
    } else if b == 0x44 {
        let n = param_or(params, 0, 1) as usize;
        let y = grid.cursor.y;
        let x = grid.cursor.x;
        let xt = if x >= n {
            x - n
        } else {
            0
        };
        grid.move_cursor(xt, y);
        proof {
            assert(grid@ =~~= csi_apply(old(grid)@, pen, params@, b).1);
        }
        pen
    } else if b == 0x4b {
        let m = param_or(params, 0, 0);
        do_erase_line(grid, m);
        pen
    } else if b == 0x4a {
        let m = param_or(params, 0, 0);
        do_erase_display(grid, m);
        pen
    } else if b == 0x6d {
        exec_sgr(pen, params)
    } else {
        pen
    }
}

/// The index of the first semicolon in an OSC payload, if any.
pub open spec fn first_semi(data: Seq<u8>) -> Option<int>
    decreases data.len(),
{
    if data.len() == 0 {
        Option::None
    } else if data[0] == 0x3b {
        Option::Some(0)
    } else {
        match first_semi(data.drop_first()) {
            Option::Some(i) => Option::Some(i + 1),
            Option::None => Option::None,
        }
    }
}

proof fn lemma_first_semi_some(data: Seq<u8>, i: int)
    requires
        0 <= i < data.len(),
        data[i] == 0x3b,
        forall|j: int| 0 <= j < i ==> data[j] != 0x3b,
    ensures
        first_semi(data) == Option::Some(i),
    decreases data.len(),
{
    if i == 0 {
    } else {
        assert(forall|j: int| 0 <= j < i - 1 ==> data.drop_first()[j] != 0x3b);
        lemma_first_semi_some(data.drop_first(), i - 1);
    }
}

proof fn lemma_first_semi_none(data: Seq<u8>)
    requires
        forall|j: int| 0 <= j < data.len() ==> data[j] != 0x3b,
    ensures
        first_semi(data) is None,
    decreases data.len(),
{
    if data.len() > 0 {
        assert(forall|j: int|
            0 <= j < data.drop_first().len() ==> data.drop_first()[j] != 0x3b);
        lemma_first_semi_none(data.drop_first());
    }
}

/// A dispatched OSC payload: `0;<title>` or `2;<title>` sets the grid's
/// title to everything after the first semicolon; any other payload is
/// ignored.
pub open spec fn osc_apply(g: GridView, data: Seq<u8>) -> GridView {
    match first_semi(data) {
        Option::Some(i) => {
            if i == 1 && (data[0] == 0x30 || data[0] == 0x32) {
                GridView {
                    title: data.subrange(i + 1, data.len() as int).map_values(
                        |b: u8| byte_char(b),
                    ),
                    ..g
                }
            } else {
                g
            }
        },
        Option::None => g,
    }
}

/// Relies on `String::push`: appends the given character to the end of the
/// string.
#[verifier::external_body]
fn push_char(s: &mut String, c: char)
    ensures
        final(s)@ == old(s)@.push(c),
{
    s.push(c);
}

fn find_semicolon(data: &Vec<u8>) -> (r: Option<usize>)
    ensures
        match r {
            Option::Some(i) => first_semi(data@) == Option::Some(i as int) && i < data@.len(),
            Option::None => first_semi(data@) is None,
        },
{
    let n = data.len();
    let mut i: usize = 0;
    while i < n
        invariant
            i <= n,
            n == data@.len(),
            forall|j: int| 0 <= j < i ==> data@[j] != 0x3b,
        decreases n - i,
    {
        if data[i] == 0x3b {
            proof {
                lemma_first_semi_some(data@, i as int);
            }
            return Some(i);
        }
        i = i + 1;
    }
    proof {
        lemma_first_semi_none(data@);
    }
    None
}

fn osc_dispatch(grid: &mut TerminalGrid, data: &Vec<u8>)
    requires
        old(grid)@.wf(),
    ensures
        final(grid)@ == osc_apply(old(grid)@, data@),
        final(grid)@.wf(),
{
    let semi = find_semicolon(data);
    match semi {
        Some(i) => {
            if i == 1 && (data[0] == 0x30 || data[0] == 0x32) {
                let n = data.len();
                let mut title = String::new();
                let mut j: usize = i + 1;
                while j < n
                    invariant
                        i + 1 <= j <= n,
                        n == data@.len(),
                        title@.len() == j - (i + 1),
                        forall|k: int|
                            0 <= k < title@.len() ==> title@[k] == byte_char(
                                data@[i as int + 1 + k],
                            ),
                    decreases n - j,
                {
                    let b = data[j];
                    push_char(&mut title, b as char);
                    j = j + 1;
                }
                proof {
                    assert(title@ =~= data@.subrange(i as int + 1, data@.len() as int).map_values(
                        |b: u8| byte_char(b),
                    ));
                }
                grid.title = title;
                proof {
                    assert(grid@ =~~= osc_apply(old(grid)@, data@));
                }
            } else {
                proof {
                    assert(grid@ =~~= osc_apply(old(grid)@, data@));
                }
            }
        },
        None => {
            proof {
                assert(grid@ =~~= osc_apply(old(grid)@, data@));
            }
        },
    }
}

/// One byte in the Ground state: ESC starts an escape sequence, the C0
/// controls LF, CR, TAB and BS act on the cursor, printable bytes print,
/// and every other byte is ignored.
pub open spec fn step_ground(s: EmuView, b: u8) -> EmuView {
    if b == 0x1b {
        EmuView { parser: ParserView::Escape, ..s }
    } else if b == 0x0a {
        EmuView { grid: grid_line_feed(s.grid), ..s }
    } else if b == 0x0d {
        EmuView { grid: grid_carriage_return(s.grid), ..s }
    } else if b == 0x09 {
        EmuView { grid: grid_tab(s.grid), ..s }
    } else if b == 0x08 {
        EmuView { grid: grid_backspace(s.grid), ..s }
    } else if printable(b) {
        EmuView { grid: grid_print(s.grid, byte_char(b), s.pen), ..s }
    } else {
        s
    }
}

/// One byte in the Escape state: `[` starts a CSI sequence, `]` an OSC
/// string; any other byte is accepted and discarded.
pub open spec fn step_escape(s: EmuView, b: u8) -> EmuView {
    if b == 0x5b {
        EmuView {
            parser: ParserView::Csi { params: Seq::empty(), cur: 0, any: false },
            ..s
        }
    } else if b == 0x5d {
        EmuView { parser: ParserView::Osc { data: Seq::empty(), esc: false }, ..s }
    } else {
        EmuView { parser: ParserView::Ground, ..s }
    }
}

/// One byte in the Csi state: digits accumulate the current parameter
/// (saturating), `;` finishes it, a final byte in `0x40..=0x7e` dispatches
/// the sequence, ESC abandons it, and anything else is ignored.
pub open spec fn step_csi(s: EmuView, params: Seq<u16>, cur: u16, any: bool, b: u8) -> EmuView {
    if 0x30 <= b <= 0x39 {
        let d = (b - 0x30) as u16;
        let cur2: u16 = if cur * 10 + d <= 65535 {
            (cur * 10 + d) as u16
        } else {
            65535
        };
        EmuView { parser: ParserView::Csi { params, cur: cur2, any: true }, ..s }
    } else if b == 0x3b {
        EmuView {
            parser: ParserView::Csi { params: params.push(cur), cur: 0, any: true },
            ..s
        }
    } else if 0x40 <= b <= 0x7e {
        let ps = if any {
            params.push(cur)
        } else {
            params
        };
        let r = csi_apply(s.grid, s.pen, ps, b);
        EmuView { parser: ParserView::Ground, pen: r.0, grid: r.1 }
    } else if b == 0x1b {
        EmuView { parser: ParserView::Escape, ..s }
    } else {
        EmuView { parser: ParserView::Csi { params, cur, any }, ..s }
    }
}

/// One byte in the Osc state: BEL or ST (`ESC \`) terminates and dispatches
/// the collected string; a stray ESC followed by another byte dispatches
/// the string and re-enters escape handling; any other byte is collected.
pub open spec fn step_osc(s: EmuView, data: Seq<u8>, esc: bool, b: u8) -> EmuView {
    if esc {
        let dispatched = EmuView { grid: osc_apply(s.grid, data), ..s };
        if b == 0x5c {
            EmuView { parser: ParserView::Ground, ..dispatched }
        } else {
            step_escape(dispatched, b)
        }
    } else if b == 0x07 {
        EmuView { parser: ParserView::Ground, grid: osc_apply(s.grid, data), ..s }
    } else if b == 0x1b {
        EmuView { parser: ParserView::Osc { data, esc: true }, ..s }
    } else {
        EmuView { parser: ParserView::Osc { data: data.push(b), esc: false }, ..s }
    }
}

/// The transition function of the interpreter: one byte applied to the
/// complete state.
pub open spec fn step(s: EmuView, b: u8) -> EmuView {
    match s.parser {
        ParserView::Ground => step_ground(s, b),
        ParserView::Escape => step_escape(s, b),
        ParserView::Csi { params, cur, any } => step_csi(s, params, cur, any, b),
        ParserView::Osc { data, esc } => step_osc(s, data, esc, b),
    }
}

/// A whole byte sequence applied in arrival order.
pub open spec fn run(s: EmuView, bytes: Seq<u8>) -> EmuView
    decreases bytes.len(),
{
    if bytes.len() == 0 {
        s
    } else {
        run(step(s, bytes[0]), bytes.drop_first())
    }
}

/// Running a sequence and then one more byte is running the extended
/// sequence.
pub proof fn lemma_run_snoc(s: EmuView, bytes: Seq<u8>, b: u8)
    ensures
        run(s, bytes.push(b)) == step(run(s, bytes), b),
    decreases bytes.len(),
{
    if bytes.len() == 0 {
        assert(bytes.push(b)[0] == b);
        assert(bytes.push(b).drop_first() =~= Seq::<u8>::empty());
        assert(run(s, bytes.push(b)) == run(step(s, b), Seq::<u8>::empty()));
        assert(run(s, bytes) == s);
    } else {
        assert(bytes.push(b)[0] == bytes[0]);
        assert(bytes.push(b).drop_first() =~= bytes.drop_first().push(b));
        assert(run(s, bytes.push(b)) == run(step(s, bytes[0]), bytes.drop_first().push(b)));
        lemma_run_snoc(step(s, bytes[0]), bytes.drop_first(), b);
        assert(run(s, bytes) == run(step(s, bytes[0]), bytes.drop_first()));
    }
}

/// The byte-driven escape-sequence interpreter: parser state plus pen.  It
/// owns no grid; the grid to mutate is handed to [`Self::advance`].
pub struct EscapeSequenceInterpreter {
    pub state: ParserState,
    pub pen: Pen,
}

impl EscapeSequenceInterpreter {
    /// The complete state formed by this interpreter and a grid.
    pub open spec fn view_with(self, g: GridView) -> EmuView {
        EmuView { parser: self.state@, pen: self.pen, grid: g }
    }

    /// A fresh interpreter: Ground state, default pen.
    pub fn new() -> (r: EscapeSequenceInterpreter)
        ensures
            r.state@ == ParserView::Ground,
            r.pen == pen_default(),
    {
        EscapeSequenceInterpreter {
            state: ParserState::Ground,
            pen: Pen { fg: Color::Default, bg: Color::Default, bold: false },
        }
    }

    /// Consumes one byte, mutating the grid and this interpreter exactly as
    /// the transition function [`step`] says.
    pub fn advance(&mut self, grid: &mut TerminalGrid, b: u8)
        requires
            old(grid)@.wf(),
        ensures
            final(self).view_with(final(grid)@) == step(
                old(self).view_with(old(grid)@),
                b,
            ),
            final(grid)@.wf(),
    {
        let ghost s0 = self.view_with(grid@);
        let mut st = ParserState::Ground;
        core::mem::swap(&mut st, &mut self.state);
        match st {
            ParserState::Ground => {
                if b == 0x1b {
                    self.state = ParserState::Escape;
                } else if b == 0x0a {
                    do_line_feed(grid);
                } else if b == 0x0d {
                    do_carriage_return(grid);
                } else if b == 0x09 {
                    do_tab(grid);
                } else if b == 0x08 {
                    do_backspace(grid);
                } else if b >= 0x20 && b != 0x7f {
                    let pen = self.pen;
                    do_print(grid, b as char, pen);
                }
                proof {
                    assert(self.view_with(grid@) =~~= step(s0, b));
                }
            },
            ParserState::Escape => {
                if b == 0x5b {
                    self.state = ParserState::Csi { params: Vec::new(), cur: 0, any: false };
                } else if b == 0x5d {
                    self.state = ParserState::Osc { data: Vec::new(), esc: false };
                }
                proof {
                    assert(self.view_with(grid@) =~~= step(s0, b));
                }
            },
            ParserState::Csi { mut params, cur, any } => {
                if 0x30 <= b && b <= 0x39 {
                    let d = (b - 0x30) as u16;
                    let cur2: u16 = if (cur as u32) * 10 + (d as u32) <= 65535 {
                        cur * 10 + d
                    } else {
                        65535
                    };
                    self.state = ParserState::Csi { params, cur: cur2, any: true };
                } else if b == 0x3b {
                    params.push(cur);
                    self.state = ParserState::Csi { params, cur: 0, any: true };
                } else if 0x40 <= b && b <= 0x7e {
                    if any {
                        params.push(cur);
                    }
                    let pen = self.pen;
                    let new_pen = apply_csi(grid, pen, &params, b);
                    self.pen = new_pen;
                } else if b == 0x1b {
                    self.state = ParserState::Escape;
                } else {
                    self.state = ParserState::Csi { params, cur, any };
                }
                proof {
                    assert(self.view_with(grid@) =~~= step(s0, b));
                }
            },
            ParserState::Osc { mut data, esc } => {
                if esc {
                    osc_dispatch(grid, &data);
                    if b == 0x5c {
                        // Ground, already in place
                    } else if b == 0x5b {
                        self.state = ParserState::Csi { params: Vec::new(), cur: 0, any: false };
                    } else if b == 0x5d {
                        self.state = ParserState::Osc { data: Vec::new(), esc: false };
                    }
                } else if b == 0x07 {
                    osc_dispatch(grid, &data);
                } else if b == 0x1b {
                    self.state = ParserState::Osc { data, esc: true };
                } else {
                    data.push(b);
                    self.state = ParserState::Osc { data, esc: false };
                }
                proof {
                    assert(self.view_with(grid@) =~~= step(s0, b));
                }
            },
        }
    }

    /// Consumes a whole chunk of bytes in arrival order, as the reader loop
    /// hands them over.
    pub fn advance_bytes(&mut self, grid: &mut TerminalGrid, bytes: &Vec<u8>)
        requires
            old(grid)@.wf(),
        ensures
            final(self).view_with(final(grid)@) == run(
                old(self).view_with(old(grid)@),
                bytes@,
            ),
            final(grid)@.wf(),
    {
        let ghost s0 = self.view_with(grid@);
        let n = bytes.len();
        let mut i: usize = 0;
        while i < n
            invariant
                i <= n,
                n == bytes@.len(),
                s0.grid.wf(),
                grid@.wf(),
                self.view_with(grid@) == run(s0, bytes@.subrange(0, i as int)),
            decreases n - i,
        {
            proof {
                assert(bytes@.subrange(0, i as int).push(bytes@[i as int]) =~= bytes@.subrange(
                    0,
                    i as int + 1,
                ));
                lemma_run_snoc(s0, bytes@.subrange(0, i as int), bytes@[i as int]);
            }
            let b = bytes[i];
            self.advance(grid, b);
            i = i + 1;
        }
        proof {
            assert(bytes@.subrange(0, n as int) =~= bytes@);
        }
    }
}

} // verus!
