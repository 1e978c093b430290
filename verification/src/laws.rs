//! The crate-level laws of the interpreter, stated and proved over the
//! transition function: the grid stays well formed under every byte
//! sequence (so the cursor never leaves the bounds), and printing a full
//! row of characters wraps the cursor exactly once.

use vstd::prelude::*;

use crate::grid::GridView;
use crate::grid::blank_row;
use crate::grid::grid_put_char;
use crate::grid::grid_scroll_up;
use crate::grid::styled_cell;
use crate::interpreter::EmuView;
use crate::interpreter::Pen;
use crate::interpreter::csi_param;
use crate::interpreter::ParserView;
use crate::interpreter::byte_char;
use crate::interpreter::csi_apply;
use crate::interpreter::erase_in_display;
use crate::interpreter::erase_in_line;
use crate::interpreter::grid_print;
use crate::interpreter::printable;
use crate::interpreter::run;
use crate::interpreter::step;
use crate::interpreter::lemma_run_snoc;

verus! {

proof fn lemma_scroll_up_wf(g: GridView, n: int)
    requires
        g.wf(),
        0 <= n,
    ensures
        grid_scroll_up(g, n).wf(),
{
    let g2 = grid_scroll_up(g, n);
    assert forall|i: int| 0 <= i < g2.rows implies (#[trigger] g2.cells[i]).len() == g2.cols by {
        if i + n < g.rows {
            assert(g.cells[i + n].len() == g.cols);
        } else {
            assert(g2.cells[i] == blank_row(g.cols));
        }
    }
}

proof fn lemma_print_wf(g: GridView, ch: char, pen: Pen)
    requires
        g.wf(),
    ensures
        grid_print(g, ch, pen).wf(),
{
    let g1 = grid_put_char(g, ch, pen.fg, pen.bg, pen.bold);
    assert forall|i: int| 0 <= i < g1.rows implies (#[trigger] g1.cells[i]).len() == g1.cols by {
        assert(g.cells[i].len() == g.cols);
    }
    assert(g1.wf());
    if g.cursor_x < g.cols - 1 {
    } else if g.cursor_y < g.rows - 1 {
    } else {
        lemma_scroll_up_wf(g1, 1);
    }
}

proof fn lemma_erase_in_line_wf(g: GridView, mode: int)
    requires
        g.wf(),
    ensures
        erase_in_line(g, mode).wf(),
{
    let g2 = erase_in_line(g, mode);
    assert(g.cells[g.cursor_y].len() == g.cols);
    assert forall|i: int| 0 <= i < g2.rows implies (#[trigger] g2.cells[i]).len() == g2.cols by {
        if i != g.cursor_y {
            assert(g2.cells[i] == g.cells[i]);
            assert(g.cells[i].len() == g.cols);
        }
    }
}

proof fn lemma_erase_in_display_wf(g: GridView, mode: int)
    requires
        g.wf(),
    ensures
        erase_in_display(g, mode).wf(),
{
    let g2 = erase_in_display(g, mode);
    assert(g.cells[g.cursor_y].len() == g.cols);
    assert forall|i: int| 0 <= i < g2.rows implies (#[trigger] g2.cells[i]).len() == g2.cols by {
        assert(g.cells[i].len() == g.cols);
    }
}

proof fn lemma_csi_apply_wf(g: GridView, pen: Pen, ps: Seq<u16>, b: u8)
    requires
        g.wf(),
    ensures
        csi_apply(g, pen, ps, b).1.wf(),
{
    if b == 0x4b {
        lemma_erase_in_line_wf(g, csi_param(ps, 0, 0));
    } else if b == 0x4a {
        lemma_erase_in_display_wf(g, csi_param(ps, 0, 0));
    }
}

/// One byte never breaks well-formedness: whatever arrives from the child
/// process, the grid keeps its shape and the cursor stays strictly inside
/// the bounds.
pub proof fn lemma_step_preserves_well_formed(s: EmuView, b: u8)
    requires
        s.wf(),
    ensures
        step(s, b).wf(),
{
    match s.parser {
        ParserView::Ground => {
            if b == 0x0a {
                if s.grid.cursor_y < s.grid.rows - 1 {
                } else {
                    lemma_scroll_up_wf(s.grid, 1);
                }
            } else if printable(b) {
                lemma_print_wf(s.grid, byte_char(b), s.pen);
            }
        },
        ParserView::Escape => {},
        ParserView::Csi { params, cur, any } => {
            if 0x40 <= b <= 0x7e && !(0x30 <= b <= 0x39) && b != 0x3b {
                let ps = if any {
                    params.push(cur)
                } else {
                    params
                };
                lemma_csi_apply_wf(s.grid, s.pen, ps, b);
            }
        },
        ParserView::Osc { data, esc } => {},
    }
}

/// For every valid grid and any byte sequence fed to the interpreter, the
/// grid afterwards is still well formed: in particular `cursor.x < cols`
/// and `cursor.y < rows` hold at every point of the run.
pub proof fn lemma_run_preserves_well_formed(s: EmuView, bytes: Seq<u8>)
    requires
        s.wf(),
    ensures
        run(s, bytes).wf(),
    decreases bytes.len(),
{
    if bytes.len() > 0 {
        lemma_step_preserves_well_formed(s, bytes[0]);
        lemma_run_preserves_well_formed(step(s, bytes[0]), bytes.drop_first());
    }
}

proof fn lemma_print_run_no_wrap(s: EmuView, bytes: Seq<u8>)
    requires
        s.wf(),
        s.parser is Ground,
        forall|i: int| 0 <= i < bytes.len() ==> printable(#[trigger] bytes[i]),
        s.grid.cursor_x + bytes.len() <= s.grid.cols - 1,
    ensures
        run(s, bytes).parser is Ground,
        run(s, bytes).pen == s.pen,
        run(s, bytes).wf(),
        run(s, bytes).grid.cols == s.grid.cols,
        run(s, bytes).grid.rows == s.grid.rows,
        run(s, bytes).grid.cursor_x == s.grid.cursor_x + bytes.len(),
        run(s, bytes).grid.cursor_y == s.grid.cursor_y,
        run(s, bytes).grid.cursor_visible == s.grid.cursor_visible,
        run(s, bytes).grid.title == s.grid.title,
        run(s, bytes).grid.cells.len() == s.grid.cells.len(),
        forall|i: int|
            0 <= i < s.grid.rows && i != s.grid.cursor_y ==> run(s, bytes).grid.cells[i]
                == s.grid.cells[i],
        forall|j: int|
            0 <= j < s.grid.cols ==> run(s, bytes).grid.cells[s.grid.cursor_y][j] == (
            if s.grid.cursor_x <= j < s.grid.cursor_x + bytes.len() {
                styled_cell(
                    byte_char(bytes[j - s.grid.cursor_x]),
                    s.pen.fg,
                    s.pen.bg,
                    s.pen.bold,
                )
            } else {
                s.grid.cells[s.grid.cursor_y][j]
            }),
    decreases bytes.len(),
{
    if bytes.len() == 0 {
    } else {
        let b = bytes[0];
        let s1 = step(s, b);
        assert(s1 == EmuView { grid: grid_print(s.grid, byte_char(b), s.pen), ..s });
        lemma_print_wf(s.grid, byte_char(b), s.pen);
        assert(s.grid.cursor_x < s.grid.cols - 1);
        assert(s1.grid.cursor_x == s.grid.cursor_x + 1);
        assert(s1.grid.cursor_y == s.grid.cursor_y);
        lemma_print_run_no_wrap(s1, bytes.drop_first());
        assert(run(s, bytes) == run(s1, bytes.drop_first()));
        let t = run(s, bytes);
        let y = s.grid.cursor_y;
        let x = s.grid.cursor_x;
        assert forall|i: int| 0 <= i < s.grid.rows && i != y implies t.grid.cells[i]
            == s.grid.cells[i] by {
            assert(t.grid.cells[i] == s1.grid.cells[i]);
            assert(s1.grid.cells[i] == s.grid.cells[i]);
        }
        assert forall|j: int| 0 <= j < s.grid.cols implies t.grid.cells[y][j] == (
            if x <= j < x + bytes.len() {
                styled_cell(byte_char(bytes[j - x]), s.pen.fg, s.pen.bg, s.pen.bold)
            } else {
                s.grid.cells[y][j]
            }) by {
            if x <= j < x + bytes.len() {
                if j == x {
                    assert(t.grid.cells[y][j] == s1.grid.cells[y][j]);
                    assert(s1.grid.cells[y][j] == styled_cell(
                        byte_char(b),
                        s.pen.fg,
                        s.pen.bg,
                        s.pen.bold,
                    ));
                } else {
                    assert(t.grid.cells[y][j] == styled_cell(
                        byte_char(bytes.drop_first()[j - (x + 1)]),
                        s.pen.fg,
                        s.pen.bg,
                        s.pen.bold,
                    ));
                    assert(bytes.drop_first()[j - (x + 1)] == bytes[j - x]);
                }
            } else {
                assert(t.grid.cells[y][j] == s1.grid.cells[y][j]);
            }
        }
    }
}

/// Printing `cols` printable bytes starting at column 0 leaves every
/// character in the cursor's row and the cursor at the start of the next
/// row; when the cursor stood on the last row, the grid scrolls exactly
/// once instead, the characters end one row higher and the last row is
/// blank.  (A single-row grid is left out: there the scroll discards the
/// freshly printed row itself.)
pub proof fn lemma_full_row_print(s: EmuView, bytes: Seq<u8>)
    requires
        s.wf(),
        s.parser is Ground,
        s.grid.cursor_x == 0,
        bytes.len() == s.grid.cols,
        forall|i: int| 0 <= i < bytes.len() ==> printable(#[trigger] bytes[i]),
        s.grid.rows >= 2,
    ensures
        run(s, bytes).parser is Ground,
        run(s, bytes).pen == s.pen,
        run(s, bytes).wf(),
        run(s, bytes).grid.cursor_x == 0,
        s.grid.cursor_y < s.grid.rows - 1 ==> run(s, bytes).grid.cursor_y == s.grid.cursor_y
            + 1,
        s.grid.cursor_y < s.grid.rows - 1 ==> forall|j: int|
            0 <= j < s.grid.cols ==> run(s, bytes).grid.cells[s.grid.cursor_y][j]
                == styled_cell(byte_char(bytes[j]), s.pen.fg, s.pen.bg, s.pen.bold),
        s.grid.cursor_y == s.grid.rows - 1 ==> run(s, bytes).grid.cursor_y == s.grid.cursor_y,
        s.grid.cursor_y == s.grid.rows - 1 ==> forall|j: int|
            0 <= j < s.grid.cols ==> run(s, bytes).grid.cells[s.grid.cursor_y - 1][j]
                == styled_cell(byte_char(bytes[j]), s.pen.fg, s.pen.bg, s.pen.bold),
        s.grid.cursor_y == s.grid.rows - 1 ==> run(s, bytes).grid.cells[s.grid.cursor_y]
            == blank_row(s.grid.cols),
{
    let y = s.grid.cursor_y;
    let cols = s.grid.cols;
    let prefix = bytes.drop_last();
    let b = bytes.last();
    assert(prefix.push(b) =~= bytes);
    lemma_run_snoc(s, prefix, b);
    lemma_print_run_no_wrap(s, prefix);
    let s1 = run(s, prefix);
    assert(s1.grid.cursor_x == cols - 1);
    assert(s1.grid.cursor_y == y);
    assert(printable(b));
    let t = step(s1, b);
    assert(t == EmuView { grid: grid_print(s1.grid, byte_char(b), s.pen), ..s1 });
    let g1 = grid_put_char(s1.grid, byte_char(b), s.pen.fg, s.pen.bg, s.pen.bold);
    assert(g1.cells[y].len() == cols);
    assert(run(s, bytes) == t);
    lemma_print_wf(s1.grid, byte_char(b), s.pen);
    if y < s.grid.rows - 1 {
        assert(t.grid.cursor_x == 0);
        assert(t.grid.cursor_y == y + 1);
        assert forall|j: int| 0 <= j < cols implies t.grid.cells[y][j] == styled_cell(
            byte_char(bytes[j]),
            s.pen.fg,
            s.pen.bg,
            s.pen.bold,
        ) by {
            if j < cols - 1 {
                assert(t.grid.cells[y][j] == g1.cells[y][j]);
                assert(g1.cells[y][j] == s1.grid.cells[y][j]);
                assert(s1.grid.cells[y][j] == styled_cell(
                    byte_char(prefix[j]),
                    s.pen.fg,
                    s.pen.bg,
                    s.pen.bold,
                ));
                assert(prefix[j] == bytes[j]);
            } else {
                assert(t.grid.cells[y][j] == g1.cells[y][j]);
            }
        }
    } else {
        assert(t.grid.cursor_x == 0);
        assert(t.grid.cursor_y == y);
        assert(t.grid == GridView { cursor_x: 0, ..grid_scroll_up(g1, 1) });
        assert forall|j: int| 0 <= j < cols implies t.grid.cells[y - 1][j] == styled_cell(
            byte_char(bytes[j]),
            s.pen.fg,
            s.pen.bg,
            s.pen.bold,
        ) by {
            assert(t.grid.cells[y - 1] == g1.cells[y]);
            if j < cols - 1 {
                assert(g1.cells[y][j] == s1.grid.cells[y][j]);
                assert(prefix[j] == bytes[j]);
            }
        }
        assert(t.grid.cells[y] == blank_row(cols));
    }
}

} // verus!
