//! The engine facade's verified core: the grid, the interpreter and the
//! session life cycle in one place.  The operating-system side — the
//! pseudo-terminal pair, the child process, the reader thread and the
//! writer handle — lives outside the library; it holds a `TerminalEngine`
//! behind a lock and calls [`TerminalEngine::feed`] for every chunk the
//! child produces, so that each mutation is one atomic call.

use vstd::prelude::*;

use crate::grid::TerminalGrid;
use crate::grid::grid_new;
use crate::grid::grid_resize;
use crate::interpreter::EmuView;
use crate::interpreter::EscapeSequenceInterpreter;
use crate::interpreter::ParserView;
use crate::interpreter::pen_default;
use crate::interpreter::run;

verus! {

/// The session life cycle: an engine is created, runs while the reader
/// loop is active, and is closed on shutdown or end of input.  Closed is
/// terminal.
#[derive(Clone, Copy, PartialEq, Eq, Structural, Debug)]
pub enum EngineStatus {
    Created,
    Running,
    Closed,
}

/// A session-level summary for window management: the identifier of the
/// underlying pseudo-terminal, if one is attached, and the title the child
/// process last set.
pub struct TerminalState {
    pub pty_id: Option<u32>,
    pub title: String,
}

/// The verified core of the terminal engine: the authoritative grid, the
/// escape-sequence interpreter, and the session status.
pub struct TerminalEngine {
    pub grid: TerminalGrid,
    pub interpreter: EscapeSequenceInterpreter,
    pub status: EngineStatus,
}

impl TerminalEngine {
    /// Well-formedness: the grid invariant.
    pub open spec fn wf(self) -> bool {
        self.grid@.wf()
    }

    /// The complete interpreter state this engine carries.
    pub open spec fn emu(self) -> EmuView {
        self.interpreter.view_with(self.grid@)
    }

    /// A fresh engine with a blank grid: not yet running, Ground parser
    /// state, default pen.
    pub fn new(cols: usize, rows: usize) -> (e: TerminalEngine)
        requires
            1 <= cols,
            1 <= rows,
        ensures
            e.wf(),
            e.grid@ == grid_new(cols as int, rows as int),
            e.interpreter.state@ == ParserView::Ground,
            e.interpreter.pen == pen_default(),
            e.status == EngineStatus::Created,
    {
        TerminalEngine {
            grid: TerminalGrid::new(cols, rows),
            interpreter: EscapeSequenceInterpreter::new(),
            status: EngineStatus::Created,
        }
    }

    /// Marks the reader loop as active: Created becomes Running.
    pub fn start(&mut self)
        requires
            old(self).status == EngineStatus::Created,
        ensures
            final(self).status == EngineStatus::Running,
            final(self).grid == old(self).grid,
            final(self).interpreter == old(self).interpreter,
    {
        self.status = EngineStatus::Running;
    }

    /// Consumes one chunk of bytes from the child process, in arrival
    /// order: exactly a [`run`] of the transition function.
    pub fn feed(&mut self, bytes: &Vec<u8>)
        requires
            old(self).wf(),
        ensures
            final(self).wf(),
            final(self).emu() == run(old(self).emu(), bytes@),
            final(self).status == old(self).status,
    {
        let mut interpreter = EscapeSequenceInterpreter::new();
        core::mem::swap(&mut interpreter, &mut self.interpreter);
        interpreter.advance_bytes(&mut self.grid, bytes);
        self.interpreter = interpreter;
    }

    /// Resizes the grid; the caller resizes the operating-system terminal
    /// to the same size in the same locked section.
    pub fn resize(&mut self, cols: usize, rows: usize)
        requires
            old(self).wf(),
            1 <= cols,
            1 <= rows,
        ensures
            final(self).wf(),
            final(self).grid@ == grid_resize(old(self).grid@, cols as int, rows as int),
            final(self).interpreter == old(self).interpreter,
            final(self).status == old(self).status,
    {
        self.grid.resize(cols, rows);
    }

    /// An internally consistent copy of the grid for a renderer.
    pub fn snapshot(&self) -> (g: TerminalGrid)
        requires
            self.wf(),
        ensures
            g@ == self.grid@,
    {
        self.grid.snapshot()
    }

    /// Whether the reader loop is still active.
    pub fn is_alive(&self) -> (r: bool)
        ensures
            r == (self.status == EngineStatus::Running),
    {
        match self.status {
            EngineStatus::Running => true,
            _ => false,
        }
    }

    /// Shuts the session down: any state becomes Closed.  The last
    /// rendered frame stays available through [`Self::snapshot`].
    pub fn close(&mut self)
        ensures
            final(self).status == EngineStatus::Closed,
            final(self).grid == old(self).grid,
            final(self).interpreter == old(self).interpreter,
    {
        self.status = EngineStatus::Closed;
    }
}

} // verus!
