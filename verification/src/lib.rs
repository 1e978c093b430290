//! A PTY-backed terminal emulation engine.
//!
//! The crate turns a raw byte stream produced by a child shell process into a
//! structured, renderable character grid, and turns structured key events into
//! the byte sequences a shell expects.  The heart of the crate is a verified
//! ANSI/VT-style escape-sequence state machine together with the cell grid it
//! mutates; the operating-system side (the pseudo-terminal pair, the reader
//! thread) lives outside the library and drives it through a small facade.

pub mod grid;
pub mod input;
pub mod interpreter;
pub mod laws;
pub mod session;
pub mod workspace;
