//! A screen-update interpreter for a headless text-rendering engine.
//!
//! The engine paints a fixed-size virtual character grid and reports every
//! change over a binary RPC protocol.  This crate reconstructs, from those
//! grid updates alone, a linear ANSI-escaped text stream: it infers line
//! breaks and scroll points from cursor motion, tracks highlight attributes
//! across partial redraws, and decides when the whole input has been
//! rendered.

pub mod numfmt;
pub mod synattr;
pub mod highlight;
pub mod msgpack;
pub mod screen;
pub mod laws;

use vstd::prelude::*;

verus! {

/// Height of the engine's virtual grid, in rows.
pub const HEIGHT: usize = 100;

/// Width of the engine's virtual grid, in columns.
pub const WIDTH: usize = 100;

/// A fatal protocol desynchronization: an inbound update does not fit the
/// positional shape the engine promises.  No recovery is defined; the
/// caller aborts the run.
#[derive(Clone, Copy, Debug, PartialEq, Eq, Structural)]
pub enum ProtocolError {
    /// A highlight entry carried a value of the wrong kind.
    BadHighlightValue,
    /// A cell write would run past the right edge of the grid.
    PutPastGridEdge,
    /// More content lines were announced than a line counter can hold.
    LineCountOverflow,
}

} // verus!
