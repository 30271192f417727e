//! The ways in which building a maze can fail.

use vstd::prelude::*;

verus! {

/// Why no maze was built.
#[derive(Clone, Copy, Debug, PartialEq, Eq, Hash, Structural)]
pub enum MazeError {
    /// The grid is narrower or lower than corridors need, or it is not the
    /// table of rows and columns that the screen's dimensions describe.
    InvalidDimensions,
    /// Too many candidate positions in a row were rejected before all
    /// corridors had been placed.
    CarveCapacityExceeded,
}

/// Why no screen could be made of the terminal.
#[derive(Clone, Copy, Debug, PartialEq, Eq, Hash, Structural)]
pub enum TerminalError {
    /// No terminal is attached.
    NotDetected,
    /// The terminal has too few columns or rows.
    TooSmall,
}

} // verus!
