//! A bordered play-field sized to the terminal, with a random pattern of
//! straight corridors carved into it.
//!
//! The grid is a table of [`Cell`]s, row index first. [`build_game_screen`]
//! makes the bordered table, [`build_maze`] carves twenty corridors into it and
//! relabels every cell for display. The search for the corridors is made of the
//! steps in [`search`].

pub mod carver;
pub mod cell;
pub mod corridor;
pub mod error;
pub mod grid;
pub mod input;
pub mod marker;
pub mod relabel;
pub mod screen;
pub mod search;

pub use crate::carver::{draw_corridors, generate_lines};
pub use crate::cell::Cell;
pub use crate::corridor::{carve_corridor, carve_corridors, find_similar_value, Corridor};
pub use crate::error::{MazeError, TerminalError};
pub use crate::grid::{build_box, glyph_rows, is_shaped};
pub use crate::input::{process_input_event, InputAction, KeyPress, Point};
pub use crate::marker::{marked_visted, visited};
pub use crate::relabel::{clean_maze, replace_string};
pub use crate::search::{
    begin, cross_bounds, end_bounds, given_up, is_complete, is_free, record, reject, start_bounds,
    Search,
};
pub use crate::screen::{
    build_game_screen, build_maze, get_terminal_size, screen_from_size, TerminalScreen,
};
