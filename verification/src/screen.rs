//! The terminal's dimensions and the entry points that size the play-field to
//! them.

use vstd::prelude::*;
use crate::carver::{can_hold_maze, generate_lines, is_plan, room, CORRIDOR_COUNT};
use crate::cell::Cell;
use crate::corridor::{carved_all, Corridor};
use crate::error::{MazeError, TerminalError};
use crate::grid::{box_grid, build_box, cells, is_display_grid, is_working_grid};
use crate::relabel::{clean_maze, lemma_relabelled_grid_is_display, relabelled_grid};

verus! {

/// The size of the area the play-field is laid out in, in character cells.
#[derive(Clone, Copy, Debug, PartialEq, Eq, Hash, Structural)]
pub struct TerminalScreen {
    pub width: usize,
    pub height: usize,
}

/// The smallest width and height of a terminal that a game fits in.
pub const MIN_TERMINAL_SIDE: u16 = 10;

/// The margin, in columns and in rows, that the play-field leaves free of the
/// terminal.
pub const MARGIN: usize = 2;

/// The screen that a reported terminal size stands for: none where no size
/// was reported, none where a side is under `MIN_TERMINAL_SIDE`, and else
/// the size as it is. The size is given as columns, then rows.
pub open spec fn screen_for(size: Option<(u16, u16)>) -> Result<TerminalScreen, TerminalError> {
    match size {
        None => Err(TerminalError::NotDetected),
        Some((w, h)) => if w < MIN_TERMINAL_SIDE || h < MIN_TERMINAL_SIDE {
            Err(TerminalError::TooSmall)
        } else {
            Ok(TerminalScreen { width: w as usize, height: h as usize })
        },
    }
}

/// Turns a reported terminal size, columns first, into a screen.
pub fn screen_from_size(size: Option<(u16, u16)>) -> (res: Result<TerminalScreen, TerminalError>)
    ensures
        res == screen_for(size),
{
    match size {
        None => Err(TerminalError::NotDetected),
        Some((w, h)) => {
            if w < MIN_TERMINAL_SIDE || h < MIN_TERMINAL_SIDE {
                Err(TerminalError::TooSmall)
            } else {
                Ok(TerminalScreen { width: w as usize, height: h as usize })
            }
        },
    }
}

/// Calls `terminal_size::terminal_size` and hands on the columns and rows it
/// reports, if it reports any. Nothing is claimed of the value.
#[verifier::external_body]
fn probe_terminal() -> Option<(u16, u16)> {
    terminal_size::terminal_size().map(|(w, h)| (w.0, h.0))
}

/// Asks for the size of the terminal the program runs in.
///
/// Fails with `NotDetected` where no terminal is attached and with
/// `TooSmall` where the terminal has fewer than `MIN_TERMINAL_SIDE` columns
/// or rows.
pub fn get_terminal_size() -> (res: Result<TerminalScreen, TerminalError>)
    ensures
        exists|size: Option<(u16, u16)>| res == #[trigger] screen_for(size),
        res matches Ok(screen) ==> MIN_TERMINAL_SIDE <= screen.width <= u16::MAX
            && MIN_TERMINAL_SIDE <= screen.height <= u16::MAX,
{
    let size = probe_terminal();
    let res = screen_from_size(size);
    assert(res == screen_for(size));
    res
}

/// Takes the margin off the screen and builds the bordered box that fills
/// what is left.
pub fn build_game_screen(terminal: &mut TerminalScreen) -> (screen: Vec<Vec<Cell>>)
    requires
        old(terminal).width >= MARGIN,
        old(terminal).height >= MARGIN,
    ensures
        final(terminal).width == old(terminal).width - MARGIN,
        final(terminal).height == old(terminal).height - MARGIN,
        cells(screen) == box_grid(final(terminal).height as nat, final(terminal).width as nat),
{
    terminal.width -= MARGIN;
    terminal.height -= MARGIN;
    build_box(terminal)
}

/// Carves a maze into the grid and relabels it for display.
///
/// The grid has to be the table of `game_output.height` rows and
/// `game_output.width` columns, and both have to be at least `MIN_SIDE`;
/// otherwise the call fails with `InvalidDimensions`. Where no full set of
/// corridors could be drawn it fails with `CarveCapacityExceeded`. A call
/// that fails leaves the grid as it was. A call that succeeds has carved a
/// full set of corridors and put every cell in its display state.
pub fn build_maze(maze: &mut Vec<Vec<Cell>>, game_output: &TerminalScreen) -> (res: Result<
    (),
    MazeError,
>)
    ensures
        !can_hold_maze(cells(*old(maze)), game_output.height, game_output.width) ==> res
            == Err::<(), MazeError>(MazeError::InvalidDimensions),
        can_hold_maze(cells(*old(maze)), game_output.height, game_output.width) ==> res is Ok
            || res == Err::<(), MazeError>(MazeError::CarveCapacityExceeded),
        room(game_output.height as int) + room(game_output.width as int) < CORRIDOR_COUNT
            ==> res is Err,
        res is Err ==> *final(maze) == *old(maze),
        res is Ok ==> exists|plan: Seq<Corridor>|
            #[trigger] is_plan(plan, game_output.height as int, game_output.width as int)
                && cells(*final(maze)) == relabelled_grid(carved_all(cells(*old(maze)), plan)),
        res is Ok && is_working_grid(
            cells(*old(maze)),
            game_output.height as nat,
            game_output.width as nat,
        ) ==> is_display_grid(
            cells(*final(maze)),
            game_output.height as nat,
            game_output.width as nat,
        ),
{
    match generate_lines(maze, game_output) {
        Err(e) => Err(e),
        Ok(()) => {
            proof {
                if is_working_grid(
                    cells(*old(maze)),
                    game_output.height as nat,
                    game_output.width as nat,
                ) {
                    lemma_relabelled_grid_is_display(
                        cells(*maze),
                        game_output.height as nat,
                        game_output.width as nat,
                    );
                }
            }
            clean_maze(maze);
            Ok(())
        },
    }
}

} // verus!
