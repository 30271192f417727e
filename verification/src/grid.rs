//! The play-field as a table of cells, and the bordered box it starts from.

use vstd::prelude::*;
use crate::cell::Cell;
use crate::screen::TerminalScreen;

verus! {

/// The table of cells that a grid holds: one sequence per row, row index
/// first.
pub open spec fn cells(maze: Vec<Vec<Cell>>) -> Seq<Seq<Cell>> {
    Seq::new(maze@.len(), |i: int| maze@[i]@)
}

/// Whether `g` has exactly `height` rows of `width` cells each.
pub open spec fn has_shape(g: Seq<Seq<Cell>>, height: nat, width: nat) -> bool {
    &&& g.len() == height
    &&& forall|i: int| 0 <= i < g.len() ==> (#[trigger] g[i]).len() == width
}

/// Whether row `i`, column `j` lies on the outer ring of a grid of `height`
/// rows and `width` columns.
pub open spec fn on_ring(height: int, width: int, i: int, j: int) -> bool {
    i == 0 || i == height - 1 || j == 0 || j == width - 1
}

/// Whether `g` is a grid of `height` rows and `width` columns in which
/// corridors are being carved: every cell on the outer ring is a corner or an
/// edge, and every cell inside it is `Wall`, `Open` or `Marked`.
pub open spec fn is_working_grid(g: Seq<Seq<Cell>>, height: nat, width: nat) -> bool {
    &&& has_shape(g, height, width)
    &&& forall|i: int, j: int|
        0 <= i < height && 0 <= j < width ==> if on_ring(height as int, width as int, i, j) {
            (#[trigger] g[i][j]).is_border()
        } else {
            g[i][j].is_working()
        }
}

/// Whether `g` is a grid of `height` rows and `width` columns that is ready
/// for display: every cell on the outer ring is a corner or an edge, and
/// every cell inside it is `OpenFinal` or `WallFinal`.
pub open spec fn is_display_grid(g: Seq<Seq<Cell>>, height: nat, width: nat) -> bool {
    &&& has_shape(g, height, width)
    &&& forall|i: int, j: int|
        0 <= i < height && 0 <= j < width ==> if on_ring(height as int, width as int, i, j) {
            (#[trigger] g[i][j]).is_border()
        } else {
            g[i][j].is_final()
        }
}

/// The cell that the bordered box of `height` rows and `width` columns holds
/// at row `i`, column `j`. Where a row or column is both first and last, the
/// corner wins over the edge, and among corners the earlier of top-left,
/// top-right, bottom-left, bottom-right.
pub open spec fn box_cell(height: int, width: int, i: int, j: int) -> Cell {
    if i == 0 && j == 0 {
        Cell::TopLeft
    } else if i == 0 && j == width - 1 {
        Cell::TopRight
    } else if i == height - 1 && j == 0 {
        Cell::BottomLeft
    } else if i == height - 1 && j == width - 1 {
        Cell::BottomRight
    } else if i == 0 || i == height - 1 {
        Cell::Horizontal
    } else if j == 0 || j == width - 1 {
        Cell::Vertical
    } else {
        Cell::Wall
    }
}

/// The bordered box of `height` rows and `width` columns.
pub open spec fn box_grid(height: nat, width: nat) -> Seq<Seq<Cell>> {
    Seq::new(height, |i: int| Seq::new(width, |j: int| box_cell(height as int, width as int, i, j)))
}

/// In a box of at least three rows and three columns the four corners hold
/// the four corner cells, the rest of the outer ring holds edge cells, and
/// every cell inside is a `Wall`.
pub proof fn lemma_box_ring(height: nat, width: nat)
    requires
        height >= 3,
        width >= 3,
    ensures
        has_shape(box_grid(height, width), height, width),
        box_grid(height, width)[0][0] == Cell::TopLeft,
        box_grid(height, width)[0][width - 1] == Cell::TopRight,
        box_grid(height, width)[height - 1][0] == Cell::BottomLeft,
        box_grid(height, width)[height - 1][width - 1] == Cell::BottomRight,
        forall|j: int|
            0 < j < width - 1 ==> #[trigger] box_grid(height, width)[0][j] == Cell::Horizontal,
        forall|j: int|
            0 < j < width - 1 ==> #[trigger] box_grid(height, width)[height - 1][j]
                == Cell::Horizontal,
        forall|i: int|
            0 < i < height - 1 ==> (#[trigger] box_grid(height, width)[i])[0] == Cell::Vertical,
        forall|i: int|
            0 < i < height - 1 ==> (#[trigger] box_grid(height, width)[i])[width - 1]
                == Cell::Vertical,
        forall|i: int, j: int|
            0 < i < height - 1 && 0 < j < width - 1 ==> #[trigger] box_grid(height, width)[i][j]
                == Cell::Wall,
{
}

/// A box of any size, down to none, is a grid in which corridors can be
/// carved.
pub proof fn lemma_box_is_working_grid(height: nat, width: nat)
    ensures
        is_working_grid(box_grid(height, width), height, width),
{
}

/// Builds the bordered box for a screen: `terminal.height` rows of
/// `terminal.width` cells, corners and edges on the outer ring and `Wall`
/// everywhere inside.
pub fn build_box(terminal: &TerminalScreen) -> (new_box: Vec<Vec<Cell>>)
    ensures
        cells(new_box) == box_grid(terminal.height as nat, terminal.width as nat),
{
    let height: usize = terminal.height;
    let width: usize = terminal.width;
    let mut new_box: Vec<Vec<Cell>> = Vec::new();
    let mut i: usize = 0;
    while i < height
        invariant
            i <= height,
            new_box@.len() == i,
            forall|r: int, c: int|
                0 <= r < i && 0 <= c < width ==> #[trigger] new_box@[r]@[c] == box_cell(
                    height as int,
                    width as int,
                    r,
                    c,
                ),
            forall|r: int| 0 <= r < i ==> (#[trigger] new_box@[r])@.len() == width,
        decreases height - i,
    {
        let mut row: Vec<Cell> = Vec::new();
        let mut j: usize = 0;
        while j < width
            invariant
                j <= width,
                i < height,
                row@.len() == j,
                forall|c: int|
                    0 <= c < j ==> #[trigger] row@[c] == box_cell(
                        height as int,
                        width as int,
                        i as int,
                        c,
                    ),
            decreases width - j,
        {
            let cell = if i == 0 && j == 0 {
                Cell::TopLeft
            } else if i == 0 && j == width - 1 {
                Cell::TopRight
            } else if i == height - 1 && j == 0 {
                Cell::BottomLeft
            } else if i == height - 1 && j == width - 1 {
                Cell::BottomRight
            } else if i == 0 || i == height - 1 {
                Cell::Horizontal
            } else if j == 0 || j == width - 1 {
                Cell::Vertical
            } else {
                Cell::Wall
            };
            row.push(cell);
            j += 1;
        }
        new_box.push(row);
        i += 1;
    }
    assert(cells(new_box) =~~= box_grid(height as nat, width as nat));
    new_box
}

/// Tells whether the grid has exactly `height` rows of `width` cells each.
pub fn is_shaped(maze: &Vec<Vec<Cell>>, height: usize, width: usize) -> (shaped: bool)
    ensures
        shaped == has_shape(cells(*maze), height as nat, width as nat),
{
    if maze.len() != height {
        return false;
    }
    let mut i: usize = 0;
    while i < maze.len()
        invariant
            i <= maze@.len(),
            maze@.len() == height,
            forall|r: int| 0 <= r < i ==> (#[trigger] cells(*maze)[r]).len() == width,
        decreases maze@.len() - i,
    {
        if maze[i].len() != width {
            assert(cells(*maze)[i as int].len() != width);
            return false;
        }
        i += 1;
    }
    true
}

/// The characters that the grid `g` is drawn with, row by row.
pub open spec fn drawn(g: Seq<Seq<Cell>>) -> Seq<Seq<char>> {
    Seq::new(g.len(), |i: int| Seq::new(g[i].len(), |j: int| g[i][j].glyph_of()))
}

/// Returns the characters that the grid is drawn with: one row of
/// characters for each row of cells, in the same order.
pub fn glyph_rows(maze: &Vec<Vec<Cell>>) -> (rows: Vec<Vec<char>>)
    ensures
        rows@.len() == maze@.len(),
        forall|i: int| 0 <= i < rows@.len() ==> (#[trigger] rows@[i])@ == drawn(cells(*maze))[i],
{
    let mut rows: Vec<Vec<char>> = Vec::new();
    let mut i: usize = 0;
    while i < maze.len()
        invariant
            i <= maze@.len(),
            rows@.len() == i,
            forall|r: int| 0 <= r < i ==> (#[trigger] rows@[r])@ == drawn(cells(*maze))[r],
        decreases maze@.len() - i,
    {
        let mut row: Vec<char> = Vec::new();
        let mut j: usize = 0;
        while j < maze[i].len()
            invariant
                i < maze@.len(),
                j <= maze@[i as int]@.len(),
                row@.len() == j,
                forall|c: int| 0 <= c < j ==> #[trigger] row@[c] == maze@[i as int]@[c].glyph_of(),
            decreases maze@[i as int]@.len() - j,
        {
            row.push(maze[i][j].glyph());
            j += 1;
        }
        assert(row@ =~= drawn(cells(*maze))[i as int]);
        rows.push(row);
        i += 1;
    }
    rows
}

} // verus!
