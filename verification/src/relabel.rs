//! Relabelling a carved grid for display.

use vstd::prelude::*;
use crate::cell::Cell;
use crate::grid::{cells, has_shape, is_display_grid, is_working_grid, on_ring};

verus! {

/// The grid `g` with every cell equal to `find_value` replaced by
/// `replace_value`.
pub open spec fn replaced(g: Seq<Seq<Cell>>, find_value: Cell, replace_value: Cell) -> Seq<
    Seq<Cell>,
> {
    Seq::new(
        g.len(),
        |i: int|
            Seq::new(
                g[i].len(),
                |j: int|
                    if g[i][j] == find_value {
                        replace_value
                    } else {
                        g[i][j]
                    },
            ),
    )
}

/// The grid `g` with every cell in its display state.
pub open spec fn relabelled_grid(g: Seq<Seq<Cell>>) -> Seq<Seq<Cell>> {
    Seq::new(g.len(), |i: int| Seq::new(g[i].len(), |j: int| g[i][j].relabelled()))
}

/// Relabelling turns a grid in which corridors were carved into a grid that
/// is ready for display, and leaves the border ring as it was.
pub proof fn lemma_relabelled_grid_is_display(g: Seq<Seq<Cell>>, height: nat, width: nat)
    requires
        is_working_grid(g, height, width),
    ensures
        is_display_grid(relabelled_grid(g), height, width),
        forall|i: int, j: int|
            0 <= i < height && 0 <= j < width && on_ring(height as int, width as int, i, j)
                ==> #[trigger] relabelled_grid(g)[i][j] == g[i][j],
{
    let after = relabelled_grid(g);
    assert forall|i: int, j: int| 0 <= i < height && 0 <= j < width implies (if on_ring(
        height as int,
        width as int,
        i,
        j,
    ) {
        (#[trigger] after[i][j]).is_border() && after[i][j] == g[i][j]
    } else {
        after[i][j].is_final()
    }) by {
        assert(g[i].len() == width);
        assert(g[i][j].is_border() || g[i][j].is_working());
    }
}

/// Where every cell inside the border ring is a `Wall`, relabelling makes
/// every one of them `WallFinal`; the same holds where every one of them is
/// `Open`.
pub proof fn lemma_relabelled_uniform(g: Seq<Seq<Cell>>, height: nat, width: nat, fill: Cell)
    requires
        has_shape(g, height, width),
        fill == Cell::Wall || fill == Cell::Open,
        forall|i: int, j: int|
            0 <= i < height && 0 <= j < width && !on_ring(height as int, width as int, i, j)
                ==> #[trigger] g[i][j] == fill,
    ensures
        has_shape(relabelled_grid(g), height, width),
        forall|i: int, j: int|
            0 <= i < height && 0 <= j < width && !on_ring(height as int, width as int, i, j)
                ==> #[trigger] relabelled_grid(g)[i][j] == Cell::WallFinal,
{
    let after = relabelled_grid(g);
    assert forall|i: int, j: int|
        0 <= i < height && 0 <= j < width && !on_ring(
            height as int,
            width as int,
            i,
            j,
        ) implies #[trigger] after[i][j] == Cell::WallFinal by {
        assert(g[i].len() == width);
        assert(g[i][j] == fill);
    }
}

/// Replaces every cell of the grid that equals `find_value` by
/// `replace_value`.
pub fn replace_string(maze: &mut Vec<Vec<Cell>>, find_value: Cell, replace_value: Cell)
    ensures
        cells(*final(maze)) == replaced(cells(*old(maze)), find_value, replace_value),
{
    let ghost before = cells(*maze);
    let mut i: usize = 0;
    while i < maze.len()
        invariant
            i <= maze@.len(),
            cells(*maze).len() == before.len(),
            forall|r: int|
                0 <= r < before.len() ==> (#[trigger] cells(*maze)[r]).len() == before[r].len(),
            forall|r: int, c: int|
                0 <= r < i && 0 <= c < before[r].len() ==> #[trigger] cells(*maze)[r][c] == replaced(
                    before,
                    find_value,
                    replace_value,
                )[r][c],
            forall|r: int, c: int|
                i <= r < before.len() && 0 <= c < before[r].len() ==> #[trigger] cells(
                    *maze,
                )[r][c] == before[r][c],
        decreases maze@.len() - i,
    {
        let mut j: usize = 0;
        while j < maze[i].len()
            invariant
                i < maze@.len(),
                j <= maze@[i as int]@.len(),
                cells(*maze).len() == before.len(),
                forall|r: int|
                    0 <= r < before.len() ==> (#[trigger] cells(*maze)[r]).len()
                        == before[r].len(),
                forall|r: int, c: int|
                    0 <= r < i && 0 <= c < before[r].len() ==> #[trigger] cells(*maze)[r][c]
                        == replaced(before, find_value, replace_value)[r][c],
                forall|c: int|
                    0 <= c < j ==> #[trigger] cells(*maze)[i as int][c] == replaced(
                        before,
                        find_value,
                        replace_value,
                    )[i as int][c],
                forall|c: int|
                    j <= c < before[i as int].len() ==> #[trigger] cells(*maze)[i as int][c]
                        == before[i as int][c],
                forall|r: int, c: int|
                    i < r < before.len() && 0 <= c < before[r].len() ==> #[trigger] cells(
                        *maze,
                    )[r][c] == before[r][c],
            decreases maze@[i as int]@.len() - j,
        {
            let ghost entered = cells(*maze);
            assert(entered[i as int].len() == before[i as int].len());
            if maze[i][j] == find_value {
                maze[i][j] = replace_value;
            }
            proof {
                let now = cells(*maze);
                assert forall|r: int| 0 <= r < before.len() implies (#[trigger] now[r]).len()
                    == before[r].len() by {
                    assert(entered[r].len() == before[r].len());
                }
                assert forall|r: int, c: int|
                    0 <= r < before.len() && 0 <= c < before[r].len() && !(r == i && c
                        == j) implies #[trigger] now[r][c] == entered[r][c] by {
                    assert(entered[r].len() == before[r].len());
                }
            }
            j += 1;
        }
        i += 1;
    }
    assert(cells(*maze) =~~= replaced(before, find_value, replace_value));
}

/// Puts every cell of the grid in its display state: the cells beside a
/// corridor become `OpenFinal`, corridor cells and untouched walls become
/// `WallFinal`, and the border stays.
///
/// The grid is scanned once for each of the three carving states, walls
/// first, corridor cells second and flagged cells last.
pub fn clean_maze(maze: &mut Vec<Vec<Cell>>)
    ensures
        cells(*final(maze)) == relabelled_grid(cells(*old(maze))),
{
    replace_string(maze, Cell::Wall, Cell::WallFinal);
    replace_string(maze, Cell::Open, Cell::WallFinal);
    replace_string(maze, Cell::Marked, Cell::OpenFinal);
    assert(cells(*maze) =~~= relabelled_grid(cells(*old(maze))));
}

} // verus!
