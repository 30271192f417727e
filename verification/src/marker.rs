//! Flagging the squares next to a carved square.

use vstd::prelude::*;
use crate::cell::Cell;
use crate::grid::cells;

verus! {

/// Whether `(r2, c2)` lies directly above, below, left or right of
/// `(r1, c1)`.
pub open spec fn adjacent(r1: int, c1: int, r2: int, c2: int) -> bool {
    ||| r2 == r1 && (c2 == c1 - 1 || c2 == c1 + 1)
    ||| c2 == c1 && (r2 == r1 - 1 || r2 == r1 + 1)
}

/// The grid `g` with the cell at `(r, c)` flagged, if the grid has such a
/// cell.
pub open spec fn flag_at(g: Seq<Seq<Cell>>, r: int, c: int) -> Seq<Seq<Cell>> {
    Seq::new(
        g.len(),
        |i: int|
            Seq::new(
                g[i].len(),
                |j: int|
                    if i == r && j == c {
                        g[i][j].flagged()
                    } else {
                        g[i][j]
                    },
            ),
    )
}

/// The grid `g` with the four cells around `(r, c)` flagged, as far as the
/// grid has them.
pub open spec fn flag_around(g: Seq<Seq<Cell>>, r: int, c: int) -> Seq<Seq<Cell>> {
    Seq::new(
        g.len(),
        |i: int|
            Seq::new(
                g[i].len(),
                |j: int|
                    if adjacent(r, c, i, j) {
                        g[i][j].flagged()
                    } else {
                        g[i][j]
                    },
            ),
    )
}

/// Flags the cell at `point` if it is an untouched wall. A point outside the
/// grid is skipped.
pub fn marked_visted(maze: &mut Vec<Vec<Cell>>, point: &(usize, usize))
    ensures
        cells(*final(maze)) == flag_at(cells(*old(maze)), point.0 as int, point.1 as int),
{
    if point.0 < maze.len() && point.1 < maze[point.0].len() {
        if maze[point.0][point.1] == Cell::Wall {
            maze[point.0][point.1] = Cell::Marked;
        }
    }
    assert(cells(*maze) =~~= flag_at(cells(*old(maze)), point.0 as int, point.1 as int));
}

/// Flags the four cells directly above, below, left and right of `point`:
/// each of them that lies inside the grid and is an untouched wall becomes
/// `Marked`. Nothing else changes.
pub fn visited(maze: &mut Vec<Vec<Cell>>, point: &(usize, usize))
    ensures
        cells(*final(maze)) == flag_around(cells(*old(maze)), point.0 as int, point.1 as int),
{
    let row: usize = point.0;
    let col: usize = point.1;
    let ghost before = cells(*maze);
    if row >= 1 {
        marked_visted(maze, &(row - 1, col));
    }
    let ghost above = cells(*maze);
    if row < usize::MAX {
        marked_visted(maze, &(row + 1, col));
    }
    let ghost below = cells(*maze);
    if col >= 1 {
        marked_visted(maze, &(row, col - 1));
    }
    let ghost left = cells(*maze);
    if col < usize::MAX {
        marked_visted(maze, &(row, col + 1));
    }
    proof {
        let after = cells(*maze);
        let target = flag_around(before, row as int, col as int);
        assert(after.len() == target.len());
        assert forall|i: int| 0 <= i < after.len() implies #[trigger] after[i] =~= target[i] by {
            assert(above[i].len() == before[i].len());
            assert(below[i].len() == above[i].len());
            assert(left[i].len() == below[i].len());
            assert(after[i].len() == left[i].len());
            assert forall|j: int| 0 <= j < after[i].len() implies #[trigger] after[i][j]
                == target[i][j] by {
                assert(maze.len() == maze@.len());
                assert(maze@[i].len() == maze@[i]@.len());
            }
        }
        assert(after =~= target);
    }
}

/// Flagging around a point changes no cell but the four next to it, and of
/// those only untouched walls: border cells, corridor cells and cells that
/// are flagged already stay as they are.
pub proof fn lemma_flag_around_frame(g: Seq<Seq<Cell>>, r: int, c: int, i: int, j: int)
    requires
        0 <= i < g.len(),
        0 <= j < g[i].len(),
    ensures
        flag_around(g, r, c).len() == g.len(),
        flag_around(g, r, c)[i].len() == g[i].len(),
        !adjacent(r, c, i, j) ==> flag_around(g, r, c)[i][j] == g[i][j],
        g[i][j] != Cell::Wall ==> flag_around(g, r, c)[i][j] == g[i][j],
        adjacent(r, c, i, j) && g[i][j] == Cell::Wall ==> flag_around(g, r, c)[i][j]
            == Cell::Marked,
{
}

} // verus!
