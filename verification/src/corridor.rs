//! Straight corridors: where they run, when two of them are too close, and
//! what carving them does to a grid.

use vstd::prelude::*;
use crate::cell::Cell;
use crate::grid::{cells, has_shape, is_working_grid, on_ring};
use crate::marker::visited;

verus! {

/// A straight run of squares, one square wide.
///
/// A horizontal corridor lies in row `cross` and runs over the columns from
/// `start` up to, but not including, `end`. A vertical corridor lies in
/// column `cross` and runs over the rows from `start` up to, but not
/// including, `end`.
#[derive(Clone, Copy, Debug, PartialEq, Eq, Hash, Structural)]
pub struct Corridor {
    pub horizontal: bool,
    pub cross: usize,
    pub start: usize,
    pub end: usize,
}

impl Corridor {
    /// Whether the square at row `i`, column `j` is part of the corridor.
    pub open spec fn covers(self, i: int, j: int) -> bool {
        if self.horizontal {
            i == self.cross && self.start <= j < self.end
        } else {
            j == self.cross && self.start <= i < self.end
        }
    }

    /// Whether a square of the corridor lies directly above, below, left or
    /// right of the square at row `i`, column `j`.
    pub open spec fn borders(self, i: int, j: int) -> bool {
        self.covers(i - 1, j) || self.covers(i + 1, j) || self.covers(i, j - 1) || self.covers(
            i,
            j + 1,
        )
    }

    /// Whether every square of the corridor is a square of the grid `g`.
    pub open spec fn within(self, g: Seq<Seq<Cell>>) -> bool {
        forall|i: int, j: int| #[trigger]
            self.covers(i, j) ==> 0 <= i < g.len() && 0 <= j < g[i].len()
    }

    /// Whether the corridor is one that may be placed in a grid of `height`
    /// rows and `width` columns: its row or column lies inside the border
    /// ring, it ends in the upper half of the inside of the grid along its
    /// direction, and it starts at 2 or later and no later than half-way to
    /// its end.
    pub open spec fn fits(self, height: int, width: int) -> bool {
        if self.horizontal {
            &&& 1 <= self.cross <= height - 2
            &&& width / 2 <= self.end <= width - 2
            &&& 2 <= self.start <= self.end / 2
        } else {
            &&& 1 <= self.cross <= width - 2
            &&& height / 2 <= self.end <= height - 2
            &&& 2 <= self.start <= self.end / 2
        }
    }
}

/// A corridor that fits a grid's dimensions lies inside a grid of that shape.
pub proof fn lemma_fits_within(c: Corridor, g: Seq<Seq<Cell>>, height: nat, width: nat)
    requires
        has_shape(g, height, width),
        c.fits(height as int, width as int),
    ensures
        c.within(g),
{
    assert forall|i: int, j: int| #[trigger] c.covers(i, j) implies 0 <= i < g.len() && 0 <= j
        < g[i].len() by {
        assert(g[i].len() == width);
    }
}

/// Whether two coordinates are equal or differ by one.
pub open spec fn near(a: int, b: int) -> bool {
    a - 1 <= b <= a + 1
}

/// Whether some coordinate in `points` is equal to `point` or differs from
/// it by one.
pub open spec fn crowded(points: Seq<usize>, point: int) -> bool {
    exists|k: int| 0 <= k < points.len() && near(#[trigger] points[k] as int, point)
}

/// Whether no two coordinates in `points` are equal or differ by one.
pub open spec fn spaced(points: Seq<usize>) -> bool {
    forall|a: int, b: int|
        0 <= a < b < points.len() ==> !near(#[trigger] points[a] as int, #[trigger] points[b] as int)
}

/// Whether no two corridors of `plan` that run in the same direction lie in
/// the same row or column, or in two next to each other.
pub open spec fn well_spaced(plan: Seq<Corridor>) -> bool {
    forall|a: int, b: int|
        0 <= a < b < plan.len() && (#[trigger] plan[a]).horizontal == (#[trigger] plan[b]).horizontal
            ==> !near(plan[a].cross as int, plan[b].cross as int)
}

/// Tells whether `point`, or a coordinate one below or one above it, is
/// among `points`.
pub fn find_similar_value(points: &[usize], point: usize) -> (found: bool)
    ensures
        found == crowded(points@, point as int),
{
    let mut k: usize = 0;
    while k < points.len()
        invariant
            k <= points@.len(),
            forall|m: int| 0 <= m < k ==> !near(#[trigger] points@[m] as int, point as int),
        decreases points@.len() - k,
    {
        let other: usize = points[k];
        if other == point || (point > 0 && other == point - 1) || (point < usize::MAX && other
            == point + 1) {
            assert(near(points@[k as int] as int, point as int));
            return true;
        }
        k += 1;
    }
    false
}

/// A coordinate that is not crowded by a spaced set can join it: the set
/// stays spaced.
pub proof fn lemma_spaced_push(points: Seq<usize>, point: usize)
    requires
        spaced(points),
        !crowded(points, point as int),
    ensures
        spaced(points.push(point)),
{
    let longer = points.push(point);
    assert forall|a: int, b: int| 0 <= a < b < longer.len() implies !near(
        #[trigger] longer[a] as int,
        #[trigger] longer[b] as int,
    ) by {
        if b < points.len() {
            assert(longer[a] == points[a] && longer[b] == points[b]);
        } else {
            assert(longer[a] == points[a]);
            assert(!near(points[a] as int, point as int));
        }
    }
}

/// What a cell becomes when corridors are carved: a square of a corridor is
/// open, a square next to one is flagged, any other square stays.
pub open spec fn carved_cell(before: Cell, covered: bool, bordered: bool) -> Cell {
    if covered {
        Cell::Open
    } else if bordered {
        before.flagged()
    } else {
        before
    }
}

/// The grid `g` after corridor `c` has been carved into it.
pub open spec fn carved(g: Seq<Seq<Cell>>, c: Corridor) -> Seq<Seq<Cell>> {
    Seq::new(
        g.len(),
        |i: int| Seq::new(g[i].len(), |j: int| carved_cell(g[i][j], c.covers(i, j), c.borders(i, j))),
    )
}

/// Whether some corridor of `plan` runs through the square at row `i`,
/// column `j`.
pub open spec fn covered(plan: Seq<Corridor>, i: int, j: int) -> bool {
    exists|k: int| 0 <= k < plan.len() && (#[trigger] plan[k]).covers(i, j)
}

/// Whether some corridor of `plan` runs directly past the square at row `i`,
/// column `j`.
pub open spec fn bordered(plan: Seq<Corridor>, i: int, j: int) -> bool {
    exists|k: int| 0 <= k < plan.len() && (#[trigger] plan[k]).borders(i, j)
}

/// The grid `g` after every corridor of `plan` has been carved into it: a
/// square that some corridor runs through is open, and of the other squares
/// those that some corridor runs past are flagged.
pub open spec fn carved_all(g: Seq<Seq<Cell>>, plan: Seq<Corridor>) -> Seq<Seq<Cell>> {
    Seq::new(
        g.len(),
        |i: int|
            Seq::new(
                g[i].len(),
                |j: int| carved_cell(g[i][j], covered(plan, i, j), bordered(plan, i, j)),
            ),
    )
}

/// Carves one corridor: every square of it becomes `Open`, and around each
/// the neighbours that are untouched walls become `Marked`.
pub fn carve_corridor(maze: &mut Vec<Vec<Cell>>, corridor: &Corridor)
    requires
        corridor.within(cells(*old(maze))),
    ensures
        cells(*final(maze)) == carved(cells(*old(maze)), *corridor),
{
    let ghost before = cells(*maze);
    let mut movable_point: usize = corridor.start;
    assert(cells(*maze) =~~= carved(before, Corridor { end: corridor.start, ..*corridor }));
    while movable_point < corridor.end
        invariant
            corridor.start <= movable_point,
            corridor.within(before),
            movable_point <= corridor.end || movable_point == corridor.start,
            cells(*maze) == carved(before, Corridor { end: movable_point, ..*corridor }),
        decreases corridor.end - movable_point,
    {
        let ghost next = Corridor { end: (movable_point + 1) as usize, ..*corridor };
        let move_point: (usize, usize) = if corridor.horizontal {
            (corridor.cross, movable_point)
        } else {
            (movable_point, corridor.cross)
        };
        let ghost entered = cells(*maze);
        assert(corridor.covers(move_point.0 as int, move_point.1 as int));
        assert(entered.len() == before.len() && entered[move_point.0 as int].len()
            == before[move_point.0 as int].len());
        maze[move_point.0][move_point.1] = Cell::Open;
        let ghost opened = cells(*maze);
        visited(maze, &move_point);
        proof {
            let after = cells(*maze);
            let target = carved(before, next);
            assert(after.len() == target.len());
            assert forall|i: int| 0 <= i < after.len() implies #[trigger] after[i] =~= target[i] by {
                assert(opened[i].len() == entered[i].len());
                assert forall|j: int| 0 <= j < after[i].len() implies #[trigger] after[i][j]
                    == target[i][j] by {
                    assert(opened[i][j] == if i == move_point.0 && j == move_point.1 {
                        Cell::Open
                    } else {
                        entered[i][j]
                    });
                }
            }
            assert(after =~= target);
        }
        movable_point += 1;
    }
    assert(cells(*maze) =~~= carved(before, *corridor));
}

/// Carving one more corridor into a grid that already holds the corridors
/// of `plan` gives the grid that holds them all.
pub proof fn lemma_carved_all_push(g: Seq<Seq<Cell>>, plan: Seq<Corridor>, c: Corridor)
    ensures
        carved(carved_all(g, plan), c) == carved_all(g, plan.push(c)),
{
    let longer = plan.push(c);
    let step = carved(carved_all(g, plan), c);
    let whole = carved_all(g, longer);
    assert(step.len() == whole.len());
    assert forall|i: int| 0 <= i < step.len() implies #[trigger] step[i] =~= whole[i] by {
        assert forall|j: int| 0 <= j < step[i].len() implies #[trigger] step[i][j]
            == whole[i][j] by {
            assert(longer[plan.len() as int] == c);
            assert(covered(longer, i, j) <==> covered(plan, i, j) || c.covers(i, j)) by {
                if covered(plan, i, j) {
                    let k = choose|k: int| 0 <= k < plan.len() && (#[trigger] plan[k]).covers(i, j);
                    assert(longer[k] == plan[k]);
                }
                if covered(longer, i, j) {
                    let k = choose|k: int|
                        0 <= k < longer.len() && (#[trigger] longer[k]).covers(i, j);
                    if k < plan.len() {
                        assert(longer[k] == plan[k]);
                    }
                }
            }
            assert(bordered(longer, i, j) <==> bordered(plan, i, j) || c.borders(i, j)) by {
                if bordered(plan, i, j) {
                    let k = choose|k: int| 0 <= k < plan.len() && (#[trigger] plan[k]).borders(i, j);
                    assert(longer[k] == plan[k]);
                }
                if bordered(longer, i, j) {
                    let k = choose|k: int|
                        0 <= k < longer.len() && (#[trigger] longer[k]).borders(i, j);
                    if k < plan.len() {
                        assert(longer[k] == plan[k]);
                    }
                }
            }
        }
    }
    assert(step =~= whole);
}

/// Carving no corridors leaves the grid as it is.
pub proof fn lemma_carved_all_empty(g: Seq<Seq<Cell>>)
    ensures
        carved_all(g, Seq::<Corridor>::empty()) == g,
{
    assert(carved_all(g, Seq::<Corridor>::empty()) =~~= g);
}

/// Carving corridors that fit a grid leaves it a grid in which corridors can
/// be carved: the border ring is untouched and every inner cell is still
/// `Wall`, `Open` or `Marked`.
pub proof fn lemma_carved_all_keeps_working_grid(
    g: Seq<Seq<Cell>>,
    plan: Seq<Corridor>,
    height: nat,
    width: nat,
)
    requires
        is_working_grid(g, height, width),
        forall|k: int| 0 <= k < plan.len() ==> (#[trigger] plan[k]).fits(height as int, width as int),
    ensures
        is_working_grid(carved_all(g, plan), height, width),
        forall|i: int, j: int|
            0 <= i < height && 0 <= j < width && on_ring(height as int, width as int, i, j)
                ==> #[trigger] carved_all(g, plan)[i][j] == g[i][j],
{
    let after = carved_all(g, plan);
    assert forall|i: int, j: int| 0 <= i < height && 0 <= j < width implies (if on_ring(
        height as int,
        width as int,
        i,
        j,
    ) {
        (#[trigger] after[i][j]).is_border() && after[i][j] == g[i][j]
    } else {
        after[i][j].is_working()
    }) by {
        assert(g[i].len() == width);
        assert(g[i][j].is_border() || g[i][j].is_working());
        if on_ring(height as int, width as int, i, j) {
            if covered(plan, i, j) {
                let k = choose|k: int| 0 <= k < plan.len() && (#[trigger] plan[k]).covers(i, j);
                assert(plan[k].fits(height as int, width as int));
            }
        }
    }
}

/// Carves every corridor of `plan`, in order.
pub fn carve_corridors(maze: &mut Vec<Vec<Cell>>, plan: &Vec<Corridor>)
    requires
        forall|k: int| 0 <= k < plan@.len() ==> (#[trigger] plan@[k]).within(cells(*old(maze))),
    ensures
        cells(*final(maze)) == carved_all(cells(*old(maze)), plan@),
{
    let ghost before = cells(*maze);
    let mut k: usize = 0;
    proof {
        lemma_carved_all_empty(before);
        assert(plan@.take(0) =~= Seq::<Corridor>::empty());
    }
    while k < plan.len()
        invariant
            k <= plan@.len(),
            forall|m: int| 0 <= m < plan@.len() ==> (#[trigger] plan@[m]).within(before),
            cells(*maze) == carved_all(before, plan@.take(k as int)),
        decreases plan@.len() - k,
    {
        let ghost entered = cells(*maze);
        proof {
            let c = plan@[k as int];
            assert(c.within(before));
            assert forall|i: int, j: int| #[trigger] c.covers(i, j) implies 0 <= i < entered.len()
                && 0 <= j < entered[i].len() by {}
            lemma_carved_all_push(before, plan@.take(k as int), c);
            assert(plan@.take(k as int).push(c) =~= plan@.take(k + 1));
        }
        carve_corridor(maze, &plan[k]);
        k += 1;
    }
    assert(plan@.take(k as int) =~= plan@);
}

} // verus!
