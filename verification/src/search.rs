//! The state of the search for corridors and the steps it is made of: the
//! ranges that positions are drawn from, the test that a drawn position has
//! to pass, and the bookkeeping of placements and rejections.

use vstd::prelude::*;
use crate::carver::{CORRIDOR_COUNT, MIN_SIDE, REJECTION_LIMIT};
use crate::corridor::{
    crowded, find_similar_value, lemma_spaced_push, near, spaced, well_spaced, Corridor,
};

verus! {

/// How far the search for corridors has come.
#[derive(Clone, Debug, PartialEq, Eq)]
pub struct Search {
    /// The corridors placed so far, in the order they were placed.
    pub plan: Vec<Corridor>,
    /// The rows of the horizontal corridors placed so far.
    pub rows_taken: Vec<usize>,
    /// The columns of the vertical corridors placed so far.
    pub columns_taken: Vec<usize>,
    /// The number of positions rejected since the last placement.
    pub rejections: usize,
}

impl Search {
    /// The rows taken for a horizontal corridor, the columns taken for a
    /// vertical one.
    pub open spec fn taken(self, horizontal: bool) -> Seq<usize> {
        if horizontal {
            self.rows_taken@
        } else {
            self.columns_taken@
        }
    }

    /// Whether the search is in a state that placing corridors in a grid of
    /// `height` rows and `width` columns leads to: every corridor placed fits
    /// the grid, each has its row or column among those taken, and no two
    /// rows taken and no two columns taken are equal or next to each other.
    pub open spec fn sound(self, height: int, width: int) -> bool {
        &&& self.plan@.len() <= CORRIDOR_COUNT
        &&& self.rejections <= REJECTION_LIMIT
        &&& forall|k: int|
            0 <= k < self.plan@.len() ==> (#[trigger] self.plan@[k]).fits(height, width)
        &&& forall|k: int|
            0 <= k < self.plan@.len() ==> self.taken((#[trigger] self.plan@[k]).horizontal).contains(
                self.plan@[k].cross,
            )
        &&& spaced(self.rows_taken@)
        &&& spaced(self.columns_taken@)
        &&& well_spaced(self.plan@)
    }
}

/// Starts a search: nothing is placed, nothing taken and nothing rejected.
pub fn begin() -> (search: Search)
    ensures
        search.plan@ == Seq::<Corridor>::empty(),
        search.rows_taken@ == Seq::<usize>::empty(),
        search.columns_taken@ == Seq::<usize>::empty(),
        search.rejections == 0,
{
    Search { plan: Vec::new(), rows_taken: Vec::new(), columns_taken: Vec::new(), rejections: 0 }
}

/// Tells whether all corridors have been placed.
pub fn is_complete(search: &Search) -> (done: bool)
    ensures
        done == (search.plan@.len() == CORRIDOR_COUNT),
{
    search.plan.len() == CORRIDOR_COUNT
}

/// Tells whether the search is to be given up: `REJECTION_LIMIT` positions
/// have been rejected since the last placement.
pub fn given_up(search: &Search) -> (stop: bool)
    ensures
        stop == (search.rejections >= REJECTION_LIMIT),
{
    search.rejections >= REJECTION_LIMIT
}

/// The range that the row of a horizontal corridor, or the column of a
/// vertical one, is drawn from: the lowest value, and the value one past the
/// highest. It is every row, or column, inside the border ring.
pub fn cross_bounds(horizontal: bool, height: usize, width: usize) -> (b: (usize, usize))
    requires
        height >= MIN_SIDE,
        width >= MIN_SIDE,
    ensures
        b.0 == 1,
        b.1 == (if horizontal {
            height
        } else {
            width
        }) - 1,
{
    if horizontal {
        (1, height - 1)
    } else {
        (1, width - 1)
    }
}

/// The range that the end of a corridor is drawn from: the lowest value, and
/// the value one past the highest. It runs from half the side that the
/// corridor runs along to the last position inside the border ring.
pub fn end_bounds(horizontal: bool, height: usize, width: usize) -> (b: (usize, usize))
    requires
        height >= MIN_SIDE,
        width >= MIN_SIDE,
    ensures
        b.0 == (if horizontal {
            width
        } else {
            height
        }) / 2,
        b.1 == (if horizontal {
            width
        } else {
            height
        }) - 1,
{
    if horizontal {
        (width / 2, width - 1)
    } else {
        (height / 2, height - 1)
    }
}

/// The range that the start of a corridor with the given end is drawn from:
/// the lowest value, and the value one past the highest. It runs from 2 to
/// half the end.
pub fn start_bounds(end_point: usize) -> (b: (usize, usize))
    requires
        end_point < usize::MAX,
    ensures
        b.0 == 2,
        b.1 == end_point / 2 + 1,
{
    (2, end_point / 2 + 1)
}

/// Tells whether a corridor may lie in row `cross`, if it is horizontal, or
/// in column `cross`, if it is vertical: none of the rows, or columns, taken
/// is equal or next to it.
pub fn is_free(search: &Search, horizontal: bool, cross: usize) -> (free: bool)
    ensures
        free == !crowded(search.taken(horizontal), cross as int),
{
    if horizontal {
        !find_similar_value(search.rows_taken.as_slice(), cross)
    } else {
        !find_similar_value(search.columns_taken.as_slice(), cross)
    }
}

/// Records a placement: the corridor joins the plan, its row or column joins
/// those taken, and the count of rejections starts again at 0.
pub fn record(search: &mut Search, candidate: Corridor)
    ensures
        final(search).plan@ == old(search).plan@.push(candidate),
        final(search).taken(candidate.horizontal) == old(search).taken(candidate.horizontal).push(
            candidate.cross,
        ),
        final(search).taken(!candidate.horizontal) == old(search).taken(!candidate.horizontal),
        final(search).rejections == 0,
{
    search.plan.push(candidate);
    if candidate.horizontal {
        search.rows_taken.push(candidate.cross);
    } else {
        search.columns_taken.push(candidate.cross);
    }
    search.rejections = 0;
}

/// Records a rejection: the count of rejections goes up by one and nothing
/// else changes.
pub fn reject(search: &mut Search)
    requires
        old(search).rejections < usize::MAX,
    ensures
        final(search).plan@ == old(search).plan@,
        final(search).rows_taken@ == old(search).rows_taken@,
        final(search).columns_taken@ == old(search).columns_taken@,
        final(search).rejections == old(search).rejections + 1,
{
    search.rejections += 1;
}

/// Recording a corridor that fits the grid, in a row or column that is free,
/// keeps a search sound, as long as the plan was not full.
pub proof fn lemma_record_keeps_sound(
    before: Search,
    after: Search,
    candidate: Corridor,
    height: int,
    width: int,
)
    requires
        before.sound(height, width),
        before.plan@.len() < CORRIDOR_COUNT,
        candidate.fits(height, width),
        !crowded(before.taken(candidate.horizontal), candidate.cross as int),
        after.plan@ == before.plan@.push(candidate),
        after.taken(candidate.horizontal) == before.taken(candidate.horizontal).push(
            candidate.cross,
        ),
        after.taken(!candidate.horizontal) == before.taken(!candidate.horizontal),
        after.rejections == 0,
    ensures
        after.sound(height, width),
{
    let placed = before.plan@;
    let longer = after.plan@;
    let along = candidate.horizontal;
    let points = before.taken(along);
    lemma_spaced_push(points, candidate.cross);
    assert forall|k: int| 0 <= k < longer.len() implies after.taken(
        (#[trigger] longer[k]).horizontal,
    ).contains(longer[k].cross) by {
        if k < placed.len() {
            assert(longer[k] == placed[k]);
            let side = placed[k].horizontal;
            assert(before.taken(side).contains(placed[k].cross));
            let m = choose|m: int|
                0 <= m < before.taken(side).len() && before.taken(side)[m] == placed[k].cross;
            assert(after.taken(side)[m] == before.taken(side)[m]);
        } else {
            assert(after.taken(along)[points.len() as int] == candidate.cross);
        }
    }
    assert forall|a: int, b: int|
        0 <= a < b < longer.len() && (#[trigger] longer[a]).horizontal == (
        #[trigger] longer[b]).horizontal implies !near(
        longer[a].cross as int,
        longer[b].cross as int,
    ) by {
        if b < placed.len() {
            assert(longer[a] == placed[a] && longer[b] == placed[b]);
        } else {
            assert(longer[a] == placed[a]);
            assert(points.contains(placed[a].cross));
            let m = choose|m: int| 0 <= m < points.len() && points[m] == placed[a].cross;
            assert(!near(points[m] as int, candidate.cross as int));
        }
    }
    assert forall|k: int| 0 <= k < longer.len() implies (#[trigger] longer[k]).fits(
        height,
        width,
    ) by {
        if k < placed.len() {
            assert(longer[k] == placed[k]);
        }
    }
}

} // verus!
