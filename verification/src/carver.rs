//! Placing corridors at random without letting two parallel ones touch.

use vstd::prelude::*;
use rand::Rng;
use crate::cell::Cell;
use crate::corridor::{
    carve_corridors, carved_all, lemma_carved_all_keeps_working_grid, lemma_fits_within, near,
    well_spaced, Corridor,
};
use crate::error::MazeError;
use crate::grid::{cells, has_shape, is_shaped, is_working_grid};
use crate::screen::TerminalScreen;
use crate::search::{
    begin, cross_bounds, end_bounds, given_up, is_complete, is_free, lemma_record_keeps_sound,
    record, reject, start_bounds, Search,
};

verus! {

/// The number of corridors a maze holds.
pub const CORRIDOR_COUNT: usize = 20;

/// The smallest height and width of a grid that corridors can be placed in:
/// a border ring around six rows and six columns.
pub const MIN_SIDE: usize = 8;

/// The number of candidate positions that may be rejected one after another
/// before placing corridors is given up.
pub const REJECTION_LIMIT: usize = 1000;

/// Whether `plan` is a full set of corridors for a grid of `height` rows and
/// `width` columns: the right number of them, each one placed inside the
/// grid as [`Corridor::fits`] says, and no two parallel ones in the same or
/// in neighbouring rows or columns.
pub open spec fn is_plan(plan: Seq<Corridor>, height: int, width: int) -> bool {
    &&& plan.len() == CORRIDOR_COUNT
    &&& forall|k: int| 0 <= k < plan.len() ==> (#[trigger] plan[k]).fits(height, width)
    &&& well_spaced(plan)
}

/// Whether corridors can be drawn for the grid `g`: it is the table of
/// `height` rows and `width` columns, and both are at least `MIN_SIDE`.
pub open spec fn can_hold_maze(g: Seq<Seq<Cell>>, height: usize, width: usize) -> bool {
    &&& height >= MIN_SIDE
    &&& width >= MIN_SIDE
    &&& has_shape(g, height as nat, width as nat)
}

/// The number of rows, or of columns, inside the border ring of a side of
/// the given length that corridors can lie in without two of them being in
/// neighbouring ones: every other one, starting with the first.
pub open spec fn room(side: int) -> int {
    if side >= 3 {
        (side - 1) / 2
    } else {
        0
    }
}

/// Corridors of which no two parallel ones are near each other, and whose
/// rows lie between 1 and `rows` and whose columns lie between 1 and
/// `columns`, number at most half of `rows`, rounded up, plus half of
/// `columns`, rounded up.
proof fn lemma_spaced_corridors_bound(plan: Seq<Corridor>, rows: int, columns: int)
    requires
        well_spaced(plan),
        forall|k: int|
            0 <= k < plan.len() ==> 1 <= (#[trigger] plan[k]).cross <= (if plan[k].horizontal {
                rows
            } else {
                columns
            }),
    ensures
        plan.len() <= room(rows + 2) + room(columns + 2),
    decreases
            (if rows > 0 {
                rows
            } else {
                0
            }) + (if columns > 0 {
                columns
            } else {
                0
            }),
{
    if rows >= 1 || columns >= 1 {
        let along = rows >= 1;
        let top = if along {
            rows
        } else {
            columns
        };
        let lower_rows = if along {
            rows - 2
        } else {
            rows
        };
        let lower_columns = if along {
            columns
        } else {
            columns - 2
        };
        if exists|k: int|
            0 <= k < plan.len() && (#[trigger] plan[k]).horizontal == along && plan[k].cross >= top
                - 1 {
            let k = choose|k: int|
                0 <= k < plan.len() && (#[trigger] plan[k]).horizontal == along && plan[k].cross
                    >= top - 1;
            let rest = plan.remove(k);
            assert forall|a: int, b: int|
                0 <= a < b < rest.len() && (#[trigger] rest[a]).horizontal == (
                #[trigger] rest[b]).horizontal implies !near(
                rest[a].cross as int,
                rest[b].cross as int,
            ) by {
                let a0 = if a < k {
                    a
                } else {
                    a + 1
                };
                let b0 = if b < k {
                    b
                } else {
                    b + 1
                };
                assert(rest[a] == plan[a0] && rest[b] == plan[b0]);
            }
            assert forall|m: int| 0 <= m < rest.len() implies 1 <= (#[trigger] rest[m]).cross <= (
            if rest[m].horizontal {
                lower_rows
            } else {
                lower_columns
            }) by {
                let m0 = if m < k {
                    m
                } else {
                    m + 1
                };
                assert(rest[m] == plan[m0]);
                if m0 < k {
                    assert(plan[m0].horizontal == plan[k].horizontal ==> !near(
                        plan[m0].cross as int,
                        plan[k].cross as int,
                    ));
                } else {
                    assert(plan[k].horizontal == plan[m0].horizontal ==> !near(
                        plan[k].cross as int,
                        plan[m0].cross as int,
                    ));
                }
            }
            lemma_spaced_corridors_bound(rest, lower_rows, lower_columns);
        } else {
            lemma_spaced_corridors_bound(plan, lower_rows, lower_columns);
        }
    } else {
        if plan.len() > 0 {
            assert(1 <= plan[0].cross);
        }
    }
}

/// A grid holds a full set of corridors only if its rows and columns have
/// room for them: where `room(height) + room(width)` is under
/// `CORRIDOR_COUNT`, no plan exists.
pub proof fn lemma_plan_needs_room(plan: Seq<Corridor>, height: int, width: int)
    requires
        is_plan(plan, height, width),
    ensures
        room(height) + room(width) >= CORRIDOR_COUNT,
{
    assert forall|k: int| 0 <= k < plan.len() implies 1 <= (#[trigger] plan[k]).cross <= (
    if plan[k].horizontal {
        height - 2
    } else {
        width - 2
    }) by {
        assert(plan[k].fits(height, width));
    }
    lemma_spaced_corridors_bound(plan, height - 2, width - 2);
}

/// Calls `rand::random` for a `bool`. Nothing is claimed of the value.
#[verifier::external_body]
fn coin_flip() -> bool {
    rand::random()
}

/// Calls `gen_range` on `rand::thread_rng()`, which panics unless
/// `low < high` and otherwise returns a value that is at least `low` and
/// less than `high`.
#[verifier::external_body]
fn pick_between(low: usize, high: usize) -> (picked: usize)
    requires
        low < high,
    ensures
        low <= picked < high,
{
    rand::thread_rng().gen_range(low, high)
}

/// Draws the corridors for a grid of `height` rows and `width` columns.
///
/// Each round flips a coin for the direction and draws a row (for a
/// horizontal corridor) or a column from [`cross_bounds`]. A position that
/// [`is_free`] turns down is a rejection. Otherwise the corridor's end is
/// drawn from [`end_bounds`], its start from [`start_bounds`], and the
/// corridor is recorded. Drawing stops with the full plan, or with
/// `CarveCapacityExceeded` once the search is [`given_up`].
pub fn draw_corridors(height: usize, width: usize) -> (res: Result<Vec<Corridor>, MazeError>)
    ensures
        height < MIN_SIDE || width < MIN_SIDE ==> res == Err::<Vec<Corridor>, MazeError>(
            MazeError::InvalidDimensions,
        ),
        height >= MIN_SIDE && width >= MIN_SIDE ==> res is Ok || res == Err::<
            Vec<Corridor>,
            MazeError,
        >(MazeError::CarveCapacityExceeded),
        room(height as int) + room(width as int) < CORRIDOR_COUNT ==> res is Err,
        res matches Ok(plan) ==> is_plan(plan@, height as int, width as int),
{
    if height < MIN_SIDE || width < MIN_SIDE {
        return Err(MazeError::InvalidDimensions);
    }
    let mut search: Search = begin();
    while !is_complete(&search)
        invariant
            height >= MIN_SIDE,
            width >= MIN_SIDE,
            search.sound(height as int, width as int),
        decreases CORRIDOR_COUNT - search.plan@.len(), REJECTION_LIMIT - search.rejections,
    {
        if given_up(&search) {
            return Err(MazeError::CarveCapacityExceeded);
        }
        let horizontal: bool = coin_flip();
        let cross_range: (usize, usize) = cross_bounds(horizontal, height, width);
        let cross: usize = pick_between(cross_range.0, cross_range.1);
        if is_free(&search, horizontal, cross) {
            let end_range: (usize, usize) = end_bounds(horizontal, height, width);
            let end_point: usize = pick_between(end_range.0, end_range.1);
            let start_range: (usize, usize) = start_bounds(end_point);
            let start_point: usize = pick_between(start_range.0, start_range.1);
            let corridor = Corridor { horizontal, cross, start: start_point, end: end_point };
            let ghost before = search;
            record(&mut search, corridor);
            proof {
                lemma_record_keeps_sound(before, search, corridor, height as int, width as int);
            }
        } else {
            reject(&mut search);
        }
    }
    proof {
        lemma_plan_needs_room(search.plan@, height as int, width as int);
    }
    Ok(search.plan)
}

/// Carves the full set of randomly placed corridors into the grid.
///
/// The grid has to be the table of `game_output.height` rows and
/// `game_output.width` columns, and both have to be at least `MIN_SIDE`;
/// otherwise the call fails with `InvalidDimensions`. Where no full set of
/// corridors could be drawn it fails with `CarveCapacityExceeded`. A call
/// that fails leaves the grid as it was.
pub fn generate_lines(maze: &mut Vec<Vec<Cell>>, game_output: &TerminalScreen) -> (res: Result<
    (),
    MazeError,
>)
    ensures
        !can_hold_maze(cells(*old(maze)), game_output.height, game_output.width) ==> res
            == Err::<(), MazeError>(MazeError::InvalidDimensions),
        can_hold_maze(cells(*old(maze)), game_output.height, game_output.width) ==> res is Ok
            || res == Err::<(), MazeError>(MazeError::CarveCapacityExceeded),
        room(game_output.height as int) + room(game_output.width as int) < CORRIDOR_COUNT
            ==> res is Err,
        res is Err ==> *final(maze) == *old(maze),
        res is Ok ==> exists|plan: Seq<Corridor>|
            #[trigger] is_plan(plan, game_output.height as int, game_output.width as int)
                && cells(*final(maze)) == carved_all(cells(*old(maze)), plan),
        res is Ok && is_working_grid(
            cells(*old(maze)),
            game_output.height as nat,
            game_output.width as nat,
        ) ==> is_working_grid(
            cells(*final(maze)),
            game_output.height as nat,
            game_output.width as nat,
        ),
{
    if !is_shaped(maze, game_output.height, game_output.width) {
        return Err(MazeError::InvalidDimensions);
    }
    match draw_corridors(game_output.height, game_output.width) {
        Err(e) => Err(e),
        Ok(plan) => {
            proof {
                assert forall|k: int| 0 <= k < plan@.len() implies (#[trigger] plan@[k]).within(
                    cells(*maze),
                ) by {
                    lemma_fits_within(
                        plan@[k],
                        cells(*maze),
                        game_output.height as nat,
                        game_output.width as nat,
                    );
                }
            }
            carve_corridors(maze, &plan);
            proof {
                if is_working_grid(
                    cells(*old(maze)),
                    game_output.height as nat,
                    game_output.width as nat,
                ) {
                    lemma_carved_all_keeps_working_grid(
                        cells(*old(maze)),
                        plan@,
                        game_output.height as nat,
                        game_output.width as nat,
                    );
                }
            }
            assert(is_plan(plan@, game_output.height as int, game_output.width as int));
            Ok(())
        },
    }
}

} // verus!
