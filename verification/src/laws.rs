//! What holds of the rules whatever the field and the piece.

use crate::block::{turned, BlockKind, Mask, Turn, NONE};
use crate::control::{Action, Event, Intent};
use crate::field::{
    grid_wf, is_grid, lemma_cleared_none, lemma_cleared_one, lemma_cleared_two, lemma_cleared_wf,
    row_full, shifted, Grid, FIELD_HEIGHT, FIELD_WIDTH,
};
use crate::game::{GameState, SPAWN_X, SPAWN_Y};
use crate::placement::{collides, covered, hits, lemma_locked_wf};
use vstd::prelude::*;

verus! {

/// Only emptiness matters to a collision: two grids that are empty in the
/// same cells collide with the same pieces, whatever the occupied cells hold.
pub proof fn lemma_collision_by_emptiness(first: Grid, second: Grid, x: int, y: int, mask: Mask)
    requires
        forall|row: int, col: int|
            0 <= row < FIELD_HEIGHT && 0 <= col < FIELD_WIDTH ==> (first[row][col] == NONE
                <==> second[row][col] == NONE),
    ensures
        collides(first, x, y, mask) == collides(second, x, y, mask),
{
    if collides(first, x, y, mask) {
        let (r, c) = choose|r: int, c: int|
            0 <= r < 4 && 0 <= c < 4 && #[trigger] hits(first, x, y, mask, r, c);
        assert(hits(second, x, y, mask, r, c));
    }
    if collides(second, x, y, mask) {
        let (r, c) = choose|r: int, c: int|
            0 <= r < 4 && 0 <= c < 4 && #[trigger] hits(second, x, y, mask, r, c);
        assert(hits(first, x, y, mask, r, c));
    }
}

/// A move to a place where the piece collides changes nothing.
pub proof fn lemma_rejected_move(state: GameState, x: int, y: int)
    requires
        collides(state.grid, x, y, state.mask),
    ensures
        state.moved_to(x, y) == state,
        state.moved_by(x - state.x, y - state.y) == state,
{
}

/// A turn after which the piece collides changes nothing.
pub proof fn lemma_rejected_turn(state: GameState, turn: Turn)
    requires
        collides(state.grid, state.x, state.y, turned(state.mask, turn)),
    ensures
        state.rotated(turn) == state,
{
}

/// Neither a move nor a turn changes the field or the kind of the piece.
pub proof fn lemma_move_keeps_field(state: GameState, dx: int, dy: int, turn: Turn)
    ensures
        state.moved_by(dx, dy).grid == state.grid,
        state.moved_by(dx, dy).kind == state.kind,
        state.moved_by(dx, dy).mask == state.mask,
        state.rotated(turn).grid == state.grid,
        state.rotated(turn).kind == state.kind,
        state.rotated(turn).x == state.x,
        state.rotated(turn).y == state.y,
{
}

/// Locking a piece that completes no row writes the piece and nothing else:
/// the cells under the piece take its color, every other cell keeps what it
/// held.
pub proof fn lemma_lock_completes_nothing(state: GameState)
    requires
        forall|row: int| 1 <= row < FIELD_HEIGHT - 1 ==> !row_full(#[trigger] state.written()[row]),
    ensures
        state.locked_grid() == state.written(),
        forall|row: int, col: int|
            0 <= row < FIELD_HEIGHT && 0 <= col < FIELD_WIDTH ==> (
            #[trigger] state.locked_grid()[row][col]) == (if covered(
                state.x,
                state.y,
                state.mask,
                row,
                col,
            ) {
                state.kind.color_spec()
            } else {
                state.grid[row][col]
            }),
{
    lemma_cleared_none(state.written());
}

/// Locking a piece that completes row `r` and no other removes that row: with
/// `written` the field as the piece has been written into it, the rows above
/// `r` have moved down by one, row 1 is a copy of row 0, the rows below `r`
/// are as written, and the field has kept its height and width.
pub proof fn lemma_lock_completes_one(state: GameState, r: int)
    requires
        1 <= r < FIELD_HEIGHT - 1,
        forall|row: int|
            1 <= row < FIELD_HEIGHT - 1 ==> (row_full(#[trigger] state.written()[row]) <==> row
                == r),
    ensures
        ({
            let written = state.written();
            &&& state.locked_grid() == shifted(written, r)
            &&& is_grid(state.locked_grid())
            &&& state.locked_grid()[0] == written[0]
            &&& state.locked_grid()[1] == written[0]
            &&& forall|row: int|
                1 <= row <= r ==> #[trigger] state.locked_grid()[row] == written[row - 1]
            &&& forall|row: int|
                r < row < FIELD_HEIGHT ==> #[trigger] state.locked_grid()[row] == written[row]
        }),
{
    lemma_cleared_one(state.written(), r);
}

/// Locking a piece that completes the rows `r1` and `r2` and no other removes
/// both: the rows above `r1` have moved down by two, those between the two
/// by one, rows 1 and 2 are copies of row 0, and the rows below `r2` are as
/// written. Where the piece did fit, the field keeps its border.
pub proof fn lemma_lock_completes_two(state: GameState, r1: int, r2: int)
    requires
        1 <= r1 < r2 < FIELD_HEIGHT - 1,
        forall|row: int|
            1 <= row < FIELD_HEIGHT - 1 ==> (row_full(#[trigger] state.written()[row]) <==> row
                == r1 || row == r2),
    ensures
        ({
            let written = state.written();
            &&& state.locked_grid() == shifted(shifted(written, r1), r2)
            &&& state.locked_grid()[1] == written[0]
            &&& state.locked_grid()[2] == written[0]
            &&& forall|row: int|
                2 <= row <= r1 + 1 ==> #[trigger] state.locked_grid()[row] == written[row - 2]
            &&& forall|row: int|
                r1 + 1 < row <= r2 ==> #[trigger] state.locked_grid()[row] == written[row - 1]
            &&& forall|row: int|
                r2 < row < FIELD_HEIGHT ==> #[trigger] state.locked_grid()[row] == written[row]
            &&& state.wf() && !state.over ==> grid_wf(state.locked_grid())
        }),
{
    let written = state.written();
    lemma_cleared_two(written, r1, r2);
    assert(state.locked_grid()[2] == written[0]);
    if state.wf() && !state.over {
        state.lemma_locked_grid_wf();
    }
}

/// However many rows a piece completes, locking it into a well-formed session
/// keeps the border, and leaves no playable row full unless row 0 is.
pub proof fn lemma_lock_leaves_no_full_row(state: GameState)
    requires
        state.wf(),
        !state.over,
    ensures
        grid_wf(state.locked_grid()),
        !row_full(state.written()[0]) ==> forall|row: int|
            1 <= row < FIELD_HEIGHT - 1 ==> !row_full(#[trigger] state.locked_grid()[row]),
{
    lemma_locked_wf(state.grid, state.x, state.y, state.mask, state.kind.color_spec());
    lemma_cleared_wf(state.written());
}

/// A spawn position that is taken ends the game and leaves the field, the
/// piece and its place as they were.
pub proof fn lemma_blocked_spawn(state: GameState, kind: BlockKind)
    requires
        !state.over,
        collides(state.grid, SPAWN_X as int, SPAWN_Y as int, kind.canonical()),
    ensures
        state.spawned(kind) == (GameState { over: true, ..state }),
{
}

/// Once the game is over nothing changes the session any more.
pub proof fn lemma_over_is_final(
    state: GameState,
    event: Event,
    next: BlockKind,
    dx: int,
    dy: int,
    turn: Turn,
)
    requires
        state.over,
    ensures
        state.moved_by(dx, dy) == state,
        state.rotated(turn) == state,
        state.spawned(next) == state,
        state.landed(next) == state,
        state.soft_dropped(next) == state,
        state.hard_dropped(next) == state,
        state.stepped(event, next) == state,
        state.action(event, next) != Action::Render,
{
}

/// A session that is over stays as it is through any run of events.
pub proof fn lemma_run_over(state: GameState, steps: Seq<(Event, BlockKind)>)
    requires
        state.over,
    ensures
        state.run(steps) == state,
    decreases steps.len(),
{
    if steps.len() > 0 {
        lemma_run_over(state, steps.drop_last());
        lemma_over_is_final(state, steps.last().0, steps.last().1, 0, 0, Turn::Left);
    }
}

/// Whatever events reach a well-formed session, in whatever order, it stays
/// well formed: the field keeps its border, and while the game runs the piece
/// lies inside it on empty cells.
pub proof fn lemma_run_wf(state: GameState, steps: Seq<(Event, BlockKind)>)
    requires
        state.wf(),
    ensures
        state.run(steps).wf(),
        grid_wf(state.run(steps).grid),
    decreases steps.len(),
{
    if steps.len() > 0 {
        lemma_run_wf(state, steps.drop_last());
        state.run(steps.drop_last()).lemma_stepped_wf(steps.last().0, steps.last().1);
    }
}

/// A run asks for at most one drawing per event, and for exactly one per
/// event where the game still runs at its end and the player never quit.
pub proof fn lemma_one_render_per_event(state: GameState, steps: Seq<(Event, BlockKind)>)
    ensures
        state.renders(steps) <= steps.len(),
        !state.run(steps).over && (forall|i: int|
            0 <= i < steps.len() ==> (#[trigger] steps[i]).0 != Event::Input(Intent::Quit))
            ==> state.renders(steps) == steps.len(),
    decreases steps.len(),
{
    if steps.len() > 0 {
        let init = steps.drop_last();
        lemma_one_render_per_event(state, init);
        let before = state.run(init);
        if before.over {
            lemma_over_is_final(before, steps.last().0, steps.last().1, 0, 0, Turn::Left);
        }
        assert forall|i: int| 0 <= i < init.len() implies (#[trigger] init[i]) == steps[i] by {}
    }
}

} // verus!
