//! The walled field: its rows, the test for a complete row, and the removal
//! of complete rows.

use crate::block::{BlockColor, NONE, WALL};
use vstd::prelude::*;

verus! {

/// Playable columns and the two wall columns.
pub const FIELD_WIDTH: usize = 13;

/// Playable rows and the floor.
pub const FIELD_HEIGHT: usize = 21;

/// One row of the field, wall to wall.
pub type Row = [BlockColor; FIELD_WIDTH];

/// The field: its rows from the top, the floor last.
pub type Field = [Row; FIELD_HEIGHT];

/// A field as contracts see it: rows of cells, top row first.
pub type Grid = Seq<Seq<BlockColor>>;

/// The rows of a field.
pub open spec fn grid_of(field: Field) -> Grid {
    Seq::new(FIELD_HEIGHT as nat, |y: int| field[y]@)
}

/// Whether `grid` has the field's dimensions.
pub open spec fn is_grid(grid: Grid) -> bool {
    grid.len() == FIELD_HEIGHT && forall|y: int|
        0 <= y < FIELD_HEIGHT ==> (#[trigger] grid[y]).len() == FIELD_WIDTH
}

/// The border invariant: the first and last column are wall in every row, the
/// last row is wall throughout, and every other cell is empty or holds the
/// color of a piece.
pub open spec fn grid_wf(grid: Grid) -> bool {
    &&& is_grid(grid)
    &&& forall|y: int, x: int|
        0 <= y < FIELD_HEIGHT && 0 <= x < FIELD_WIDTH ==> cell_wf(#[trigger] grid[y][x], y, x)
}

/// What the border invariant asks of the cell in row `y`, column `x`.
pub open spec fn cell_wf(cell: BlockColor, y: int, x: int) -> bool {
    if x == 0 || x == FIELD_WIDTH - 1 || y == FIELD_HEIGHT - 1 {
        cell == WALL
    } else {
        cell == NONE || 2 <= cell <= 8
    }
}

/// The field with walls and nothing else.
pub open spec fn empty_grid() -> Grid {
    Seq::new(
        FIELD_HEIGHT as nat,
        |y: int|
            Seq::new(
                FIELD_WIDTH as nat,
                |x: int|
                    if x == 0 || x == FIELD_WIDTH - 1 || y == FIELD_HEIGHT - 1 {
                        WALL
                    } else {
                        NONE
                    },
            ),
    )
}

/// Whether every cell between the two walls of `row` is occupied.
pub open spec fn row_full(row: Seq<BlockColor>) -> bool {
    forall|x: int| 1 <= x < FIELD_WIDTH - 1 ==> #[trigger] row[x] != NONE
}

/// The grid after the rows from `below_row` up to row 1 have each taken the
/// contents of the row above: row 1 is a copy of row 0, and what row
/// `below_row` held is gone.
pub open spec fn shifted(grid: Grid, below_row: int) -> Grid {
    Seq::new(
        grid.len(),
        |y: int|
            if 1 <= y <= below_row {
                grid[y - 1]
            } else {
                grid[y]
            },
    )
}

/// The rows among rows 1 to `upto - 1` that are not full, in their order.
pub open spec fn kept_rows(grid: Grid, upto: int) -> Seq<Seq<BlockColor>> {
    grid.subrange(1, upto).filter(|row: Seq<BlockColor>| !row_full(row))
}

/// The grid after every full row among the playable rows has been removed:
/// the rows that are not full keep their order and sink to the floor, and as
/// many copies of row 0 as rows were removed fill the top of the play area.
/// Row 0 and the floor stay.
pub open spec fn cleared(grid: Grid) -> Grid {
    let kept = kept_rows(grid, FIELD_HEIGHT - 1);
    let removed = FIELD_HEIGHT - 2 - kept.len();
    seq![grid[0]] + Seq::new(removed as nat, |i: int| grid[0]) + kept + seq![
        grid[FIELD_HEIGHT - 1],
    ]
}

/// The grid after the full rows among rows 1 to `upto - 1` have been removed.
pub open spec fn cleared_upto(grid: Grid, upto: int) -> Grid {
    let kept = kept_rows(grid, upto);
    let removed = upto - 1 - kept.len();
    Seq::new(
        grid.len(),
        |y: int|
            if 1 <= y < upto {
                if y <= removed {
                    grid[0]
                } else {
                    kept[y - 1 - removed]
                }
            } else {
                grid[y]
            },
    )
}

/// A field with its walls and no locked cell.
pub fn new_empty() -> (field: Field)
    ensures
        grid_of(field) == empty_grid(),
        grid_wf(grid_of(field)),
{
    let open: Row = [1, 0, 0, 0, 0, 0, 0, 0, 0, 0, 0, 0, 1];
    let floor: Row = [WALL; FIELD_WIDTH];
    let mut field: Field = [open; FIELD_HEIGHT];
    field[FIELD_HEIGHT - 1] = floor;
    assert(grid_of(field) =~~= empty_grid());
    field
}

/// Whether the field keeps the border invariant.
pub fn has_border(field: &Field) -> (ok: bool)
    ensures
        ok == grid_wf(grid_of(*field)),
{
    let ghost grid = grid_of(*field);
    let mut y: usize = 0;
    while y < FIELD_HEIGHT
        invariant
            y <= FIELD_HEIGHT,
            grid == grid_of(*field),
            forall|i: int, j: int|
                0 <= i < y && 0 <= j < FIELD_WIDTH ==> cell_wf(#[trigger] grid[i][j], i, j),
        decreases FIELD_HEIGHT - y,
    {
        let mut x: usize = 0;
        while x < FIELD_WIDTH
            invariant
                y < FIELD_HEIGHT,
                x <= FIELD_WIDTH,
                grid == grid_of(*field),
                forall|i: int, j: int|
                    0 <= i < y && 0 <= j < FIELD_WIDTH ==> cell_wf(#[trigger] grid[i][j], i, j),
                forall|j: int| 0 <= j < x ==> cell_wf(#[trigger] grid[y as int][j], y as int, j),
            decreases FIELD_WIDTH - x,
        {
            let cell = field[y][x];
            let ok = if x == 0 || x == FIELD_WIDTH - 1 || y == FIELD_HEIGHT - 1 {
                cell == WALL
            } else {
                cell == NONE || (2 <= cell && cell <= 8)
            };
            if !ok {
                assert(!cell_wf(grid[y as int][x as int], y as int, x as int));
                return false;
            }
            x += 1;
        }
        y += 1;
    }
    true
}

/// Whether every cell between the walls of row `row` is occupied.
pub fn row_is_full(field: &Field, row: usize) -> (full: bool)
    requires
        row < FIELD_HEIGHT,
    ensures
        full == row_full(grid_of(*field)[row as int]),
{
    let mut x: usize = 1;
    while x < FIELD_WIDTH - 1
        invariant
            1 <= x <= FIELD_WIDTH - 1,
            row < FIELD_HEIGHT,
            forall|i: int| 1 <= i < x ==> #[trigger] grid_of(*field)[row as int][i] != NONE,
        decreases FIELD_WIDTH - x,
    {
        if field[row][x] == NONE {
            return false;
        }
        x += 1;
    }
    true
}

/// Removes row `below_row`: that row and every row above it down to row 1
/// take the contents of the row above them.
pub fn shift_rows_down(field: &mut Field, below_row: usize)
    requires
        below_row < FIELD_HEIGHT,
    ensures
        grid_of(*final(field)) == shifted(grid_of(*old(field)), below_row as int),
        grid_wf(grid_of(*old(field))) && below_row < FIELD_HEIGHT - 1 ==> grid_wf(
            grid_of(*final(field)),
        ),
{
    let ghost before = grid_of(*field);
    proof {
        if grid_wf(before) && below_row < FIELD_HEIGHT - 1 {
            lemma_shifted_wf(before, below_row as int);
        }
    }
    let mut y: usize = below_row;
    while y >= 1
        invariant
            y <= below_row < FIELD_HEIGHT,
            before.len() == FIELD_HEIGHT,
            forall|i: int|
                0 <= i < FIELD_HEIGHT ==> #[trigger] grid_of(*field)[i] == (if y < i <= below_row {
                    before[i - 1]
                } else {
                    before[i]
                }),
        decreases y,
    {
        let ghost prev = grid_of(*field);
        field[y] = field[y - 1];
        assert forall|i: int| 0 <= i < FIELD_HEIGHT implies #[trigger] grid_of(*field)[i] == (if i
            == y {
            prev[y - 1]
        } else {
            prev[i]
        }) by {}
        y -= 1;
    }
    assert(grid_of(*field) =~= shifted(before, below_row as int));
}

/// Removes every full row among the playable rows, top to bottom.
pub fn erase_line(field: &mut Field)
    ensures
        grid_of(*final(field)) == cleared(grid_of(*old(field))),
        grid_wf(grid_of(*old(field))) ==> grid_wf(grid_of(*final(field))),
{
    let ghost before = grid_of(*field);
    proof {
        if grid_wf(before) {
            lemma_cleared_wf(before);
        }
    }
    let mut y: usize = 1;
    assert(grid_of(*field) =~= cleared_upto(before, 1));
    while y < FIELD_HEIGHT - 1
        invariant
            1 <= y <= FIELD_HEIGHT - 1,
            is_grid(before),
            grid_of(*field) == cleared_upto(before, y as int),
        decreases FIELD_HEIGHT - y,
    {
        proof {
            lemma_kept_rows_step(before, y as int);
        }
        if row_is_full(field, y) {
            shift_rows_down(field, y);
        }
        assert(grid_of(*field) =~= cleared_upto(before, y + 1));
        y += 1;
    }
    proof {
        lemma_cleared_upto_all(before);
    }
}

/// One more row looked at: it joins the kept rows unless it is full.
pub proof fn lemma_kept_rows_step(grid: Grid, y: int)
    requires
        is_grid(grid),
        1 <= y < FIELD_HEIGHT - 1,
    ensures
        kept_rows(grid, y).len() <= y - 1,
        kept_rows(grid, y + 1) == if row_full(grid[y]) {
            kept_rows(grid, y)
        } else {
            kept_rows(grid, y).push(grid[y])
        },
{
    let pred = |row: Seq<BlockColor>| !row_full(row);
    let upto = grid.subrange(1, y + 1);
    assert(upto.drop_last() =~= grid.subrange(1, y));
    assert(upto.last() == grid[y]);
    grid.subrange(1, y).lemma_filter_len(pred);
    reveal(Seq::filter);
}

/// Looking at one more row removes it if it is full and changes nothing if it
/// is not.
pub proof fn lemma_cleared_upto_step(grid: Grid, y: int)
    requires
        is_grid(grid),
        1 <= y < FIELD_HEIGHT - 1,
    ensures
        cleared_upto(grid, y + 1) == if row_full(grid[y]) {
            shifted(cleared_upto(grid, y), y)
        } else {
            cleared_upto(grid, y)
        },
{
    lemma_kept_rows_step(grid, y);
    if row_full(grid[y]) {
        assert(cleared_upto(grid, y + 1) =~= shifted(cleared_upto(grid, y), y));
    } else {
        assert(cleared_upto(grid, y + 1) =~= cleared_upto(grid, y));
    }
}

/// Removing the full rows one playable row after the other gives the cleared
/// grid.
pub proof fn lemma_cleared_upto_all(grid: Grid)
    requires
        is_grid(grid),
    ensures
        cleared_upto(grid, FIELD_HEIGHT - 1) == cleared(grid),
{
    let pred = |row: Seq<BlockColor>| !row_full(row);
    grid.subrange(1, FIELD_HEIGHT - 1).lemma_filter_len(pred);
    assert(cleared_upto(grid, FIELD_HEIGHT - 1) =~= cleared(grid));
}

/// Removing a playable row keeps the border.
pub proof fn lemma_shifted_wf(grid: Grid, below_row: int)
    requires
        grid_wf(grid),
        below_row < FIELD_HEIGHT - 1,
    ensures
        grid_wf(shifted(grid, below_row)),
{
    let out = shifted(grid, below_row);
    assert forall|y: int, x: int| 0 <= y < FIELD_HEIGHT && 0 <= x < FIELD_WIDTH implies cell_wf(
        #[trigger] out[y][x],
        y,
        x,
    ) by {
        if 1 <= y <= below_row {
            assert(out[y][x] == grid[y - 1][x]);
        } else {
            assert(out[y][x] == grid[y][x]);
        }
    }
}

/// Removing the full rows among the first playable rows keeps the border, and
/// leaves none of those rows full unless row 0 is.
pub proof fn lemma_cleared_upto_wf(grid: Grid, upto: int)
    requires
        grid_wf(grid),
        1 <= upto <= FIELD_HEIGHT - 1,
    ensures
        grid_wf(cleared_upto(grid, upto)),
        cleared_upto(grid, upto)[0] == grid[0],
        !row_full(grid[0]) ==> forall|y: int|
            1 <= y < upto ==> !row_full(#[trigger] cleared_upto(grid, upto)[y]),
        forall|y: int|
            upto <= y < FIELD_HEIGHT ==> #[trigger] cleared_upto(grid, upto)[y] == grid[y],
    decreases upto,
{
    if upto == 1 {
        assert(cleared_upto(grid, 1) =~= grid);
    } else {
        let y = upto - 1;
        let prev = cleared_upto(grid, y);
        lemma_cleared_upto_wf(grid, y);
        lemma_cleared_upto_step(grid, y);
        if row_full(grid[y]) {
            lemma_shifted_wf(prev, y);
            assert forall|i: int| 1 <= i < upto implies #[trigger] shifted(prev, y)[i] == prev[i
                - 1] by {}
        }
    }
}

/// Removing the full rows keeps the border invariant, and no playable row is
/// full afterwards unless row 0 was.
pub proof fn lemma_cleared_wf(grid: Grid)
    requires
        grid_wf(grid),
    ensures
        grid_wf(cleared(grid)),
        cleared(grid)[0] == grid[0],
        !row_full(grid[0]) ==> forall|y: int|
            1 <= y < FIELD_HEIGHT - 1 ==> !row_full(#[trigger] cleared(grid)[y]),
{
    lemma_cleared_upto_wf(grid, FIELD_HEIGHT - 1);
    lemma_cleared_upto_all(grid);
}

/// Where none of the rows from `from` to `upto - 1` is full, looking at them
/// removes nothing.
pub proof fn lemma_cleared_upto_skip(grid: Grid, from: int, upto: int)
    requires
        is_grid(grid),
        1 <= from <= upto <= FIELD_HEIGHT - 1,
        forall|y: int| from <= y < upto ==> !row_full(#[trigger] grid[y]),
    ensures
        cleared_upto(grid, upto) == cleared_upto(grid, from),
    decreases upto - from,
{
    if from < upto {
        lemma_cleared_upto_skip(grid, from, upto - 1);
        lemma_cleared_upto_step(grid, upto - 1);
    }
}

/// A grid without a full playable row is left as it is.
pub proof fn lemma_cleared_none(grid: Grid)
    requires
        is_grid(grid),
        forall|y: int| 1 <= y < FIELD_HEIGHT - 1 ==> !row_full(#[trigger] grid[y]),
    ensures
        cleared(grid) == grid,
{
    lemma_cleared_upto_skip(grid, 1, FIELD_HEIGHT - 1);
    lemma_cleared_upto_all(grid);
    assert(cleared_upto(grid, 1) =~= grid);
}

/// Where row `r` is the one full playable row, that row goes: the rows above
/// it move down by one, row 1 becomes a copy of row 0, and the rows below
/// `r` stay.
pub proof fn lemma_cleared_one(grid: Grid, r: int)
    requires
        is_grid(grid),
        1 <= r < FIELD_HEIGHT - 1,
        forall|y: int| 1 <= y < FIELD_HEIGHT - 1 ==> (row_full(#[trigger] grid[y]) <==> y == r),
    ensures
        cleared(grid) == shifted(grid, r),
        is_grid(cleared(grid)),
        cleared(grid)[1] == grid[0],
        forall|y: int| 1 <= y <= r ==> #[trigger] cleared(grid)[y] == grid[y - 1],
        forall|y: int| r < y < FIELD_HEIGHT ==> #[trigger] cleared(grid)[y] == grid[y],
{
    lemma_cleared_upto_skip(grid, 1, r);
    assert(cleared_upto(grid, 1) =~= grid);
    lemma_cleared_upto_step(grid, r);
    lemma_cleared_upto_skip(grid, r + 1, FIELD_HEIGHT - 1);
    lemma_cleared_upto_all(grid);
}

/// Where rows `r1` and `r2` are the two full playable rows, both go: the
/// result is that of removing `r1` and then `r2`.
pub proof fn lemma_cleared_two(grid: Grid, r1: int, r2: int)
    requires
        is_grid(grid),
        1 <= r1 < r2 < FIELD_HEIGHT - 1,
        forall|y: int|
            1 <= y < FIELD_HEIGHT - 1 ==> (row_full(#[trigger] grid[y]) <==> y == r1 || y == r2),
    ensures
        cleared(grid) == shifted(shifted(grid, r1), r2),
        forall|y: int| 2 <= y <= r1 + 1 ==> #[trigger] cleared(grid)[y] == grid[y - 2],
        forall|y: int| r1 + 1 < y <= r2 ==> #[trigger] cleared(grid)[y] == grid[y - 1],
        forall|y: int| r2 < y < FIELD_HEIGHT ==> #[trigger] cleared(grid)[y] == grid[y],
        cleared(grid)[1] == grid[0],
{
    lemma_cleared_upto_skip(grid, 1, r1);
    assert(cleared_upto(grid, 1) =~= grid);
    lemma_cleared_upto_step(grid, r1);
    lemma_cleared_upto_skip(grid, r1 + 1, r2);
    lemma_cleared_upto_step(grid, r2);
    lemma_cleared_upto_skip(grid, r2 + 1, FIELD_HEIGHT - 1);
    lemma_cleared_upto_all(grid);
}

} // verus!
