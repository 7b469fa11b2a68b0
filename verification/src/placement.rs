//! Where a piece lies in the field: what it covers, when it collides, and
//! why the walls keep it inside.

use crate::block::{is_shape_of, BlockColor, BlockKind, Mask, NONE};
use crate::field::{cell_wf, grid_wf, Grid, FIELD_HEIGHT, FIELD_WIDTH};
use crate::game::{SPAWN_X, SPAWN_Y};
use vstd::prelude::*;

verus! {

/// Whether the mask cell in row `r`, column `c` of a box at column `x`, row
/// `y` lies inside the grid on an occupied cell, and is occupied itself.
pub open spec fn hits(grid: Grid, x: int, y: int, mask: Mask, r: int, c: int) -> bool {
    &&& mask[r][c] != NONE
    &&& cell_inside(x, y, r, c)
    &&& grid[y + r][x + c] != NONE
}

/// Whether a piece with `mask` at column `x`, row `y` overlaps an occupied
/// cell of the grid. Cells of the box that lie outside the grid do not count.
pub open spec fn collides(grid: Grid, x: int, y: int, mask: Mask) -> bool {
    exists|r: int, c: int| 0 <= r < 4 && 0 <= c < 4 && #[trigger] hits(grid, x, y, mask, r, c)
}

/// Whether the cell in row `r`, column `c` of a box at column `x`, row `y`
/// lies inside the grid.
pub open spec fn cell_inside(x: int, y: int, r: int, c: int) -> bool {
    0 <= y + r < FIELD_HEIGHT && 0 <= x + c < FIELD_WIDTH
}

/// Whether every occupied cell of the mask lies inside the grid.
pub open spec fn in_range(x: int, y: int, mask: Mask) -> bool {
    forall|r: int, c: int|
        0 <= r < 4 && 0 <= c < 4 && #[trigger] mask[r][c] != NONE ==> cell_inside(x, y, r, c)
}

/// Whether the piece lies inside the grid on empty cells only.
pub open spec fn fits(grid: Grid, x: int, y: int, mask: Mask) -> bool {
    in_range(x, y, mask) && !collides(grid, x, y, mask)
}

/// Whether the piece with `mask` at column `x`, row `y` occupies the grid
/// cell in row `row`, column `col`.
pub open spec fn covered(x: int, y: int, mask: Mask, row: int, col: int) -> bool {
    0 <= row - y < 4 && 0 <= col - x < 4 && mask[row - y][col - x] != NONE
}

/// The grid with the piece's cells written into it in `color`.
pub open spec fn locked(grid: Grid, x: int, y: int, mask: Mask, color: BlockColor) -> Grid {
    Seq::new(
        FIELD_HEIGHT as nat,
        |row: int|
            Seq::new(
                FIELD_WIDTH as nat,
                |col: int|
                    if covered(x, y, mask, row, col) {
                        color
                    } else {
                        grid[row][col]
                    },
            ),
    )
}

/// What `fits` says of the cell in row `r`, column `c` of the box.
pub open spec fn cell_fits(grid: Grid, x: int, y: int, mask: Mask, r: int, c: int) -> bool {
    mask[r][c] != NONE ==> cell_inside(x, y, r, c) && grid[y + r][x + c] == NONE
}

/// What `!collides` says of the cell in row `r`, column `c` of the box.
pub open spec fn cell_free(grid: Grid, x: int, y: int, mask: Mask, r: int, c: int) -> bool {
    mask[r][c] != NONE && cell_inside(x, y, r, c) ==> grid[y + r][x + c] == NONE
}

/// `cell_fits` of the four cells of row `r` of the box.
pub open spec fn row_fits(grid: Grid, x: int, y: int, mask: Mask, r: int) -> bool {
    &&& cell_fits(grid, x, y, mask, r, 0)
    &&& cell_fits(grid, x, y, mask, r, 1)
    &&& cell_fits(grid, x, y, mask, r, 2)
    &&& cell_fits(grid, x, y, mask, r, 3)
}

/// `cell_free` of the four cells of row `r` of the box.
pub open spec fn row_free(grid: Grid, x: int, y: int, mask: Mask, r: int) -> bool {
    &&& cell_free(grid, x, y, mask, r, 0)
    &&& cell_free(grid, x, y, mask, r, 1)
    &&& cell_free(grid, x, y, mask, r, 2)
    &&& cell_free(grid, x, y, mask, r, 3)
}

/// A piece that fits has each of its cells inside the grid on an empty cell.
pub proof fn lemma_fits_cells(grid: Grid, x: int, y: int, mask: Mask)
    requires
        fits(grid, x, y, mask),
    ensures
        forall|r: int, c: int|
            0 <= r < 4 && 0 <= c < 4 ==> #[trigger] cell_fits(grid, x, y, mask, r, c),
        row_fits(grid, x, y, mask, 0),
        row_fits(grid, x, y, mask, 1),
        row_fits(grid, x, y, mask, 2),
        row_fits(grid, x, y, mask, 3),
{
    assert forall|r: int, c: int| 0 <= r < 4 && 0 <= c < 4 implies #[trigger] cell_fits(
        grid,
        x,
        y,
        mask,
        r,
        c,
    ) by {
        if mask[r][c] != NONE {
            assert(!hits(grid, x, y, mask, r, c));
        }
    }
}

/// A piece that does not collide has each of its cells off the grid or on an
/// empty cell.
pub proof fn lemma_free_cells(grid: Grid, x: int, y: int, mask: Mask)
    requires
        !collides(grid, x, y, mask),
    ensures
        forall|r: int, c: int|
            0 <= r < 4 && 0 <= c < 4 ==> #[trigger] cell_free(grid, x, y, mask, r, c),
        row_free(grid, x, y, mask, 0),
        row_free(grid, x, y, mask, 1),
        row_free(grid, x, y, mask, 2),
        row_free(grid, x, y, mask, 3),
{
    assert forall|r: int, c: int| 0 <= r < 4 && 0 <= c < 4 implies #[trigger] cell_free(
        grid,
        x,
        y,
        mask,
        r,
        c,
    ) by {
        assert(!hits(grid, x, y, mask, r, c));
    }
}

/// Where a piece fits, any orientation of its kind that does not collide
/// there lies inside the field: the right wall and the floor stop the
/// orientations that would reach past them.
pub proof fn lemma_turn_stays_inside(grid: Grid, x: int, y: int, kind: BlockKind, n: int, m: int)
    requires
        grid_wf(grid),
        0 <= x,
        0 <= y,
        0 <= n < 4,
        0 <= m < 4,
        fits(grid, x, y, kind.orientation(n)),
        !collides(grid, x, y, kind.orientation(m)),
    ensures
        in_range(x, y, kind.orientation(m)),
{
    let turned = kind.orientation(m);
    lemma_fits_cells(grid, x, y, kind.orientation(n));
    lemma_free_cells(grid, x, y, turned);
    assert forall|r: int, c: int|
        0 <= r < 4 && 0 <= c < 4 && #[trigger] turned[r][c] != NONE implies cell_inside(
        x,
        y,
        r,
        c,
    ) by {
        assert(kind.covers_turned(m, r, c));
    }
}

/// A piece that fits a bordered field lies above the floor.
pub proof fn lemma_fits_above_floor(grid: Grid, x: int, y: int, mask: Mask, kind: BlockKind)
    requires
        grid_wf(grid),
        0 <= x,
        0 <= y,
        is_shape_of(mask, kind),
        fits(grid, x, y, mask),
    ensures
        x < FIELD_WIDTH - 1,
        y < FIELD_HEIGHT - 1,
{
    let n = choose|n: int| 0 <= n < 4 && mask == #[trigger] kind.orientation(n);
    lemma_fits_cells(grid, x, y, mask);
    assert(mask[1][1] != NONE || mask[1][2] != NONE || mask[2][1] != NONE || mask[2][2] != NONE);
}

/// From where a piece fits, a place one step away in any direction that does
/// not collide is a place where it fits: the walls keep it inside.
pub proof fn lemma_step_fits(grid: Grid, x: int, y: int, mask: Mask, nx: int, ny: int)
    requires
        grid_wf(grid),
        fits(grid, x, y, mask),
        0 <= x,
        0 <= y,
        0 <= nx,
        0 <= ny,
        x - 1 <= nx <= x + 1,
        y - 1 <= ny <= y + 1,
        !collides(grid, nx, ny, mask),
    ensures
        fits(grid, nx, ny, mask),
{
    lemma_fits_cells(grid, x, y, mask);
    assert forall|r: int, c: int|
        0 <= r < 4 && 0 <= c < 4 && #[trigger] mask[r][c] != NONE implies cell_inside(
        nx,
        ny,
        r,
        c,
    ) by {
        assert(cell_fits(grid, x, y, mask, r, c));
    }
}

/// A piece in the shape in which it spawns lies inside the field at the spawn
/// position.
pub proof fn lemma_spawn_inside(kind: BlockKind)
    ensures
        in_range(SPAWN_X as int, SPAWN_Y as int, kind.canonical()),
        is_shape_of(kind.canonical(), kind),
{
    assert(kind.canonical() == kind.orientation(0));
}

/// Writing a piece that fits into a bordered field keeps the border.
pub proof fn lemma_locked_wf(grid: Grid, x: int, y: int, mask: Mask, color: BlockColor)
    requires
        grid_wf(grid),
        0 <= x,
        0 <= y,
        fits(grid, x, y, mask),
        2 <= color <= 8,
    ensures
        grid_wf(locked(grid, x, y, mask, color)),
{
    let out = locked(grid, x, y, mask, color);
    lemma_fits_cells(grid, x, y, mask);
    assert forall|row: int, col: int|
        0 <= row < FIELD_HEIGHT && 0 <= col < FIELD_WIDTH implies cell_wf(
        #[trigger] out[row][col],
        row,
        col,
    ) by {
        if covered(x, y, mask, row, col) {
            assert(cell_fits(grid, x, y, mask, row - y, col - x));
        }
    }
}

} // verus!
