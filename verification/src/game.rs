//! The session: a field, the falling piece, and the moves that change them.

use crate::block::{
    is_orientation_of, is_shape_of, lemma_turn_orientation, mask_of, random_kind, rotate,
    shape_of, turned, BlockColor, BlockKind, BlockShape, Mask, Turn, NONE,
};
use crate::field::{
    cleared, empty_grid, erase_line, grid_of, grid_wf, has_border, lemma_cleared_wf, new_empty,
    Field, Grid, FIELD_HEIGHT, FIELD_WIDTH,
};
use crate::placement::{
    cell_inside, collides, covered, fits, hits, in_range, lemma_fits_above_floor, lemma_locked_wf,
    lemma_spawn_inside, lemma_step_fits, lemma_turn_stays_inside, locked,
};
use vstd::prelude::*;

verus! {

/// Column at which a piece spawns.
pub const SPAWN_X: usize = 4;

/// Row at which a piece spawns.
pub const SPAWN_Y: usize = 0;

/// Where the top left corner of a piece's box lies in the field.
#[derive(Clone, Copy, Debug, PartialEq, Eq, Structural)]
pub struct Position {
    pub x: usize,
    pub y: usize,
}

impl Position {
    /// The position at which every piece spawns.
    pub fn init() -> (pos: Position)
        ensures
            pos.x == SPAWN_X,
            pos.y == SPAWN_Y,
    {
        Position { x: SPAWN_X, y: SPAWN_Y }
    }
}

/// The session: the field, the falling piece with its kind, its position and
/// the shape it has after its turns, and whether the game has ended.
#[derive(Clone, Copy, Debug, PartialEq, Eq)]
pub struct Game {
    pub field: Field,
    pub pos: Position,
    pub block: BlockKind,
    pub shape: BlockShape,
    pub over: bool,
}

/// A session as contracts see it.
pub struct GameState {
    pub grid: Grid,
    pub x: int,
    pub y: int,
    pub kind: BlockKind,
    pub mask: Mask,
    pub over: bool,
}

impl View for Game {
    type V = GameState;

    open spec fn view(&self) -> GameState {
        GameState {
            grid: grid_of(self.field),
            x: self.pos.x as int,
            y: self.pos.y as int,
            kind: self.block,
            mask: mask_of(self.shape),
            over: self.over,
        }
    }
}

impl GameState {
    /// The field keeps its border and the shape is one of the kind's four.
    pub open spec fn settled(self) -> bool {
        &&& grid_wf(self.grid)
        &&& 0 <= self.x
        &&& 0 <= self.y
        &&& is_shape_of(self.mask, self.kind)
    }

    /// A settled session in which, while the game runs, the falling piece lies
    /// inside the field on empty cells.
    pub open spec fn wf(self) -> bool {
        &&& self.settled()
        &&& !self.over ==> fits(self.grid, self.x, self.y, self.mask)
    }

    /// The session after an attempt to put the piece at column `x`, row `y`:
    /// the piece is there if the game runs and the place is free, and nothing
    /// has changed otherwise.
    pub open spec fn moved_to(self, x: int, y: int) -> GameState {
        if !self.over && !collides(self.grid, x, y, self.mask) {
            GameState { x, y, ..self }
        } else {
            self
        }
    }

    /// The session after an attempt to move the piece by `dx` columns and `dy`
    /// rows. A target left of column 0, above row 0 or past what a `usize`
    /// holds is no place at all.
    pub open spec fn moved_by(self, dx: int, dy: int) -> GameState {
        if 0 <= self.x + dx <= usize::MAX && 0 <= self.y + dy <= usize::MAX {
            self.moved_to(self.x + dx, self.y + dy)
        } else {
            self
        }
    }

    /// The session after an attempt to turn the piece where it is.
    pub open spec fn rotated(self, turn: Turn) -> GameState {
        let mask = turned(self.mask, turn);
        if !self.over && !collides(self.grid, self.x, self.y, mask) {
            GameState { mask, ..self }
        } else {
            self
        }
    }

    /// The grid with the piece written into it in the color of its kind.
    pub open spec fn written(self) -> Grid {
        locked(self.grid, self.x, self.y, self.mask, self.kind.color_spec())
    }

    /// What the cell in row `row`, column `col` of the grid holds once the
    /// cells of the piece that come before row `r`, column `c` of its box,
    /// row by row, have been written.
    pub open spec fn written_cell(self, r: int, c: int, row: int, col: int) -> BlockColor {
        let before = row - self.y < r || (row - self.y == r && col - self.x < c);
        if before && covered(self.x, self.y, self.mask, row, col) {
            self.kind.color_spec()
        } else {
            self.grid[row][col]
        }
    }

    /// The grid after the piece has been written into it and the full rows
    /// have been removed.
    pub open spec fn locked_grid(self) -> Grid {
        cleared(self.written())
    }

    /// The session after an attempt to spawn a piece of `kind`: the new piece
    /// falls from the spawn position if that place is free, and the game is
    /// over if it is not.
    pub open spec fn spawned(self, kind: BlockKind) -> GameState {
        if self.over {
            self
        } else if collides(self.grid, SPAWN_X as int, SPAWN_Y as int, kind.canonical()) {
            GameState { over: true, ..self }
        } else {
            GameState {
                x: SPAWN_X as int,
                y: SPAWN_Y as int,
                kind,
                mask: kind.canonical(),
                ..self
            }
        }
    }

    /// The session after the piece has been locked where it is and a piece of
    /// `next` has been asked for.
    pub open spec fn landed(self, next: BlockKind) -> GameState {
        if self.over {
            self
        } else {
            GameState { grid: self.locked_grid(), ..self }.spawned(next)
        }
    }

    /// The session after one step of gravity: the piece is one row lower if
    /// that place is free, and lands if it is not.
    pub open spec fn soft_dropped(self, next: BlockKind) -> GameState {
        if self.over {
            self
        } else if !collides(self.grid, self.x, self.y + 1, self.mask) {
            GameState { y: self.y + 1, ..self }
        } else {
            self.landed(next)
        }
    }

    /// The row at which the piece comes to rest when it falls straight down
    /// from row `y`: the first row from `y` down below which it collides.
    pub open spec fn rest_row(self, y: int) -> int
        decreases FIELD_HEIGHT - y,
    {
        if y < FIELD_HEIGHT && !collides(self.grid, self.x, y + 1, self.mask) {
            self.rest_row(y + 1)
        } else {
            y
        }
    }

    /// The session after the piece has fallen as far as it can and landed.
    pub open spec fn hard_dropped(self, next: BlockKind) -> GameState {
        if self.over {
            self
        } else {
            GameState { y: self.rest_row(self.y), ..self }.landed(next)
        }
    }
}

/// The signal that no piece can spawn any more.
#[derive(Clone, Copy, Debug, PartialEq, Eq, Structural)]
pub struct GameOver;

impl Game {
    /// A session on an empty field with a piece of `kind` at the spawn
    /// position.
    pub fn start(kind: BlockKind) -> (game: Game)
        ensures
            game@ == (GameState {
                grid: empty_grid(),
                x: SPAWN_X as int,
                y: SPAWN_Y as int,
                kind,
                mask: kind.canonical(),
                over: false,
            }),
            game@.wf(),
    {
        let game = Game {
            field: new_empty(),
            pos: Position::init(),
            block: kind,
            shape: shape_of(kind),
            over: false,
        };
        proof {
            lemma_spawn_inside(kind);
            assert forall|r: int, c: int| 0 <= r < 4 && 0 <= c < 4 implies !#[trigger] hits(
                game@.grid,
                game@.x,
                game@.y,
                game@.mask,
                r,
                c,
            ) by {}
        }
        game
    }

    /// A session on an empty field with a piece of a kind drawn at random at
    /// the spawn position.
    pub fn new() -> (game: Game)
        ensures
            game@ == (GameState {
                grid: empty_grid(),
                x: SPAWN_X as int,
                y: SPAWN_Y as int,
                kind: game.block,
                mask: game.block.canonical(),
                over: false,
            }),
            game@.wf(),
    {
        Game::start(random_kind())
    }

    /// Whether the session is well formed: the field keeps its border, the
    /// shape is one of the kind's four, and, while the game runs, the piece
    /// lies inside the field on empty cells.
    pub fn is_well_formed(&self) -> (ok: bool)
        ensures
            ok == self@.wf(),
    {
        has_border(&self.field) && is_orientation_of(&self.shape, self.block) && (self.over || (
        is_in_range(&self.pos, &self.shape) && !is_collision(&self.field, &self.pos, &self.shape)))
    }

    /// Whether the game still runs.
    pub fn is_running(&self) -> (running: bool)
        ensures
            running == !self@.over,
    {
        !self.over
    }
}

/// Whether a piece with `shape` at `pos` overlaps an occupied cell of the
/// field.
pub fn is_collision(field: &Field, pos: &Position, shape: &BlockShape) -> (hit: bool)
    ensures
        hit == collides(grid_of(*field), pos.x as int, pos.y as int, mask_of(*shape)),
{
    let ghost grid = grid_of(*field);
    let ghost mask = mask_of(*shape);
    let ghost (x, y) = (pos.x as int, pos.y as int);
    let mut r: usize = 0;
    while r < 4
        invariant
            r <= 4,
            grid == grid_of(*field),
            mask == mask_of(*shape),
            (x, y) == (pos.x as int, pos.y as int),
            forall|i: int, j: int|
                0 <= i < r && 0 <= j < 4 ==> !#[trigger] hits(grid, x, y, mask, i, j),
        decreases 4 - r,
    {
        let mut c: usize = 0;
        while c < 4
            invariant
                r < 4,
                c <= 4,
                grid == grid_of(*field),
                mask == mask_of(*shape),
                (x, y) == (pos.x as int, pos.y as int),
                forall|i: int, j: int|
                    0 <= i < r && 0 <= j < 4 ==> !#[trigger] hits(grid, x, y, mask, i, j),
                forall|j: int| 0 <= j < c ==> !#[trigger] hits(grid, x, y, mask, r as int, j),
            decreases 4 - c,
        {
            if pos.y < FIELD_HEIGHT - r && pos.x < FIELD_WIDTH - c {
                if field[pos.y + r][pos.x + c] != NONE && shape[r][c] != NONE {
                    assert(hits(grid, x, y, mask, r as int, c as int));
                    return true;
                }
            }
            c += 1;
        }
        r += 1;
    }
    false
}

/// Whether every occupied cell of `shape` at `pos` lies inside the field.
pub fn is_in_range(pos: &Position, shape: &BlockShape) -> (inside: bool)
    ensures
        inside == in_range(pos.x as int, pos.y as int, mask_of(*shape)),
{
    let ghost mask = mask_of(*shape);
    let ghost (x, y) = (pos.x as int, pos.y as int);
    let mut r: usize = 0;
    while r < 4
        invariant
            r <= 4,
            mask == mask_of(*shape),
            (x, y) == (pos.x as int, pos.y as int),
            forall|i: int, j: int|
                0 <= i < r && 0 <= j < 4 && #[trigger] mask[i][j] != NONE ==> cell_inside(x, y, i, j),
        decreases 4 - r,
    {
        let mut c: usize = 0;
        while c < 4
            invariant
                r < 4,
                c <= 4,
                mask == mask_of(*shape),
                (x, y) == (pos.x as int, pos.y as int),
                forall|i: int, j: int|
                    0 <= i < r && 0 <= j < 4 && #[trigger] mask[i][j] != NONE ==> cell_inside(
                        x,
                        y,
                        i,
                        j,
                    ),
                forall|j: int|
                    0 <= j < c && #[trigger] mask[r as int][j] != NONE ==> cell_inside(
                        x,
                        y,
                        r as int,
                        j,
                    ),
            decreases 4 - c,
        {
            if shape[r][c] != NONE && !(pos.y < FIELD_HEIGHT - r && pos.x < FIELD_WIDTH - c) {
                assert(mask[r as int][c as int] != NONE);
                return false;
            }
            c += 1;
        }
        r += 1;
    }
    true
}

/// Writes the falling piece into the field, in the color of its kind.
pub fn fix_block(game: &mut Game)
    requires
        in_range(old(game)@.x, old(game)@.y, old(game)@.mask),
    ensures
        final(game)@ == (GameState { grid: old(game)@.written(), ..old(game)@ }),
        old(game)@.wf() && !old(game)@.over ==> grid_wf(final(game)@.grid),
{
    let ghost before = game@;
    proof {
        if before.wf() && !before.over {
            lemma_locked_wf(before.grid, before.x, before.y, before.mask, before.kind.color_spec());
        }
    }
    let color = game.block.color();
    let mut r: usize = 0;
    while r < 4
        invariant
            r <= 4,
            color == before.kind.color_spec(),
            in_range(before.x, before.y, before.mask),
            game@ == (GameState { grid: game@.grid, ..before }),
            forall|row: int, col: int|
                0 <= row < FIELD_HEIGHT && 0 <= col < FIELD_WIDTH ==> #[trigger] game@.grid[row][col]
                    == before.written_cell(r as int, 0, row, col),
        decreases 4 - r,
    {
        let mut c: usize = 0;
        while c < 4
            invariant
                r < 4,
                c <= 4,
                color == before.kind.color_spec(),
                in_range(before.x, before.y, before.mask),
                game@ == (GameState { grid: game@.grid, ..before }),
                forall|row: int, col: int|
                    0 <= row < FIELD_HEIGHT && 0 <= col < FIELD_WIDTH
                        ==> #[trigger] game@.grid[row][col] == before.written_cell(
                        r as int,
                        c as int,
                        row,
                        col,
                    ),
            decreases 4 - c,
        {
            if game.shape[r][c] != NONE {
                assert(before.mask[r as int][c as int] != NONE);
                let ghost prev = game@.grid;
                game.field[game.pos.y + r][game.pos.x + c] = color;
                assert forall|row: int, col: int|
                    0 <= row < FIELD_HEIGHT && 0 <= col < FIELD_WIDTH implies (
                #[trigger] game@.grid[row][col]) == (if row == before.y + r && col == before.x + c {
                    color
                } else {
                    prev[row][col]
                }) by {}
            }
            c += 1;
        }
        r += 1;
    }
    assert(game@.grid =~~= before.written());
}

/// The field as it is to be drawn: a copy with the falling piece written
/// into it in the color of its kind.
pub fn snapshot(game: &Game) -> (field: Field)
    requires
        in_range(game@.x, game@.y, game@.mask),
    ensures
        grid_of(field) == game@.written(),
{
    let mut drawn = *game;
    fix_block(&mut drawn);
    drawn.field
}

/// Locks the falling piece: writes it into the field, then removes every row
/// that is full.
pub fn lock_piece(game: &mut Game)
    requires
        in_range(old(game)@.x, old(game)@.y, old(game)@.mask),
    ensures
        final(game)@ == (GameState { grid: old(game)@.locked_grid(), ..old(game)@ }),
        old(game)@.wf() && !old(game)@.over ==> grid_wf(final(game)@.grid),
{
    fix_block(game);
    erase_line(&mut game.field);
}

/// Puts the piece at `new_pos` if the game runs and the place is free;
/// otherwise nothing changes.
pub fn move_block(game: &mut Game, new_pos: Position)
    ensures
        final(game)@ == old(game)@.moved_to(new_pos.x as int, new_pos.y as int),
        final(game)@ == old(game)@ ==> *final(game) == *old(game),
        old(game)@.wf() && old(game)@.x - 1 <= new_pos.x <= old(game)@.x + 1 && old(game)@.y - 1
            <= new_pos.y <= old(game)@.y + 1 ==> final(game)@.wf(),
{
    proof {
        if game@.wf() && game@.x - 1 <= new_pos.x <= game@.x + 1 && game@.y - 1 <= new_pos.y
            <= game@.y + 1 {
            game@.lemma_moved_wf(new_pos.x as int, new_pos.y as int);
        }
    }
    if !game.over && !is_collision(&game.field, &new_pos, &game.shape) {
        game.pos = new_pos;
    }
}

/// `v + d`, where that is a `usize`.
fn offset(v: usize, d: isize) -> (out: Option<usize>)
    ensures
        out == if 0 <= v + d <= usize::MAX {
            Some((v + d) as usize)
        } else {
            None
        },
{
    if d >= 0 {
        let up: usize = d as usize;
        if up <= usize::MAX - v {
            Some(v + up)
        } else {
            None
        }
    } else {
        let down: usize = (-(d + 1)) as usize;
        if v > down {
            Some(v - down - 1)
        } else {
            None
        }
    }
}

/// Moves the piece by `dx` columns and `dy` rows if the game runs and the
/// place is free; otherwise nothing changes.
pub fn try_move(game: &mut Game, dx: isize, dy: isize)
    ensures
        final(game)@ == old(game)@.moved_by(dx as int, dy as int),
        final(game)@ == old(game)@ ==> *final(game) == *old(game),
        old(game)@.wf() && -1 <= dx <= 1 && -1 <= dy <= 1 ==> final(game)@.wf(),
{
    match (offset(game.pos.x, dx), offset(game.pos.y, dy)) {
        (Some(x), Some(y)) => move_block(game, Position { x, y }),
        _ => {},
    }
}

/// Turns the piece where it is if the game runs and the turned piece
/// collides with nothing; otherwise nothing changes.
pub fn try_rotate(game: &mut Game, turn: Turn)
    ensures
        final(game)@ == old(game)@.rotated(turn),
        final(game)@ == old(game)@ ==> *final(game) == *old(game),
        old(game)@.wf() ==> final(game)@.wf(),
{
    proof {
        if game@.wf() {
            game@.lemma_rotated_wf(turn);
        }
    }
    let shape = rotate(&game.shape, turn);
    proof {
        if mask_of(shape) == mask_of(game.shape) {
            assert forall|r: int| 0 <= r < 4 implies shape[r] == game.shape[r] by {
                assert(mask_of(shape)[r] == mask_of(game.shape)[r]);
                assert(shape[r] =~= game.shape[r]);
            }
            assert(shape =~= game.shape);
        }
    }
    if !game.over && !is_collision(&game.field, &game.pos, &shape) {
        game.shape = shape;
    }
}

/// Spawns a piece of `kind`: it falls from the spawn position if that place
/// is free, and the game is over if it is not.
pub fn spawn(game: &mut Game, kind: BlockKind) -> (res: Result<(), GameOver>)
    ensures
        final(game)@ == old(game)@.spawned(kind),
        res is Ok <==> !final(game)@.over,
        old(game)@.settled() ==> final(game)@.wf(),
{
    proof {
        if game@.settled() {
            game@.lemma_spawned_wf(kind);
        }
    }
    if game.over {
        return Err(GameOver);
    }
    let pos = Position::init();
    let shape = shape_of(kind);
    if is_collision(&game.field, &pos, &shape) {
        game.over = true;
        Err(GameOver)
    } else {
        game.pos = pos;
        game.block = kind;
        game.shape = shape;
        Ok(())
    }
}

/// Spawns a piece of a kind drawn at random.
pub fn spawn_next(game: &mut Game) -> (res: Result<(), GameOver>)
    ensures
        exists|kind: BlockKind| final(game)@ == #[trigger] old(game)@.spawned(kind),
        res is Ok <==> !final(game)@.over,
        old(game)@.settled() ==> final(game)@.wf(),
{
    let kind = random_kind();
    let res = spawn(game, kind);
    assert(game@ == old(game)@.spawned(kind));
    res
}

/// Locks the piece where it is and spawns a piece of `next`.
pub fn land_with(game: &mut Game, next: BlockKind) -> (res: Result<(), GameOver>)
    requires
        old(game)@.wf(),
    ensures
        final(game)@ == old(game)@.landed(next),
        res is Ok <==> !final(game)@.over,
        final(game)@.wf(),
{
    proof {
        game@.lemma_landed_wf(next);
    }
    if game.over {
        return Err(GameOver);
    }
    lock_piece(game);
    spawn(game, next)
}

/// Locks the piece where it is and spawns a piece of a kind drawn at random.
pub fn land(game: &mut Game) -> (res: Result<(), GameOver>)
    requires
        old(game)@.wf(),
    ensures
        exists|next: BlockKind| final(game)@ == #[trigger] old(game)@.landed(next),
        res is Ok <==> !final(game)@.over,
        final(game)@.wf(),
{
    let next = random_kind();
    let res = land_with(game, next);
    assert(game@ == old(game)@.landed(next));
    res
}

/// One step of gravity: the piece moves down one row if that place is free,
/// and lands if it is not, a piece of `next` taking its place.
pub fn soft_drop_or_land_with(game: &mut Game, next: BlockKind) -> (res: Result<(), GameOver>)
    requires
        old(game)@.wf(),
    ensures
        final(game)@ == old(game)@.soft_dropped(next),
        res is Ok <==> !final(game)@.over,
        final(game)@.wf(),
{
    proof {
        game@.lemma_soft_dropped_wf(next);
    }
    if game.over {
        return Err(GameOver);
    }
    proof {
        lemma_fits_above_floor(game@.grid, game@.x, game@.y, game@.mask, game@.kind);
    }
    let below = Position { x: game.pos.x, y: game.pos.y + 1 };
    if !is_collision(&game.field, &below, &game.shape) {
        game.pos = below;
        Ok(())
    } else {
        land_with(game, next)
    }
}

/// One step of gravity, the next piece being of a kind drawn at random.
pub fn soft_drop_or_land(game: &mut Game) -> (res: Result<(), GameOver>)
    requires
        old(game)@.wf(),
    ensures
        exists|next: BlockKind| final(game)@ == #[trigger] old(game)@.soft_dropped(next),
        res is Ok <==> !final(game)@.over,
        final(game)@.wf(),
{
    let next = random_kind();
    let res = soft_drop_or_land_with(game, next);
    assert(game@ == old(game)@.soft_dropped(next));
    res
}

/// Lets the piece fall as far as it can, locks it there and spawns a piece
/// of `next`.
pub fn hard_drop_with(game: &mut Game, next: BlockKind) -> (res: Result<(), GameOver>)
    requires
        old(game)@.wf(),
    ensures
        final(game)@ == old(game)@.hard_dropped(next),
        res is Ok <==> !final(game)@.over,
        final(game)@.wf(),
{
    proof {
        game@.lemma_hard_dropped_wf(next);
    }
    if game.over {
        return Err(GameOver);
    }
    let ghost before = game@;
    loop
        invariant
            before.wf(),
            !before.over,
            game@ == (GameState { y: game@.y, ..before }),
            before.y <= game@.y,
            fits(before.grid, before.x, game@.y, before.mask),
            before.rest_row(before.y) == before.rest_row(game@.y),
        ensures
            game@ == (GameState { y: before.rest_row(before.y), ..before }),
            fits(before.grid, before.x, game@.y, before.mask),
        decreases FIELD_HEIGHT - game@.y,
    {
        proof {
            lemma_fits_above_floor(game@.grid, game@.x, game@.y, game@.mask, game@.kind);
        }
        let below = Position { x: game.pos.x, y: game.pos.y + 1 };
        if is_collision(&game.field, &below, &game.shape) {
            break ;
        }
        proof {
            lemma_step_fits(before.grid, before.x, game@.y, before.mask, before.x, game@.y + 1);
        }
        game.pos = below;
    }
    land_with(game, next)
}

/// A hard drop, the next piece being of a kind drawn at random.
pub fn hard_drop(game: &mut Game) -> (res: Result<(), GameOver>)
    requires
        old(game)@.wf(),
    ensures
        exists|next: BlockKind| final(game)@ == #[trigger] old(game)@.hard_dropped(next),
        res is Ok <==> !final(game)@.over,
        final(game)@.wf(),
{
    let next = random_kind();
    let res = hard_drop_with(game, next);
    assert(game@ == old(game)@.hard_dropped(next));
    res
}

impl GameState {
    /// A move by one step at most each way keeps a session well formed.
    pub proof fn lemma_moved_wf(self, x: int, y: int)
        requires
            self.wf(),
            0 <= x,
            0 <= y,
            self.x - 1 <= x <= self.x + 1,
            self.y - 1 <= y <= self.y + 1,
        ensures
            self.moved_to(x, y).wf(),
    {
        if !self.over && !collides(self.grid, x, y, self.mask) {
            lemma_step_fits(self.grid, self.x, self.y, self.mask, x, y);
        }
    }

    /// A turn keeps a session well formed.
    pub proof fn lemma_rotated_wf(self, turn: Turn)
        requires
            self.wf(),
        ensures
            self.rotated(turn).wf(),
    {
        let mask = turned(self.mask, turn);
        if !self.over && !collides(self.grid, self.x, self.y, mask) {
            let n = choose|n: int| 0 <= n < 4 && self.mask == #[trigger] self.kind.orientation(n);
            lemma_turn_orientation(self.kind, n, turn);
            let m = if turn == Turn::Right {
                (n + 1) % 4
            } else {
                (n + 3) % 4
            };
            lemma_turn_stays_inside(self.grid, self.x, self.y, self.kind, n, m);
        }
    }

    /// Spawning into a settled session gives a well-formed one.
    pub proof fn lemma_spawned_wf(self, kind: BlockKind)
        requires
            self.settled(),
        ensures
            self.spawned(kind).wf(),
    {
        lemma_spawn_inside(kind);
    }

    /// Locking the piece of a running, well-formed session keeps the border.
    pub proof fn lemma_locked_grid_wf(self)
        requires
            self.wf(),
            !self.over,
        ensures
            grid_wf(self.locked_grid()),
    {
        lemma_locked_wf(self.grid, self.x, self.y, self.mask, self.kind.color_spec());
        lemma_cleared_wf(self.written());
    }

    /// Landing keeps a session well formed.
    pub proof fn lemma_landed_wf(self, next: BlockKind)
        requires
            self.wf(),
        ensures
            self.landed(next).wf(),
    {
        if !self.over {
            self.lemma_locked_grid_wf();
            GameState { grid: self.locked_grid(), ..self }.lemma_spawned_wf(next);
        }
    }

    /// A step of gravity keeps a session well formed.
    pub proof fn lemma_soft_dropped_wf(self, next: BlockKind)
        requires
            self.wf(),
        ensures
            self.soft_dropped(next).wf(),
    {
        if !self.over {
            if !collides(self.grid, self.x, self.y + 1, self.mask) {
                lemma_step_fits(self.grid, self.x, self.y, self.mask, self.x, self.y + 1);
            } else {
                self.lemma_landed_wf(next);
            }
        }
    }

    /// Where the piece fits at row `y`, the row at which it comes to rest is
    /// the first row from `y` down below which it collides: it fits there and
    /// at every row on the way.
    pub proof fn lemma_rest_row(self, y: int)
        requires
            self.settled(),
            0 <= y,
            fits(self.grid, self.x, y, self.mask),
        ensures
            y <= self.rest_row(y) < FIELD_HEIGHT - 1,
            collides(self.grid, self.x, self.rest_row(y) + 1, self.mask),
            forall|row: int|
                y <= row <= self.rest_row(y) ==> #[trigger] fits(self.grid, self.x, row, self.mask),
        decreases FIELD_HEIGHT - y,
    {
        lemma_fits_above_floor(self.grid, self.x, y, self.mask, self.kind);
        if !collides(self.grid, self.x, y + 1, self.mask) {
            lemma_step_fits(self.grid, self.x, y, self.mask, self.x, y + 1);
            self.lemma_rest_row(y + 1);
        }
    }

    /// A hard drop keeps a session well formed.
    pub proof fn lemma_hard_dropped_wf(self, next: BlockKind)
        requires
            self.wf(),
        ensures
            self.hard_dropped(next).wf(),
    {
        if !self.over {
            self.lemma_rest_row(self.y);
            let low = GameState { y: self.rest_row(self.y), ..self };
            assert(fits(self.grid, self.x, self.rest_row(self.y), self.mask));
            low.lemma_landed_wf(next);
        }
    }
}

} // verus!
