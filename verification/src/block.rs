//! The seven pieces: their colors, their shapes, and how a shape turns.

use rand::Rng;
use vstd::prelude::*;

verus! {

/// What a cell holds: nothing, a wall, or the color of the piece locked there.
pub type BlockColor = usize;

pub const NONE: BlockColor = 0;

pub const WALL: BlockColor = 1;

/// Side length of the box that holds a shape.
pub const SHAPE_SIZE: usize = 4;

/// A piece's cells inside its 4×4 box; a cell is `NONE` or the piece's color.
pub type BlockShape = [[BlockColor; 4]; 4];

/// A shape as contracts see it: rows of cells.
pub type Mask = Seq<Seq<BlockColor>>;

#[derive(Clone, Copy, Debug, PartialEq, Eq, Structural)]
pub enum BlockKind {
    I,
    O,
    S,
    Z,
    J,
    L,
    T,
}

/// The two quarter turns.
#[derive(Clone, Copy, Debug, PartialEq, Eq, Structural)]
pub enum Turn {
    /// Counter-clockwise.
    Left,
    /// Clockwise.
    Right,
}

impl BlockKind {
    /// Position of the kind in the catalog, `I` first.
    pub open spec fn index_spec(self) -> nat {
        match self {
            BlockKind::I => 0,
            BlockKind::O => 1,
            BlockKind::S => 2,
            BlockKind::Z => 3,
            BlockKind::J => 4,
            BlockKind::L => 5,
            BlockKind::T => 6,
        }
    }

    /// The color that cells of this kind carry: the first two colors are
    /// `NONE` and `WALL`, the kinds follow in catalog order.
    pub open spec fn color_spec(self) -> BlockColor {
        (self.index_spec() + 2) as usize
    }

    /// Whether the cell in row `r`, column `c` of the box belongs to the kind's
    /// shape as it spawns.
    pub open spec fn covers(self, r: int, c: int) -> bool {
        match self {
            BlockKind::I => r == 2 && 0 <= c < 4,
            BlockKind::O => 1 <= r <= 2 && 1 <= c <= 2,
            BlockKind::S => (r == 1 && 1 <= c <= 2) || (r == 2 && 0 <= c <= 1),
            BlockKind::Z => (r == 1 && 0 <= c <= 1) || (r == 2 && 1 <= c <= 2),
            BlockKind::J => (r == 1 && c == 0) || (r == 2 && 0 <= c <= 2),
            BlockKind::L => (r == 1 && c == 2) || (r == 2 && 0 <= c <= 2),
            BlockKind::T => (r == 1 && c == 1) || (r == 2 && 0 <= c <= 2),
        }
    }

    /// Whether the cell belongs to the shape after `n` clockwise quarter turns.
    pub open spec fn covers_turned(self, n: int, r: int, c: int) -> bool {
        if n == 0 {
            self.covers(r, c)
        } else if n == 1 {
            self.covers(3 - c, r)
        } else if n == 2 {
            self.covers(3 - r, 3 - c)
        } else {
            self.covers(c, 3 - r)
        }
    }

    /// The shape after `n` clockwise quarter turns, `0 <= n < 4`.
    pub open spec fn orientation(self, n: int) -> Mask {
        Seq::new(
            4,
            |r: int|
                Seq::new(
                    4,
                    |c: int|
                        if self.covers_turned(n, r, c) {
                            self.color_spec()
                        } else {
                            NONE
                        },
                ),
        )
    }

    /// The shape in which the kind spawns.
    pub open spec fn canonical(self) -> Mask {
        self.orientation(0)
    }

    pub fn index(self) -> (n: usize)
        ensures
            n == self.index_spec(),
    {
        match self {
            BlockKind::I => 0,
            BlockKind::O => 1,
            BlockKind::S => 2,
            BlockKind::Z => 3,
            BlockKind::J => 4,
            BlockKind::L => 5,
            BlockKind::T => 6,
        }
    }

    /// The kind at a catalog position; positions past the last give `T`.
    pub fn from_index(n: usize) -> (kind: BlockKind)
        ensures
            n <= 6 ==> kind.index_spec() == n,
            n > 6 ==> kind == BlockKind::T,
    {
        match n {
            0 => BlockKind::I,
            1 => BlockKind::O,
            2 => BlockKind::S,
            3 => BlockKind::Z,
            4 => BlockKind::J,
            5 => BlockKind::L,
            _ => BlockKind::T,
        }
    }

    pub fn color(self) -> (color: BlockColor)
        ensures
            color == self.color_spec(),
            2 <= color <= 8,
    {
        self.index() + 2
    }
}

/// Whether `mask` is a 4×4 box.
pub open spec fn is_mask(mask: Mask) -> bool {
    mask.len() == 4 && forall|r: int| 0 <= r < 4 ==> (#[trigger] mask[r]).len() == 4
}

/// A shape as rows of cells.
pub open spec fn mask_of(shape: BlockShape) -> Mask {
    Seq::new(4, |r: int| shape[r]@)
}

/// The mask after one quarter turn about the box's center.
pub open spec fn turned(mask: Mask, turn: Turn) -> Mask {
    Seq::new(
        4,
        |r: int|
            Seq::new(
                4,
                |c: int|
                    match turn {
                        Turn::Right => mask[3 - c][r],
                        Turn::Left => mask[c][3 - r],
                    },
            ),
    )
}

/// Whether `mask` is the shape of `kind` in one of its four orientations.
pub open spec fn is_shape_of(mask: Mask, kind: BlockKind) -> bool {
    exists|n: int| 0 <= n < 4 && mask == #[trigger] kind.orientation(n)
}

/// The shape in which a piece of the kind spawns.
pub fn shape_of(kind: BlockKind) -> (shape: BlockShape)
    ensures
        mask_of(shape) == kind.canonical(),
{
    let shape: BlockShape = match kind {
        BlockKind::I => [[0, 0, 0, 0], [0, 0, 0, 0], [2, 2, 2, 2], [0, 0, 0, 0]],
        BlockKind::O => [[0, 0, 0, 0], [0, 3, 3, 0], [0, 3, 3, 0], [0, 0, 0, 0]],
        BlockKind::S => [[0, 0, 0, 0], [0, 4, 4, 0], [4, 4, 0, 0], [0, 0, 0, 0]],
        BlockKind::Z => [[0, 0, 0, 0], [5, 5, 0, 0], [0, 5, 5, 0], [0, 0, 0, 0]],
        BlockKind::J => [[0, 0, 0, 0], [6, 0, 0, 0], [6, 6, 6, 0], [0, 0, 0, 0]],
        BlockKind::L => [[0, 0, 0, 0], [0, 0, 7, 0], [7, 7, 7, 0], [0, 0, 0, 0]],
        BlockKind::T => [[0, 0, 0, 0], [0, 8, 0, 0], [8, 8, 8, 0], [0, 0, 0, 0]],
    };
    assert(mask_of(shape) =~~= kind.canonical());
    shape
}

/// The shape after one quarter turn about the center of its box.
pub fn rotate(shape: &BlockShape, turn: Turn) -> (out: BlockShape)
    ensures
        mask_of(out) == turned(mask_of(*shape), turn),
{
    let ghost want = turned(mask_of(*shape), turn);
    let mut out: BlockShape = [[NONE; 4]; 4];
    let mut r: usize = 0;
    while r < 4
        invariant
            r <= 4,
            want == turned(mask_of(*shape), turn),
            forall|i: int, j: int| 0 <= i < r && 0 <= j < 4 ==> #[trigger] out[i][j] == want[i][j],
        decreases 4 - r,
    {
        let mut c: usize = 0;
        while c < 4
            invariant
                r < 4,
                c <= 4,
                want == turned(mask_of(*shape), turn),
                forall|i: int, j: int|
                    0 <= i < r && 0 <= j < 4 ==> #[trigger] out[i][j] == want[i][j],
                forall|j: int| 0 <= j < c ==> #[trigger] out[r as int][j] == want[r as int][j],
            decreases 4 - c,
        {
            out[r][c] = match turn {
                Turn::Right => shape[3 - c][r],
                Turn::Left => shape[c][3 - r],
            };
            c += 1;
        }
        r += 1;
    }
    assert(mask_of(out) =~~= want);
    out
}

/// Whether two shapes hold the same cells.
pub fn same_shape(first: &BlockShape, second: &BlockShape) -> (same: bool)
    ensures
        same == (mask_of(*first) == mask_of(*second)),
{
    let mut r: usize = 0;
    while r < 4
        invariant
            r <= 4,
            forall|i: int, j: int|
                0 <= i < r && 0 <= j < 4 ==> #[trigger] first[i][j] == second[i][j],
        decreases 4 - r,
    {
        let mut c: usize = 0;
        while c < 4
            invariant
                r < 4,
                c <= 4,
                forall|i: int, j: int|
                    0 <= i < r && 0 <= j < 4 ==> #[trigger] first[i][j] == second[i][j],
                forall|j: int| 0 <= j < c ==> #[trigger] first[r as int][j] == second[r as int][j],
            decreases 4 - c,
        {
            if first[r][c] != second[r][c] {
                assert(mask_of(*first)[r as int][c as int] != mask_of(*second)[r as int][c as int]);
                return false;
            }
            c += 1;
        }
        r += 1;
    }
    assert(mask_of(*first) =~~= mask_of(*second));
    true
}

/// Whether `shape` is the shape of `kind` in one of its four orientations.
pub fn is_orientation_of(shape: &BlockShape, kind: BlockKind) -> (ok: bool)
    ensures
        ok == is_shape_of(mask_of(*shape), kind),
{
    let mut turned_shape = shape_of(kind);
    let mut n: usize = 0;
    while n < 4
        invariant
            n <= 4,
            mask_of(turned_shape) == kind.orientation(n as int % 4),
            forall|m: int| 0 <= m < n ==> mask_of(*shape) != #[trigger] kind.orientation(m),
        decreases 4 - n,
    {
        if same_shape(shape, &turned_shape) {
            return true;
        }
        proof {
            lemma_turn_orientation(kind, n as int, Turn::Right);
        }
        turned_shape = rotate(&turned_shape, Turn::Right);
        n += 1;
    }
    false
}

/// Draws a catalog position with `rand::Rng::gen_range` over `0..=6` on the
/// generator of `rand::thread_rng`. The range is not empty, so the call
/// returns; what it returns lies in the range, and nothing more is known of it.
#[verifier::external_body]
fn random_index() -> (n: usize)
    ensures
        n <= 6,
{
    rand::thread_rng().gen_range(0..=6)
}

/// A kind drawn at random, each of the seven being possible.
pub fn random_kind() -> BlockKind {
    BlockKind::from_index(random_index())
}

/// A left turn undoes a right turn, and a right turn undoes a left turn.
pub proof fn lemma_turn_back(mask: Mask)
    requires
        is_mask(mask),
    ensures
        turned(turned(mask, Turn::Right), Turn::Left) == mask,
        turned(turned(mask, Turn::Left), Turn::Right) == mask,
{
    assert(turned(turned(mask, Turn::Right), Turn::Left) =~~= mask);
    assert(turned(turned(mask, Turn::Left), Turn::Right) =~~= mask);
}

/// Four quarter turns the same way give the mask back.
pub proof fn lemma_four_turns(mask: Mask, turn: Turn)
    requires
        is_mask(mask),
    ensures
        turned(turned(turned(turned(mask, turn), turn), turn), turn) == mask,
{
    assert(turned(turned(turned(turned(mask, turn), turn), turn), turn) =~~= mask);
}

/// Turning an orientation of a kind gives the next orientation of that kind:
/// one step up for a right turn, one step down for a left turn.
pub proof fn lemma_turn_orientation(kind: BlockKind, n: int, turn: Turn)
    requires
        0 <= n < 4,
    ensures
        turn == Turn::Right ==> turned(kind.orientation(n), turn) == kind.orientation((n + 1) % 4),
        turn == Turn::Left ==> turned(kind.orientation(n), turn) == kind.orientation((n + 3) % 4),
        is_shape_of(turned(kind.orientation(n), turn), kind),
{
    if turn == Turn::Right {
        assert(turned(kind.orientation(n), turn) =~~= kind.orientation((n + 1) % 4));
    } else {
        assert(turned(kind.orientation(n), turn) =~~= kind.orientation((n + 3) % 4));
    }
}

} // verus!
