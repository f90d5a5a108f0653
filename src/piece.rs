//! The falling piece: its kind, rotation and anchor, the cells it covers, and
//! the moves that change it.

use vstd::prelude::*;
use crate::shapes::{
    lemma_shape_distinct, left_of, right_of, shape, shape_offsets, Coord, Rotation, TetrominoKind, GRID_HEIGHT,
    GRID_WIDTH,
};

verus! {

/// Largest distance of a legal anchor from the origin, on either axis. It
/// keeps every move and wall kick of a legal piece within `i32`.
pub const COORD_LIMIT: i32 = 1_000_000_000;

/// Where a new piece appears: column `GRID_WIDTH / 2`, row `GRID_HEIGHT`.
pub const SPAWN_X: i32 = 5;
pub const SPAWN_Y: i32 = 22;

#[derive(Clone, Copy, PartialEq, Eq, Debug)]
pub struct Tetromino {
    pub position: Coord,
    pub kind: TetrominoKind,
    pub rotation: Rotation,
}

/// The four cells covered by a piece of `kind` in `rotation` at `anchor`.
pub open spec fn cells_at(kind: TetrominoKind, rotation: Rotation, anchor: Coord) -> Seq<Coord> {
    shape(kind, rotation).map_values(
        |o: (int, int)| ((o.0 + anchor.0) as i32, (o.1 + anchor.1) as i32),
    )
}

/// Every offset lies within two columns of the anchor and between two rows
/// below and one row above it, and every cell is its offset moved to the anchor.
pub proof fn lemma_cells(p: Tetromino)
    ensures
        p.cells().len() == 4,
        forall|i: int| 0 <= i < 4 ==> -2 <= #[trigger] shape(p.kind, p.rotation)[i].0 <= 2
            && -2 <= shape(p.kind, p.rotation)[i].1 <= 1,
        p.cells_fit_i32() ==> forall|i: int| 0 <= i < 4 ==> #[trigger] p.cells()[i].0 == p.position.0
            + shape(p.kind, p.rotation)[i].0 && p.cells()[i].1 == p.position.1 + shape(
            p.kind,
            p.rotation,
        )[i].1,
{
}

/// A piece covers exactly four distinct cells.
pub proof fn lemma_cells_distinct(p: Tetromino)
    requires
        p.cells_fit_i32(),
    ensures
        p.cells().len() == 4,
        forall|i: int, j: int| 0 <= i < j < 4 ==> #[trigger] p.cells()[i] != #[trigger] p.cells()[j],
{
    lemma_cells(p);
    lemma_shape_distinct(p.kind, p.rotation);
    assert forall|i: int, j: int| 0 <= i < j < 4 implies #[trigger] p.cells()[i] != #[trigger] p.cells()[j] by {
        assert(shape(p.kind, p.rotation)[i] != shape(p.kind, p.rotation)[j]);
    }
}

/// A piece with no cell below the floor has its anchor at row -1 or above.
pub proof fn lemma_above_floor(p: Tetromino)
    requires
        p.cells_fit_i32(),
        !p.below_floor(),
    ensures
        p.position.1 >= -1,
{
    lemma_cells(p);
    assert(p.cells()[0].1 >= 0);
}

impl Tetromino {
    /// The anchor is far enough from the ends of `i32` for every move and kick.
    pub open spec fn in_range(self) -> bool {
        &&& -COORD_LIMIT <= self.position.0 <= COORD_LIMIT
        &&& -COORD_LIMIT <= self.position.1 <= COORD_LIMIT
    }

    /// The anchor is far enough from the ends of `i32` for the cells to be computed.
    pub open spec fn cells_fit_i32(self) -> bool {
        &&& i32::MIN + 2 <= self.position.0 <= i32::MAX - 2
        &&& i32::MIN + 2 <= self.position.1 <= i32::MAX - 2
    }

    pub open spec fn cells(self) -> Seq<Coord> {
        cells_at(self.kind, self.rotation, self.position)
    }

    /// Some cell lies below the floor.
    pub open spec fn below_floor(self) -> bool {
        exists|i: int| 0 <= i < 4 && #[trigger] self.cells()[i].1 < 0
    }

    /// Some cell lies left of the first column or right of the last.
    pub open spec fn outside_walls(self) -> bool {
        exists|i: int| 0 <= i < 4 && (#[trigger] self.cells()[i].0 < 0 || self.cells()[i].0 >= GRID_WIDTH)
    }

    pub open spec fn moved(self, dx: int, dy: int) -> Tetromino {
        Tetromino {
            position: ((self.position.0 + dx) as i32, (self.position.1 + dy) as i32),
            ..self
        }
    }

    /// A new piece of `kind` at the spawn anchor, facing north.
    pub fn new(kind: TetrominoKind) -> (r: Tetromino)
        ensures
            r.kind == kind,
            r.rotation == Rotation::North,
            r.position == (SPAWN_X, SPAWN_Y),
            r.in_range(),
    {
        Tetromino { position: (GRID_WIDTH / 2, GRID_HEIGHT), kind, rotation: Rotation::North }
    }

    pub fn move_left(&mut self)
        requires
            old(self).position.0 > i32::MIN,
        ensures
            *final(self) == old(self).moved(-1, 0),
    {
        self.position.0 = self.position.0 - 1;
    }

    pub fn move_right(&mut self)
        requires
            old(self).position.0 < i32::MAX,
        ensures
            *final(self) == old(self).moved(1, 0),
    {
        self.position.0 = self.position.0 + 1;
    }

    pub fn move_up(&mut self)
        requires
            old(self).position.1 < i32::MAX,
        ensures
            *final(self) == old(self).moved(0, 1),
    {
        self.position.1 = self.position.1 + 1;
    }

    pub fn move_down(&mut self)
        requires
            old(self).position.1 > i32::MIN,
        ensures
            *final(self) == old(self).moved(0, -1),
    {
        self.position.1 = self.position.1 - 1;
    }

    /// Turns the piece a quarter turn counter-clockwise, about its anchor.
    pub fn rotate_left(&mut self)
        ensures
            *final(self) == (Tetromino { rotation: left_of(old(self).rotation), ..*old(self) }),
    {
        self.rotation = match self.rotation {
            Rotation::North => Rotation::West,
            Rotation::West => Rotation::South,
            Rotation::South => Rotation::East,
            Rotation::East => Rotation::North,
        };
    }

    /// Turns the piece a quarter turn clockwise, about its anchor.
    pub fn rotate_right(&mut self)
        ensures
            *final(self) == (Tetromino { rotation: right_of(old(self).rotation), ..*old(self) }),
    {
        self.rotation = match self.rotation {
            Rotation::North => Rotation::East,
            Rotation::East => Rotation::South,
            Rotation::South => Rotation::West,
            Rotation::West => Rotation::North,
        };
    }

    /// The four cells the piece covers: its shape moved to its anchor.
    pub fn occupied_tiles(&self) -> (r: [Coord; 4])
        requires
            self.cells_fit_i32(),
        ensures
            r@ == self.cells(),
    {
        let offsets = shape_offsets(self.kind, self.rotation);
        let (x, y) = self.position;
        let r = [
            (offsets[0].0 + x, offsets[0].1 + y),
            (offsets[1].0 + x, offsets[1].1 + y),
            (offsets[2].0 + x, offsets[2].1 + y),
            (offsets[3].0 + x, offsets[3].1 + y),
        ];
        assert(r@ =~= self.cells());
        r
    }

    /// Whether some cell lies below the floor.
    pub fn is_in_ground(&self) -> (r: bool)
        requires
            self.cells_fit_i32(),
        ensures
            r == self.below_floor(),
    {
        let tiles = self.occupied_tiles();
        let mut i: usize = 0;
        while i < 4
            invariant
                i <= 4,
                tiles@ == self.cells(),
                forall|j: int| 0 <= j < i ==> tiles@[j].1 >= 0,
            decreases 4 - i,
        {
            if tiles[i].1 < 0 {
                return true;
            }
            i = i + 1;
        }
        false
    }

    /// Whether some cell lies outside the walls.
    pub fn is_in_wall(&self) -> (r: bool)
        requires
            self.cells_fit_i32(),
        ensures
            r == self.outside_walls(),
    {
        let tiles = self.occupied_tiles();
        let mut i: usize = 0;
        while i < 4
            invariant
                i <= 4,
                tiles@ == self.cells(),
                forall|j: int| 0 <= j < i ==> 0 <= #[trigger] tiles@[j].0 < GRID_WIDTH,
            decreases 4 - i,
        {
            if tiles[i].0 < 0 || tiles[i].0 >= GRID_WIDTH {
                return true;
            }
            i = i + 1;
        }
        false
    }
}

} // verus!
