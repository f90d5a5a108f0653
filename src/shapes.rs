//! The seven piece kinds, their cell offsets for each rotation, and the
//! wall-kick tables tried when a piece rotates.

use vstd::prelude::*;

verus! {

/// Number of columns of the playfield.
pub const GRID_WIDTH: i32 = 10;

/// Visible height of the playfield; rows at or above it are never cleared.
pub const GRID_HEIGHT: i32 = 22;

/// A cell of the playfield: column, then row, counted from the bottom left.
pub type Coord = (i32, i32);

#[derive(Clone, Copy, PartialEq, Eq, Structural, Debug, Hash)]
pub enum TetrominoKind {
    I,
    O,
    T,
    S,
    Z,
    J,
    L,
}

#[derive(Clone, Copy, PartialEq, Eq, Structural, Debug, Hash)]
pub enum Rotation {
    North,
    South,
    West,
    East,
}

/// The rotation one quarter turn counter-clockwise.
pub open spec fn left_of(r: Rotation) -> Rotation {
    match r {
        Rotation::North => Rotation::West,
        Rotation::West => Rotation::South,
        Rotation::South => Rotation::East,
        Rotation::East => Rotation::North,
    }
}

/// The rotation one quarter turn clockwise.
pub open spec fn right_of(r: Rotation) -> Rotation {
    match r {
        Rotation::North => Rotation::East,
        Rotation::East => Rotation::South,
        Rotation::South => Rotation::West,
        Rotation::West => Rotation::North,
    }
}

/// A left turn undoes a right turn and the other way round, and four turns
/// the same way come back to the start.
pub proof fn lemma_rotation_cycle(r: Rotation)
    ensures
        right_of(left_of(r)) == r,
        left_of(right_of(r)) == r,
        left_of(left_of(left_of(left_of(r)))) == r,
        right_of(right_of(right_of(right_of(r)))) == r,
{
}

/// Two rotations one quarter turn apart, in either direction.
pub open spec fn adjacent(from: Rotation, to: Rotation) -> bool {
    to == left_of(from) || to == right_of(from)
}

/// The four cell offsets of a kind in a rotation, relative to the anchor.
pub open spec fn shape(kind: TetrominoKind, rotation: Rotation) -> Seq<(int, int)> {
    match kind {
        TetrominoKind::I => match rotation {
            Rotation::North => seq![(-1, 0), (0, 0), (1, 0), (2, 0)],
            Rotation::East => seq![(1, 1), (1, 0), (1, -1), (1, -2)],
            Rotation::South => seq![(-1, -1), (0, -1), (1, -1), (2, -1)],
            Rotation::West => seq![(0, 1), (0, 0), (0, -1), (0, -2)],
        },
        TetrominoKind::O => seq![(0, 0), (1, 0), (0, -1), (1, -1)],
        TetrominoKind::T => match rotation {
            Rotation::North => seq![(-1, 0), (0, 0), (1, 0), (0, 1)],
            Rotation::East => seq![(0, 1), (0, 0), (0, -1), (1, 0)],
            Rotation::South => seq![(-1, 0), (0, 0), (1, 0), (0, -1)],
            Rotation::West => seq![(0, 1), (0, 0), (0, -1), (-1, 0)],
        },
        TetrominoKind::S => match rotation {
            Rotation::North | Rotation::South => seq![(0, 0), (1, 0), (-1, -1), (0, -1)],
            Rotation::East | Rotation::West => seq![(0, 1), (0, 0), (1, 0), (1, -1)],
        },
        TetrominoKind::Z => match rotation {
            Rotation::North | Rotation::South => seq![(-1, 0), (0, 0), (0, -1), (1, -1)],
            Rotation::East | Rotation::West => seq![(1, 1), (1, 0), (0, 0), (0, -1)],
        },
        TetrominoKind::J => match rotation {
            Rotation::North => seq![(0, 1), (0, 0), (0, -1), (-1, -1)],
            Rotation::East => seq![(-1, 1), (-1, 0), (0, 0), (1, 0)],
            Rotation::South => seq![(1, 1), (0, 1), (0, 0), (0, -1)],
            Rotation::West => seq![(-1, 0), (0, 0), (1, 0), (1, -1)],
        },
        TetrominoKind::L => match rotation {
            Rotation::North => seq![(0, 1), (0, 0), (0, -1), (1, -1)],
            Rotation::East => seq![(-1, 0), (0, 0), (1, 0), (-1, -1)],
            Rotation::South => seq![(-1, 1), (0, 1), (0, 0), (0, -1)],
            Rotation::West => seq![(-1, 0), (0, 0), (1, 0), (1, 1)],
        },
    }
}

/// The four offsets of every shape are distinct.
pub proof fn lemma_shape_distinct(kind: TetrominoKind, rotation: Rotation)
    ensures
        shape(kind, rotation).len() == 4,
        forall|i: int, j: int| 0 <= i < j < 4 ==> #[trigger] shape(kind, rotation)[i] != #[trigger] shape(
            kind,
            rotation,
        )[j],
{
}

/// An array of coordinates holds exactly the given integer pairs, in order.
pub open spec fn same_coords(a: Seq<Coord>, b: Seq<(int, int)>) -> bool {
    &&& a.len() == b.len()
    &&& forall|i: int| 0 <= i < a.len() ==> a[i].0 == b[i].0 && a[i].1 == b[i].1
}

/// The cell offsets of `kind` in `rotation`, relative to the piece's anchor.
pub fn shape_offsets(kind: TetrominoKind, rotation: Rotation) -> (r: [Coord; 4])
    ensures
        same_coords(r@, shape(kind, rotation)),
{
    match kind {
        TetrominoKind::I => match rotation {
            Rotation::North => [(-1, 0), (0, 0), (1, 0), (2, 0)],
            Rotation::East => [(1, 1), (1, 0), (1, -1), (1, -2)],
            Rotation::South => [(-1, -1), (0, -1), (1, -1), (2, -1)],
            Rotation::West => [(0, 1), (0, 0), (0, -1), (0, -2)],
        },
        TetrominoKind::O => [(0, 0), (1, 0), (0, -1), (1, -1)],
        TetrominoKind::T => match rotation {
            Rotation::North => [(-1, 0), (0, 0), (1, 0), (0, 1)],
            Rotation::East => [(0, 1), (0, 0), (0, -1), (1, 0)],
            Rotation::South => [(-1, 0), (0, 0), (1, 0), (0, -1)],
            Rotation::West => [(0, 1), (0, 0), (0, -1), (-1, 0)],
        },
        TetrominoKind::S => match rotation {
            Rotation::North | Rotation::South => [(0, 0), (1, 0), (-1, -1), (0, -1)],
            Rotation::East | Rotation::West => [(0, 1), (0, 0), (1, 0), (1, -1)],
        },
        TetrominoKind::Z => match rotation {
            Rotation::North | Rotation::South => [(-1, 0), (0, 0), (0, -1), (1, -1)],
            Rotation::East | Rotation::West => [(1, 1), (1, 0), (0, 0), (0, -1)],
        },
        TetrominoKind::J => match rotation {
            Rotation::North => [(0, 1), (0, 0), (0, -1), (-1, -1)],
            Rotation::East => [(-1, 1), (-1, 0), (0, 0), (1, 0)],
            Rotation::South => [(1, 1), (0, 1), (0, 0), (0, -1)],
            Rotation::West => [(-1, 0), (0, 0), (1, 0), (1, -1)],
        },
        TetrominoKind::L => match rotation {
            Rotation::North => [(0, 1), (0, 0), (0, -1), (1, -1)],
            Rotation::East => [(-1, 0), (0, 0), (1, 0), (-1, -1)],
            Rotation::South => [(-1, 1), (0, 1), (0, 0), (0, -1)],
            Rotation::West => [(-1, 0), (0, 0), (1, 0), (1, 1)],
        },
    }
}

/// The anchor displacements tried, in order, when a piece of `kind` turns
/// from `from` to `to`. The first is always no displacement.
pub open spec fn kick_table(kind: TetrominoKind, from: Rotation, to: Rotation) -> Seq<(int, int)> {
    match kind {
        TetrominoKind::I => match (from, to) {
            (Rotation::North, Rotation::East) => seq![(0, 0), (-2, 0), (1, 0), (-2, -1), (1, 2)],
            (Rotation::East, Rotation::North) => seq![(0, 0), (2, 0), (-1, 0), (2, 1), (-1, -2)],
            (Rotation::East, Rotation::South) => seq![(0, 0), (-1, 0), (2, 0), (-1, 2), (2, -1)],
            (Rotation::South, Rotation::East) => seq![(0, 0), (1, 0), (-2, 0), (1, -2), (-2, 1)],
            (Rotation::South, Rotation::West) => seq![(0, 0), (2, 0), (-1, 0), (2, 1), (-1, -2)],
            (Rotation::West, Rotation::South) => seq![(0, 0), (-2, 0), (1, 0), (-2, -1), (1, 2)],
            (Rotation::West, Rotation::North) => seq![(0, 0), (1, 0), (-2, 0), (1, -2), (-2, 1)],
            (Rotation::North, Rotation::West) => seq![(0, 0), (-1, 0), (2, 0), (-1, 2), (2, -1)],
            _ => seq![(0, 0), (0, 0), (0, 0), (0, 0), (0, 0)],
        },
        TetrominoKind::O => seq![(0, 0), (0, 0), (0, 0), (0, 0), (0, 0)],
        _ => match (from, to) {
            (Rotation::North, Rotation::East) => seq![(0, 0), (-1, 0), (-1, 1), (0, -2), (-1, -2)],
            (Rotation::East, Rotation::North) => seq![(0, 0), (1, 0), (1, -1), (0, 2), (1, 2)],
            (Rotation::East, Rotation::South) => seq![(0, 0), (1, 0), (1, -1), (0, 2), (1, 2)],
            (Rotation::South, Rotation::East) => seq![(0, 0), (-1, 0), (-1, 1), (0, -2), (-1, -2)],
            (Rotation::South, Rotation::West) => seq![(0, 0), (1, 0), (1, 1), (0, -2), (1, -2)],
            (Rotation::West, Rotation::South) => seq![(0, 0), (-1, 0), (-1, -1), (0, 2), (-1, 2)],
            (Rotation::West, Rotation::North) => seq![(0, 0), (1, 0), (1, -1), (0, 2), (1, 2)],
            (Rotation::North, Rotation::West) => seq![(0, 0), (-1, 0), (-1, 1), (0, -2), (-1, -2)],
            _ => seq![(0, 0), (0, 0), (0, 0), (0, 0), (0, 0)],
        },
    }
}

/// Each kick table has five entries, the first no displacement, and none
/// moves the anchor by more than two cells on either axis.
pub proof fn lemma_kick_bounds(kind: TetrominoKind, from: Rotation, to: Rotation)
    ensures
        kick_table(kind, from, to).len() == 5,
        kick_table(kind, from, to)[0] == (0int, 0int),
        forall|i: int| 0 <= i < 5 ==> -2 <= #[trigger] kick_table(kind, from, to)[i].0 <= 2
            && -2 <= kick_table(kind, from, to)[i].1 <= 2,
{
}

/// The wall-kick displacements for a quarter turn of `kind` from `from` to
/// `to`, in the order in which they are tried.
pub fn get_wall_kick_offsets(kind: TetrominoKind, from: Rotation, to: Rotation) -> (r: [Coord; 5])
    requires
        adjacent(from, to),
    ensures
        same_coords(r@, kick_table(kind, from, to)),
        r[0] == (0i32, 0i32),
{
    match kind {
        TetrominoKind::I => match (from, to) {
            (Rotation::North, Rotation::East) => [(0, 0), (-2, 0), (1, 0), (-2, -1), (1, 2)],
            (Rotation::East, Rotation::North) => [(0, 0), (2, 0), (-1, 0), (2, 1), (-1, -2)],
            (Rotation::East, Rotation::South) => [(0, 0), (-1, 0), (2, 0), (-1, 2), (2, -1)],
            (Rotation::South, Rotation::East) => [(0, 0), (1, 0), (-2, 0), (1, -2), (-2, 1)],
            (Rotation::South, Rotation::West) => [(0, 0), (2, 0), (-1, 0), (2, 1), (-1, -2)],
            (Rotation::West, Rotation::South) => [(0, 0), (-2, 0), (1, 0), (-2, -1), (1, 2)],
            (Rotation::West, Rotation::North) => [(0, 0), (1, 0), (-2, 0), (1, -2), (-2, 1)],
            (Rotation::North, Rotation::West) => [(0, 0), (-1, 0), (2, 0), (-1, 2), (2, -1)],
            _ => [(0, 0), (0, 0), (0, 0), (0, 0), (0, 0)],
        },
        TetrominoKind::O => [(0, 0), (0, 0), (0, 0), (0, 0), (0, 0)],
        _ => match (from, to) {
            (Rotation::North, Rotation::East) => [(0, 0), (-1, 0), (-1, 1), (0, -2), (-1, -2)],
            (Rotation::East, Rotation::North) => [(0, 0), (1, 0), (1, -1), (0, 2), (1, 2)],
            (Rotation::East, Rotation::South) => [(0, 0), (1, 0), (1, -1), (0, 2), (1, 2)],
            (Rotation::South, Rotation::East) => [(0, 0), (-1, 0), (-1, 1), (0, -2), (-1, -2)],
            (Rotation::South, Rotation::West) => [(0, 0), (1, 0), (1, 1), (0, -2), (1, -2)],
            (Rotation::West, Rotation::South) => [(0, 0), (-1, 0), (-1, -1), (0, 2), (-1, 2)],
            (Rotation::West, Rotation::North) => [(0, 0), (1, 0), (1, -1), (0, 2), (1, 2)],
            (Rotation::North, Rotation::West) => [(0, 0), (-1, 0), (-1, 1), (0, -2), (-1, -2)],
            _ => [(0, 0), (0, 0), (0, 0), (0, 0), (0, 0)],
        },
    }
}

} // verus!
