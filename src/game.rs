//! The game state and its transitions: gravity with settling and line
//! clearing, player moves and rotations with wall kicks, and the landing
//! preview of the falling piece.

use vstd::prelude::*;
use rand::seq::IndexedRandom;
use crate::grid::{full_row_count, is_compaction_of, points_for, Grid};
use crate::piece::{lemma_above_floor, Tetromino, COORD_LIMIT, SPAWN_X, SPAWN_Y};
use crate::shapes::{
    get_wall_kick_offsets, kick_table, lemma_kick_bounds, left_of, right_of, Coord, Rotation, TetrominoKind,
};

verus! {

/// Some cell of the piece lies on a settled cell.
pub open spec fn overlaps(m: Map<Coord, TetrominoKind>, p: Tetromino) -> bool {
    exists|i: int| 0 <= i < 4 && m.contains_key(#[trigger] p.cells()[i])
}

/// The piece may stand where it is: its anchor is in range and no cell lies
/// on a settled cell, below the floor or outside the walls.
pub open spec fn fits(m: Map<Coord, TetrominoKind>, p: Tetromino) -> bool {
    &&& p.in_range()
    &&& !overlaps(m, p)
    &&& !p.below_floor()
    &&& !p.outside_walls()
}

/// The piece cannot stand where it is as a resting position: some cell lies on
/// a settled cell or below the floor.
pub open spec fn blocked(m: Map<Coord, TetrominoKind>, p: Tetromino) -> bool {
    overlaps(m, p) || p.below_floor()
}

/// The field after the given cells are placed, each with `kind`.
pub open spec fn with_cells(m: Map<Coord, TetrominoKind>, cells: Seq<Coord>, kind: TetrominoKind) -> Map<
    Coord,
    TetrominoKind,
> {
    m.union_prefer_right(Map::new(|c: Coord| cells.contains(c), |c: Coord| kind))
}

/// The piece one row lower cannot stand, so a gravity step settles it.
pub open spec fn lands(m: Map<Coord, TetrominoKind>, p: Tetromino) -> bool {
    blocked(m, p.moved(0, -1))
}

/// The field after one gravity step.
pub open spec fn field_after_fall(m: Map<Coord, TetrominoKind>, p: Tetromino) -> Map<Coord, TetrominoKind> {
    if lands(m, p) {
        with_cells(m, p.cells(), p.kind)
    } else {
        m
    }
}

/// The falling piece after one gravity step: one row lower, or, where it
/// settled, a new piece of kind `next` at the spawn anchor.
pub open spec fn piece_after_fall(m: Map<Coord, TetrominoKind>, p: Tetromino, next: TetrominoKind) -> Tetromino {
    if lands(m, p) {
        Tetromino { position: (SPAWN_X, SPAWN_Y), kind: next, rotation: Rotation::North }
    } else {
        p.moved(0, -1)
    }
}

/// The piece moved by the pressed directions together.
pub open spec fn translated(p: Tetromino, left: bool, right: bool, down: bool) -> Tetromino {
    p.moved(
        (if right { 1int } else { 0int }) - (if left { 1int } else { 0int }),
        if down { -1int } else { 0int },
    )
}

/// The piece turned about its anchor: left wins when both turns are asked for.
pub open spec fn turned(p: Tetromino, left: bool) -> Tetromino {
    Tetromino { rotation: if left { left_of(p.rotation) } else { right_of(p.rotation) }, ..p }
}

/// The first of the kick displacements from index `i` on that lets the
/// turned piece stand, applied to it; none where no such one remains.
pub open spec fn first_fit(m: Map<Coord, TetrominoKind>, p: Tetromino, kicks: Seq<(int, int)>, i: int) -> Option<
    Tetromino,
>
    decreases kicks.len() - i,
{
    if i < 0 || i >= kicks.len() {
        None
    } else if fits(m, p.moved(kicks[i].0, kicks[i].1)) {
        Some(p.moved(kicks[i].0, kicks[i].1))
    } else {
        first_fit(m, p, kicks, i + 1)
    }
}

/// The falling piece after a rotation request.
pub open spec fn piece_after_turn(m: Map<Coord, TetrominoKind>, p: Tetromino, left: bool) -> Tetromino {
    match first_fit(m, turned(p, left), kick_table(p.kind, p.rotation, turned(p, left).rotation), 0) {
        Some(q) => q,
        None => p,
    }
}

/// A turn that meets no obstruction keeps the anchor: the first kick, no
/// displacement, is the one taken.
pub proof fn lemma_unobstructed_turn_keeps_anchor(m: Map<Coord, TetrominoKind>, p: Tetromino, left: bool)
    requires
        fits(m, turned(p, left)),
    ensures
        piece_after_turn(m, p, left) == turned(p, left),
{
    lemma_kick_bounds(p.kind, p.rotation, turned(p, left).rotation);
    assert(turned(p, left).moved(0, 0) == turned(p, left));
}

/// The turned piece moved by entry `i` of its kick table.
pub open spec fn kicked(p: Tetromino, left: bool, i: int) -> Tetromino {
    turned(p, left).moved(
        kick_table(p.kind, p.rotation, turned(p, left).rotation)[i].0,
        kick_table(p.kind, p.rotation, turned(p, left).rotation)[i].1,
    )
}

/// Where only the third kick lets the turned piece stand, that kick is the
/// one applied.
pub proof fn lemma_turn_takes_third_kick(m: Map<Coord, TetrominoKind>, p: Tetromino, left: bool)
    requires
        !fits(m, kicked(p, left, 0)),
        !fits(m, kicked(p, left, 1)),
        fits(m, kicked(p, left, 2)),
    ensures
        piece_after_turn(m, p, left) == kicked(p, left, 2),
{
    let q = turned(p, left);
    let kicks = kick_table(p.kind, p.rotation, q.rotation);
    lemma_kick_bounds(p.kind, p.rotation, q.rotation);
    assert(first_fit(m, q, kicks, 2) == Some(kicked(p, left, 2)));
    assert(first_fit(m, q, kicks, 1) == Some(kicked(p, left, 2)));
    assert(first_fit(m, q, kicks, 0) == Some(kicked(p, left, 2)));
}

/// The piece with its anchor moved to row `y`.
pub open spec fn at_row(p: Tetromino, y: int) -> Tetromino {
    Tetromino { position: (p.position.0, y as i32), ..p }
}

/// Relies on rand's `IndexedRandom::choose` with the thread-local generator:
/// it picks one of the items, and nothing only from an empty slice.
#[verifier::external_body]
fn choose_kind(kinds: &[TetrominoKind]) -> (r: Option<TetrominoKind>)
    ensures
        r.is_none() <==> kinds@.len() == 0,
        r matches Some(k) ==> kinds@.contains(k),
{
    kinds.choose(&mut rand::rng()).copied()
}

/// A kind drawn uniformly at random, independently on each call.
pub fn random_kind() -> (r: TetrominoKind) {
    let kinds = [
        TetrominoKind::I,
        TetrominoKind::O,
        TetrominoKind::T,
        TetrominoKind::S,
        TetrominoKind::Z,
        TetrominoKind::J,
        TetrominoKind::L,
    ];
    match choose_kind(&kinds) {
        Some(k) => k,
        None => TetrominoKind::I,
    }
}

/// Whether some cell of the piece lies on a settled cell.
pub fn collides(grid: &Grid, p: &Tetromino) -> (r: bool)
    requires
        p.cells_fit_i32(),
    ensures
        r == overlaps(grid@, *p),
{
    let tiles = p.occupied_tiles();
    let mut i: usize = 0;
    while i < 4
        invariant
            i <= 4,
            tiles@ == p.cells(),
            forall|j: int| 0 <= j < i ==> !grid@.contains_key(#[trigger] p.cells()[j]),
        decreases 4 - i,
    {
        if grid.occupies(tiles[i]) {
            return true;
        }
        i = i + 1;
    }
    false
}

/// Whether the piece may stand where it is.
pub fn is_valid(grid: &Grid, p: &Tetromino) -> (r: bool)
    ensures
        r == fits(grid@, *p),
{
    if p.position.0 < -COORD_LIMIT || p.position.0 > COORD_LIMIT || p.position.1 < -COORD_LIMIT
        || p.position.1 > COORD_LIMIT {
        return false;
    }
    !collides(grid, p) && !p.is_in_ground() && !p.is_in_wall()
}

pub struct Game {
    pub grid: Grid,
    pub active: Tetromino,
    pub score: u32,
}

impl Game {
    /// The falling piece's anchor is in range and the field is finite.
    pub open spec fn wf(&self) -> bool {
        &&& self.active.in_range()
        &&& self.grid@.dom().finite()
    }

    /// An empty field, no points, and a piece of `kind` at the spawn anchor.
    pub fn new(kind: TetrominoKind) -> (r: Game)
        ensures
            r.wf(),
            r.grid@ == Map::<Coord, TetrominoKind>::empty(),
            r.active == (Tetromino { position: (SPAWN_X, SPAWN_Y), kind, rotation: Rotation::North }),
            r.score == 0,
    {
        Game { grid: Grid::new(), active: Tetromino::new(kind), score: 0 }
    }

    /// A new game whose first piece is of a random kind.
    pub fn start() -> (r: Game)
        ensures
            r.wf(),
            r.grid@ == Map::<Coord, TetrominoKind>::empty(),
            r.active.position == (SPAWN_X, SPAWN_Y),
            r.active.rotation == Rotation::North,
            r.score == 0,
    {
        Game::new(random_kind())
    }

    /// One gravity step: the piece falls a row, or, where it cannot, its cells
    /// settle into the field and a piece of kind `next` appears at the spawn
    /// anchor.
    pub fn gravity(&mut self, next: TetrominoKind)
        requires
            old(self).wf(),
        ensures
            final(self).wf(),
            final(self).grid@ == field_after_fall(old(self).grid@, old(self).active),
            final(self).active == piece_after_fall(old(self).grid@, old(self).active, next),
            final(self).score == old(self).score,
    {
        let mut candidate = self.active;
        candidate.move_down();
        if !candidate.is_in_ground() && !collides(&self.grid, &candidate) {
            proof {
                lemma_above_floor(candidate);
            }
            self.active = candidate;
        } else {
            let cells = self.active.occupied_tiles();
            self.grid.settle(&cells, self.active.kind);
            assert(self.grid@.dom() =~= old(self).grid@.dom() + cells@.to_set());
            self.active = Tetromino::new(next);
        }
    }

    /// One tick of the game: a gravity step, then the clearing of full rows,
    /// with its points added to the score (which stops at `u32::MAX`).
    /// More than four full rows at once cannot come from one piece; should
    /// the field hold them, nothing is cleared and false is returned.
    pub fn tick(&mut self, next: TetrominoKind) -> (r: bool)
        requires
            old(self).wf(),
        ensures
            final(self).wf(),
            final(self).active == piece_after_fall(old(self).grid@, old(self).active, next),
            r == (full_row_count(field_after_fall(old(self).grid@, old(self).active)) <= 4),
            r ==> is_compaction_of(final(self).grid@, field_after_fall(old(self).grid@, old(self).active)),
            r ==> final(self).score == old(self).score.saturating_add(
                points_for(full_row_count(field_after_fall(old(self).grid@, old(self).active))),
            ),
            !r ==> final(self).grid@ == field_after_fall(old(self).grid@, old(self).active),
            !r ==> final(self).score == old(self).score,
    {
        self.gravity(next);
        if self.grid.count_full_rows() > 4 {
            return false;
        }
        let (_, points) = self.grid.clear_lines();
        self.score = self.score.saturating_add(points);
        true
    }

    /// A tick whose next piece, if one is needed, is of a random kind.
    pub fn tick_random(&mut self) -> (r: bool)
        requires
            old(self).wf(),
        ensures
            final(self).wf(),
            exists|k: TetrominoKind| #[trigger] piece_after_fall(old(self).grid@, old(self).active, k)
                == final(self).active,
            r == (full_row_count(field_after_fall(old(self).grid@, old(self).active)) <= 4),
            r ==> is_compaction_of(final(self).grid@, field_after_fall(old(self).grid@, old(self).active)),
            r ==> final(self).score == old(self).score.saturating_add(
                points_for(full_row_count(field_after_fall(old(self).grid@, old(self).active))),
            ),
            !r ==> final(self).grid@ == field_after_fall(old(self).grid@, old(self).active),
            !r ==> final(self).score == old(self).score,
    {
        let next = random_kind();
        self.tick(next)
    }

    /// Moves the falling piece left, right and down as asked, all at once,
    /// where it may stand there; otherwise leaves it as it is.
    pub fn handle_movement(&mut self, left: bool, right: bool, down: bool)
        requires
            old(self).wf(),
        ensures
            final(self).wf(),
            fits(old(self).grid@, translated(old(self).active, left, right, down)) ==> final(self).active
                == translated(old(self).active, left, right, down),
            !fits(old(self).grid@, translated(old(self).active, left, right, down)) ==> final(self).active
                == old(self).active,
            final(self).grid@ == old(self).grid@,
            final(self).score == old(self).score,
    {
        let mut candidate = self.active;
        if left {
            candidate.move_left();
        }
        if right {
            candidate.move_right();
        }
        if down {
            candidate.move_down();
        }
        assert(candidate == translated(self.active, left, right, down));
        if is_valid(&self.grid, &candidate) {
            self.active = candidate;
        }
    }

    /// Turns the falling piece a quarter turn, left if asked for, else right
    /// if asked for, trying each wall kick in order and keeping the first
    /// position where it may stand; with none, the piece stays as it is.
    pub fn handle_rotation(&mut self, left: bool, right: bool)
        requires
            old(self).wf(),
        ensures
            final(self).wf(),
            (left || right) ==> final(self).active == piece_after_turn(old(self).grid@, old(self).active, left),
            !(left || right) ==> final(self).active == old(self).active,
            final(self).grid@ == old(self).grid@,
            final(self).score == old(self).score,
    {
        let mut candidate = self.active;
        if left {
            candidate.rotate_left();
        } else if right {
            candidate.rotate_right();
        } else {
            return;
        }
        let offsets = get_wall_kick_offsets(self.active.kind, self.active.rotation, candidate.rotation);
        let ghost kicks = kick_table(self.active.kind, self.active.rotation, candidate.rotation);
        proof {
            lemma_kick_bounds(self.active.kind, self.active.rotation, candidate.rotation);
        }
        let mut i: usize = 0;
        while i < 5
            invariant
                i <= 5,
                kicks.len() == 5,
                crate::shapes::same_coords(offsets@, kicks),
                candidate == turned(self.active, left),
                self.active.in_range(),
                first_fit(self.grid@, candidate, kicks, 0) == first_fit(self.grid@, candidate, kicks, i as int),
                left || right,
                forall|j: int| 0 <= j < 5 ==> -2 <= #[trigger] kicks[j].0 <= 2 && -2 <= kicks[j].1 <= 2,
                kicks == kick_table(old(self).active.kind, old(self).active.rotation, candidate.rotation),
                self.active == old(self).active,
                self.grid@ == old(self).grid@,
                self.score == old(self).score,
                self.wf(),
            decreases 5 - i,
        {
            let trial = Tetromino {
                position: (candidate.position.0 + offsets[i].0, candidate.position.1 + offsets[i].1),
                ..candidate
            };
            assert(trial == candidate.moved(kicks[i as int].0, kicks[i as int].1));
            if is_valid(&self.grid, &trial) {
                assert(first_fit(self.grid@, candidate, kicks, i as int) == Some(trial));
                self.active = trial;
                return;
            }
            i = i + 1;
        }
    }

    /// Where the falling piece would come to rest if it fell straight down:
    /// the same piece in the same column, at the lowest row it reaches without
    /// passing through a settled cell or the floor.
    pub fn ghost_piece(&self) -> (r: Tetromino)
        requires
            self.wf(),
        ensures
            r.kind == self.active.kind,
            r.rotation == self.active.rotation,
            r.position.0 == self.active.position.0,
            r.position.1 <= self.active.position.1 + 1,
            blocked(self.grid@, at_row(self.active, r.position.1 - 1)),
            forall|y: int| r.position.1 <= y <= self.active.position.1 ==> !blocked(
                self.grid@,
                #[trigger] at_row(self.active, y),
            ),
    {
        let mut ghost_tetromino = self.active;
        while !collides(&self.grid, &ghost_tetromino) && !ghost_tetromino.is_in_ground()
            invariant
                ghost_tetromino == at_row(self.active, ghost_tetromino.position.1 as int),
                ghost_tetromino.position.1 <= self.active.position.1,
                -COORD_LIMIT <= ghost_tetromino.position.1,
                self.wf(),
                forall|y: int| ghost_tetromino.position.1 < y <= self.active.position.1 ==> !blocked(
                    self.grid@,
                    #[trigger] at_row(self.active, y),
                ),
            decreases ghost_tetromino.position.1 + COORD_LIMIT,
        {
            proof {
                lemma_above_floor(ghost_tetromino);
            }
            ghost_tetromino.move_down();
        }
        ghost_tetromino.move_up();
        ghost_tetromino
    }
}

} // verus!
