//! The field of settled cells: a map from cell to the kind of the piece that
//! left it there, and the clearing of full rows.

use vstd::prelude::*;
use bevy::platform::collections::HashMap;
use bevy::platform::hash::FixedHasher;
use crate::shapes::{Coord, TetrominoKind, GRID_HEIGHT, GRID_WIDTH};

verus! {

#[verifier::external_type_specification]
#[verifier::external_body]
#[verifier::reject_recursive_types(K)]
#[verifier::reject_recursive_types(V)]
#[verifier::reject_recursive_types(S)]
pub struct ExHashMap<K, V, S>(HashMap<K, V, S>);

#[verifier::external_type_specification]
#[verifier::external_body]
pub struct ExFixedHasher(FixedHasher);

/// The settled cells, keyed by coordinate.
pub type TileMap = HashMap<Coord, TetrominoKind>;

/// What a tile map holds.
pub uninterp spec fn tile_map(m: TileMap) -> Map<Coord, TetrominoKind>;

/// The map with no entries.
pub open spec fn no_tiles() -> Map<Coord, TetrominoKind> {
    Map::empty()
}

/// Relies on bevy's `HashMap::new`: the new map is empty.
#[verifier::external_body]
fn empty_tiles() -> (r: TileMap)
    ensures
        tile_map(r) == no_tiles(),
{
    HashMap::new()
}

/// Relies on bevy's `HashMap::contains_key`: true exactly when the key has a value.
#[verifier::external_body]
fn tiles_contain(m: &TileMap, k: &Coord) -> (r: bool)
    ensures
        r == tile_map(*m).contains_key(*k),
{
    m.contains_key(k)
}

/// Relies on bevy's `HashMap::insert`: the key maps to the value afterwards,
/// and every other key keeps what it had.
#[verifier::external_body]
fn tiles_insert(m: &mut TileMap, k: Coord, v: TetrominoKind)
    ensures
        tile_map(*final(m)) == tile_map(*old(m)).insert(k, v),
{
    m.insert(k, v);
}

/// Relies on bevy's `HashMap::iter`: it visits every entry exactly once, in
/// some order.
#[verifier::external_body]
fn tiles_entries(m: &TileMap) -> (r: Vec<(Coord, TetrominoKind)>)
    ensures
        forall|i: int| 0 <= i < r@.len() ==> #[trigger] tile_map(*m).contains_key(r@[i].0)
            && tile_map(*m)[r@[i].0] == r@[i].1,
        forall|i: int, j: int| 0 <= i < j < r@.len() ==> r@[i].0 != r@[j].0,
        forall|k: Coord| #[trigger] tile_map(*m).contains_key(k) ==> exists|i: int|
            0 <= i < r@.len() && r@[i].0 == k,
{
    m.iter().map(|(k, v)| (*k, *v)).collect()
}

/// The settled cells of row `y`.
pub open spec fn row_cells(m: Map<Coord, TetrominoKind>, y: int) -> Set<Coord> {
    m.dom().filter(|c: Coord| c.1 == y)
}

/// Row `y` is one of the visible rows and holds as many cells as the field is wide.
pub open spec fn is_full_row(m: Map<Coord, TetrominoKind>, y: int) -> bool {
    0 <= y < GRID_HEIGHT && row_cells(m, y).len() == GRID_WIDTH
}

/// The number of full rows among the rows below `y`, for `y <= GRID_HEIGHT`.
pub open spec fn full_rows_under(m: Map<Coord, TetrominoKind>, y: int) -> nat
    decreases y,
{
    if y <= 0 {
        0
    } else {
        full_rows_under(m, y - 1) + if is_full_row(m, y - 1) {
            1nat
        } else {
            0nat
        }
    }
}

/// The number of full rows in the field.
pub open spec fn full_row_count(m: Map<Coord, TetrominoKind>) -> nat {
    full_rows_under(m, GRID_HEIGHT as int)
}

/// How far a cell of row `y` falls when the full rows go: the number of full
/// rows below it.
pub open spec fn drop_of(m: Map<Coord, TetrominoKind>, y: int) -> nat {
    if y > GRID_HEIGHT {
        full_row_count(m)
    } else {
        full_rows_under(m, y)
    }
}

/// The cell stays when the full rows are cleared.
pub open spec fn is_kept(m: Map<Coord, TetrominoKind>, c: Coord) -> bool {
    !is_full_row(m, c.1 as int)
}

/// Where a kept cell ends up once the full rows below it are gone.
pub open spec fn lowered(m: Map<Coord, TetrominoKind>, c: Coord) -> Coord {
    (c.0, (c.1 - drop_of(m, c.1 as int)) as i32)
}

/// Points for clearing `rows` rows at once.
pub open spec fn points_for(rows: nat) -> u32 {
    if rows == 1 {
        100
    } else if rows == 2 {
        300
    } else if rows == 3 {
        500
    } else if rows == 4 {
        800
    } else {
        0
    }
}

/// `n` is `m` with its full rows removed and every other cell lowered by the
/// number of full rows below it, keeping its kind.
pub open spec fn is_compaction_of(n: Map<Coord, TetrominoKind>, m: Map<Coord, TetrominoKind>) -> bool {
    &&& forall|c: Coord| #[trigger] m.contains_key(c) && is_kept(m, c) ==> n.contains_key(lowered(m, c))
        && n[lowered(m, c)] == m[c]
    &&& forall|d: Coord| #[trigger] n.contains_key(d) ==> exists|c: Coord|
        m.contains_key(c) && is_kept(m, c) && lowered(m, c) == d
}

/// Between two rows there are at most as many full rows as rows.
pub proof fn lemma_under_bounds(m: Map<Coord, TetrominoKind>, a: int, b: int)
    requires
        a <= b,
    ensures
        full_rows_under(m, a) <= full_rows_under(m, b),
        full_rows_under(m, b) - full_rows_under(m, a) <= b - a,
    decreases b - a,
{
    if a < b {
        lemma_under_bounds(m, a, b - 1);
        if b > 0 {
            assert(full_rows_under(m, b) <= full_rows_under(m, b - 1) + 1);
        }
    }
}

/// Below row `y` there are at most `y` full rows.
pub proof fn lemma_under_le(m: Map<Coord, TetrominoKind>, y: int)
    requires
        0 <= y,
    ensures
        full_rows_under(m, y) <= y,
{
    lemma_under_bounds(m, 0, y);
}

/// Rows at or above the visible height are never full.
pub proof fn lemma_under_top(m: Map<Coord, TetrominoKind>, y: int)
    requires
        y >= GRID_HEIGHT,
    ensures
        full_rows_under(m, y) == full_row_count(m),
    decreases y,
{
    if y > GRID_HEIGHT {
        lemma_under_top(m, y - 1);
    }
}

/// A kept cell falls no lower than row 0 and no lower than itself below 0.
pub proof fn lemma_lowered_range(m: Map<Coord, TetrominoKind>, y: int)
    ensures
        drop_of(m, y) <= GRID_HEIGHT,
        y >= 0 ==> drop_of(m, y) <= y,
        y < 0 ==> drop_of(m, y) == 0,
{
    lemma_under_le(m, GRID_HEIGHT as int);
    if y <= GRID_HEIGHT {
        lemma_under_bounds(m, y, GRID_HEIGHT as int);
        if y >= 0 {
            lemma_under_le(m, y);
        }
    }
}

/// Distinct kept cells end up in distinct places.
pub proof fn lemma_lowered_injective(m: Map<Coord, TetrominoKind>, c1: Coord, c2: Coord)
    requires
        is_kept(m, c1),
        is_kept(m, c2),
        lowered(m, c1) == lowered(m, c2),
    ensures
        c1 == c2,
{
    lemma_lowered_range(m, c1.1 as int);
    lemma_lowered_range(m, c2.1 as int);
    if c1.1 != c2.1 {
        let (lo, hi) = if c1.1 < c2.1 { (c1.1 as int, c2.1 as int) } else { (c2.1 as int, c1.1 as int) };
        assert(!is_full_row(m, lo));
        assert(drop_of(m, lo + 1) == drop_of(m, lo)) by {
            if lo >= GRID_HEIGHT {
                lemma_under_top(m, lo);
            }
        }
        let a = if lo + 1 > GRID_HEIGHT { GRID_HEIGHT as int } else { lo + 1 };
        let b = if hi > GRID_HEIGHT { GRID_HEIGHT as int } else { hi };
        lemma_under_bounds(m, a, b);
        assert(drop_of(m, hi) - drop_of(m, lo + 1) <= hi - (lo + 1));
    }
}

/// Every cell of a full row below `y` is counted: there are as many as the
/// field is wide for each such row.
pub proof fn lemma_cleared_len(m: Map<Coord, TetrominoKind>, y: int)
    requires
        m.dom().finite(),
        0 <= y <= GRID_HEIGHT,
    ensures
        m.dom().filter(|c: Coord| is_full_row(m, c.1 as int) && c.1 < y).finite(),
        m.dom().filter(|c: Coord| is_full_row(m, c.1 as int) && c.1 < y).len() == GRID_WIDTH
            * full_rows_under(m, y),
    decreases y,
{
    let s = m.dom().filter(|c: Coord| is_full_row(m, c.1 as int) && c.1 < y);
    m.dom().lemma_len_filter(|c: Coord| is_full_row(m, c.1 as int) && c.1 < y);
    if y == 0 {
        assert(s =~= Set::empty());
    } else {
        lemma_cleared_len(m, y - 1);
        let a = m.dom().filter(|c: Coord| is_full_row(m, c.1 as int) && c.1 < y - 1);
        let row = row_cells(m, y - 1);
        m.dom().lemma_len_filter(|c: Coord| c.1 == y - 1);
        if is_full_row(m, y - 1) {
            assert(s =~= a + row);
            assert(a.disjoint(row));
            vstd::set_lib::lemma_set_disjoint_lens(a, row);
        } else {
            assert(s =~= a);
        }
    }
}

/// The first none of a sequence hold nothing, whatever the filter.
pub proof fn lemma_empty_prefix(ks: Seq<Coord>, f: spec_fn(Coord) -> bool)
    ensures
        ks.subrange(0, 0).to_set().filter(f).finite(),
        ks.subrange(0, 0).to_set().filter(f).len() == 0,
{
    assert(ks.subrange(0, 0).to_set().filter(f) =~= Set::empty());
}

/// With no full row among rows `a .. b`, the count of full rows below does
/// not change from `a` to `b`.
pub proof fn lemma_under_flat(m: Map<Coord, TetrominoKind>, a: int, b: int)
    requires
        a <= b,
        forall|r: int| a <= r < b ==> !#[trigger] is_full_row(m, r),
    ensures
        full_rows_under(m, a) == full_rows_under(m, b),
    decreases b - a,
{
    if a < b {
        lemma_under_flat(m, a, b - 1);
        if b <= 0 {
            assert(full_rows_under(m, b) == 0);
        }
    }
}

/// When full rows are cleared, a remaining cell above every full row falls by
/// exactly the number of rows cleared, and one below every full row stays
/// where it is.
pub proof fn lemma_clear_moves_cells(m: Map<Coord, TetrominoKind>, c: Coord)
    requires
        is_kept(m, c),
    ensures
        (forall|r: int| c.1 < r ==> !#[trigger] is_full_row(m, r)) ==> lowered(m, c) == (
        c.0,
        (c.1 - full_row_count(m)) as i32,
        ),
        (forall|r: int| r < c.1 ==> !#[trigger] is_full_row(m, r)) ==> lowered(m, c) == c,
{
    let y = c.1 as int;
    if forall|r: int| y < r ==> !#[trigger] is_full_row(m, r) {
        if y < GRID_HEIGHT {
            let lo = if y < 0 { 0 } else { y };
            assert forall|r: int| lo <= r < GRID_HEIGHT implies !#[trigger] is_full_row(m, r) by {
                if r == y {
                    assert(is_kept(m, c));
                }
            }
            lemma_under_flat(m, lo, GRID_HEIGHT as int);
            if y < 0 {
                assert(full_rows_under(m, 0) == 0);
            }
        } else if y > GRID_HEIGHT {
        } else {
        }
    }
    if forall|r: int| r < y ==> !#[trigger] is_full_row(m, r) {
        if y <= GRID_HEIGHT {
            if y > 0 {
                lemma_under_flat(m, 0, y);
            }
        } else {
            lemma_under_flat(m, 0, GRID_HEIGHT as int);
        }
    }
}

pub struct Grid {
    pub tiles: TileMap,
}

impl View for Grid {
    type V = Map<Coord, TetrominoKind>;

    open spec fn view(&self) -> Map<Coord, TetrominoKind> {
        tile_map(self.tiles)
    }
}

impl Grid {
    /// An empty field.
    pub fn new() -> (r: Grid)
        ensures
            r@ == no_tiles(),
    {
        Grid { tiles: empty_tiles() }
    }

    /// Whether a settled cell lies at `c`.
    pub fn occupies(&self, c: Coord) -> (r: bool)
        ensures
            r == self@.contains_key(c),
    {
        tiles_contain(&self.tiles, &c)
    }

    /// Every settled cell with the kind that left it, each once.
    pub fn entries(&self) -> (r: Vec<(Coord, TetrominoKind)>)
        ensures
            forall|i: int| 0 <= i < r@.len() ==> #[trigger] self@.contains_key(r@[i].0)
                && self@[r@[i].0] == r@[i].1,
            forall|i: int, j: int| 0 <= i < j < r@.len() ==> r@[i].0 != r@[j].0,
            forall|k: Coord| #[trigger] self@.contains_key(k) ==> exists|i: int|
                0 <= i < r@.len() && r@[i].0 == k,
    {
        tiles_entries(&self.tiles)
    }

    /// Places the given cells, each with `kind`, over whatever was there.
    pub fn settle(&mut self, cells: &[Coord; 4], kind: TetrominoKind)
        ensures
            final(self)@ == old(self)@.union_prefer_right(
                Map::new(|c: Coord| cells@.contains(c), |c: Coord| kind),
            ),
    {
        let mut i: usize = 0;
        while i < 4
            invariant
                i <= 4,
                self@ == old(self)@.union_prefer_right(
                    Map::new(|c: Coord| cells@.subrange(0, i as int).contains(c), |c: Coord| kind),
                ),
            decreases 4 - i,
        {
            tiles_insert(&mut self.tiles, cells[i], kind);
            proof {
                let prev = cells@.subrange(0, i as int);
                let next = cells@.subrange(0, i + 1);
                assert forall|c: Coord| next.contains(c) <==> (prev.contains(c) || c == cells@[i as int]) by {
                    if c == cells@[i as int] {
                        assert(next[i as int] == c);
                    }
                    if prev.contains(c) {
                        let k = choose|k: int| 0 <= k < prev.len() && prev[k] == c;
                        assert(next[k] == c);
                    }
                    if next.contains(c) {
                        let k = choose|k: int| 0 <= k < next.len() && next[k] == c;
                        if k < i {
                            assert(prev[k] == c);
                        }
                    }
                }
            }
            assert(self@ =~= old(self)@.union_prefer_right(
                Map::new(|c: Coord| cells@.subrange(0, i + 1).contains(c), |c: Coord| kind),
            ));
            i = i + 1;
        }
        assert(cells@.subrange(0, 4) =~= cells@);
    }
    /// The number of settled cells in each visible row, from the bottom.
    pub fn row_counts(&self) -> (r: Vec<usize>)
        ensures
            r@.len() == GRID_HEIGHT,
            forall|j: int| 0 <= j < GRID_HEIGHT ==> #[trigger] r@[j] == row_cells(self@, j).len(),
    {
        let ghost m = self@;
        let entries = tiles_entries(&self.tiles);
        let ghost ks = entries@.map_values(|e: (Coord, TetrominoKind)| e.0);
        assert(ks.to_set() =~= m.dom()) by {
            assert forall|c: Coord| m.contains_key(c) implies ks.contains(c) by {
                let i = choose|i: int| 0 <= i < entries@.len() && entries@[i].0 == c;
                assert(ks[i] == c);
            }
        }
        let mut counts: Vec<usize> = Vec::new();
        let mut y: usize = 0;
        while y < 22
            invariant
                y <= 22,
                counts@.len() == y,
                forall|j: int| 0 <= j < y ==> counts@[j] == 0,
            decreases 22 - y,
        {
            counts.push(0);
            y = y + 1;
        }
        proof {
            assert forall|j: int| 0 <= j < 22 implies #[trigger] counts@[j] == ks.subrange(0, 0).to_set().filter(
                |c: Coord| c.1 == j,
            ).len() by {
                lemma_empty_prefix(ks, |c: Coord| c.1 == j);
            }
        }
        let mut i: usize = 0;
        while i < entries.len()
            invariant
                i <= entries@.len(),
                ks == entries@.map_values(|e: (Coord, TetrominoKind)| e.0),
                forall|a: int, b: int| 0 <= a < b < entries@.len() ==> entries@[a].0 != entries@[b].0,
                counts@.len() == 22,
                forall|j: int| 0 <= j < 22 ==> #[trigger] counts@[j] <= i,
                forall|j: int| 0 <= j < 22 ==> #[trigger] counts@[j] == ks.subrange(0, i as int).to_set().filter(
                    |c: Coord| c.1 == j,
                ).len(),
            decreases entries@.len() - i,
        {
            let c = entries[i].0;
            let ghost prev = ks.subrange(0, i as int);
            let ghost old_counts = counts@;
            proof {
                assert(ks[i as int] == c);
                assert(ks.subrange(0, i + 1) =~= prev.push(c));
                prev.lemma_push_to_set_commute(c);
                assert(!prev.contains(c)) by {
                    if prev.contains(c) {
                        let k = choose|k: int| 0 <= k < prev.len() && prev[k] == c;
                        assert(entries@[k].0 == entries@[i as int].0);
                    }
                }
            }
            if 0 <= c.1 && c.1 < GRID_HEIGHT {
                let row = c.1 as usize;
                let n = counts[row] + 1;
                counts.set(row, n);
            }
            proof {
                assert forall|j: int| 0 <= j < 22 implies #[trigger] counts@[j] == ks.subrange(0, i + 1).to_set().filter(
                    |d: Coord| d.1 == j,
                ).len() by {
                    let f = |d: Coord| d.1 == j;
                    let old_set = prev.to_set().filter(f);
                    prev.to_set().lemma_len_filter(f);
                    if c.1 == j {
                        assert(ks.subrange(0, i + 1).to_set().filter(f) =~= old_set.insert(c));
                    } else {
                        assert(ks.subrange(0, i + 1).to_set().filter(f) =~= old_set);
                    }
                }
            }
            i = i + 1;
        }
        assert(ks.subrange(0, entries@.len() as int) =~= ks);
        assert(forall|j: int| 0 <= j < 22 ==> #[trigger] counts@[j] == row_cells(m, j).len());
        counts
    }

    /// For each row from the bottom up to `GRID_HEIGHT`, the number of full
    /// rows below it.
    fn rows_below(&self, counts: &Vec<usize>) -> (r: Vec<usize>)
        requires
            counts@.len() == GRID_HEIGHT,
            forall|j: int| 0 <= j < GRID_HEIGHT ==> #[trigger] counts@[j] == row_cells(self@, j).len(),
        ensures
            r@.len() == GRID_HEIGHT + 1,
            forall|j: int| 0 <= j <= GRID_HEIGHT ==> #[trigger] r@[j] == full_rows_under(self@, j),
    {
        let ghost m = self@;
        let mut below: Vec<usize> = Vec::new();
        below.push(0);
        let mut y: usize = 0;
        while y < 22
            invariant
                y <= 22,
                below@.len() == y + 1,
                counts@.len() == 22,
                forall|j: int| 0 <= j < 22 ==> #[trigger] counts@[j] == row_cells(m, j).len(),
                forall|j: int| 0 <= j <= y ==> #[trigger] below@[j] == full_rows_under(m, j),
                forall|j: int| 0 <= j <= y ==> #[trigger] below@[j] <= j,
            decreases 22 - y,
        {
            let next = if counts[y] == 10 {
                below[y] + 1
            } else {
                below[y]
            };
            below.push(next);
            y = y + 1;
        }
        below
    }

    /// The number of full rows.
    pub fn count_full_rows(&self) -> (r: usize)
        ensures
            r == full_row_count(self@),
    {
        let counts = self.row_counts();
        let below = self.rows_below(&counts);
        below[22]
    }

    /// Clears every full row: its cells go, every other cell falls by the
    /// number of full rows below it, and the points for that many rows at
    /// once are returned beside the number of rows. More than four full rows
    /// at once cannot come from one piece and are not accepted.
    pub fn clear_lines(&mut self) -> (r: (usize, u32))
        requires
            full_row_count(old(self)@) <= 4,
            old(self)@.dom().finite(),
        ensures
            r.0 == full_row_count(old(self)@),
            r.1 == points_for(r.0 as nat),
            is_compaction_of(final(self)@, old(self)@),
            r.0 == 0 ==> final(self)@ == old(self)@,
            final(self)@.dom().finite(),
            final(self)@.dom().len() == old(self)@.dom().len() - GRID_WIDTH * r.0,
    {
        let ghost m = self@;
        let entries = tiles_entries(&self.tiles);
        let ghost ks = entries@.map_values(|e: (Coord, TetrominoKind)| e.0);
        assert(ks.to_set() =~= m.dom()) by {
            assert forall|c: Coord| m.contains_key(c) implies ks.contains(c) by {
                let i = choose|i: int| 0 <= i < entries@.len() && entries@[i].0 == c;
                assert(ks[i] == c);
            }
        }
        let counts = self.row_counts();
        let below = self.rows_below(&counts);
        let total = below[22];
        if total == 0 {
            proof {
                assert forall|c: Coord| #[trigger] m.contains_key(c) && is_kept(m, c) implies lowered(m, c) == c by {
                    lemma_lowered_range(m, c.1 as int);
                    lemma_under_bounds(m, if c.1 > GRID_HEIGHT { GRID_HEIGHT as int } else { c.1 as int }, GRID_HEIGHT as int);
                }
                lemma_cleared_len(m, GRID_HEIGHT as int);
                assert(m.dom().filter(|c: Coord| is_full_row(m, c.1 as int) && c.1 < GRID_HEIGHT) =~= Set::empty());
                assert forall|c: Coord| m.contains_key(c) implies is_kept(m, c) by {
                    if !is_kept(m, c) {
                        assert(m.dom().filter(|c: Coord| is_full_row(m, c.1 as int) && c.1 < GRID_HEIGHT).contains(c));
                    }
                }
            }
            return (0, 0);
        }
        let mut acc = empty_tiles();
        proof {
            lemma_empty_prefix(ks, |c: Coord| is_kept(m, c));
            assert forall|a: int| 0 <= a < entries@.len() implies #[trigger] m.contains_key(entries@[a].0)
                && m[entries@[a].0] == entries@[a].1 by {
                assert(tile_map(self.tiles).contains_key(entries@[a].0));
            }
        }
        let mut i: usize = 0;
        while i < entries.len()
            invariant
                i <= entries@.len(),
                ks == entries@.map_values(|e: (Coord, TetrominoKind)| e.0),
                ks.to_set() == m.dom(),
                forall|a: int, b: int| 0 <= a < b < entries@.len() ==> entries@[a].0 != entries@[b].0,
                forall|a: int| 0 <= a < entries@.len() ==> #[trigger] m.contains_key(entries@[a].0)
                    && m[entries@[a].0] == entries@[a].1,
                counts@.len() == 22,
                forall|j: int| 0 <= j < 22 ==> #[trigger] counts@[j] == row_cells(m, j).len(),
                below@.len() == 23,
                forall|j: int| 0 <= j <= 22 ==> #[trigger] below@[j] == full_rows_under(m, j),
                forall|a: int| 0 <= a < i && is_kept(m, #[trigger] ks[a]) ==> tile_map(acc).contains_key(lowered(m, ks[a]))
                    && tile_map(acc)[lowered(m, ks[a])] == entries@[a].1,
                forall|d: Coord| #[trigger] tile_map(acc).contains_key(d) ==> exists|a: int|
                    0 <= a < i && is_kept(m, ks[a]) && lowered(m, ks[a]) == d,
                tile_map(acc).dom().finite(),
                tile_map(acc).dom().len() == ks.subrange(0, i as int).to_set().filter(|c: Coord| is_kept(m, c)).len(),
            decreases entries@.len() - i,
        {
            let (c, kind) = entries[i];
            let full = 0 <= c.1 && c.1 < GRID_HEIGHT && counts[c.1 as usize] == 10;
            let ghost prev = ks.subrange(0, i as int);
            proof {
                assert(ks[i as int] == c);
                assert(ks.subrange(0, i + 1) =~= prev.push(c));
                prev.lemma_push_to_set_commute(c);
                assert(!prev.contains(c)) by {
                    if prev.contains(c) {
                        let k = choose|k: int| 0 <= k < prev.len() && prev[k] == c;
                        assert(entries@[k].0 == entries@[i as int].0);
                    }
                }
                let f = |d: Coord| is_kept(m, d);
                prev.to_set().lemma_len_filter(f);
                if f(c) {
                    assert(ks.subrange(0, i + 1).to_set().filter(f) =~= prev.to_set().filter(f).insert(c));
                } else {
                    assert(ks.subrange(0, i + 1).to_set().filter(f) =~= prev.to_set().filter(f));
                }
                assert(full == !is_kept(m, c));
            }
            if !full {
                let drop: usize = if c.1 < 0 {
                    0
                } else if c.1 >= GRID_HEIGHT {
                    below[22]
                } else {
                    below[c.1 as usize]
                };
                proof {
                    lemma_lowered_range(m, c.1 as int);
                    if c.1 > GRID_HEIGHT {
                        lemma_under_top(m, c.1 as int);
                    }
                    assert(drop == drop_of(m, c.1 as int));
                }
                let target = (c.0, c.1 - drop as i32);
                proof {
                    assert(target == lowered(m, c));
                    assert(!tile_map(acc).contains_key(target)) by {
                        if tile_map(acc).contains_key(target) {
                            let a = choose|a: int| 0 <= a < i && is_kept(m, ks[a]) && lowered(m, ks[a]) == target;
                            lemma_lowered_injective(m, ks[a], c);
                            assert(entries@[a].0 == entries@[i as int].0);
                        }
                    }
                    assert forall|a: int| 0 <= a < i && is_kept(m, #[trigger] ks[a]) implies lowered(m, ks[a]) != target by {
                        if lowered(m, ks[a]) == target {
                            lemma_lowered_injective(m, ks[a], c);
                            assert(entries@[a].0 == entries@[i as int].0);
                        }
                    }
                }
                tiles_insert(&mut acc, target, kind);
            }
            i = i + 1;
        }
        proof {
            let kept_set = m.dom().filter(|c: Coord| is_kept(m, c));
            let gone = m.dom().filter(|c: Coord| is_full_row(m, c.1 as int) && c.1 < GRID_HEIGHT);
            assert(ks.subrange(0, entries@.len() as int) =~= ks);
            lemma_cleared_len(m, GRID_HEIGHT as int);
            m.dom().lemma_len_filter(|c: Coord| is_kept(m, c));
            assert(m.dom() =~= kept_set + gone);
            assert(kept_set.disjoint(gone));
            vstd::set_lib::lemma_set_disjoint_lens(kept_set, gone);
            assert forall|c: Coord| #[trigger] m.contains_key(c) && is_kept(m, c) implies tile_map(acc).contains_key(lowered(m, c))
                && tile_map(acc)[lowered(m, c)] == m[c] by {
                assert(ks.contains(c));
                let a = choose|a: int| 0 <= a < ks.len() && ks[a] == c;
                assert(entries@[a].0 == c);
            }
            assert forall|d: Coord| #[trigger] tile_map(acc).contains_key(d) implies exists|c: Coord|
                m.contains_key(c) && is_kept(m, c) && lowered(m, c) == d by {
                let a = choose|a: int| 0 <= a < entries@.len() && is_kept(m, ks[a]) && lowered(m, ks[a]) == d;
                assert(m.contains_key(entries@[a].0));
            }
        }
        self.tiles = acc;
        let points: u32 = if total == 1 {
            100
        } else if total == 2 {
            300
        } else if total == 3 {
            500
        } else {
            800
        };
        (total, points)
    }
}

} // verus!
