//! The grid: terrain, the enemy path, and the two occupancy indexes.

use vstd::prelude::*;
use std::collections::HashMap;
use crate::units::{cell_coord, grid_coord, grid_to_world, world_coord};

verus! {

broadcast use vstd::std_specs::hash::group_hash_axioms;

/// A grid coordinate: column, then row.
pub type Cell = (i8, i8);

/// Terrain value of a cell that cannot be built on.
pub const BLOCKED: u8 = 1;

/// Why a tower could not be placed.
#[derive(Debug, Clone, Copy, PartialEq, Eq, Structural)]
pub enum PlacementError {
    /// The cell lies outside the grid or its terrain is blocked.
    NotBuildable,
    /// The cell already holds a tower.
    AlreadyOccupied,
}

/// The key under which a cell is stored in the occupancy indexes.
pub open spec fn cell_key(c: Cell) -> u16 {
    ((c.0 + 128) * 256 + (c.1 + 128)) as u16
}

/// Computes [`cell_key`].
pub fn key_of(c: Cell) -> (k: u16)
    ensures
        k == cell_key(c),
{
    let col: u16 = (c.0 as i16 + 128) as u16;
    let row: u16 = (c.1 as i16 + 128) as u16;
    col * 256 + row
}

/// `s` without every occurrence of `id`.
pub open spec fn without(s: Seq<usize>, id: usize) -> Seq<usize> {
    s.filter(|e: usize| e != id)
}

/// What [`without`] keeps: exactly the other elements, in their order and
/// as often as before.
pub proof fn lemma_without(s: Seq<usize>, id: usize)
    ensures
        !without(s, id).contains(id),
        forall|e: usize| e != id ==> (#[trigger] without(s, id).contains(e) <==> s.contains(e)),
        without(s, id).len() <= s.len(),
        s.no_duplicates() ==> without(s, id).no_duplicates(),
        !s.contains(id) ==> without(s, id) == s,
    decreases s.len(),
{
    reveal(Seq::filter);
    if s.len() > 0 {
        let head = s.drop_last();
        let last = s.last();
        lemma_without(head, id);
        let w = without(s, id);
        let wh = without(head, id);
        assert(s == head.push(last));
        assert forall|e: usize| e != id implies (#[trigger] w.contains(e) <==> s.contains(e)) by {
            if s.contains(e) {
                let i = choose|i: int| 0 <= i < s.len() && s[i] == e;
                if i < head.len() {
                    assert(head[i] == e);
                    assert(head.contains(e));
                    assert(wh.contains(e));
                    let j = choose|j: int| 0 <= j < wh.len() && wh[j] == e;
                    assert(w[j] == e);
                } else {
                    assert(w.last() == e);
                }
            }
            if w.contains(e) {
                let i = choose|i: int| 0 <= i < w.len() && w[i] == e;
                if i < wh.len() {
                    assert(wh[i] == e);
                    assert(wh.contains(e));
                    assert(head.contains(e));
                    let j = choose|j: int| 0 <= j < head.len() && head[j] == e;
                    assert(s[j] == e);
                } else {
                    assert(s[s.len() - 1] == e);
                }
            }
        }
        if w.contains(id) {
            let i = choose|i: int| 0 <= i < w.len() && w[i] == id;
            if i < wh.len() {
                assert(wh[i] == id);
                assert(wh.contains(id));
            }
        }
        if s.no_duplicates() {
            assert(head.no_duplicates());
            assert forall|i: int, j: int| 0 <= i < w.len() && 0 <= j < w.len() && i != j implies w[i]
                != w[j] by {
                if last != id {
                    if i == wh.len() {
                        assert(wh[j] == w[j]);
                        assert(wh.contains(w[j]));
                        assert(head.contains(w[j]));
                        let k = choose|k: int| 0 <= k < head.len() && head[k] == w[j];
                        assert(s[k] == w[j]);
                    } else if j == wh.len() {
                        assert(wh[i] == w[i]);
                        assert(wh.contains(w[i]));
                        assert(head.contains(w[i]));
                        let k = choose|k: int| 0 <= k < head.len() && head[k] == w[i];
                        assert(s[k] == w[i]);
                    }
                }
            }
        }
        if !s.contains(id) {
            assert(last != id) by {
                assert(s[s.len() - 1] == last);
            }
            assert(!head.contains(id)) by {
                if head.contains(id) {
                    let k = choose|k: int| 0 <= k < head.len() && head[k] == id;
                    assert(s[k] == id);
                }
            }
            assert(w == s);
        }
    } else {
        assert(without(s, id) == s);
    }
}

/// Removes every occurrence of `id` from `v`.
pub fn remove_id(v: Vec<usize>, id: usize) -> (r: Vec<usize>)
    ensures
        r@ == without(v@, id),
{
    let mut out: Vec<usize> = Vec::new();
    let mut i: usize = 0;
    while i < v.len()
        invariant
            i <= v.len(),
            out@ == without(v@.take(i as int), id),
        decreases v.len() - i,
    {
        proof {
            reveal(Seq::filter);
            assert(v@.take(i + 1).drop_last() == v@.take(i as int));
        }
        if v[i] != id {
            out.push(v[i]);
        }
        i = i + 1;
    }
    assert(v@.take(v.len() as int) == v@);
    out
}

/// The static terrain, the fixed path, and the positions of towers and
/// enemies on the grid.
#[derive(Debug)]
pub struct GridMap {
    /// Terrain by row, then column; [`BLOCKED`] cells cannot be built on.
    pub grid: Vec<Vec<u8>>,
    /// The cell in which enemies appear.
    pub start_pos: Cell,
    /// Tower handle by cell key.
    pub placements: HashMap<u16, usize>,
    /// Enemy handles by cell key.
    pub enemies: HashMap<u16, Vec<usize>>,
    /// The waypoints that enemies walk, in order.
    pub path: Vec<(u8, u8)>,
}

impl GridMap {
    /// Number of columns: the length of the first row.
    pub open spec fn columns(&self) -> int {
        if self.grid@.len() == 0 {
            0
        } else {
            self.grid@[0]@.len() as int
        }
    }

    /// Number of rows.
    pub open spec fn rows(&self) -> int {
        self.grid@.len() as int
    }

    /// Whether `pos` names a cell of the terrain.
    pub open spec fn in_bounds(&self, pos: Cell) -> bool {
        &&& 0 <= pos.1 < self.rows()
        &&& 0 <= pos.0 < self.columns()
        &&& pos.0 < self.grid@[pos.1 as int]@.len()
    }

    /// The tower standing on `pos`, if any.
    pub open spec fn tower_in(&self, pos: Cell) -> Option<usize> {
        if self.placements@.contains_key(cell_key(pos)) {
            Some(self.placements@[cell_key(pos)])
        } else {
            None
        }
    }

    /// The enemies recorded for `pos`, in the order in which they arrived.
    pub open spec fn bucket(&self, pos: Cell) -> Seq<usize> {
        if self.enemies@.contains_key(cell_key(pos)) {
            self.enemies@[cell_key(pos)]@
        } else {
            Seq::empty()
        }
    }

    /// The tower index as a map over all cells.
    pub open spec fn tower_index(&self) -> Map<Cell, Option<usize>> {
        Map::new(|c: Cell| true, |c: Cell| self.tower_in(c))
    }

    /// The enemy index as a map over all cells.
    pub open spec fn enemy_index(&self) -> Map<Cell, Seq<usize>> {
        Map::new(|c: Cell| true, |c: Cell| self.bucket(c))
    }

    /// Whether a tower may be placed on `pos`: the cell is part of the
    /// terrain, not blocked and not occupied.
    pub open spec fn buildable(&self, pos: Cell) -> bool {
        &&& self.in_bounds(pos)
        &&& self.grid@[pos.1 as int]@[pos.0 as int] != BLOCKED
        &&& self.tower_in(pos) is None
    }

    /// Whether `other` has the same terrain, start and path.
    pub open spec fn same_ground(&self, other: &GridMap) -> bool {
        &&& self.grid == other.grid
        &&& self.start_pos == other.start_pos
        &&& self.path == other.path
    }

    /// A map with the given terrain and path and nothing on it.
    pub fn new(grid: Vec<Vec<u8>>, start_pos: Cell, path: Vec<(u8, u8)>) -> (m: GridMap)
        ensures
            m.grid == grid,
            m.start_pos == start_pos,
            m.path == path,
            forall|c: Cell| m.tower_in(c) is None,
            forall|c: Cell| m.bucket(c) == Seq::<usize>::empty(),
    {
        GridMap { grid, start_pos, placements: HashMap::new(), enemies: HashMap::new(), path }
    }

    /// The cell that a world position falls into.
    pub fn get_grid_pos(pos: (i32, i32)) -> (c: Cell)
        ensures
            c.0 == cell_coord(pos.0 as int),
            c.1 == cell_coord(pos.1 as int),
    {
        (grid_coord(pos.0 as i64), grid_coord(pos.1 as i64))
    }

    /// The world position of the centre of a cell.
    pub fn grid_to_world_pos(pos: (i16, i16)) -> (w: (i32, i32))
        ensures
            w.0 == world_coord(pos.0 as int),
            w.1 == world_coord(pos.1 as int),
    {
        (grid_to_world(pos.0), grid_to_world(pos.1))
    }

    /// Number of columns.
    pub fn width(&self) -> (w: usize)
        ensures
            w == self.columns(),
    {
        if self.grid.len() == 0 {
            0
        } else {
            self.grid[0].len()
        }
    }

    /// Number of rows.
    pub fn height(&self) -> (h: usize)
        ensures
            h == self.rows(),
    {
        self.grid.len()
    }

    /// Whether `pos` names a cell of the terrain.
    pub fn is_within_bounds(&self, pos: Cell) -> (b: bool)
        ensures
            b == self.in_bounds(pos),
    {
        let (x, y) = pos;
        if x < 0 || y < 0 {
            return false;
        }
        let col: usize = x as usize;
        let row: usize = y as usize;
        row < self.grid.len() && col < self.grid[0].len() && col < self.grid[row].len()
    }

    /// The tower standing on `pos`, if any.
    pub fn tower_at(&self, pos: Cell) -> (t: Option<usize>)
        ensures
            t == self.tower_in(pos),
    {
        match self.placements.get(&key_of(pos)) {
            Some(t) => Some(*t),
            None => None,
        }
    }

    /// Whether a tower may be placed on `pos`.
    pub fn is_valid_placement(&self, pos: Cell) -> (b: bool)
        ensures
            b == self.buildable(pos),
    {
        if !self.is_within_bounds(pos) {
            return false;
        }
        let col: usize = pos.0 as usize;
        let row: usize = pos.1 as usize;
        self.grid[row][col] != BLOCKED && !self.placements.contains_key(&key_of(pos))
    }

    /// Records tower `entity` on `pos`, or says why the cell cannot take it.
    /// A failed placement changes nothing.
    pub fn place_tower(&mut self, pos: Cell, entity: usize) -> (r: Result<(), PlacementError>)
        ensures
            final(self).same_ground(old(self)),
            final(self).enemies == old(self).enemies,
            r is Ok <==> old(self).buildable(pos),
            r is Ok ==> final(self).tower_index() == old(self).tower_index().insert(
                pos,
                Some(entity),
            ),
            r is Err ==> final(self).placements == old(self).placements,
            r == Err::<(), PlacementError>(PlacementError::AlreadyOccupied) <==> old(self).tower_in(
                pos,
            ) is Some,
    {
        let key = key_of(pos);
        if self.placements.contains_key(&key) {
            return Err(PlacementError::AlreadyOccupied);
        }
        if !self.is_valid_placement(pos) {
            return Err(PlacementError::NotBuildable);
        }
        self.placements.insert(key, entity);
        Ok(())
    }
}

/// The enemy index after enemy `id` went from cell `from` to cell `to`: it
/// leaves the bucket of `from` and joins the end of the bucket of `to`.
pub open spec fn moved_index(index: Map<Cell, Seq<usize>>, id: usize, from: Cell, to: Cell) -> Map<
    Cell,
    Seq<usize>,
> {
    if from == to {
        index
    } else {
        let lifted = index.insert(from, without(index[from], id));
        lifted.insert(to, lifted[to].push(id))
    }
}

impl GridMap {
    /// The enemies recorded for `pos`; `None` stands for an empty bucket.
    pub fn enemies_at(&self, pos: Cell) -> (r: Option<&Vec<usize>>)
        ensures
            match r {
                Some(v) => v@ == self.bucket(pos),
                None => self.bucket(pos) == Seq::<usize>::empty(),
            },
    {
        self.enemies.get(&key_of(pos))
    }

    /// Adds enemy `id` at the end of the bucket of `pos`.
    pub fn insert_enemy(&mut self, pos: Cell, id: usize)
        ensures
            final(self).same_ground(old(self)),
            final(self).placements == old(self).placements,
            final(self).enemy_index() == old(self).enemy_index().insert(
                pos,
                old(self).bucket(pos).push(id),
            ),
    {
        let key = key_of(pos);
        let mut bucket = match self.enemies.remove(&key) {
            Some(b) => b,
            None => Vec::new(),
        };
        bucket.push(id);
        self.enemies.insert(key, bucket);
    }

    /// Removes enemy `id` from the bucket of `pos`.
    pub fn remove_enemy(&mut self, pos: Cell, id: usize)
        ensures
            final(self).same_ground(old(self)),
            final(self).placements == old(self).placements,
            final(self).enemy_index() == old(self).enemy_index().insert(
                pos,
                without(old(self).bucket(pos), id),
            ),
    {
        let key = key_of(pos);
        match self.enemies.remove(&key) {
            Some(b) => {
                let kept = remove_id(b, id);
                self.enemies.insert(key, kept);
            },
            None => {
                proof {
                    lemma_without(Seq::<usize>::empty(), id);
                }
            },
        }
    }

    /// Moves enemy `id` from the bucket of `from` to the bucket of `to`.
    pub fn reindex_enemy(&mut self, id: usize, from: Cell, to: Cell)
        ensures
            final(self).same_ground(old(self)),
            final(self).placements == old(self).placements,
            final(self).enemy_index() == moved_index(old(self).enemy_index(), id, from, to),
    {
        if from.0 != to.0 || from.1 != to.1 {
            self.remove_enemy(from, id);
            self.insert_enemy(to, id);
        }
    }
}

/// The terrain of the built-in map, by row from row zero upwards.
pub open spec fn default_terrain() -> Seq<Seq<u8>> {
    seq![
        seq![0u8, 0u8, 0u8, 0u8, 0u8, 0u8],
        seq![0u8, 1u8, 1u8, 1u8, 0u8, 0u8],
        seq![0u8, 1u8, 0u8, 1u8, 0u8, 0u8],
        seq![0u8, 1u8, 0u8, 1u8, 1u8, 1u8],
        seq![1u8, 1u8, 0u8, 0u8, 0u8, 0u8],
        seq![0u8, 0u8, 0u8, 0u8, 0u8, 0u8],
    ]
}

/// The path of the built-in map.
pub open spec fn default_path() -> Seq<(u8, u8)> {
    seq![(1u8, 4u8), (1u8, 1u8), (3u8, 1u8), (3u8, 3u8), (6u8, 3u8)]
}

/// The start cell of the built-in map: just left of the grid, in the row
/// of the first waypoint.
pub open spec fn default_start() -> Cell {
    (-1i8, 4i8)
}

impl GridMap {
    /// The terrain as plain sequences.
    pub open spec fn terrain(&self) -> Seq<Seq<u8>> {
        self.grid@.map_values(|row: Vec<u8>| row@)
    }
}

/// Builds the built-in map: six by six cells, with a blocked lane that the
/// path follows from the left edge to the right edge, and nothing on it.
pub fn load_map() -> (m: GridMap)
    ensures
        m.terrain() == default_terrain(),
        m.path@ == default_path(),
        m.start_pos == default_start(),
        m.columns() == 6,
        m.rows() == 6,
        forall|c: Cell| m.tower_in(c) is None,
        forall|c: Cell| m.bucket(c) == Seq::<usize>::empty(),
{
    let mut grid: Vec<Vec<u8>> = Vec::new();
    grid.push(vec![0, 0, 0, 0, 0, 0]);
    grid.push(vec![0, 1, 1, 1, 0, 0]);
    grid.push(vec![0, 1, 0, 1, 0, 0]);
    grid.push(vec![0, 1, 0, 1, 1, 1]);
    grid.push(vec![1, 1, 0, 0, 0, 0]);
    grid.push(vec![0, 0, 0, 0, 0, 0]);
    let mut path: Vec<(u8, u8)> = Vec::new();
    path.push((1, 4));
    path.push((1, 1));
    path.push((3, 1));
    path.push((3, 3));
    path.push((6, 3));
    let m = GridMap::new(grid, (-1, 4), path);
    m
}

} // verus!
