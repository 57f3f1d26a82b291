//! Finding the enemies in range of a tower and picking one of them.

use vstd::prelude::*;
use crate::enemies::{consistent, Enemy};
use crate::geometry::{step_towards, stepped_towards};
use crate::grid::{Cell, GridMap};
use crate::rng::choose_candidate;
use crate::timer::Timer;
use crate::tower::{cool_down, cooled, fires, Projectile, TargetMode, Tower};
use crate::units::{grid_to_world, world_coord, HALF_CELL};

verus! {

/// An enemy in range of a tower, with what the tower needs to rank it.
#[derive(Debug, Clone, Copy, PartialEq, Eq, Structural)]
pub struct Candidate {
    /// The enemy's handle.
    pub id: usize,
    /// Square of the distance between tower and enemy.
    pub distance_sq: u128,
    /// How far the enemy has come along the path.
    pub travelled: u64,
}

/// How far a tower of the given range (in thousandths of a cell) reaches
/// from its centre, in thousandths of a world unit: the range in cells
/// and half a cell more.
pub open spec fn reach_of(range: u32) -> int {
    range * 32 + HALF_CELL
}

/// How many cells in each direction a tower of the given range looks at:
/// the range in cells, rounded up.
pub open spec fn cells_reach(range: u32) -> int {
    (range + 999) / 1000
}

/// Square of the distance between two world positions.
pub open spec fn distance_sq(ax: int, ay: int, bx: int, by: int) -> int {
    (ax - bx) * (ax - bx) + (ay - by) * (ay - by)
}

/// The lowest cell coordinate at most `r` cells below `g`.
pub open spec fn scan_low(g: int, r: int) -> int {
    if g - r < -128 {
        -128
    } else {
        g - r
    }
}

/// The highest cell coordinate at most `r` cells above `g`.
pub open spec fn scan_high(g: int, r: int) -> int {
    if g + r > 127 {
        127
    } else {
        g + r
    }
}

/// Enemy `id` as a candidate for the tower on `pos`, if it lives and is
/// within reach.
pub open spec fn candidate_of(
    enemies: Seq<Option<Enemy>>,
    id: usize,
    pos: Cell,
    range: u32,
) -> Option<Candidate> {
    if id < enemies.len() && enemies[id as int] is Some {
        let e = enemies[id as int].unwrap();
        let d = distance_sq(
            e.x as int,
            e.y as int,
            world_coord(pos.0 as int),
            world_coord(pos.1 as int),
        );
        if d <= reach_of(range) * reach_of(range) {
            Some(Candidate { id, distance_sq: d as u128, travelled: e.distance_travelled })
        } else {
            None
        }
    } else {
        None
    }
}

/// The candidates among the first `k` handles of a bucket, in order.
pub open spec fn bucket_candidates(
    bucket: Seq<usize>,
    k: int,
    enemies: Seq<Option<Enemy>>,
    pos: Cell,
    range: u32,
) -> Seq<Candidate>
    decreases k,
{
    if k <= 0 {
        Seq::empty()
    } else {
        let before = bucket_candidates(bucket, k - 1, enemies, pos, range);
        match candidate_of(enemies, bucket[k - 1], pos, range) {
            Some(c) => before.push(c),
            None => before,
        }
    }
}

/// The candidates in the `k` cells of column `cx` from row `low` upwards.
pub open spec fn column_candidates(
    cx: int,
    low: int,
    k: int,
    index: Map<Cell, Seq<usize>>,
    enemies: Seq<Option<Enemy>>,
    pos: Cell,
    range: u32,
) -> Seq<Candidate>
    decreases k,
{
    if k <= 0 {
        Seq::empty()
    } else {
        let bucket = index[(cx as i8, (low + k - 1) as i8)];
        column_candidates(cx, low, k - 1, index, enemies, pos, range) + bucket_candidates(
            bucket,
            bucket.len() as int,
            enemies,
            pos,
            range,
        )
    }
}

/// The candidates in the `k` columns from column `left` rightwards, each
/// taken over the `height` rows from row `low` upwards.
pub open spec fn square_candidates(
    left: int,
    k: int,
    low: int,
    height: int,
    index: Map<Cell, Seq<usize>>,
    enemies: Seq<Option<Enemy>>,
    pos: Cell,
    range: u32,
) -> Seq<Candidate>
    decreases k,
{
    if k <= 0 {
        Seq::empty()
    } else {
        square_candidates(left, k - 1, low, height, index, enemies, pos, range)
            + column_candidates(left + k - 1, low, height, index, enemies, pos, range)
    }
}

/// The enemies in range of a tower on `pos`: the living enemies within
/// reach that are filed under a cell of the square around the tower, by
/// column, then row, then place in the bucket.
pub open spec fn candidates(
    index: Map<Cell, Seq<usize>>,
    enemies: Seq<Option<Enemy>>,
    pos: Cell,
    range: u32,
) -> Seq<Candidate> {
    let r = cells_reach(range);
    square_candidates(
        scan_low(pos.0 as int, r),
        scan_high(pos.0 as int, r) - scan_low(pos.0 as int, r) + 1,
        scan_low(pos.1 as int, r),
        scan_high(pos.1 as int, r) - scan_low(pos.1 as int, r) + 1,
        index,
        enemies,
        pos,
        range,
    )
}

/// Computes [`candidate_of`].
pub fn rate_enemy(enemies: &Vec<Option<Enemy>>, id: usize, pos: Cell, range: u32) -> (c: Option<
    Candidate,
>)
    ensures
        c == candidate_of(enemies@, id, pos, range),
{
    if id >= enemies.len() {
        return None;
    }
    match enemies[id] {
        None => None,
        Some(e) => {
            let tx: i64 = grid_to_world(pos.0 as i16) as i64;
            let ty: i64 = grid_to_world(pos.1 as i16) as i64;
            let dx: i64 = e.x as i64 - tx;
            let dy: i64 = e.y as i64 - ty;
            assert(0 <= dx * dx <= 0x1_0000_0000 * 0x1_0000_0000 && 0 <= dy * dy <= 0x1_0000_0000
                * 0x1_0000_0000) by (nonlinear_arith)
                requires
                    -0x1_0000_0000 <= dx <= 0x1_0000_0000,
                    -0x1_0000_0000 <= dy <= 0x1_0000_0000,
            ;
            let d: u128 = (dx as i128 * dx as i128) as u128 + (dy as i128 * dy as i128) as u128;
            let reach: u128 = range as u128 * 32 + 16000;
            assert(reach * reach <= 0x40_0000_0000 * 0x40_0000_0000) by (nonlinear_arith)
                requires
                    0 <= reach <= 0x40_0000_0000,
            ;
            if d <= reach * reach {
                Some(Candidate { id, distance_sq: d, travelled: e.distance_travelled })
            } else {
                None
            }
        },
    }
}

/// Collects the enemies in range of a tower of the given range on `pos`.
pub fn scan_candidates(
    map: &GridMap,
    enemies: &Vec<Option<Enemy>>,
    pos: Cell,
    range: u32,
) -> (found: Vec<Candidate>)
    ensures
        found@ == candidates(map.enemy_index(), enemies@, pos, range),
{
    let r: i64 = ((range as u64 + 999) / 1000) as i64;
    let left: i64 = if pos.0 as i64 - r < -128 {
        -128
    } else {
        pos.0 as i64 - r
    };
    let right: i64 = if pos.0 as i64 + r > 127 {
        127
    } else {
        pos.0 as i64 + r
    };
    let low: i64 = if pos.1 as i64 - r < -128 {
        -128
    } else {
        pos.1 as i64 - r
    };
    let high: i64 = if pos.1 as i64 + r > 127 {
        127
    } else {
        pos.1 as i64 + r
    };
    let ghost index = map.enemy_index();
    let ghost height = high - low + 1;
    let mut found: Vec<Candidate> = Vec::new();
    let mut cx: i64 = left;
    while cx <= right
        invariant
            -128 <= left <= cx <= right + 1 <= 128,
            -128 <= low <= high <= 127,
            height == high - low + 1,
            index == map.enemy_index(),
            found@ == square_candidates(
                left as int,
                cx - left,
                low as int,
                height,
                index,
                enemies@,
                pos,
                range,
            ),
        decreases right + 1 - cx,
    {
        let ghost done = found@;
        let mut cy: i64 = low;
        while cy <= high
            invariant
                -128 <= cx <= 127,
                -128 <= low <= cy <= high + 1 <= 128,
                index == map.enemy_index(),
                found@ == done + column_candidates(
                    cx as int,
                    low as int,
                    cy - low,
                    index,
                    enemies@,
                    pos,
                    range,
                ),
            decreases high + 1 - cy,
        {
            let ghost above = found@;
            let cell: Cell = (cx as i8, cy as i8);
            match map.enemies_at(cell) {
                None => {},
                Some(bucket) => {
                    let mut k: usize = 0;
                    while k < bucket.len()
                        invariant
                            k <= bucket.len(),
                            found@ == above + bucket_candidates(
                                bucket@,
                                k as int,
                                enemies@,
                                pos,
                                range,
                            ),
                        decreases bucket.len() - k,
                    {
                        match rate_enemy(enemies, bucket[k], pos, range) {
                            Some(c) => {
                                found.push(c);
                            },
                            None => {},
                        }
                        k = k + 1;
                    }
                },
            }
            cy = cy + 1;
        }
        cx = cx + 1;
    }
    found
}

/// Whether `pick` is the choice of a tower that targets the enemy furthest
/// along the path: the first among the candidates that have come furthest;
/// none if there is no candidate.
pub open spec fn is_first_pick(found: Seq<Candidate>, pick: Option<usize>) -> bool {
    match pick {
        Some(i) => {
            &&& i < found.len()
            &&& forall|j: int| 0 <= j < found.len() ==> found[j].travelled <= found[i as int].travelled
            &&& forall|j: int| 0 <= j < i ==> found[j].travelled < found[i as int].travelled
        },
        None => found.len() == 0,
    }
}

/// Whether `pick` is the choice of a tower that targets the nearest enemy:
/// the first among the nearest candidates; none if there is no candidate.
pub open spec fn is_closest_pick(found: Seq<Candidate>, pick: Option<usize>) -> bool {
    match pick {
        Some(i) => {
            &&& i < found.len()
            &&& forall|j: int|
                0 <= j < found.len() ==> found[i as int].distance_sq <= found[j].distance_sq
            &&& forall|j: int| 0 <= j < i ==> found[i as int].distance_sq < found[j].distance_sq
        },
        None => found.len() == 0,
    }
}

/// Picks the candidate that has come furthest along the path.
pub fn pick_first(found: &Vec<Candidate>) -> (pick: Option<usize>)
    ensures
        is_first_pick(found@, pick),
{
    let mut pick: Option<usize> = None;
    let mut i: usize = 0;
    while i < found.len()
        invariant
            i <= found.len(),
            is_first_pick(found@.take(i as int), pick),
        decreases found.len() - i,
    {
        let further = match pick {
            Some(p) => found[i].travelled > found[p].travelled,
            None => true,
        };
        if further {
            pick = Some(i);
        }
        i = i + 1;
    }
    assert(found@.take(found.len() as int) == found@);
    pick
}

/// Picks the candidate nearest to the tower.
pub fn pick_closest(found: &Vec<Candidate>) -> (pick: Option<usize>)
    ensures
        is_closest_pick(found@, pick),
{
    let mut pick: Option<usize> = None;
    let mut i: usize = 0;
    while i < found.len()
        invariant
            i <= found.len(),
            is_closest_pick(found@.take(i as int), pick),
        decreases found.len() - i,
    {
        let nearer = match pick {
            Some(p) => found[i].distance_sq < found[p].distance_sq,
            None => true,
        };
        if nearer {
            pick = Some(i);
        }
        i = i + 1;
    }
    assert(found@.take(found.len() as int) == found@);
    pick
}

/// Every candidate of a bucket is what [`candidate_of`] makes of its
/// handle.
pub proof fn lemma_bucket_candidates_sound(
    bucket: Seq<usize>,
    k: int,
    enemies: Seq<Option<Enemy>>,
    pos: Cell,
    range: u32,
)
    ensures
        forall|i: int|
            0 <= i < bucket_candidates(bucket, k, enemies, pos, range).len() ==> candidate_of(
                enemies,
                (#[trigger] bucket_candidates(bucket, k, enemies, pos, range)[i]).id,
                pos,
                range,
            ) == Some(bucket_candidates(bucket, k, enemies, pos, range)[i]),
    decreases k,
{
    if k > 0 {
        lemma_bucket_candidates_sound(bucket, k - 1, enemies, pos, range);
    }
}

/// Every candidate of a column is what [`candidate_of`] makes of its
/// handle.
pub proof fn lemma_column_candidates_sound(
    cx: int,
    low: int,
    k: int,
    index: Map<Cell, Seq<usize>>,
    enemies: Seq<Option<Enemy>>,
    pos: Cell,
    range: u32,
)
    ensures
        forall|i: int|
            0 <= i < column_candidates(cx, low, k, index, enemies, pos, range).len()
                ==> candidate_of(
                enemies,
                (#[trigger] column_candidates(cx, low, k, index, enemies, pos, range)[i]).id,
                pos,
                range,
            ) == Some(column_candidates(cx, low, k, index, enemies, pos, range)[i]),
    decreases k,
{
    if k > 0 {
        lemma_column_candidates_sound(cx, low, k - 1, index, enemies, pos, range);
        let bucket = index[(cx as i8, (low + k - 1) as i8)];
        lemma_bucket_candidates_sound(bucket, bucket.len() as int, enemies, pos, range);
    }
}

/// Every candidate of a square is what [`candidate_of`] makes of its
/// handle.
pub proof fn lemma_square_candidates_sound(
    left: int,
    k: int,
    low: int,
    height: int,
    index: Map<Cell, Seq<usize>>,
    enemies: Seq<Option<Enemy>>,
    pos: Cell,
    range: u32,
)
    ensures
        forall|i: int|
            0 <= i < square_candidates(left, k, low, height, index, enemies, pos, range).len()
                ==> candidate_of(
                enemies,
                (#[trigger] square_candidates(
                    left,
                    k,
                    low,
                    height,
                    index,
                    enemies,
                    pos,
                    range,
                )[i]).id,
                pos,
                range,
            ) == Some(square_candidates(left, k, low, height, index, enemies, pos, range)[i]),
    decreases k,
{
    if k > 0 {
        lemma_square_candidates_sound(left, k - 1, low, height, index, enemies, pos, range);
        lemma_column_candidates_sound(left + k - 1, low, height, index, enemies, pos, range);
    }
}

/// Every candidate of a tower is a living enemy within its reach, and
/// carries that enemy's distance and progress.
pub proof fn lemma_candidates_sound(
    index: Map<Cell, Seq<usize>>,
    enemies: Seq<Option<Enemy>>,
    pos: Cell,
    range: u32,
)
    ensures
        forall|i: int|
            0 <= i < candidates(index, enemies, pos, range).len() ==> candidate_of(
                enemies,
                (#[trigger] candidates(index, enemies, pos, range)[i]).id,
                pos,
                range,
            ) == Some(candidates(index, enemies, pos, range)[i]),
{
    let r = cells_reach(range);
    lemma_square_candidates_sound(
        scan_low(pos.0 as int, r),
        scan_high(pos.0 as int, r) - scan_low(pos.0 as int, r) + 1,
        scan_low(pos.1 as int, r),
        scan_high(pos.1 as int, r) - scan_low(pos.1 as int, r) + 1,
        index,
        enemies,
        pos,
        range,
    );
}

/// A handle of a bucket that makes a candidate has its candidate among
/// those of the bucket.
pub proof fn lemma_bucket_candidates_complete(
    bucket: Seq<usize>,
    n: int,
    enemies: Seq<Option<Enemy>>,
    pos: Cell,
    range: u32,
    k: int,
)
    requires
        0 <= k < n <= bucket.len(),
        candidate_of(enemies, bucket[k], pos, range) is Some,
    ensures
        bucket_candidates(bucket, n, enemies, pos, range).contains(
            candidate_of(enemies, bucket[k], pos, range).unwrap(),
        ),
    decreases n,
{
    let wanted = candidate_of(enemies, bucket[k], pos, range).unwrap();
    let all = bucket_candidates(bucket, n, enemies, pos, range);
    let before = bucket_candidates(bucket, n - 1, enemies, pos, range);
    if k == n - 1 {
        assert(all == before.push(wanted));
        assert(all[all.len() - 1] == wanted);
    } else {
        lemma_bucket_candidates_complete(bucket, n - 1, enemies, pos, range, k);
        let i = choose|i: int| 0 <= i < before.len() && before[i] == wanted;
        assert(all[i] == wanted);
    }
}

/// A candidate from a bucket of one of the first `n` cells of a column is
/// among the candidates of those cells.
pub proof fn lemma_column_candidates_complete(
    cx: int,
    low: int,
    n: int,
    index: Map<Cell, Seq<usize>>,
    enemies: Seq<Option<Enemy>>,
    pos: Cell,
    range: u32,
    j: int,
    k: int,
)
    requires
        0 <= j < n,
        0 <= k < index[(cx as i8, (low + j) as i8)].len(),
        candidate_of(enemies, index[(cx as i8, (low + j) as i8)][k], pos, range) is Some,
    ensures
        column_candidates(cx, low, n, index, enemies, pos, range).contains(
            candidate_of(enemies, index[(cx as i8, (low + j) as i8)][k], pos, range).unwrap(),
        ),
    decreases n,
{
    let bucket = index[(cx as i8, (low + j) as i8)];
    let wanted = candidate_of(enemies, bucket[k], pos, range).unwrap();
    let before = column_candidates(cx, low, n - 1, index, enemies, pos, range);
    let last = index[(cx as i8, (low + n - 1) as i8)];
    let tail = bucket_candidates(last, last.len() as int, enemies, pos, range);
    let all = column_candidates(cx, low, n, index, enemies, pos, range);
    assert(all == before + tail);
    if j == n - 1 {
        lemma_bucket_candidates_complete(bucket, bucket.len() as int, enemies, pos, range, k);
        let i = choose|i: int| 0 <= i < tail.len() && tail[i] == wanted;
        assert(all[before.len() + i] == wanted);
    } else {
        lemma_column_candidates_complete(cx, low, n - 1, index, enemies, pos, range, j, k);
        let i = choose|i: int| 0 <= i < before.len() && before[i] == wanted;
        assert(all[i] == wanted);
    }
}

/// A candidate from a bucket of a cell of the first `n` columns of a
/// square is among the candidates of those columns.
pub proof fn lemma_square_candidates_complete(
    left: int,
    n: int,
    low: int,
    height: int,
    index: Map<Cell, Seq<usize>>,
    enemies: Seq<Option<Enemy>>,
    pos: Cell,
    range: u32,
    i: int,
    j: int,
    k: int,
)
    requires
        0 <= i < n,
        0 <= j < height,
        0 <= k < index[((left + i) as i8, (low + j) as i8)].len(),
        candidate_of(enemies, index[((left + i) as i8, (low + j) as i8)][k], pos, range) is Some,
    ensures
        square_candidates(left, n, low, height, index, enemies, pos, range).contains(
            candidate_of(
                enemies,
                index[((left + i) as i8, (low + j) as i8)][k],
                pos,
                range,
            ).unwrap(),
        ),
    decreases n,
{
    let bucket = index[((left + i) as i8, (low + j) as i8)];
    let wanted = candidate_of(enemies, bucket[k], pos, range).unwrap();
    let before = square_candidates(left, n - 1, low, height, index, enemies, pos, range);
    let tail = column_candidates(left + n - 1, low, height, index, enemies, pos, range);
    let all = square_candidates(left, n, low, height, index, enemies, pos, range);
    assert(all == before + tail);
    if i == n - 1 {
        lemma_column_candidates_complete(left + i, low, height, index, enemies, pos, range, j, k);
        let w = choose|w: int| 0 <= w < tail.len() && tail[w] == wanted;
        assert(all[before.len() + w] == wanted);
    } else {
        lemma_square_candidates_complete(
            left,
            n - 1,
            low,
            height,
            index,
            enemies,
            pos,
            range,
            i,
            j,
            k,
        );
        let w = choose|w: int| 0 <= w < before.len() && before[w] == wanted;
        assert(all[w] == wanted);
    }
}

/// Whether cell `c` lies in the square that a tower of the given range on
/// `pos` looks at.
pub open spec fn in_square(c: Cell, pos: Cell, range: u32) -> bool {
    &&& scan_low(pos.0 as int, cells_reach(range)) <= c.0 <= scan_high(
        pos.0 as int,
        cells_reach(range),
    )
    &&& scan_low(pos.1 as int, cells_reach(range)) <= c.1 <= scan_high(
        pos.1 as int,
        cells_reach(range),
    )
}

/// No enemy in range is missed: with a consistent index, every living
/// enemy within reach that is filed under a cell of the square around the
/// tower is a candidate.
pub proof fn lemma_candidates_complete(
    index: Map<Cell, Seq<usize>>,
    enemies: Seq<Option<Enemy>>,
    pos: Cell,
    range: u32,
    id: usize,
)
    requires
        consistent(enemies, index),
        id < enemies.len(),
        enemies[id as int] is Some,
        in_square(enemies[id as int].unwrap().current_grid_pos, pos, range),
        candidate_of(enemies, id, pos, range) is Some,
    ensures
        candidates(index, enemies, pos, range).contains(
            candidate_of(enemies, id, pos, range).unwrap(),
        ),
{
    let c = enemies[id as int].unwrap().current_grid_pos;
    let r = cells_reach(range);
    let left = scan_low(pos.0 as int, r);
    let low = scan_low(pos.1 as int, r);
    assert(index[c].contains(id));
    let k = choose|k: int| 0 <= k < index[c].len() && index[c][k] == id;
    assert(((left + (c.0 - left)) as i8, (low + (c.1 - low)) as i8) == c);
    lemma_square_candidates_complete(
        left,
        scan_high(pos.0 as int, r) - left + 1,
        low,
        scan_high(pos.1 as int, r) - low + 1,
        index,
        enemies,
        pos,
        range,
        c.0 - left,
        c.1 - low,
        k,
    );
}

/// The handle of the candidate that `pick` names.
pub open spec fn id_at(found: Seq<Candidate>, pick: Option<usize>) -> Option<usize> {
    match pick {
        Some(i) => Some(found[i as int].id),
        None => None,
    }
}

/// Whether `target` is a choice that a tower of the given mode may make
/// among `found`. For the first two modes exactly one choice is; a tower
/// that targets at random may pick any candidate, and picks none only
/// when there is none.
pub open spec fn aims_at(mode: TargetMode, found: Seq<Candidate>, target: Option<usize>) -> bool {
    match mode {
        TargetMode::First => exists|pick: Option<usize>|
            is_first_pick(found, pick) && target == id_at(found, pick),
        TargetMode::Closest => exists|pick: Option<usize>|
            is_closest_pick(found, pick) && target == id_at(found, pick),
        TargetMode::Random => match target {
            Some(id) => exists|i: int| 0 <= i < found.len() && (#[trigger] found[i]).id == id,
            None => found.len() == 0,
        },
    }
}

/// Picks the target of a tower among `found`. `lot` is the candidate that
/// chance has drawn; only a tower that targets at random looks at it.
pub fn select_target(mode: TargetMode, found: &Vec<Candidate>, lot: Option<Candidate>) -> (target:
    Option<usize>)
    ensures
        mode == TargetMode::First ==> exists|pick: Option<usize>|
            is_first_pick(found@, pick) && target == id_at(found@, pick),
        mode == TargetMode::Closest ==> exists|pick: Option<usize>|
            is_closest_pick(found@, pick) && target == id_at(found@, pick),
        mode == TargetMode::Random ==> target == match lot {
            Some(c) => Some(c.id),
            None => None,
        },
{
    match mode {
        TargetMode::First => {
            let pick = pick_first(found);
            match pick {
                Some(i) => Some(found[i].id),
                None => None,
            }
        },
        TargetMode::Closest => {
            let pick = pick_closest(found);
            match pick {
                Some(i) => Some(found[i].id),
                None => None,
            }
        },
        TargetMode::Random => match lot {
            Some(c) => Some(c.id),
            None => None,
        },
    }
}

/// Picks the target of a tower among `found`, drawing a lot where the mode
/// asks for one.
pub fn aim(mode: TargetMode, found: &Vec<Candidate>) -> (target: Option<usize>)
    ensures
        aims_at(mode, found@, target),
{
    let lot = match mode {
        TargetMode::Random => choose_candidate(found),
        _ => None,
    };
    select_target(mode, found, lot)
}

/// Distance from the centre of a tower at which its projectiles appear, in
/// thousandths of a unit.
pub const MUZZLE_OFFSET: u64 = 500;

/// The projectile that a tower on `pos` fires at `enemy`: it carries the
/// tower's damage and appears a little off the tower's centre, on the
/// line to the enemy.
pub open spec fn projectile_for(
    tower: Tower,
    pos: Cell,
    speed: u32,
    target: usize,
    enemy: Enemy,
) -> Projectile {
    let start = stepped_towards(
        world_coord(pos.0 as int) as i32,
        world_coord(pos.1 as int) as i32,
        enemy.x,
        enemy.y,
        MUZZLE_OFFSET,
    );
    Projectile { damage: tower.damage, speed, target, x: start.0, y: start.1 }
}

/// Whether `shot` is what a gun may do in a step of `dt` milliseconds. A
/// gun whose timer does not fire, or whose tower is overheating, does
/// nothing. Otherwise it fires at the target that its mode picks among the
/// enemies in range, and does nothing if the mode picks none.
pub open spec fn gun_shot_ok(
    tower: Tower,
    pos: Cell,
    range: u32,
    timer: Timer,
    speed: u32,
    enemies: Seq<Option<Enemy>>,
    index: Map<Cell, Seq<usize>>,
    dt: u32,
    shot: Option<Projectile>,
) -> bool {
    if fires(timer, dt) && !tower.overheating {
        match shot {
            Some(p) => {
                &&& aims_at(
                    tower.target_mode,
                    candidates(index, enemies, pos, range),
                    Some(p.target),
                )
                &&& p.target < enemies.len()
                &&& enemies[p.target as int] is Some
                &&& p == projectile_for(
                    tower,
                    pos,
                    speed,
                    p.target,
                    enemies[p.target as int].unwrap(),
                )
            },
            None => aims_at(tower.target_mode, candidates(index, enemies, pos, range), None),
        }
    } else {
        shot is None
    }
}

/// Runs a gun for `dt` milliseconds: its timer runs as [`cooled`] says,
/// and when it fires the gun shoots as [`gun_shot_ok`] says.
pub fn shoot_gun(
    tower: &Tower,
    pos: Cell,
    range: u32,
    timer: &mut Timer,
    speed: u32,
    enemies: &Vec<Option<Enemy>>,
    map: &GridMap,
    dt: u32,
) -> (shot: Option<Projectile>)
    ensures
        *final(timer) == cooled(*old(timer), dt, tower.rate),
        gun_shot_ok(
            *tower,
            pos,
            range,
            *old(timer),
            speed,
            enemies@,
            map.enemy_index(),
            dt,
            shot,
        ),
{
    if !cool_down(timer, dt, tower.rate) {
        return None;
    }
    if tower.overheating {
        return None;
    }
    let found = scan_candidates(map, enemies, pos, range);
    let target = aim(tower.target_mode, &found);
    match target {
        None => None,
        Some(id) => {
            proof {
                lemma_candidates_sound(map.enemy_index(), enemies@, pos, range);
                let i = choose|i: int| 0 <= i < found@.len() && (#[trigger] found@[i]).id == id;
            }
            let enemy = enemies[id].unwrap();
            let start = step_towards(
                grid_to_world(pos.0 as i16),
                grid_to_world(pos.1 as i16),
                enemy.x,
                enemy.y,
                MUZZLE_OFFSET,
            );
            Some(Projectile { damage: tower.damage, speed, target: id, x: start.0, y: start.1 })
        },
    }
}

} // verus!
