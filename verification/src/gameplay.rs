//! The wave scheduler and the session state it drives.

use vstd::prelude::*;
use crate::enemies::{consistent, lemma_spawn_consistent, Enemy, EnemyVariant};
use crate::grid::GridMap;
use crate::state::Scores;
use crate::timer::Timer;
use crate::tower::{Tower, TowerType};
use crate::tower::debuffs::Debuff;
use crate::ui::UiState;
use crate::units::{cooldown_ms, period_ms};

verus! {

/// A run of enemies of one kind inside a wave.
#[derive(Debug, Clone, Copy, PartialEq, Eq, Structural)]
pub struct WaveSegment {
    /// The kind of enemy this segment spawns.
    pub enemy_type: EnemyVariant,
    /// How many enemies the segment spawns.
    pub count: usize,
    /// Enemies per second, in thousandths.
    pub spawn_rate: u32,
}

/// The segment with the given fields.
pub open spec fn segment(enemy_type: EnemyVariant, count: usize, spawn_rate: u32) -> WaveSegment {
    WaveSegment { enemy_type, count, spawn_rate }
}

impl WaveSegment {
    /// Builds a segment.
    pub fn new(enemy_type: EnemyVariant, count: usize, spawn_rate: u32) -> (s: WaveSegment)
        ensures
            s == segment(enemy_type, count, spawn_rate),
    {
        WaveSegment { enemy_type, count, spawn_rate }
    }
}

/// An ordered batch of segments, spawned one after the other.
#[derive(Debug)]
pub struct Wave {
    pub segments: Vec<WaveSegment>,
}

impl View for Wave {
    type V = Seq<WaveSegment>;

    open spec fn view(&self) -> Seq<WaveSegment> {
        self.segments@
    }
}

/// Where the scheduler stands within the current wave.
#[derive(Debug, Clone, Copy, PartialEq, Eq, Structural)]
pub enum WaveState {
    /// Waiting for the next wave to start.
    Waiting,
    /// Spawning; holds the number of enemies spawned so far.
    Spawning(u16),
    /// Every enemy of the wave has been spawned; some may still live.
    Finished,
}

/// What the scheduler asks of its caller after one step.
#[derive(Debug, Clone, Copy, PartialEq, Eq, Structural)]
pub enum WaveAction {
    /// Nothing to do.
    Idle,
    /// Create one enemy of this kind at the start of the path.
    Spawn(EnemyVariant),
    /// The wave is over and the board is empty: offer new towers.
    Cleared,
}

/// Number of enemies in the first `k` segments.
pub open spec fn spawned_before(segments: Seq<WaveSegment>, k: int) -> int
    decreases k,
{
    if k <= 0 {
        0
    } else {
        spawned_before(segments, k - 1) + segments[k - 1].count
    }
}

/// Number of enemies in the whole wave.
pub open spec fn wave_size(segments: Seq<WaveSegment>) -> int {
    spawned_before(segments, segments.len() as int)
}

/// Whether the `n`-th enemy of the wave (counted from zero) belongs to
/// segment `i`.
pub open spec fn spawns_from(segments: Seq<WaveSegment>, i: int, n: int) -> bool {
    &&& 0 <= i < segments.len()
    &&& spawned_before(segments, i) <= n < spawned_before(segments, i + 1)
}

/// The segment that the `n`-th enemy of the wave belongs to, if the wave
/// has that many enemies.
pub open spec fn segment_of(segments: Seq<WaveSegment>, n: int) -> Option<int> {
    if exists|i: int| spawns_from(segments, i, n) {
        Some(choose|i: int| spawns_from(segments, i, n))
    } else {
        None
    }
}

/// The wave that is played as wave number `current_wave` when `len` waves
/// are configured: the configured one while there is one, afterwards the
/// last four in rotation.
pub open spec fn wave_index(current_wave: usize, len: int) -> int {
    if current_wave < len {
        current_wave as int
    } else {
        (current_wave % 4) + len - 4
    }
}

/// `value + step`, held at the largest `u32`.
pub open spec fn raised(value: u32, step: u32) -> u32 {
    if value + step > u32::MAX {
        u32::MAX
    } else {
        (value + step) as u32
    }
}

/// The number after `n`, held at the largest `usize`.
pub open spec fn succ(n: usize) -> usize {
    if n == usize::MAX {
        n
    } else {
        (n + 1) as usize
    }
}

/// The built-in wave list.
pub open spec fn default_waves() -> Seq<Seq<WaveSegment>> {
    seq![
        seq![],
        seq![segment(EnemyVariant::Weak, 5, 500)],
        seq![segment(EnemyVariant::Weak, 5, 1000), segment(EnemyVariant::Normal, 3, 500)],
        seq![segment(EnemyVariant::Normal, 10, 750)],
        seq![segment(EnemyVariant::Normal, 8, 1000), segment(EnemyVariant::Fast, 3, 500)],
        seq![segment(EnemyVariant::Normal, 10, 1000), segment(EnemyVariant::Fast, 5, 500), segment(EnemyVariant::Normal, 5, 1500)],
        seq![segment(EnemyVariant::Fast, 15, 800)],
        seq![segment(EnemyVariant::Normal, 15, 1200), segment(EnemyVariant::Strong, 1, 700)],
        seq![segment(EnemyVariant::Normal, 5, 700), segment(EnemyVariant::Strong, 5, 200)],
        seq![segment(EnemyVariant::Strong, 8, 400)],
        seq![segment(EnemyVariant::Strong, 1, 1000), segment(EnemyVariant::Fast, 5, 1500), segment(EnemyVariant::Strong, 1, 1000), segment(EnemyVariant::Fast, 5, 1500)],
        seq![segment(EnemyVariant::Boss, 1, 700)],
        seq![segment(EnemyVariant::Normal, 5, 700), segment(EnemyVariant::Strong, 5, 200)],
        seq![segment(EnemyVariant::Normal, 10, 1500), segment(EnemyVariant::Boss, 3, 200)],
        seq![segment(EnemyVariant::Fast, 20, 2500), segment(EnemyVariant::StrongFast, 1, 500)],
        seq![segment(EnemyVariant::StrongFast, 7, 1500), segment(EnemyVariant::Boss, 3, 200)],
        seq![segment(EnemyVariant::StrongFast, 12, 1500), segment(EnemyVariant::Boss, 5, 200)],
        seq![segment(EnemyVariant::Boss, 10, 400)],
        seq![segment(EnemyVariant::StrongFast, 15, 2500)],
        seq![segment(EnemyVariant::Normal, 10, 1000)],
        seq![segment(EnemyVariant::UltraBoss, 1, 1500)],
        seq![segment(EnemyVariant::Boss, 5, 500), segment(EnemyVariant::StrongFast, 10, 1200)],
        seq![segment(EnemyVariant::Strong, 20, 2500)],
        seq![segment(EnemyVariant::Boss, 5, 500), segment(EnemyVariant::UltraBoss, 2, 200)],
        seq![segment(EnemyVariant::UltraBoss, 5, 300)]
    ]
}

/// Prefix sums of a wave grow with the prefix.
pub proof fn lemma_spawned_before_monotonic(segments: Seq<WaveSegment>, i: int, j: int)
    requires
        0 <= i <= j,
    ensures
        0 <= spawned_before(segments, i) <= spawned_before(segments, j),
    decreases j,
{
    if j > 0 {
        if i < j {
            lemma_spawned_before_monotonic(segments, i, j - 1);
        } else {
            lemma_spawned_before_monotonic(segments, i - 1, j - 1);
        }
    }
}

/// At most one segment holds the `n`-th enemy, so [`segment_of`] is that
/// segment.
pub proof fn lemma_segment_unique(segments: Seq<WaveSegment>, i: int, n: int)
    requires
        spawns_from(segments, i, n),
    ensures
        segment_of(segments, n) == Some(i),
{
    let j = choose|j: int| spawns_from(segments, j, n);
    if j < i {
        lemma_spawned_before_monotonic(segments, j + 1, i);
    } else if i < j {
        lemma_spawned_before_monotonic(segments, i + 1, j);
    }
}

/// A wave with fewer than `n + 1` enemies has no segment for the `n`-th.
pub proof fn lemma_segment_none(segments: Seq<WaveSegment>, n: int)
    requires
        wave_size(segments) <= n,
    ensures
        segment_of(segments, n) is None,
{
    if exists|i: int| spawns_from(segments, i, n) {
        let i = choose|i: int| spawns_from(segments, i, n);
        lemma_spawned_before_monotonic(segments, i + 1, segments.len() as int);
    }
}

impl Wave {
    /// Finds the segment that the `n`-th enemy of the wave belongs to.
    pub fn segment_at(&self, n: usize) -> (r: Option<usize>)
        requires
            wave_size(self@) <= usize::MAX,
        ensures
            r is Some <==> n < wave_size(self@),
            match r {
                Some(i) => segment_of(self@, n as int) == Some(i as int),
                None => segment_of(self@, n as int) is None,
            },
    {
        let mut count: usize = 0;
        let mut i: usize = 0;
        while i < self.segments.len()
            invariant
                i <= self.segments.len(),
                count == spawned_before(self@, i as int),
                count <= n,
                wave_size(self@) <= usize::MAX,
            decreases self.segments.len() - i,
        {
            let c: usize = self.segments[i].count;
            if n - count < c {
                proof {
                    lemma_segment_unique(self@, i as int, n as int);
                    lemma_spawned_before_monotonic(self@, i + 1, self@.len() as int);
                }
                return Some(i);
            }
            count = count + c;
            i = i + 1;
        }
        proof {
            lemma_segment_none(self@, n as int);
        }
        None
    }

    /// Counts the enemies of the wave.
    pub fn size(&self) -> (n: usize)
        requires
            wave_size(self@) <= usize::MAX,
        ensures
            n == wave_size(self@),
    {
        let mut count: usize = 0;
        let mut i: usize = 0;
        while i < self.segments.len()
            invariant
                i <= self.segments.len(),
                count == spawned_before(self@, i as int),
                wave_size(self@) <= usize::MAX,
            decreases self.segments.len() - i,
        {
            proof {
                lemma_spawned_before_monotonic(self@, i + 1, self@.len() as int);
            }
            count = count + self.segments[i].count;
            i = i + 1;
        }
        count
    }
}

fn wave_of(segments: Vec<WaveSegment>) -> (w: Wave)
    ensures
        w@ == segments@,
{
    Wave { segments }
}

/// Lives, score, wave progress and difficulty of one play-through.
#[derive(Debug)]
pub struct GameManager {
    /// Number of the wave being played or waited for.
    pub current_wave: usize,
    /// The configured waves.
    pub waves: Vec<Wave>,
    pub wave_state: WaveState,
    /// Counts down to the next spawn.
    pub spawn_timer: Timer,
    pub lives: u16,
    pub score: u32,
    /// Factor on enemy health, in thousandths.
    pub health_multiplier: u32,
    /// Factor on enemy speed, in thousandths.
    pub speed_multiplier: u32,
}

impl GameManager {
    /// The configured waves as plain sequences.
    pub open spec fn waves_view(&self) -> Seq<Seq<WaveSegment>> {
        self.waves@.map_values(|w: Wave| w@)
    }

    /// What the scheduler relies on: there are at least four waves to
    /// rotate through, and no wave has more enemies than the spawn counter
    /// can count.
    pub open spec fn wf(&self) -> bool {
        &&& self.waves@.len() >= 4
        &&& forall|i: int| 0 <= i < self.waves@.len() ==> wave_size(#[trigger] self.waves@[i]@) <= u16::MAX
    }

    /// The segments of the wave being played.
    pub open spec fn current_segments(&self) -> Seq<WaveSegment> {
        self.waves@[wave_index(self.current_wave, self.waves@.len() as int)]@
    }

    /// Whether play has gone beyond the configured waves.
    pub open spec fn endless(&self) -> bool {
        self.current_wave >= self.waves@.len()
    }
}

impl GameManager {
    /// A fresh session: the built-in waves, fifteen lives, no score,
    /// multipliers of one, waiting for wave zero.
    pub fn new() -> (gm: GameManager)
        ensures
            gm.waves_view() == default_waves(),
            gm.current_wave == 0,
            gm.wave_state == WaveState::Waiting,
            gm.spawn_timer == Timer::new_spec(100),
            gm.lives == 15,
            gm.score == 0,
            gm.health_multiplier == 1000,
            gm.speed_multiplier == 1000,
            gm.wf(),
    {
        let mut waves: Vec<Wave> = Vec::new();
        waves.push(wave_of(vec![]));
        waves.push(wave_of(vec![WaveSegment::new(EnemyVariant::Weak, 5, 500)]));
        waves.push(wave_of(vec![WaveSegment::new(EnemyVariant::Weak, 5, 1000), WaveSegment::new(EnemyVariant::Normal, 3, 500)]));
        waves.push(wave_of(vec![WaveSegment::new(EnemyVariant::Normal, 10, 750)]));
        waves.push(wave_of(vec![WaveSegment::new(EnemyVariant::Normal, 8, 1000), WaveSegment::new(EnemyVariant::Fast, 3, 500)]));
        waves.push(wave_of(vec![WaveSegment::new(EnemyVariant::Normal, 10, 1000), WaveSegment::new(EnemyVariant::Fast, 5, 500), WaveSegment::new(EnemyVariant::Normal, 5, 1500)]));
        waves.push(wave_of(vec![WaveSegment::new(EnemyVariant::Fast, 15, 800)]));
        waves.push(wave_of(vec![WaveSegment::new(EnemyVariant::Normal, 15, 1200), WaveSegment::new(EnemyVariant::Strong, 1, 700)]));
        waves.push(wave_of(vec![WaveSegment::new(EnemyVariant::Normal, 5, 700), WaveSegment::new(EnemyVariant::Strong, 5, 200)]));
        waves.push(wave_of(vec![WaveSegment::new(EnemyVariant::Strong, 8, 400)]));
        waves.push(wave_of(vec![WaveSegment::new(EnemyVariant::Strong, 1, 1000), WaveSegment::new(EnemyVariant::Fast, 5, 1500), WaveSegment::new(EnemyVariant::Strong, 1, 1000), WaveSegment::new(EnemyVariant::Fast, 5, 1500)]));
        waves.push(wave_of(vec![WaveSegment::new(EnemyVariant::Boss, 1, 700)]));
        waves.push(wave_of(vec![WaveSegment::new(EnemyVariant::Normal, 5, 700), WaveSegment::new(EnemyVariant::Strong, 5, 200)]));
        waves.push(wave_of(vec![WaveSegment::new(EnemyVariant::Normal, 10, 1500), WaveSegment::new(EnemyVariant::Boss, 3, 200)]));
        waves.push(wave_of(vec![WaveSegment::new(EnemyVariant::Fast, 20, 2500), WaveSegment::new(EnemyVariant::StrongFast, 1, 500)]));
        waves.push(wave_of(vec![WaveSegment::new(EnemyVariant::StrongFast, 7, 1500), WaveSegment::new(EnemyVariant::Boss, 3, 200)]));
        waves.push(wave_of(vec![WaveSegment::new(EnemyVariant::StrongFast, 12, 1500), WaveSegment::new(EnemyVariant::Boss, 5, 200)]));
        waves.push(wave_of(vec![WaveSegment::new(EnemyVariant::Boss, 10, 400)]));
        waves.push(wave_of(vec![WaveSegment::new(EnemyVariant::StrongFast, 15, 2500)]));
        waves.push(wave_of(vec![WaveSegment::new(EnemyVariant::Normal, 10, 1000)]));
        waves.push(wave_of(vec![WaveSegment::new(EnemyVariant::UltraBoss, 1, 1500)]));
        waves.push(wave_of(vec![WaveSegment::new(EnemyVariant::Boss, 5, 500), WaveSegment::new(EnemyVariant::StrongFast, 10, 1200)]));
        waves.push(wave_of(vec![WaveSegment::new(EnemyVariant::Strong, 20, 2500)]));
        waves.push(wave_of(vec![WaveSegment::new(EnemyVariant::Boss, 5, 500), WaveSegment::new(EnemyVariant::UltraBoss, 2, 200)]));
        waves.push(wave_of(vec![WaveSegment::new(EnemyVariant::UltraBoss, 5, 300)]));
        let gm = GameManager {
            current_wave: 0,
            waves,
            wave_state: WaveState::Waiting,
            spawn_timer: Timer::new(100),
            lives: 15,
            score: 0,
            health_multiplier: 1000,
            speed_multiplier: 1000,
        };
        proof {
            assert(gm.waves_view() =~~= default_waves());
            lemma_default_waves_fit();
        }
        gm
    }

    /// Whether a wave starts now: one is waited for, and either the player
    /// asked for it or it is wave zero, which starts by itself.
    pub open spec fn starts(self, requested: bool) -> bool {
        (requested || self.current_wave == 0) && self.wave_state == WaveState::Waiting
    }

    /// The session after the attempt to start a wave. A start puts the
    /// scheduler into spawning with nothing spawned yet; beyond the
    /// configured waves it also raises both multipliers by a tenth.
    pub open spec fn after_start(self, requested: bool) -> GameManager {
        if self.starts(requested) {
            GameManager {
                wave_state: WaveState::Spawning(0),
                health_multiplier: if self.endless() {
                    raised(self.health_multiplier, 100)
                } else {
                    self.health_multiplier
                },
                speed_multiplier: if self.endless() {
                    raised(self.speed_multiplier, 100)
                } else {
                    self.speed_multiplier
                },
                ..self
            }
        } else {
            self
        }
    }

    /// Starts the next wave if one is waited for and either the player
    /// asked for it or it is wave zero, which starts by itself. Beyond the
    /// configured waves each start raises both multipliers by a tenth.
    /// Returns whether a wave started.
    pub fn start_next_wave(&mut self, requested: bool) -> (started: bool)
        ensures
            started == old(self).starts(requested),
            *final(self) == old(self).after_start(requested),
            old(self).wf() ==> final(self).wf(),
    {
        if (requested || self.current_wave == 0) && self.wave_state == WaveState::Waiting {
            self.wave_state = WaveState::Spawning(0);
            if self.current_wave >= self.waves.len() {
                self.health_multiplier = self.health_multiplier.saturating_add(100);
                self.speed_multiplier = self.speed_multiplier.saturating_add(100);
            }
            true
        } else {
            false
        }
    }
}

/// Every built-in wave is small enough for the spawn counter.
pub proof fn lemma_default_waves_fit()
    ensures
        forall|i: int| 0 <= i < default_waves().len() ==> wave_size(#[trigger] default_waves()[i]) <= 40,
{
    reveal_with_fuel(spawned_before, 5);
}

impl GameManager {
    /// The scheduler after one step of `dt` milliseconds with `live`
    /// enemies on the board.
    ///
    /// While spawning, the spawn timer runs; when it fires, the next enemy
    /// of the wave is due, the timer restarts with the period of that
    /// enemy's segment, and the wave is finished as soon as its last enemy
    /// is due. A finished wave ends once no enemy lives; the wave number
    /// then goes up and the scheduler waits.
    pub open spec fn stepped(self, dt: u64, live: usize) -> GameManager {
        match self.wave_state {
            WaveState::Waiting => self,
            WaveState::Spawning(num) => {
                let ticked = self.spawn_timer.ticked(dt);
                if !ticked.finished {
                    GameManager { spawn_timer: ticked, ..self }
                } else {
                    match segment_of(self.current_segments(), num as int) {
                        Some(i) => GameManager {
                            spawn_timer: Timer::new_spec(
                                period_ms(self.current_segments()[i].spawn_rate),
                            ),
                            wave_state: if num + 1 >= wave_size(self.current_segments()) {
                                WaveState::Finished
                            } else {
                                WaveState::Spawning((num + 1) as u16)
                            },
                            ..self
                        },
                        None => GameManager {
                            spawn_timer: ticked,
                            wave_state: WaveState::Finished,
                            ..self
                        },
                    }
                }
            },
            WaveState::Finished => if live == 0 {
                GameManager {
                    current_wave: succ(self.current_wave),
                    wave_state: WaveState::Waiting,
                    ..self
                }
            } else {
                self
            },
        }
    }

    /// What the caller has to do after the step that [`GameManager::stepped`]
    /// describes.
    pub open spec fn step_action(self, dt: u64, live: usize) -> WaveAction {
        match self.wave_state {
            WaveState::Waiting => WaveAction::Idle,
            WaveState::Spawning(num) => {
                if !self.spawn_timer.ticked(dt).finished {
                    WaveAction::Idle
                } else {
                    match segment_of(self.current_segments(), num as int) {
                        Some(i) => WaveAction::Spawn(self.current_segments()[i].enemy_type),
                        None => WaveAction::Idle,
                    }
                }
            },
            WaveState::Finished => if live == 0 {
                WaveAction::Cleared
            } else {
                WaveAction::Idle
            },
        }
    }

    /// Index into the configured waves of the wave being played.
    pub fn wave_index(&self) -> (i: usize)
        requires
            self.current_wave < self.waves@.len() || self.waves@.len() >= 4,
        ensures
            i == wave_index(self.current_wave, self.waves@.len() as int),
            i < self.waves@.len(),
    {
        if self.current_wave < self.waves.len() {
            self.current_wave
        } else {
            (self.current_wave % 4) + (self.waves.len() - 4)
        }
    }

    /// Runs the scheduler for `dt` milliseconds.
    pub fn step_wave(&mut self, dt: u64, live: usize) -> (action: WaveAction)
        requires
            old(self).wf(),
        ensures
            *final(self) == old(self).stepped(dt, live),
            action == old(self).step_action(dt, live),
            final(self).wf(),
    {
        match self.wave_state {
            WaveState::Waiting => WaveAction::Idle,
            WaveState::Spawning(num) => {
                self.spawn_timer.tick(dt);
                if !self.spawn_timer.finished() {
                    return WaveAction::Idle;
                }
                let index = self.wave_index();
                let wave = &self.waves[index];
                match wave.segment_at(num as usize) {
                    Some(i) => {
                        let segment = wave.segments[i];
                        let total = wave.size();
                        self.spawn_timer.set_duration(cooldown_ms(segment.spawn_rate));
                        self.spawn_timer.reset();
                        if num as usize + 1 >= total {
                            self.wave_state = WaveState::Finished;
                        } else {
                            self.wave_state = WaveState::Spawning(num + 1);
                        }
                        WaveAction::Spawn(segment.enemy_type)
                    },
                    None => {
                        self.wave_state = WaveState::Finished;
                        WaveAction::Idle
                    },
                }
            },
            WaveState::Finished => {
                if live == 0 {
                    if self.current_wave < usize::MAX {
                        self.current_wave = self.current_wave + 1;
                    }
                    self.wave_state = WaveState::Waiting;
                    WaveAction::Cleared
                } else {
                    WaveAction::Idle
                }
            },
        }
    }
}

/// The scores after the game-over check on a session with `lives` lives.
pub open spec fn scores_after(manager: GameManager, scores: Scores) -> Scores {
    if manager.lives == 0 {
        Scores {
            last_score: manager.score,
            last_wave: if manager.current_wave > u32::MAX {
                u32::MAX
            } else {
                manager.current_wave as u32
            },
            high_score: if manager.score > scores.high_score {
                manager.score
            } else {
                scores.high_score
            },
        }
    } else {
        scores
    }
}

/// The game-over check settles the scores: with lives left it changes
/// nothing, and a second check on the same session changes nothing that
/// the first has set.
pub proof fn lemma_game_over_settles(manager: GameManager, scores: Scores)
    ensures
        manager.lives > 0 ==> scores_after(manager, scores) == scores,
        scores_after(manager, scores_after(manager, scores)) == scores_after(manager, scores),
        scores_after(manager, scores).high_score >= scores.high_score,
{
}

/// Ends the game when no life is left: records the final score and wave,
/// raises the high score if it was beaten, and returns `true`. With lives
/// left it changes nothing and returns `false`.
pub fn game_over_check(manager: &GameManager, scores: &mut Scores) -> (over: bool)
    ensures
        over == (manager.lives == 0),
        *final(scores) == scores_after(*manager, *old(scores)),
{
    if manager.lives == 0 {
        scores.last_score = manager.score;
        scores.last_wave = if manager.current_wave > u32::MAX as usize {
            u32::MAX
        } else {
            manager.current_wave as u32
        };
        if manager.score > scores.high_score {
            scores.high_score = manager.score;
        }
        true
    } else {
        false
    }
}

/// Number of living enemies among the first `k`.
pub open spec fn live_count(enemies: Seq<Option<Enemy>>, k: int) -> int
    decreases k,
{
    if k <= 0 {
        0
    } else {
        live_count(enemies, k - 1) + if enemies[k - 1] is Some {
            1int
        } else {
            0int
        }
    }
}

/// Counts the living enemies.
pub fn count_live(enemies: &Vec<Option<Enemy>>) -> (n: usize)
    ensures
        n == live_count(enemies@, enemies@.len() as int),
{
    let mut n: usize = 0;
    let mut i: usize = 0;
    while i < enemies.len()
        invariant
            i <= enemies.len(),
            n == live_count(enemies@, i as int),
            n <= i,
        decreases enemies.len() - i,
    {
        if enemies[i].is_some() {
            n = n + 1;
        }
        i = i + 1;
    }
    n
}

/// Number of towers offered after a wave.
pub const OFFER_SIZE: usize = 3;

/// The towers offered after the very first wave: a turret, a laser and a
/// sniper, always the same.
pub open spec fn starter_offer() -> Seq<Tower> {
    seq![
        Tower::fresh(500, 1800, TowerType::ChargeShot, Debuff::LaserIncompatible),
        Tower::fresh(170, 4000, TowerType::Laser, Debuff::ReduceColumnDamage(10)),
        Tower::fresh(3000, 300, TowerType::Sniper, Debuff::ReduceNeighbourRate(15)),
    ]
}

/// Whether `options` may be offered when wave number `wave` is next: three
/// towers, the starter offer before wave one, random towers later.
pub open spec fn offer_ok(wave: usize, options: Seq<Tower>) -> bool {
    &&& options.len() == OFFER_SIZE
    &&& if wave == 1 {
        options == starter_offer()
    } else {
        forall|i: int| 0 <= i < options.len() ==> (#[trigger] options[i]).is_random_stock()
    }
}

/// Makes the offer for the time before wave number `wave`.
pub fn make_offer(wave: usize) -> (options: Vec<Tower>)
    ensures
        offer_ok(wave, options@),
{
    let mut options: Vec<Tower> = Vec::new();
    if wave == 1 {
        options.push(Tower::new(500, 1800, TowerType::ChargeShot, Debuff::LaserIncompatible));
        options.push(Tower::new(170, 4000, TowerType::Laser, Debuff::ReduceColumnDamage(10)));
        options.push(Tower::new(3000, 300, TowerType::Sniper, Debuff::ReduceNeighbourRate(15)));
        assert(options@ =~= starter_offer());
    } else {
        let mut i: usize = 0;
        while i < OFFER_SIZE
            invariant
                i <= OFFER_SIZE,
                options@.len() == i,
                forall|j: int| 0 <= j < options@.len() ==> (#[trigger] options@[j]).is_random_stock(),
            decreases OFFER_SIZE - i,
        {
            options.push(Tower::new_random());
            i = i + 1;
        }
    }
    options
}

/// Runs the wave scheduler for `dt` milliseconds and carries out what it
/// asks for. The scheduler steps as [`GameManager::stepped`] says, with
/// the number of living enemies as it is on entry. An enemy that is due
/// appears in the start cell of the map, as the last enemy and the last of
/// its bucket. When the wave is over, the player is offered towers.
pub fn gameloop(
    game_manager: &mut GameManager,
    enemies: &mut Vec<Option<Enemy>>,
    map: &mut GridMap,
    ui_state: &mut UiState,
    dt: u32,
) -> (action: WaveAction)
    requires
        old(game_manager).wf(),
    ensures
        action == old(game_manager).step_action(
            dt as u64,
            live_count(old(enemies)@, old(enemies)@.len() as int) as usize,
        ),
        *final(game_manager) == old(game_manager).stepped(
            dt as u64,
            live_count(old(enemies)@, old(enemies)@.len() as int) as usize,
        ),
        final(game_manager).wf(),
        final(map).same_ground(old(map)),
        final(map).placements == old(map).placements,
        match action {
            WaveAction::Spawn(variant) => {
                &&& final(enemies)@ == old(enemies)@.push(
                    Some(
                        Enemy::fresh(
                            variant,
                            old(map).start_pos,
                            old(game_manager).health_multiplier,
                            old(game_manager).speed_multiplier,
                        ),
                    ),
                )
                &&& final(map).enemy_index() == old(map).enemy_index().insert(
                    old(map).start_pos,
                    old(map).bucket(old(map).start_pos).push(old(enemies)@.len() as usize),
                )
                &&& *final(ui_state) == *old(ui_state)
            },
            WaveAction::Cleared => {
                &&& final(enemies)@ == old(enemies)@
                &&& final(map).enemy_index() == old(map).enemy_index()
                &&& *final(ui_state) is PickingTower
                &&& offer_ok(final(game_manager).current_wave, crate::ui::offered(*final(ui_state)))
            },
            WaveAction::Idle => {
                &&& final(enemies)@ == old(enemies)@
                &&& final(map).enemy_index() == old(map).enemy_index()
                &&& *final(ui_state) == *old(ui_state)
            },
        },
        consistent(old(enemies)@, old(map).enemy_index()) ==> consistent(
            final(enemies)@,
            final(map).enemy_index(),
        ),
{
    let live = count_live(enemies);
    let action = game_manager.step_wave(dt as u64, live);
    match action {
        WaveAction::Spawn(variant) => {
            let born = Enemy::new(
                variant,
                map.start_pos,
                game_manager.health_multiplier,
                game_manager.speed_multiplier,
            );
            let id = enemies.len();
            enemies.push(Some(born));
            proof {
                assert(enemies.len() == id + 1);
                if consistent(old(enemies)@, old(map).enemy_index()) {
                    lemma_spawn_consistent(old(enemies)@, old(map).enemy_index(), born);
                }
            }
            map.insert_enemy(born.current_grid_pos, id);
        },
        WaveAction::Cleared => {
            *ui_state = UiState::PickingTower(make_offer(game_manager.current_wave));
        },
        WaveAction::Idle => {},
    }
    action
}

} // verus!
