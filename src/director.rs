//! The spawn director: the per-wave state machine that creates enemies on a
//! cadence, waits for the wave to clear, pauses, and moves on through waves
//! and levels until the last level is done.
use crate::config::Config;
use crate::entity::EnemyKind;
use vstd::prelude::*;

verus! {

#[derive(Clone, Copy, Debug, PartialEq, Eq, Structural)]
pub enum Phase {
    Spawning,
    Fighting,
    Waiting,
    LevelCompleted,
}

/// The side of the playfield from which a wave arrives.
#[derive(Clone, Copy, Debug, PartialEq, Eq, Structural)]
pub enum Direction {
    Top,
    Left,
    Right,
}

#[derive(Clone, Copy, Debug, PartialEq, Eq, Structural)]
pub struct Director {
    pub phase: Phase,
    pub level: u32,
    pub wave: u32,
    /// Enemies created so far in this wave.
    pub spawned: u32,
    /// Enemies the player shot down in this wave.
    pub killed: u32,
    pub spawn_left_ms: u32,
    pub pause_left_ms: u32,
    /// The last wave to clear was cleared by the player's own kills alone.
    pub perfect: bool,
    pub victory: bool,
}

/// The director's request to create one enemy.
#[derive(Clone, Copy, Debug, PartialEq, Eq, Structural)]
pub struct SpawnOrder {
    pub kind: EnemyKind,
    pub direction: Direction,
    /// Position of the enemy in its wave, from zero.
    pub index: u32,
}

/// The arrival side of a wave: left, right, top, and round again, counting
/// waves from the first wave of the first level.
pub open spec fn direction_spec(cfg: Config, level: u32, wave: u32) -> Direction {
    let k = ((level - 1) * cfg.waves_per_level + (wave - 1)) % 3;
    if k == 0 {
        Direction::Left
    } else if k == 1 {
        Direction::Right
    } else {
        Direction::Top
    }
}

/// The kind of the enemy at `index` in a wave.
pub open spec fn kind_at(cfg: Config, index: int) -> EnemyKind {
    if cfg.boss_rule && index == cfg.enemies_per_wave - 1 {
        EnemyKind::Boss
    } else {
        EnemyKind::Soldier
    }
}

/// Orders waves: later waves, and waves of later levels, rank higher.
pub open spec fn rank(d: Director) -> int {
    d.level * 0x100_0000 + d.wave
}

impl Director {
    pub open spec fn wf(self, cfg: Config) -> bool {
        &&& 1 <= self.level <= cfg.levels
        &&& 1 <= self.wave <= cfg.waves_per_level
        &&& self.spawned <= cfg.enemies_per_wave
        &&& self.phase == Phase::Spawning ==> self.spawned < cfg.enemies_per_wave
        &&& self.phase == Phase::Fighting ==> self.spawned == cfg.enemies_per_wave
        &&& self.phase == Phase::Waiting ==> self.wave < cfg.waves_per_level
    }

    /// The director at the start of a game.
    pub open spec fn initial(cfg: Config) -> Director {
        Director {
            phase: Phase::Spawning,
            level: 1,
            wave: 1,
            spawned: 0,
            killed: 0,
            spawn_left_ms: cfg.spawn_interval_ms,
            pause_left_ms: 0,
            perfect: false,
            victory: false,
        }
    }

    /// One tick of `dt` milliseconds with `live` enemies on the field. A halted
    /// director (the game is over) and a victorious one do nothing.
    pub open spec fn advance_spec(self, cfg: Config, dt: u32, live: nat, halted: bool) -> (
        Director,
        Option<SpawnOrder>,
    ) {
        if halted || self.victory {
            (self, None)
        } else {
            match self.phase {
                Phase::Spawning => {
                    if dt >= self.spawn_left_ms {
                        let index = self.spawned;
                        let spawned = (self.spawned + 1) as u32;
                        let order = SpawnOrder {
                            kind: kind_at(cfg, index as int),
                            direction: direction_spec(cfg, self.level, self.wave),
                            index,
                        };
                        let phase = if spawned >= cfg.enemies_per_wave {
                            Phase::Fighting
                        } else {
                            Phase::Spawning
                        };
                        (
                            Director { phase, spawned, spawn_left_ms: cfg.spawn_interval_ms, ..self },
                            Some(order),
                        )
                    } else {
                        (Director { spawn_left_ms: (self.spawn_left_ms - dt) as u32, ..self }, None)
                    }
                },
                Phase::Fighting => {
                    if live == 0 {
                        let phase = if self.wave >= cfg.waves_per_level {
                            Phase::LevelCompleted
                        } else {
                            Phase::Waiting
                        };
                        (
                            Director {
                                phase,
                                pause_left_ms: cfg.wave_pause_ms,
                                perfect: self.killed >= cfg.enemies_per_wave,
                                ..self
                            },
                            None,
                        )
                    } else {
                        (self, None)
                    }
                },
                _ => {
                    if dt >= self.pause_left_ms {
                        if self.phase == Phase::LevelCompleted && self.level >= cfg.levels {
                            (Director { victory: true, ..self }, None)
                        } else {
                            let (level, wave) = if self.phase == Phase::LevelCompleted {
                                ((self.level + 1) as u32, 1u32)
                            } else {
                                (self.level, (self.wave + 1) as u32)
                            };
                            (
                                Director {
                                    phase: Phase::Spawning,
                                    level,
                                    wave,
                                    spawned: 0,
                                    killed: 0,
                                    spawn_left_ms: cfg.spawn_interval_ms,
                                    ..self
                                },
                                None,
                            )
                        }
                    } else {
                        (Director { pause_left_ms: (self.pause_left_ms - dt) as u32, ..self }, None)
                    }
                },
            }
        }
    }

    /// The effect of a level-skip pickup: the level counts as completed.
    pub open spec fn skip_spec(self, cfg: Config) -> Director {
        if self.victory {
            self
        } else {
            Director { phase: Phase::LevelCompleted, pause_left_ms: cfg.wave_pause_ms, ..self }
        }
    }

    /// `kills` more enemies shot down by the player, counted up to `u32::MAX`.
    pub open spec fn record_kills_spec(self, kills: nat) -> Director {
        let k = self.killed + kills;
        Director { killed: if k > u32::MAX { u32::MAX } else { k as u32 }, ..self }
    }

    pub fn new(cfg: &Config) -> (d: Director)
        requires
            cfg.wf(),
        ensures
            d == Director::initial(*cfg),
            d.wf(*cfg),
    {
        Director {
            phase: Phase::Spawning,
            level: 1,
            wave: 1,
            spawned: 0,
            killed: 0,
            spawn_left_ms: cfg.spawn_interval_ms,
            pause_left_ms: 0,
            perfect: false,
            victory: false,
        }
    }

    pub fn direction(cfg: &Config, level: u32, wave: u32) -> (r: Direction)
        requires
            cfg.wf(),
            1 <= level <= cfg.levels,
            1 <= wave <= cfg.waves_per_level,
        ensures
            r == direction_spec(*cfg, level, wave),
    {
        assert((level - 1) * cfg.waves_per_level <= 0x100_0000 * 0x100_0000) by (nonlinear_arith)
            requires
                0 <= level - 1 <= 0x100_0000,
                0 <= cfg.waves_per_level <= 0x100_0000,
        ;
        let k: u64 = ((level as u64 - 1) * cfg.waves_per_level as u64 + (wave as u64 - 1)) % 3;
        if k == 0 {
            Direction::Left
        } else if k == 1 {
            Direction::Right
        } else {
            Direction::Top
        }
    }

    pub fn advance(&self, cfg: &Config, dt: u32, live: usize, halted: bool) -> (r: (
        Director,
        Option<SpawnOrder>,
    ))
        requires
            cfg.wf(),
            self.wf(*cfg),
        ensures
            r == self.advance_spec(*cfg, dt, live as nat, halted),
            r.0.wf(*cfg),
    {
        if halted || self.victory {
            return (*self, None);
        }
        match self.phase {
            Phase::Spawning => {
                if dt >= self.spawn_left_ms {
                    let index = self.spawned;
                    let spawned = self.spawned + 1;
                    let kind = if cfg.boss_rule && index == cfg.enemies_per_wave - 1 {
                        EnemyKind::Boss
                    } else {
                        EnemyKind::Soldier
                    };
                    let order = SpawnOrder {
                        kind,
                        direction: Director::direction(cfg, self.level, self.wave),
                        index,
                    };
                    let phase = if spawned >= cfg.enemies_per_wave {
                        Phase::Fighting
                    } else {
                        Phase::Spawning
                    };
                    (
                        Director { phase, spawned, spawn_left_ms: cfg.spawn_interval_ms, ..*self },
                        Some(order),
                    )
                } else {
                    (Director { spawn_left_ms: self.spawn_left_ms - dt, ..*self }, None)
                }
            },
            Phase::Fighting => {
                if live == 0 {
                    let phase = if self.wave >= cfg.waves_per_level {
                        Phase::LevelCompleted
                    } else {
                        Phase::Waiting
                    };
                    (
                        Director {
                            phase,
                            pause_left_ms: cfg.wave_pause_ms,
                            perfect: self.killed >= cfg.enemies_per_wave,
                            ..*self
                        },
                        None,
                    )
                } else {
                    (*self, None)
                }
            },
            _ => {
                if dt >= self.pause_left_ms {
                    if self.phase == Phase::LevelCompleted && self.level >= cfg.levels {
                        (Director { victory: true, ..*self }, None)
                    } else {
                        let (level, wave) = if self.phase == Phase::LevelCompleted {
                            (self.level + 1, 1u32)
                        } else {
                            (self.level, self.wave + 1)
                        };
                        (
                            Director {
                                phase: Phase::Spawning,
                                level,
                                wave,
                                spawned: 0,
                                killed: 0,
                                spawn_left_ms: cfg.spawn_interval_ms,
                                ..*self
                            },
                            None,
                        )
                    }
                } else {
                    (Director { pause_left_ms: self.pause_left_ms - dt, ..*self }, None)
                }
            },
        }
    }

    pub fn skip(&self, cfg: &Config) -> (d: Director)
        requires
            cfg.wf(),
            self.wf(*cfg),
        ensures
            d == self.skip_spec(*cfg),
            d.wf(*cfg),
    {
        if self.victory {
            *self
        } else {
            Director { phase: Phase::LevelCompleted, pause_left_ms: cfg.wave_pause_ms, ..*self }
        }
    }

    pub fn record_kills(&self, kills: u64) -> (d: Director)
        ensures
            d == self.record_kills_spec(kills as nat),
    {
        let killed: u32 = if kills >= (u32::MAX - self.killed) as u64 {
            u32::MAX
        } else {
            self.killed + kills as u32
        };
        Director { killed, ..*self }
    }
}

/// Runs the director through a sequence of ticks, each a duration, a count of
/// live enemies and a halt flag; returns the final director with the numbers
/// of enemies and of bosses it created on the way.
pub open spec fn run(cfg: Config, d: Director, ticks: Seq<(u32, nat, bool)>) -> (Director, nat, nat)
    decreases ticks.len(),
{
    if ticks.len() == 0 {
        (d, 0, 0)
    } else {
        let (d1, created, bosses) = run(cfg, d, ticks.drop_last());
        let t = ticks.last();
        let (d2, order) = d1.advance_spec(cfg, t.0, t.1, t.2);
        match order {
            Some(o) => (d2, created + 1, bosses + if o.kind == EnemyKind::Boss {
                1nat
            } else {
                0nat
            }),
            None => (d2, created, bosses),
        }
    }
}

/// A tick keeps the director well formed and never moves it back to an
/// earlier wave.
pub proof fn lemma_advance_wf(d: Director, cfg: Config, dt: u32, live: nat, halted: bool)
    requires
        cfg.wf(),
        d.wf(cfg),
    ensures
        d.advance_spec(cfg, dt, live, halted).0.wf(cfg),
        rank(d.advance_spec(cfg, dt, live, halted).0) >= rank(d),
{
}

/// Wave completion: the director leaves `Fighting` only when no enemy is
/// left, and on the first tick that finds none; it enters `Fighting` only from
/// `Spawning`, once the whole quota has been created; and it returns to
/// `Spawning` only by opening a later wave. So each wave is fought, and left,
/// exactly once.
pub proof fn lemma_wave_completion(d: Director, cfg: Config, dt: u32, live: nat, halted: bool)
    requires
        cfg.wf(),
        d.wf(cfg),
    ensures
        ({
            let d2 = d.advance_spec(cfg, dt, live, halted).0;
            &&& d.phase == Phase::Fighting && d2.phase != Phase::Fighting ==> live == 0
            &&& d.phase == Phase::Fighting && live == 0 && !halted && !d.victory ==> d2.phase
                != Phase::Fighting
            &&& d.phase == Phase::Fighting && d2.phase != Phase::Fighting ==> d2.perfect == (d.killed
                >= cfg.enemies_per_wave)
            &&& d2.phase == Phase::Fighting && d.phase != Phase::Fighting ==> d.phase
                == Phase::Spawning && d2.spawned == cfg.enemies_per_wave
            &&& d2.phase == Phase::Spawning && d.phase != Phase::Spawning ==> rank(d2) > rank(d)
        }),
{
}

/// Runs never move the director back to an earlier wave.
pub proof fn lemma_run_wf(cfg: Config, d: Director, ticks: Seq<(u32, nat, bool)>)
    requires
        cfg.wf(),
        d.wf(cfg),
    ensures
        run(cfg, d, ticks).0.wf(cfg),
        rank(run(cfg, d, ticks).0) >= rank(d),
    decreases ticks.len(),
{
    if ticks.len() > 0 {
        lemma_run_wf(cfg, d, ticks.drop_last());
        let d1 = run(cfg, d, ticks.drop_last()).0;
        let t = ticks.last();
        lemma_advance_wf(d1, cfg, t.0, t.1, t.2);
    }
}

/// Spawn quota: from the start of a wave, for as long as the wave lasts, the
/// enemies created are exactly those the wave has counted; the count never
/// passes the quota, reaches it before the wave stops spawning, and exactly
/// one boss, the last enemy, is among them once the quota is reached under
/// the boss rule.
pub proof fn lemma_spawn_quota(cfg: Config, d: Director, ticks: Seq<(u32, nat, bool)>)
    requires
        cfg.wf(),
        d.wf(cfg),
        d.phase == Phase::Spawning,
        d.spawned == 0,
    ensures
        ({
            let (d2, created, bosses) = run(cfg, d, ticks);
            rank(d2) == rank(d) ==> {
                &&& created == d2.spawned
                &&& created <= cfg.enemies_per_wave
                &&& d2.phase != Phase::Spawning ==> created == cfg.enemies_per_wave
                &&& bosses == if cfg.boss_rule && created == cfg.enemies_per_wave {
                    1nat
                } else {
                    0nat
                }
            }
        }),
    decreases ticks.len(),
{
    if ticks.len() > 0 {
        let prefix = ticks.drop_last();
        lemma_spawn_quota(cfg, d, prefix);
        lemma_run_wf(cfg, d, prefix);
        let d1 = run(cfg, d, prefix).0;
        let t = ticks.last();
        lemma_advance_wf(d1, cfg, t.0, t.1, t.2);
    }
}

/// Number of ticks of a run on which the director leaves `Fighting`.
pub open spec fn fighting_exits(cfg: Config, d: Director, ticks: Seq<(u32, nat, bool)>) -> nat
    decreases ticks.len(),
{
    if ticks.len() == 0 {
        0
    } else {
        let d1 = run(cfg, d, ticks.drop_last()).0;
        let t = ticks.last();
        let d2 = d1.advance_spec(cfg, t.0, t.1, t.2).0;
        fighting_exits(cfg, d, ticks.drop_last()) + if d1.phase == Phase::Fighting && d2.phase
            != Phase::Fighting {
            1nat
        } else {
            0nat
        }
    }
}

/// Within one wave the director leaves `Fighting` at most once; after it has,
/// it pauses until a later wave begins.
pub proof fn lemma_fought_once(cfg: Config, d: Director, ticks: Seq<(u32, nat, bool)>)
    requires
        cfg.wf(),
        d.wf(cfg),
    ensures
        rank(run(cfg, d, ticks).0) == rank(d) ==> {
            &&& fighting_exits(cfg, d, ticks) <= 1
            &&& fighting_exits(cfg, d, ticks) == 1 ==> run(cfg, d, ticks).0.phase != Phase::Spawning
                && run(cfg, d, ticks).0.phase != Phase::Fighting
        },
    decreases ticks.len(),
{
    if ticks.len() > 0 {
        let prefix = ticks.drop_last();
        lemma_fought_once(cfg, d, prefix);
        lemma_run_wf(cfg, d, prefix);
        let d1 = run(cfg, d, prefix).0;
        let t = ticks.last();
        lemma_advance_wf(d1, cfg, t.0, t.1, t.2);
    }
}

} // verus!
