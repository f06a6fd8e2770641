//! The simulation: the entity store and the game state, advanced one tick at
//! a time in the order fire, movement, spawn director, collision resolver.
use crate::collision::{
    health_of,
    lemma_health_accounting,
    lemma_resolve_keeps_ship,
    lemma_score_additive,
    resolve,
    resolve_spec,
    Scene,
};
use crate::config::Config;
use crate::director::{Direction, Director, Phase, SpawnOrder};
use crate::entity::{
    all_of,
    all_sound,
    lemma_concat_of,
    lemma_concat_sound,
    lemma_push_of,
    lemma_push_sound,
    Class,
    Body,
    EnemyKind,
    Ship,
    Tag,
    WeaponMode,
};
use crate::geometry::Point;
use crate::movement::{advance_all, advance_bodies, lemma_advance_bodies, move_ship, ship_moved};
use crate::weapon::{
    enemy_fire,
    fire_enemies,
    fire_interval,
    fire_player,
    lemma_enemy_fire,
    player_fire_spec,
    ship_ready,
    steer,
    steer_spec,
};
use vstd::prelude::*;

verus! {

/// The player's intents for one tick. `fire` is a press, not a held key.
#[derive(Clone, Copy, Debug, PartialEq, Eq, Structural)]
pub struct Input {
    pub move_left: bool,
    pub move_right: bool,
    pub fire: bool,
    pub pause_toggle: bool,
    pub restart: bool,
    pub quit: bool,
}

/// Random numbers for one tick: one that places an enemy arriving from the
/// top, and one for each kill, in the order the kills happen.
pub struct Rolls {
    pub spawn: u32,
    pub kills: Vec<u32>,
}

/// What happened in one tick, for sound and on-screen cues.
#[derive(Clone, Copy, Debug, PartialEq, Eq, Structural)]
pub struct Report {
    pub spawned: Option<EnemyKind>,
    pub rams: u64,
    pub hits: u64,
    pub soldier_kills: u64,
    pub boss_kills: u64,
    pub extra_lives: u64,
    pub skipped: bool,
    pub wave_cleared: bool,
    pub victory: bool,
    pub game_over: bool,
    pub quit: bool,
}

/// The mathematical state of a simulation.
pub struct World {
    pub ship: Option<Ship>,
    pub enemies: Seq<Body>,
    pub projectiles: Seq<Body>,
    pub pickups: Seq<Body>,
    pub effects: Seq<Body>,
    pub director: Director,
    pub score: u64,
    pub game_over: bool,
    pub paused: bool,
}

pub struct Simulation {
    pub config: Config,
    pub ship: Option<Ship>,
    pub enemies: Vec<Body>,
    pub projectiles: Vec<Body>,
    pub pickups: Vec<Body>,
    pub effects: Vec<Body>,
    pub director: Director,
    pub score: u64,
    pub game_over: bool,
    pub paused: bool,
}

impl View for Simulation {
    type V = World;

    open spec fn view(&self) -> World {
        World {
            ship: self.ship,
            enemies: self.enemies@,
            projectiles: self.projectiles@,
            pickups: self.pickups@,
            effects: self.effects@,
            director: self.director,
            score: self.score,
            game_over: self.game_over,
            paused: self.paused,
        }
    }
}

/// A ship the game can hold: on the playfield, on its row, alive.
pub open spec fn ship_ok(cfg: Config, ship: Option<Ship>) -> bool {
    ship matches Some(s) ==> ship_ready(cfg, s) && s.health >= 1
}

/// Every store holds sound bodies of its own kind only.
pub open spec fn stores_ok(w: World) -> bool {
    &&& all_sound(w.enemies) && all_of(w.enemies, Class::Enemies)
    &&& all_sound(w.projectiles) && all_of(w.projectiles, Class::Projectiles)
    &&& all_sound(w.pickups) && all_of(w.pickups, Class::Pickups)
    &&& all_sound(w.effects) && all_of(w.effects, Class::Effects)
}

/// The invariant of a simulation between ticks: a sound ship, sound stores,
/// a well-formed director, and the game over exactly when the ship is gone.
pub open spec fn world_wf(cfg: Config, w: World) -> bool {
    &&& cfg.wf()
    &&& ship_ok(cfg, w.ship)
    &&& stores_ok(w)
    &&& w.director.wf(cfg)
    &&& w.game_over == w.ship is None
}

/// The ship at the start of a game.
pub open spec fn fresh_ship(cfg: Config) -> Ship {
    Ship {
        pos: Point { x: 0, y: cfg.ship_start_y },
        vel: Point { x: 0, y: 0 },
        health: cfg.start_health,
        weapon: WeaponMode::Single,
        burst_left: 0,
        burst_timer_ms: 0,
    }
}

/// A new game: one ship, nothing else, nothing scored, at the first wave.
pub open spec fn initial_world(cfg: Config) -> World {
    World {
        ship: Some(fresh_ship(cfg)),
        enemies: seq![],
        projectiles: seq![],
        pickups: seq![],
        effects: seq![],
        director: Director::initial(cfg),
        score: 0,
        game_over: false,
        paused: false,
    }
}

/// Where and how an ordered enemy enters: from the top at a place the roll
/// picks across the middle four fifths of the playfield, or from a side at
/// the entry height, drifting down as it crosses.
pub open spec fn spawn_body(cfg: Config, o: SpawnOrder, roll: u32) -> Body {
    let span: int = cfg.width * 4 / 5;
    let (pos, vel) = match o.direction {
        Direction::Top => (
            Point {
                x: ((roll as int) % (span + 1) - span / 2) as i64,
                y: (cfg.height / 2 + cfg.entry_gap) as i64,
            },
            Point { x: 0, y: -cfg.enemy_speed as i64 },
        ),
        Direction::Left => (
            Point { x: -(cfg.width / 2 + cfg.entry_gap) as i64, y: cfg.side_entry_y },
            Point { x: cfg.enemy_speed, y: -cfg.side_drift as i64 },
        ),
        Direction::Right => (
            Point { x: (cfg.width / 2 + cfg.entry_gap) as i64, y: cfg.side_entry_y },
            Point { x: -cfg.enemy_speed as i64, y: -cfg.side_drift as i64 },
        ),
    };
    Body { pos, vel, timer_ms: fire_interval(cfg, o.kind), tag: Tag::Enemy(o.kind) }
}

/// Steering and firing: the ship takes its velocity from the direction keys
/// and fires; the enemies fire at where the ship now is.
pub open spec fn fire_phase(cfg: Config, w: World, dt: u32, input: Input) -> World {
    let (ship, shots) = match w.ship {
        Some(s) => {
            let steered = steer_spec(cfg, s, input.move_left, input.move_right);
            let (s2, shots) = player_fire_spec(cfg, steered, input.fire, dt);
            (Some(s2), shots)
        },
        None => (None, seq![]),
    };
    let target = match ship {
        Some(s) => Some(s.pos),
        None => None,
    };
    let (enemies, enemy_shots) = enemy_fire(cfg, w.enemies, dt, target);
    World { ship, enemies, projectiles: w.projectiles + shots + enemy_shots, ..w }
}

/// Every body moves; the ship is held on the playfield.
pub open spec fn move_phase(cfg: Config, w: World, dt: u32) -> World {
    World {
        ship: match w.ship {
            Some(s) => Some(ship_moved(cfg, s, dt)),
            None => None,
        },
        enemies: advance_bodies(cfg, w.enemies, dt),
        projectiles: advance_bodies(cfg, w.projectiles, dt),
        pickups: advance_bodies(cfg, w.pickups, dt),
        effects: advance_bodies(cfg, w.effects, dt),
        ..w
    }
}

/// The director's tick, and the enemy it orders, if any.
pub open spec fn spawn_phase(cfg: Config, w: World, dt: u32, roll: u32) -> (World, Option<SpawnOrder>) {
    let (d, order) = w.director.advance_spec(cfg, dt, w.enemies.len(), w.game_over);
    let enemies = match order {
        Some(o) => w.enemies.push(spawn_body(cfg, o, roll)),
        None => w.enemies,
    };
    (World { director: d, enemies, ..w }, order)
}

/// The resolver's pass over the world, with the kills and any level skip
/// reported to the director.
pub open spec fn resolve_phase(cfg: Config, w: World, kill_rolls: Seq<u32>) -> (World, Scene) {
    let sc = resolve_spec(cfg, kill_rolls, w.ship, w.enemies, w.projectiles, w.pickups, w.effects, w.score);
    let d = w.director.record_kills_spec(sc.soldier_kills + sc.boss_kills);
    let d2 = if sc.skip {
        d.skip_spec(cfg)
    } else {
        d
    };
    (
        World {
            ship: sc.ship,
            enemies: sc.enemies,
            projectiles: sc.projectiles,
            pickups: sc.pickups,
            effects: sc.effects,
            director: d2,
            score: sc.score,
            game_over: sc.ship is None,
            paused: w.paused,
        },
        sc,
    )
}

pub open spec fn quiet(quit: bool) -> Report {
    Report {
        spawned: None,
        rams: 0,
        hits: 0,
        soldier_kills: 0,
        boss_kills: 0,
        extra_lives: 0,
        skipped: false,
        wave_cleared: false,
        victory: false,
        game_over: false,
        quit,
    }
}

/// A tick of live play.
pub open spec fn play(
    cfg: Config,
    w: World,
    dt: u32,
    input: Input,
    spawn_roll: u32,
    kill_rolls: Seq<u32>,
) -> (World, Report) {
    let w1 = move_phase(cfg, fire_phase(cfg, w, dt, input), dt);
    let (w2, order) = spawn_phase(cfg, w1, dt, spawn_roll);
    let (w3, sc) = resolve_phase(cfg, w2, kill_rolls);
    (
        w3,
        Report {
            spawned: match order {
                Some(o) => Some(o.kind),
                None => None,
            },
            rams: sc.rams as u64,
            hits: sc.hits as u64,
            soldier_kills: sc.soldier_kills as u64,
            boss_kills: sc.boss_kills as u64,
            extra_lives: sc.extra_lives as u64,
            skipped: sc.skip,
            wave_cleared: w.director.phase == Phase::Fighting && w2.director.phase
                != Phase::Fighting,
            victory: !w.director.victory && w3.director.victory,
            game_over: w3.game_over,
            quit: input.quit,
        },
    )
}

/// One tick. A restart begins a new game; a paused game stands still; after
/// game over or victory the bodies still move but nothing else happens.
pub open spec fn step_spec(
    cfg: Config,
    w: World,
    dt: u32,
    input: Input,
    spawn_roll: u32,
    kill_rolls: Seq<u32>,
) -> (World, Report) {
    if input.restart {
        (initial_world(cfg), quiet(input.quit))
    } else {
        let w1 = World { paused: w.paused != input.pause_toggle, ..w };
        if w1.paused {
            (w1, quiet(input.quit))
        } else if w1.game_over || w1.director.victory {
            let still = match w1.ship {
                Some(s) => Some(steer_spec(cfg, s, false, false)),
                None => None,
            };
            (move_phase(cfg, World { ship: still, ..w1 }, dt), quiet(input.quit))
        } else {
            play(cfg, w1, dt, input, spawn_roll, kill_rolls)
        }
    }
}

impl Simulation {
    pub open spec fn wf(&self) -> bool {
        world_wf(self.config, self@)
    }

    /// A new game under configuration `config`.
    pub fn new(config: Config) -> (s: Simulation)
        requires
            config.wf(),
        ensures
            s.config == config,
            s@ == initial_world(config),
            s.wf(),
    {
        Simulation {
            config,
            ship: Some(
                Ship {
                    pos: Point { x: 0, y: config.ship_start_y },
                    vel: Point { x: 0, y: 0 },
                    health: config.start_health,
                    weapon: WeaponMode::Single,
                    burst_left: 0,
                    burst_timer_ms: 0,
                },
            ),
            enemies: Vec::new(),
            projectiles: Vec::new(),
            pickups: Vec::new(),
            effects: Vec::new(),
            director: Director::new(&config),
            score: 0,
            game_over: false,
            paused: false,
        }
    }

    /// Starts a new game under the same configuration.
    pub fn restart(&mut self)
        requires
            old(self).config.wf(),
        ensures
            final(self).config == old(self).config,
            final(self)@ == initial_world(old(self).config),
            final(self).wf(),
            final(self).score == 0,
            final(self).ship == Some(fresh_ship(old(self).config)),
            final(self).director.level == 1,
            final(self).director.wave == 1,
            final(self).enemies@.len() == 0,
            final(self).projectiles@.len() == 0,
            final(self).pickups@.len() == 0,
            final(self).effects@.len() == 0,
            !final(self).game_over,
    {
        *self = Simulation::new(self.config);
    }

    fn fire_step(&mut self, dt: u32, input: &Input)
        requires
            old(self).wf(),
            !old(self).game_over,
        ensures
            final(self).config == old(self).config,
            final(self)@ == fire_phase(old(self).config, old(self)@, dt, *input),
            ship_ok(final(self).config, final(self).ship),
            final(self).ship is Some,
            stores_ok(final(self)@),
    {
        let cfg = self.config;
        let ghost w = self@;
        match self.ship {
            Some(s) => {
                let steered = steer(&cfg, &s, input.move_left, input.move_right);
                let (s2, mut shots) = fire_player(&cfg, &steered, input.fire, dt);
                self.ship = Some(s2);
                let (enemies, mut enemy_shots) = fire_enemies(&cfg, &self.enemies, dt, Some(s2.pos));
                proof {
                    lemma_enemy_fire(cfg, w.enemies, dt, Some(s2.pos));
                    lemma_concat_sound(self.projectiles@, shots@);
                    lemma_concat_sound(self.projectiles@ + shots@, enemy_shots@);
                    lemma_concat_of(self.projectiles@, shots@, Class::Projectiles);
                    lemma_concat_of(self.projectiles@ + shots@, enemy_shots@, Class::Projectiles);
                }
                self.enemies = enemies;
                self.projectiles.append(&mut shots);
                self.projectiles.append(&mut enemy_shots);
            },
            None => {},
        }
    }

    fn move_step(&mut self, dt: u32)
        requires
            old(self).config.wf(),
            ship_ok(old(self).config, old(self).ship),
            stores_ok(old(self)@),
        ensures
            final(self).config == old(self).config,
            final(self)@ == move_phase(old(self).config, old(self)@, dt),
            ship_ok(final(self).config, final(self).ship),
            stores_ok(final(self)@),
    {
        let cfg = self.config;
        proof {
            lemma_advance_bodies(cfg, self.enemies@, dt, Class::Enemies);
            lemma_advance_bodies(cfg, self.projectiles@, dt, Class::Projectiles);
            lemma_advance_bodies(cfg, self.pickups@, dt, Class::Pickups);
            lemma_advance_bodies(cfg, self.effects@, dt, Class::Effects);
        }
        match self.ship {
            Some(s) => {
                self.ship = Some(move_ship(&cfg, &s, dt));
            },
            None => {},
        }
        self.enemies = advance_all(&cfg, &self.enemies, dt);
        self.projectiles = advance_all(&cfg, &self.projectiles, dt);
        self.pickups = advance_all(&cfg, &self.pickups, dt);
        self.effects = advance_all(&cfg, &self.effects, dt);
    }

    fn spawn_step(&mut self, dt: u32, roll: u32) -> (order: Option<SpawnOrder>)
        requires
            old(self).config.wf(),
            old(self).director.wf(old(self).config),
            stores_ok(old(self)@),
        ensures
            final(self).config == old(self).config,
            (final(self)@, order) == spawn_phase(old(self).config, old(self)@, dt, roll),
            final(self).director.wf(final(self).config),
            stores_ok(final(self)@),
    {
        let cfg = self.config;
        let (d, order) = self.director.advance(&cfg, dt, self.enemies.len(), self.game_over);
        self.director = d;
        match order {
            Some(o) => {
                let b = make_enemy(&cfg, o, roll);
                proof {
                    lemma_push_sound(self.enemies@, b);
                    lemma_push_of(self.enemies@, b, Class::Enemies);
                }
                self.enemies.push(b);
            },
            None => {},
        }
        order
    }

    fn resolve_step(&mut self, kill_rolls: &Vec<u32>) -> (r: (Ghost<Scene>, Report))
        requires
            old(self).config.wf(),
            ship_ok(old(self).config, old(self).ship),
            old(self).director.wf(old(self).config),
            stores_ok(old(self)@),
        ensures
            final(self).config == old(self).config,
            (final(self)@, r.0@) == resolve_phase(old(self).config, old(self)@, kill_rolls@),
            r.1.rams == r.0@.rams,
            r.1.hits == r.0@.hits,
            r.1.soldier_kills == r.0@.soldier_kills,
            r.1.boss_kills == r.0@.boss_kills,
            r.1.extra_lives == r.0@.extra_lives,
            r.1.skipped == r.0@.skip,
            final(self).wf(),
    {
        let cfg = self.config;
        let mut effects: Vec<Body> = Vec::new();
        std::mem::swap(&mut effects, &mut self.effects);
        let shots_before = self.projectiles.len();
        let out = resolve(
            &cfg,
            kill_rolls,
            self.ship,
            &self.enemies,
            &self.projectiles,
            &self.pickups,
            effects,
            self.score,
        );
        proof {
            lemma_resolve_keeps_ship(
                cfg,
                kill_rolls@,
                self.ship,
                self.enemies@,
                self.projectiles@,
                self.pickups@,
                effects@,
                self.score,
            );
        }
        let d = self.director.record_kills(out.soldier_kills + out.boss_kills);
        self.director = if out.skip {
            d.skip(&cfg)
        } else {
            d
        };
        let tally = Report {
            spawned: None,
            rams: out.rams,
            hits: out.hits,
            soldier_kills: out.soldier_kills,
            boss_kills: out.boss_kills,
            extra_lives: out.extra_lives,
            skipped: out.skip,
            wave_cleared: false,
            victory: false,
            game_over: false,
            quit: false,
        };
        let ghost sc = out@;
        self.ship = out.ship;
        self.enemies = out.enemies;
        self.projectiles = out.projectiles;
        self.pickups = out.pickups;
        self.effects = out.effects;
        self.score = out.score;
        self.game_over = match self.ship {
            Some(_) => false,
            None => true,
        };
        (Ghost(sc), tally)
    }

    /// Advances the game by `dt` milliseconds under `input`, drawing on
    /// `rolls` for its random choices.
    pub fn step(&mut self, dt: u32, input: &Input, rolls: &Rolls) -> (r: Report)
        requires
            old(self).wf(),
        ensures
            final(self).config == old(self).config,
            (final(self)@, r) == step_spec(
                old(self).config,
                old(self)@,
                dt,
                *input,
                rolls.spawn,
                rolls.kills@,
            ),
            final(self).wf(),
            final(self).ship matches Some(s) ==> -final(self).config.ship_limit() <= s.pos.x
                <= final(self).config.ship_limit(),
            !input.restart ==> health_of(final(self).ship) + r.rams + r.hits == health_of(
                old(self).ship,
            ) + r.extra_lives,
            !input.restart && old(self).score + final(self).config.soldier_value * r.soldier_kills
                + final(self).config.boss_value * r.boss_kills <= u64::MAX ==> final(self).score
                == old(self).score + final(self).config.soldier_value * r.soldier_kills
                + final(self).config.boss_value * r.boss_kills,
    {
        let none = Report {
            spawned: None,
            rams: 0,
            hits: 0,
            soldier_kills: 0,
            boss_kills: 0,
            extra_lives: 0,
            skipped: false,
            wave_cleared: false,
            victory: false,
            game_over: false,
            quit: input.quit,
        };
        proof {
            let sv = self.config.soldier_value as int;
            let bv = self.config.boss_value as int;
            assert(sv * 0 == 0 && bv * 0 == 0) by (nonlinear_arith);
        }
        if input.restart {
            self.restart();
            return none;
        }
        if input.pause_toggle {
            self.paused = !self.paused;
        }
        if self.paused {
            return none;
        }
        if self.game_over || self.director.victory {
            match self.ship {
                Some(s) => {
                    self.ship = Some(steer(&self.config, &s, false, false));
                },
                None => {},
            }
            self.move_step(dt);
            return none;
        }
        let ghost w = self@;
        let was_fighting = self.director.phase == Phase::Fighting;
        self.fire_step(dt, input);
        self.move_step(dt);
        let order = self.spawn_step(dt, rolls.spawn);
        let left_fighting = was_fighting && self.director.phase != Phase::Fighting;
        let ghost before = self@;
        let (sc, tally) = self.resolve_step(&rolls.kills);
        proof {
            let (b, k) = (before, rolls.kills@);
            lemma_health_accounting(self.config, k, b.ship, b.enemies, b.projectiles, b.pickups, b.effects, b.score);
            lemma_score_additive(self.config, k, b.ship, b.enemies, b.projectiles, b.pickups, b.effects, b.score);
        }
        Report {
            spawned: match order {
                Some(o) => Some(o.kind),
                None => None,
            },
            wave_cleared: left_fighting,
            victory: self.director.victory,
            game_over: self.game_over,
            quit: input.quit,
            ..tally
        }
    }
}

fn make_enemy(cfg: &Config, o: SpawnOrder, roll: u32) -> (b: Body)
    requires
        cfg.wf(),
    ensures
        b == spawn_body(*cfg, o, roll),
        b.sound(),
{
    let span: i64 = cfg.width * 4 / 5;
    let (pos, vel) = match o.direction {
        Direction::Top => {
            let offset: u64 = (roll as u64) % (span as u64 + 1);
            (
                Point { x: offset as i64 - span / 2, y: cfg.height / 2 + cfg.entry_gap },
                Point { x: 0, y: -cfg.enemy_speed },
            )
        },
        Direction::Left => (
            Point { x: -(cfg.width / 2 + cfg.entry_gap), y: cfg.side_entry_y },
            Point { x: cfg.enemy_speed, y: -cfg.side_drift },
        ),
        Direction::Right => (
            Point { x: cfg.width / 2 + cfg.entry_gap, y: cfg.side_entry_y },
            Point { x: -cfg.enemy_speed, y: -cfg.side_drift },
        ),
    };
    let timer_ms = match o.kind {
        EnemyKind::Boss => cfg.boss_fire_ms,
        EnemyKind::Soldier => cfg.soldier_fire_ms,
    };
    Body { pos, vel, timer_ms, tag: Tag::Enemy(o.kind) }
}

} // verus!
