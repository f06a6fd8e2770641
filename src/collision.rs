//! The collision resolver. Once per tick it runs three passes in order: the
//! ship against every enemy, every projectile against its targets, and the
//! ship against every pickup. Each pass keeps, in order, the bodies nothing
//! consumed, so no body is consumed twice within a tick.
use crate::config::Config;
use crate::entity::{
    all_of,
    all_sound,
    class_of,
    enemy_kind,
    lemma_concat_of,
    lemma_concat_sound,
    lemma_push_of,
    lemma_push_sound,
    Class,
    owner_of,
    Body,
    EffectKind,
    EnemyKind,
    Owner,
    Payload,
    Ship,
    Tag,
    WeaponMode,
};
use crate::geometry::{is_near, near, Point};
use vstd::prelude::*;

verus! {

/// The state the resolver threads through its passes.
pub struct Scene {
    pub ship: Option<Ship>,
    pub enemies: Seq<Body>,
    pub projectiles: Seq<Body>,
    pub pickups: Seq<Body>,
    pub effects: Seq<Body>,
    /// Pickups dropped by kills in this tick.
    pub drops: Seq<Body>,
    pub score: u64,
    /// Enemies destroyed by touching the ship.
    pub rams: nat,
    /// Enemy projectiles that struck the ship.
    pub hits: nat,
    pub soldier_kills: nat,
    pub boss_kills: nat,
    /// Lives gained from pickups.
    pub extra_lives: nat,
    /// A level-skip pickup was collected.
    pub skip: bool,
}

/// The resolver's working state, as executable values.
pub struct Outcome {
    pub ship: Option<Ship>,
    pub enemies: Vec<Body>,
    pub projectiles: Vec<Body>,
    pub pickups: Vec<Body>,
    pub effects: Vec<Body>,
    pub drops: Vec<Body>,
    pub score: u64,
    pub rams: u64,
    pub hits: u64,
    pub soldier_kills: u64,
    pub boss_kills: u64,
    pub extra_lives: u64,
    pub skip: bool,
}

impl View for Outcome {
    type V = Scene;

    open spec fn view(&self) -> Scene {
        Scene {
            ship: self.ship,
            enemies: self.enemies@,
            projectiles: self.projectiles@,
            pickups: self.pickups@,
            effects: self.effects@,
            drops: self.drops@,
            score: self.score,
            rams: self.rams as nat,
            hits: self.hits as nat,
            soldier_kills: self.soldier_kills as nat,
            boss_kills: self.boss_kills as nat,
            extra_lives: self.extra_lives as nat,
            skip: self.skip,
        }
    }
}

pub open spec fn radius(cfg: Config, k: EnemyKind) -> int {
    match k {
        EnemyKind::Soldier => cfg.soldier_radius as int,
        EnemyKind::Boss => cfg.boss_radius as int,
    }
}

pub open spec fn value(cfg: Config, k: EnemyKind) -> int {
    match k {
        EnemyKind::Soldier => cfg.soldier_value as int,
        EnemyKind::Boss => cfg.boss_value as int,
    }
}

pub open spec fn explosion(cfg: Config, at: Point) -> Body {
    Body {
        pos: at,
        vel: Point { x: 0, y: 0 },
        timer_ms: cfg.explosion_ms,
        tag: Tag::Effect(EffectKind::Explosion),
    }
}

pub open spec fn score_text(cfg: Config, at: Point, v: u64) -> Body {
    Body {
        pos: at,
        vel: Point { x: 0, y: cfg.score_drift },
        timer_ms: cfg.score_text_ms,
        tag: Tag::Effect(EffectKind::FloatingScore(v)),
    }
}

pub open spec fn pickup_body(cfg: Config, at: Point, p: Payload) -> Body {
    Body { pos: at, vel: Point { x: 0, y: -cfg.pickup_speed as i64 }, timer_ms: 0, tag: Tag::Pickup(p) }
}

/// The upgrades a pickup can carry, in the order a roll picks them.
pub open spec fn upgrade_at(i: int) -> WeaponMode {
    if i == 0 {
        WeaponMode::DoubleParallel
    } else if i == 1 {
        WeaponMode::DoubleV
    } else if i == 2 {
        WeaponMode::Triple
    } else if i == 3 {
        WeaponMode::Quadruple
    } else if i == 4 {
        WeaponMode::Quintuple
    } else if i == 5 {
        WeaponMode::Sextuple
    } else if i == 6 {
        WeaponMode::Septuple
    } else if i == 7 {
        WeaponMode::Rapid2
    } else if i == 8 {
        WeaponMode::Rapid3
    } else if i == 9 {
        WeaponMode::Rapid4
    } else {
        WeaponMode::Rapid5
    }
}

/// What a kill drops for a random roll `r`: nothing unless `r % 100` falls
/// under the drop chance; otherwise `r / 100` picks the payload by weight, and
/// an upgrade's mode among the eleven upgrades.
pub open spec fn payload_for(cfg: Config, r: u32) -> Option<Payload> {
    if r % 100 >= cfg.drop_percent {
        None
    } else {
        let total: int = cfg.weapon_weight + cfg.life_weight + cfg.skip_weight;
        let q: int = r as int / 100;
        let w: int = q % total;
        if w < cfg.weapon_weight {
            Some(Payload::WeaponUpgrade(upgrade_at((q / total) % 11)))
        } else if w < cfg.weapon_weight + cfg.life_weight {
            Some(Payload::ExtraLife)
        } else {
            Some(Payload::SkipWave)
        }
    }
}

/// The drop of the kill numbered `k` in this tick; a kill with no roll left
/// drops nothing.
pub open spec fn drop_for(cfg: Config, rolls: Seq<u32>, k: nat) -> Option<Payload> {
    if k < rolls.len() {
        payload_for(cfg, rolls[k as int])
    } else {
        None
    }
}

/// The ship loses a life to a blow at `at`; at zero lives it is destroyed.
pub open spec fn damage(cfg: Config, sc: Scene, s: Ship, at: Point) -> Scene {
    let fx = sc.effects.push(explosion(cfg, at));
    if s.health <= 1 {
        Scene { ship: None, effects: fx.push(explosion(cfg, s.pos)), ..sc }
    } else {
        Scene { ship: Some(Ship { health: (s.health - 1) as u32, ..s }), effects: fx, ..sc }
    }
}

/// The ship against enemy `e`: contact destroys the enemy and costs a life.
pub open spec fn ram_one(cfg: Config, sc: Scene, e: Body) -> Scene {
    if sc.ship is Some && near(sc.ship->0.pos, e.pos, cfg.ship_radius + radius(cfg, enemy_kind(e))) {
        damage(cfg, Scene { rams: sc.rams + 1, ..sc }, sc.ship->0, e.pos)
    } else {
        Scene { enemies: sc.enemies.push(e), ..sc }
    }
}

pub open spec fn ram_pass(cfg: Config, start: Scene, es: Seq<Body>) -> Scene
    decreases es.len(),
{
    if es.len() == 0 {
        start
    } else {
        ram_one(cfg, ram_pass(cfg, start, es.drop_last()), es.last())
    }
}

/// A player projectile at `p` strikes enemy `e`.
pub open spec fn strikes(cfg: Config, p: Body, e: Body) -> bool {
    near(p.pos, e.pos, cfg.projectile_radius + radius(cfg, enemy_kind(e)))
}

/// Index of the first enemy of `es` from `i` on that `p` strikes; `es.len()`
/// when there is none.
pub open spec fn first_hit(cfg: Config, p: Body, es: Seq<Body>, i: int) -> int
    decreases es.len() - i,
{
    if i >= es.len() {
        es.len() as int
    } else if strikes(cfg, p, es[i]) {
        i
    } else {
        first_hit(cfg, p, es, i + 1)
    }
}

pub open spec fn add_score(score: u64, v: int) -> u64 {
    if score + v > u64::MAX {
        u64::MAX
    } else {
        (score + v) as u64
    }
}

/// The player kills enemy `j`: it is removed, its value scored, and the kill
/// may drop a pickup where the enemy died.
pub open spec fn kill(cfg: Config, rolls: Seq<u32>, sc: Scene, j: int) -> Scene {
    let e = sc.enemies[j];
    let k = enemy_kind(e);
    let v = value(cfg, k);
    let drops = match drop_for(cfg, rolls, sc.soldier_kills + sc.boss_kills) {
        Some(p) => sc.drops.push(pickup_body(cfg, e.pos, p)),
        None => sc.drops,
    };
    Scene {
        enemies: sc.enemies.remove(j),
        effects: sc.effects.push(explosion(cfg, e.pos)).push(score_text(cfg, e.pos, v as u64)),
        drops,
        score: add_score(sc.score, v),
        soldier_kills: sc.soldier_kills + if k == EnemyKind::Soldier {
            1nat
        } else {
            0nat
        },
        boss_kills: sc.boss_kills + if k == EnemyKind::Boss {
            1nat
        } else {
            0nat
        },
        ..sc
    }
}

/// Projectile `p` against its targets: a player projectile against the first
/// enemy it strikes, an enemy projectile against the ship.
pub open spec fn shot_one(cfg: Config, rolls: Seq<u32>, sc: Scene, p: Body) -> Scene {
    if owner_of(p) == Owner::FromPlayer {
        let j = first_hit(cfg, p, sc.enemies, 0);
        if j < sc.enemies.len() {
            kill(cfg, rolls, sc, j)
        } else {
            Scene { projectiles: sc.projectiles.push(p), ..sc }
        }
    } else if sc.ship is Some && near(p.pos, sc.ship->0.pos, cfg.projectile_radius + cfg.ship_radius) {
        damage(cfg, Scene { hits: sc.hits + 1, ..sc }, sc.ship->0, sc.ship->0.pos)
    } else {
        Scene { projectiles: sc.projectiles.push(p), ..sc }
    }
}

pub open spec fn shot_pass(cfg: Config, rolls: Seq<u32>, start: Scene, ps: Seq<Body>) -> Scene
    decreases ps.len(),
{
    if ps.len() == 0 {
        start
    } else {
        shot_one(cfg, rolls, shot_pass(cfg, rolls, start, ps.drop_last()), ps.last())
    }
}

pub open spec fn payload_of(b: Body) -> Payload {
    match b.tag {
        Tag::Pickup(p) => p,
        _ => Payload::SkipWave,
    }
}

/// The ship collects pickup `u`: a new weapon, one more life (unless the
/// count is at its maximum), or a skipped level.
pub open spec fn collect(sc: Scene, s: Ship, u: Body) -> Scene {
    match payload_of(u) {
        Payload::WeaponUpgrade(m) => Scene { ship: Some(Ship { weapon: m, ..s }), ..sc },
        Payload::ExtraLife => if s.health < u32::MAX {
            Scene {
                ship: Some(Ship { health: (s.health + 1) as u32, ..s }),
                extra_lives: sc.extra_lives + 1,
                ..sc
            }
        } else {
            sc
        },
        Payload::SkipWave => Scene { skip: true, ..sc },
    }
}

pub open spec fn pickup_one(cfg: Config, sc: Scene, u: Body) -> Scene {
    if sc.ship is Some && near(sc.ship->0.pos, u.pos, cfg.ship_radius + cfg.pickup_radius) {
        collect(sc, sc.ship->0, u)
    } else {
        Scene { pickups: sc.pickups.push(u), ..sc }
    }
}

pub open spec fn pickup_pass(cfg: Config, start: Scene, us: Seq<Body>) -> Scene
    decreases us.len(),
{
    if us.len() == 0 {
        start
    } else {
        pickup_one(cfg, pickup_pass(cfg, start, us.drop_last()), us.last())
    }
}

/// The scene the resolver starts from: no body examined yet, nothing counted.
pub open spec fn opening(ship: Option<Ship>, effects: Seq<Body>, score: u64) -> Scene {
    Scene {
        ship,
        enemies: seq![],
        projectiles: seq![],
        pickups: seq![],
        effects,
        drops: seq![],
        score,
        rams: 0,
        hits: 0,
        soldier_kills: 0,
        boss_kills: 0,
        extra_lives: 0,
        skip: false,
    }
}

/// One full resolution: the three passes in order, then the dropped pickups
/// join the others.
pub open spec fn resolve_spec(
    cfg: Config,
    rolls: Seq<u32>,
    ship: Option<Ship>,
    enemies: Seq<Body>,
    projectiles: Seq<Body>,
    pickups: Seq<Body>,
    effects: Seq<Body>,
    score: u64,
) -> Scene {
    let s1 = ram_pass(cfg, opening(ship, effects, score), enemies);
    let s2 = shot_pass(cfg, rolls, s1, projectiles);
    let s3 = pickup_pass(cfg, s2, pickups);
    Scene { pickups: s3.pickups + s3.drops, drops: seq![], ..s3 }
}

/// What the resolver needs of the ship.
pub open spec fn ship_sound(ship: Option<Ship>) -> bool {
    ship matches Some(s) ==> s.pos.bounded() && s.health >= 1
}

fn radius_of(cfg: &Config, e: &Body) -> (r: i64)
    ensures
        r == radius(*cfg, enemy_kind(*e)),
{
    match e.tag {
        Tag::Enemy(EnemyKind::Boss) => cfg.boss_radius,
        _ => cfg.soldier_radius,
    }
}

fn make_explosion(cfg: &Config, at: Point) -> (b: Body)
    ensures
        b == explosion(*cfg, at),
{
    Body {
        pos: at,
        vel: Point { x: 0, y: 0 },
        timer_ms: cfg.explosion_ms,
        tag: Tag::Effect(EffectKind::Explosion),
    }
}

fn upgrade(i: u32) -> (m: WeaponMode)
    ensures
        m == upgrade_at(i as int),
{
    if i == 0 {
        WeaponMode::DoubleParallel
    } else if i == 1 {
        WeaponMode::DoubleV
    } else if i == 2 {
        WeaponMode::Triple
    } else if i == 3 {
        WeaponMode::Quadruple
    } else if i == 4 {
        WeaponMode::Quintuple
    } else if i == 5 {
        WeaponMode::Sextuple
    } else if i == 6 {
        WeaponMode::Septuple
    } else if i == 7 {
        WeaponMode::Rapid2
    } else if i == 8 {
        WeaponMode::Rapid3
    } else if i == 9 {
        WeaponMode::Rapid4
    } else {
        WeaponMode::Rapid5
    }
}

/// The payload, if any, that a kill drops for random roll `r`.
pub fn payload_from_roll(cfg: &Config, r: u32) -> (p: Option<Payload>)
    requires
        cfg.wf(),
    ensures
        p == payload_for(*cfg, r),
{
    if r % 100 >= cfg.drop_percent {
        None
    } else {
        let total = cfg.weapon_weight + cfg.life_weight + cfg.skip_weight;
        let q = r / 100;
        let w = q % total;
        if w < cfg.weapon_weight {
            Some(Payload::WeaponUpgrade(upgrade((q / total) % 11)))
        } else if w < cfg.weapon_weight + cfg.life_weight {
            Some(Payload::ExtraLife)
        } else {
            Some(Payload::SkipWave)
        }
    }
}

/// What an outcome keeps sound through the passes.
pub open spec fn outcome_sound(o: Scene) -> bool {
    &&& ship_sound(o.ship)
    &&& all_sound(o.enemies)
    &&& all_sound(o.projectiles)
    &&& all_sound(o.pickups)
    &&& all_sound(o.effects)
    &&& all_sound(o.drops)
    &&& all_of(o.enemies, Class::Enemies)
    &&& all_of(o.projectiles, Class::Projectiles)
    &&& all_of(o.pickups, Class::Pickups)
    &&& all_of(o.effects, Class::Effects)
    &&& all_of(o.drops, Class::Pickups)
}

fn hurt(cfg: &Config, out: &mut Outcome, s: Ship, at: Point)
    requires
        cfg.wf(),
        s.pos.bounded(),
        s.health >= 1,
        at.bounded(),
        outcome_sound(old(out)@),
    ensures
        final(out)@ == damage(*cfg, old(out)@, s, at),
        outcome_sound(final(out)@),
{
    proof {
        lemma_push_sound(out.effects@, explosion(*cfg, at));
        lemma_push_of(out.effects@, explosion(*cfg, at), Class::Effects);
    }
    out.effects.push(make_explosion(cfg, at));
    if s.health <= 1 {
        out.ship = None;
        proof {
            lemma_push_sound(out.effects@, explosion(*cfg, s.pos));
            lemma_push_of(out.effects@, explosion(*cfg, s.pos), Class::Effects);
        }
        out.effects.push(make_explosion(cfg, s.pos));
    } else {
        out.ship = Some(Ship { health: s.health - 1, ..s });
    }
}

fn ram_enemies(cfg: &Config, out: &mut Outcome, es: &Vec<Body>)
    requires
        cfg.wf(),
        all_sound(es@),
        all_of(es@, Class::Enemies),
        outcome_sound(old(out)@),
        old(out).rams == 0,
    ensures
        final(out)@ == ram_pass(*cfg, old(out)@, es@),
        outcome_sound(final(out)@),
        final(out).rams <= es.len(),
        final(out).hits == old(out).hits,
        final(out).soldier_kills == old(out).soldier_kills,
        final(out).boss_kills == old(out).boss_kills,
        final(out).extra_lives == old(out).extra_lives,
{
    let ghost start = out@;
    let mut i: usize = 0;
    while i < es.len()
        invariant
            cfg.wf(),
            all_sound(es@),
            all_of(es@, Class::Enemies),
            i <= es.len(),
            out@ == ram_pass(*cfg, start, es@.take(i as int)),
            outcome_sound(out@),
            out.rams <= i,
            out.hits == start.hits,
            out.soldier_kills == start.soldier_kills,
            out.boss_kills == start.boss_kills,
            out.extra_lives == start.extra_lives,
        decreases es.len() - i,
    {
        let e = es[i];
        assert(es@.take(i + 1).drop_last() == es@.take(i as int));
        assert(e.sound());
        let hit = match out.ship {
            Some(s) => is_near(s.pos, e.pos, cfg.ship_radius + radius_of(cfg, &e)),
            None => false,
        };
        match out.ship {
            Some(s) => {
                if hit {
                    out.rams = out.rams + 1;
                    hurt(cfg, out, s, e.pos);
                } else {
                    proof {
                        lemma_push_sound(out.enemies@, e);
                        lemma_push_of(out.enemies@, e, Class::Enemies);
                    }
                    out.enemies.push(e);
                }
            },
            None => {
                proof {
                    lemma_push_sound(out.enemies@, e);
                    lemma_push_of(out.enemies@, e, Class::Enemies);
                }
                out.enemies.push(e);
            },
        }
        i += 1;
    }
    assert(es@.take(es.len() as int) == es@);
}

fn find_target(cfg: &Config, p: &Body, es: &Vec<Body>) -> (j: usize)
    requires
        cfg.wf(),
        p.sound(),
        all_sound(es@),
    ensures
        j == first_hit(*cfg, *p, es@, 0),
{
    let mut i: usize = 0;
    while i < es.len()
        invariant
            cfg.wf(),
            p.sound(),
            all_sound(es@),
            i <= es.len(),
            first_hit(*cfg, *p, es@, 0) == first_hit(*cfg, *p, es@, i as int),
        decreases es.len() - i,
    {
        assert(es@[i as int].sound());
        if is_near(p.pos, es[i].pos, cfg.projectile_radius + radius_of(cfg, &es[i])) {
            return i;
        }
        i += 1;
    }
    i
}

fn score_of(cfg: &Config, e: &Body) -> (v: u64)
    requires
        cfg.wf(),
    ensures
        v == value(*cfg, enemy_kind(*e)),
{
    match e.tag {
        Tag::Enemy(EnemyKind::Boss) => cfg.boss_value,
        _ => cfg.soldier_value,
    }
}

fn take_kill(cfg: &Config, rolls: &Vec<u32>, out: &mut Outcome, j: usize)
    requires
        cfg.wf(),
        j < old(out).enemies.len(),
        outcome_sound(old(out)@),
        old(out).soldier_kills + old(out).boss_kills < u64::MAX,
    ensures
        final(out)@ == kill(*cfg, rolls@, old(out)@, j as int),
        outcome_sound(final(out)@),
        final(out).soldier_kills + final(out).boss_kills == old(out).soldier_kills + old(out).boss_kills + 1,
{
    let e = out.enemies.remove(j);
    assert(e.sound());
    let v = score_of(cfg, &e);
    let k: u64 = out.soldier_kills + out.boss_kills;
    let drop = if k < rolls.len() as u64 {
        payload_from_roll(cfg, rolls[k as usize])
    } else {
        None
    };
    if let Some(p) = drop {
        proof {
            lemma_push_sound(out.drops@, pickup_body(*cfg, e.pos, p));
            lemma_push_of(out.drops@, pickup_body(*cfg, e.pos, p), Class::Pickups);
        }
        out.drops.push(
            Body {
                pos: e.pos,
                vel: Point { x: 0, y: -cfg.pickup_speed },
                timer_ms: 0,
                tag: Tag::Pickup(p),
            },
        );
    }
    proof {
        lemma_push_sound(out.effects@, explosion(*cfg, e.pos));
        lemma_push_sound(out.effects@.push(explosion(*cfg, e.pos)), score_text(*cfg, e.pos, v));
        lemma_push_of(out.effects@, explosion(*cfg, e.pos), Class::Effects);
        lemma_push_of(out.effects@.push(explosion(*cfg, e.pos)), score_text(*cfg, e.pos, v), Class::Effects);
    }
    out.effects.push(make_explosion(cfg, e.pos));
    out.effects.push(Body {
        pos: e.pos,
        vel: Point { x: 0, y: cfg.score_drift },
        timer_ms: cfg.score_text_ms,
        tag: Tag::Effect(EffectKind::FloatingScore(v)),
    });
    out.score = if out.score > u64::MAX - v {
        u64::MAX
    } else {
        out.score + v
    };
    match e.tag {
        Tag::Enemy(EnemyKind::Boss) => {
            out.boss_kills = out.boss_kills + 1;
        },
        _ => {
            out.soldier_kills = out.soldier_kills + 1;
        },
    }
    proof {
        let o = old(out)@;
        assert(out.enemies@ == o.enemies.remove(j as int));
        assert forall|i: int| 0 <= i < out.enemies@.len() implies (#[trigger] out.enemies@[i]).sound()
            && class_of(out.enemies@[i].tag) == Class::Enemies by {
            if i < j {
                assert(out.enemies@[i] == o.enemies[i]);
            } else {
                assert(out.enemies@[i] == o.enemies[i + 1]);
            }
        }
    }
}

fn shoot_all(cfg: &Config, rolls: &Vec<u32>, out: &mut Outcome, ps: &Vec<Body>)
    requires
        cfg.wf(),
        all_sound(ps@),
        all_of(ps@, Class::Projectiles),
        outcome_sound(old(out)@),
        old(out).hits == 0,
        old(out).soldier_kills == 0,
        old(out).boss_kills == 0,
    ensures
        final(out)@ == shot_pass(*cfg, rolls@, old(out)@, ps@),
        outcome_sound(final(out)@),
        final(out).extra_lives == old(out).extra_lives,
{
    let ghost start = out@;
    let mut i: usize = 0;
    while i < ps.len()
        invariant
            cfg.wf(),
            all_sound(ps@),
            all_of(ps@, Class::Projectiles),
            i <= ps.len(),
            out@ == shot_pass(*cfg, rolls@, start, ps@.take(i as int)),
            outcome_sound(out@),
            out.extra_lives == start.extra_lives,
            out.hits + out.soldier_kills + out.boss_kills <= i,
        decreases ps.len() - i,
    {
        let p = ps[i];
        assert(ps@.take(i + 1).drop_last() == ps@.take(i as int));
        assert(p.sound());
        match p.tag {
            Tag::Projectile(Owner::FromPlayer) => {
                let j = find_target(cfg, &p, &out.enemies);
                if j < out.enemies.len() {
                    take_kill(cfg, rolls, out, j);
                } else {
                    proof {
                        lemma_push_sound(out.projectiles@, p);
                        lemma_push_of(out.projectiles@, p, Class::Projectiles);
                    }
                    out.projectiles.push(p);
                }
            },
            _ => {
                let struck = match out.ship {
                    Some(s) => is_near(p.pos, s.pos, cfg.projectile_radius + cfg.ship_radius),
                    None => false,
                };
                match out.ship {
                    Some(s) => {
                        if struck {
                            out.hits = out.hits + 1;
                            hurt(cfg, out, s, s.pos);
                        } else {
                            proof {
                                lemma_push_sound(out.projectiles@, p);
                                lemma_push_of(out.projectiles@, p, Class::Projectiles);
                            }
                            out.projectiles.push(p);
                        }
                    },
                    None => {
                        proof {
                            lemma_push_sound(out.projectiles@, p);
                            lemma_push_of(out.projectiles@, p, Class::Projectiles);
                        }
                        out.projectiles.push(p);
                    },
                }
            },
        }
        i += 1;
    }
    assert(ps@.take(ps.len() as int) == ps@);
}

fn collect_pickups(cfg: &Config, out: &mut Outcome, us: &Vec<Body>)
    requires
        cfg.wf(),
        all_sound(us@),
        all_of(us@, Class::Pickups),
        outcome_sound(old(out)@),
        old(out).extra_lives == 0,
    ensures
        final(out)@ == pickup_pass(*cfg, old(out)@, us@),
        outcome_sound(final(out)@),
{
    let ghost start = out@;
    let mut i: usize = 0;
    while i < us.len()
        invariant
            cfg.wf(),
            all_sound(us@),
            all_of(us@, Class::Pickups),
            i <= us.len(),
            out@ == pickup_pass(*cfg, start, us@.take(i as int)),
            outcome_sound(out@),
            out.extra_lives <= i,
        decreases us.len() - i,
    {
        let u = us[i];
        assert(us@.take(i + 1).drop_last() == us@.take(i as int));
        assert(u.sound());
        let touched = match out.ship {
            Some(s) => is_near(s.pos, u.pos, cfg.ship_radius + cfg.pickup_radius),
            None => false,
        };
        match out.ship {
            Some(s) => {
                if touched {
                    match u.tag {
                        Tag::Pickup(Payload::WeaponUpgrade(m)) => {
                            out.ship = Some(Ship { weapon: m, ..s });
                        },
                        Tag::Pickup(Payload::ExtraLife) => {
                            if s.health < u32::MAX {
                                out.ship = Some(Ship { health: s.health + 1, ..s });
                                out.extra_lives = out.extra_lives + 1;
                            }
                        },
                        _ => {
                            out.skip = true;
                        },
                    }
                } else {
                    proof {
                        lemma_push_sound(out.pickups@, u);
                        lemma_push_of(out.pickups@, u, Class::Pickups);
                    }
                    out.pickups.push(u);
                }
            },
            None => {
                proof {
                    lemma_push_sound(out.pickups@, u);
                    lemma_push_of(out.pickups@, u, Class::Pickups);
                }
                out.pickups.push(u);
            },
        }
        i += 1;
    }
    assert(us@.take(us.len() as int) == us@);
}

/// Resolves every collision of one tick. `rolls` holds one random number per
/// kill, in the order the kills happen.
pub fn resolve(
    cfg: &Config,
    rolls: &Vec<u32>,
    ship: Option<Ship>,
    enemies: &Vec<Body>,
    projectiles: &Vec<Body>,
    pickups: &Vec<Body>,
    effects: Vec<Body>,
    score: u64,
) -> (out: Outcome)
    requires
        cfg.wf(),
        ship_sound(ship),
        all_sound(enemies@),
        all_sound(projectiles@),
        all_sound(pickups@),
        all_sound(effects@),
        all_of(enemies@, Class::Enemies),
        all_of(projectiles@, Class::Projectiles),
        all_of(pickups@, Class::Pickups),
        all_of(effects@, Class::Effects),
    ensures
        out@ == resolve_spec(*cfg, rolls@, ship, enemies@, projectiles@, pickups@, effects@, score),
        outcome_sound(out@),
{
    let mut out = Outcome {
        ship,
        enemies: Vec::new(),
        projectiles: Vec::new(),
        pickups: Vec::new(),
        effects,
        drops: Vec::new(),
        score,
        rams: 0,
        hits: 0,
        soldier_kills: 0,
        boss_kills: 0,
        extra_lives: 0,
        skip: false,
    };
    assert(out@ == opening(ship, effects@, score));
    ram_enemies(cfg, &mut out, enemies);
    shoot_all(cfg, rolls, &mut out, projectiles);
    collect_pickups(cfg, &mut out, pickups);
    let mut drops: Vec<Body> = Vec::new();
    std::mem::swap(&mut drops, &mut out.drops);
    proof {
        lemma_concat_sound(out.pickups@, drops@);
        lemma_concat_of(out.pickups@, drops@, Class::Pickups);
    }
    out.pickups.append(&mut drops);
    out
}

/// The ship's lives, zero once it is destroyed.
pub open spec fn health_of(ship: Option<Ship>) -> int {
    match ship {
        Some(s) => s.health as int,
        None => 0,
    }
}

/// Every life lost is counted as a ram or a hit, every life gained as an extra
/// life, starting from `h0`; a ship that exists has at least one life.
pub open spec fn ledger(sc: Scene, h0: int) -> bool {
    &&& health_of(sc.ship) + sc.rams + sc.hits == h0 + sc.extra_lives
    &&& sc.ship matches Some(s) ==> s.health >= 1
}

/// The ship of `b`, if any, is the ship of `a` with at most its lives and
/// weapon changed.
pub open spec fn kin(a: Option<Ship>, b: Option<Ship>) -> bool {
    b matches Some(t) ==> a matches Some(s) && t.pos == s.pos && t.vel == s.vel && t.burst_left
        == s.burst_left && t.burst_timer_ms == s.burst_timer_ms
}

/// Score earned between two scenes by the kills made in between.
pub open spec fn earned(cfg: Config, a: Scene, b: Scene) -> int {
    cfg.soldier_value * (b.soldier_kills - a.soldier_kills) + cfg.boss_value * (b.boss_kills
        - a.boss_kills)
}

proof fn lemma_damage(cfg: Config, sc: Scene, s: Ship, at: Point, h0: int)
    requires
        sc.ship == Some(s),
        s.health >= 1,
        health_of(sc.ship) + sc.rams + sc.hits == h0 + sc.extra_lives + 1,
    ensures
        ledger(damage(cfg, sc, s, at), h0),
{
}

proof fn lemma_ram_pass(cfg: Config, start: Scene, es: Seq<Body>, h0: int)
    requires
        ledger(start, h0),
    ensures
        ({
            let out = ram_pass(cfg, start, es);
            &&& ledger(out, h0)
            &&& kin(start.ship, out.ship)
            &&& out.enemies.len() + out.rams == start.enemies.len() + start.rams + es.len()
            &&& out.projectiles == start.projectiles
            &&& out.pickups == start.pickups
            &&& out.drops == start.drops
            &&& out.score == start.score
            &&& out.hits == start.hits
            &&& out.soldier_kills == start.soldier_kills
            &&& out.boss_kills == start.boss_kills
            &&& out.extra_lives == start.extra_lives
            &&& out.skip == start.skip
            &&& start.ship is None ==> out.ship is None && out.rams == start.rams
        }),
    decreases es.len(),
{
    if es.len() > 0 {
        lemma_ram_pass(cfg, start, es.drop_last(), h0);
        let mid = ram_pass(cfg, start, es.drop_last());
        let e = es.last();
        if mid.ship is Some && near(mid.ship->0.pos, e.pos, cfg.ship_radius + radius(cfg, enemy_kind(e))) {
            lemma_damage(cfg, Scene { rams: mid.rams + 1, ..mid }, mid.ship->0, e.pos, h0);
        }
    }
}

proof fn lemma_earned_step(cfg: Config, a: Scene, b: Scene, c: Scene)
    requires
        cfg.wf(),
        c.soldier_kills == b.soldier_kills + 1 && c.boss_kills == b.boss_kills
            || c.soldier_kills == b.soldier_kills && c.boss_kills == b.boss_kills + 1,
    ensures
        earned(cfg, a, c) == earned(cfg, a, b) + if c.soldier_kills == b.soldier_kills + 1 {
            cfg.soldier_value as int
        } else {
            cfg.boss_value as int
        },
{
    let sv = cfg.soldier_value as int;
    let bv = cfg.boss_value as int;
    let ds = b.soldier_kills - a.soldier_kills;
    let db = b.boss_kills - a.boss_kills;
    assert(sv * (ds + 1) == sv * ds + sv) by (nonlinear_arith);
    assert(bv * (db + 1) == bv * db + bv) by (nonlinear_arith);
}

proof fn lemma_earned_nonneg(cfg: Config, a: Scene, b: Scene)
    requires
        cfg.wf(),
        a.soldier_kills <= b.soldier_kills,
        a.boss_kills <= b.boss_kills,
    ensures
        earned(cfg, a, b) >= 0,
{
    let sv = cfg.soldier_value as int;
    let bv = cfg.boss_value as int;
    assert(sv * (b.soldier_kills - a.soldier_kills) >= 0) by (nonlinear_arith)
        requires
            sv >= 0,
            b.soldier_kills - a.soldier_kills >= 0,
    ;
    assert(bv * (b.boss_kills - a.boss_kills) >= 0) by (nonlinear_arith)
        requires
            bv >= 0,
            b.boss_kills - a.boss_kills >= 0,
    ;
}

proof fn lemma_shot_pass(cfg: Config, rolls: Seq<u32>, start: Scene, ps: Seq<Body>, h0: int)
    requires
        cfg.wf(),
        ledger(start, h0),
    ensures
        ({
            let out = shot_pass(cfg, rolls, start, ps);
            let kills = out.soldier_kills + out.boss_kills - start.soldier_kills - start.boss_kills;
            &&& ledger(out, h0)
            &&& kin(start.ship, out.ship)
            &&& out.soldier_kills >= start.soldier_kills
            &&& out.boss_kills >= start.boss_kills
            &&& out.enemies.len() + kills == start.enemies.len()
            &&& out.projectiles.len() + kills + out.hits == start.projectiles.len() + start.hits
                + ps.len()
            &&& start.score + earned(cfg, start, out) <= u64::MAX ==> out.score == start.score
                + earned(cfg, start, out)
            &&& out.rams == start.rams
            &&& out.extra_lives == start.extra_lives
            &&& out.pickups == start.pickups
            &&& out.skip == start.skip
            &&& start.ship is None ==> out.ship is None && out.hits == start.hits
        }),
    decreases ps.len(),
{
    if ps.len() > 0 {
        lemma_shot_pass(cfg, rolls, start, ps.drop_last(), h0);
        let mid = shot_pass(cfg, rolls, start, ps.drop_last());
        let p = ps.last();
        let out = shot_one(cfg, rolls, mid, p);
        if owner_of(p) == Owner::FromPlayer {
            let j = first_hit(cfg, p, mid.enemies, 0);
            if j < mid.enemies.len() {
                lemma_first_hit_range(cfg, p, mid.enemies, 0);
                lemma_earned_step(cfg, start, mid, out);
                lemma_earned_nonneg(cfg, start, mid);
            }
        } else if mid.ship is Some && near(p.pos, mid.ship->0.pos, cfg.projectile_radius + cfg.ship_radius) {
            lemma_damage(cfg, Scene { hits: mid.hits + 1, ..mid }, mid.ship->0, mid.ship->0.pos, h0);
        }
    }
}

proof fn lemma_first_hit_range(cfg: Config, p: Body, es: Seq<Body>, i: int)
    requires
        0 <= i <= es.len(),
    ensures
        i <= first_hit(cfg, p, es, i) <= es.len(),
    decreases es.len() - i,
{
    if i < es.len() && !strikes(cfg, p, es[i]) {
        lemma_first_hit_range(cfg, p, es, i + 1);
    }
}

proof fn lemma_pickup_pass(cfg: Config, start: Scene, us: Seq<Body>, h0: int)
    requires
        ledger(start, h0),
    ensures
        ({
            let out = pickup_pass(cfg, start, us);
            &&& ledger(out, h0)
            &&& kin(start.ship, out.ship)
            &&& out.enemies == start.enemies
            &&& out.projectiles == start.projectiles
            &&& out.drops == start.drops
            &&& out.score == start.score
            &&& out.rams == start.rams
            &&& out.hits == start.hits
            &&& out.soldier_kills == start.soldier_kills
            &&& out.boss_kills == start.boss_kills
            &&& start.ship is None ==> out.ship is None && out.extra_lives == start.extra_lives
        }),
    decreases us.len(),
{
    if us.len() > 0 {
        lemma_pickup_pass(cfg, start, us.drop_last(), h0);
    }
}

/// Health accounting: over one resolution the ship's lives (zero once it is
/// destroyed) fall by exactly one per enemy that touched it and per enemy
/// projectile that struck it, and rise only by the extra lives collected; a
/// ship that remains has at least one life, and a missing ship stays missing.
pub proof fn lemma_health_accounting(
    cfg: Config,
    rolls: Seq<u32>,
    ship: Option<Ship>,
    enemies: Seq<Body>,
    projectiles: Seq<Body>,
    pickups: Seq<Body>,
    effects: Seq<Body>,
    score: u64,
)
    requires
        cfg.wf(),
        ship_sound(ship),
    ensures
        ({
            let out = resolve_spec(cfg, rolls, ship, enemies, projectiles, pickups, effects, score);
            &&& health_of(out.ship) + out.rams + out.hits == health_of(ship) + out.extra_lives
            &&& out.ship matches Some(s) ==> s.health >= 1
            &&& ship is None ==> out.ship is None && out.rams == 0 && out.hits == 0
                && out.extra_lives == 0
        }),
{
    let h0 = health_of(ship);
    let s0 = opening(ship, effects, score);
    lemma_ram_pass(cfg, s0, enemies, h0);
    let s1 = ram_pass(cfg, s0, enemies);
    lemma_shot_pass(cfg, rolls, s1, projectiles, h0);
    let s2 = shot_pass(cfg, rolls, s1, projectiles);
    lemma_pickup_pass(cfg, s2, pickups, h0);
}

/// Score additivity: one resolution adds exactly `soldier_value` per soldier
/// and `boss_value` per boss the player shot down (while the total stays
/// within `u64`), and each kill consumes exactly one enemy and one projectile,
/// each ram one enemy and each hit one projectile, so nothing is counted twice.
pub proof fn lemma_score_additive(
    cfg: Config,
    rolls: Seq<u32>,
    ship: Option<Ship>,
    enemies: Seq<Body>,
    projectiles: Seq<Body>,
    pickups: Seq<Body>,
    effects: Seq<Body>,
    score: u64,
)
    requires
        cfg.wf(),
        ship_sound(ship),
    ensures
        ({
            let out = resolve_spec(cfg, rolls, ship, enemies, projectiles, pickups, effects, score);
            let gain = cfg.soldier_value * out.soldier_kills + cfg.boss_value * out.boss_kills;
            &&& score + gain <= u64::MAX ==> out.score == score + gain
            &&& out.enemies.len() + out.rams + out.soldier_kills + out.boss_kills == enemies.len()
            &&& out.projectiles.len() + out.hits + out.soldier_kills + out.boss_kills
                == projectiles.len()
        }),
{
    let h0 = health_of(ship);
    let s0 = opening(ship, effects, score);
    lemma_ram_pass(cfg, s0, enemies, h0);
    let s1 = ram_pass(cfg, s0, enemies);
    lemma_shot_pass(cfg, rolls, s1, projectiles, h0);
    let s2 = shot_pass(cfg, rolls, s1, projectiles);
    lemma_pickup_pass(cfg, s2, pickups, h0);
}

/// The resolver changes nothing of the ship but its lives and weapon, and
/// kills at most one enemy per projectile.
pub proof fn lemma_resolve_keeps_ship(
    cfg: Config,
    rolls: Seq<u32>,
    ship: Option<Ship>,
    enemies: Seq<Body>,
    projectiles: Seq<Body>,
    pickups: Seq<Body>,
    effects: Seq<Body>,
    score: u64,
)
    requires
        cfg.wf(),
        ship_sound(ship),
    ensures
        ({
            let out = resolve_spec(cfg, rolls, ship, enemies, projectiles, pickups, effects, score);
            &&& kin(ship, out.ship)
            &&& out.ship matches Some(s) ==> s.health >= 1
            &&& out.soldier_kills + out.boss_kills <= projectiles.len()
        }),
{
    let h0 = health_of(ship);
    let s0 = opening(ship, effects, score);
    lemma_ram_pass(cfg, s0, enemies, h0);
    let s1 = ram_pass(cfg, s0, enemies);
    lemma_shot_pass(cfg, rolls, s1, projectiles, h0);
    let s2 = shot_pass(cfg, rolls, s1, projectiles);
    lemma_pickup_pass(cfg, s2, pickups, h0);
}

} // verus!
