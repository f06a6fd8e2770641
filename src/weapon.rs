//! The fire controller: turns the player's fire press into projectiles
//! according to the ship's weapon mode, emits the shots of a rapid-fire burst
//! one interval apart, and lets each enemy fire at the ship on its own timer.
use crate::config::Config;
use crate::entity::{
    all_of,
    all_sound,
    class_of,
    enemy_kind,
    Body,
    Class,
    EnemyKind,
    Owner,
    Ship,
    Tag,
    WeaponMode,
};
use crate::geometry::{aim, aim_spec, lemma_aim_bound, Point};
use crate::movement::on_field;
use vstd::prelude::*;

verus! {

/// A player projectile leaving `origin` with velocity `(vx, vy)`.
pub open spec fn shot(origin: Point, vx: int, vy: int) -> Body {
    Body {
        pos: origin,
        vel: Point { x: vx as i64, y: vy as i64 },
        timer_ms: 0,
        tag: Tag::Projectile(Owner::FromPlayer),
    }
}

/// Where the ship's projectiles appear.
pub open spec fn muzzle(cfg: Config, s: Ship) -> Point {
    Point { x: s.pos.x, y: (s.pos.y + cfg.muzzle_offset) as i64 }
}

/// Number of shots of a fan-shaped weapon; zero for the others.
pub open spec fn fan_size(w: WeaponMode) -> nat {
    match w {
        WeaponMode::Triple => 3,
        WeaponMode::Quadruple => 4,
        WeaponMode::Quintuple => 5,
        WeaponMode::Sextuple => 6,
        WeaponMode::Septuple => 7,
        _ => 0,
    }
}

/// Number of shots of a rapid-fire burst; zero for the other weapons.
pub open spec fn burst_size(w: WeaponMode) -> nat {
    match w {
        WeaponMode::Rapid2 => 2,
        WeaponMode::Rapid3 => 3,
        WeaponMode::Rapid4 => 4,
        WeaponMode::Rapid5 => 5,
        _ => 0,
    }
}

/// `n` shots spread symmetrically around straight up, one step apart.
pub open spec fn fan(cfg: Config, origin: Point, n: nat) -> Seq<Body> {
    Seq::new(n, |i: int| shot(origin, (2 * i - (n - 1)) * cfg.fan_half_step, cfg.bullet_speed as int))
}

/// The shots that one press fires at once with weapon `w`.
pub open spec fn volley(cfg: Config, w: WeaponMode, origin: Point) -> Seq<Body> {
    let up = cfg.bullet_speed as int;
    match w {
        WeaponMode::Single => seq![shot(origin, 0, up)],
        WeaponMode::DoubleParallel => seq![
            shot(Point { x: (origin.x - cfg.twin_offset) as i64, ..origin }, 0, up),
            shot(Point { x: (origin.x + cfg.twin_offset) as i64, ..origin }, 0, up),
        ],
        WeaponMode::DoubleV => seq![
            shot(origin, -cfg.vee_spread, up),
            shot(origin, cfg.vee_spread as int, up),
        ],
        _ => fan(cfg, origin, fan_size(w)),
    }
}

/// A fire press: a rapid-fire weapon queues its burst, any other fires its
/// volley from the muzzle.
pub open spec fn trigger_spec(cfg: Config, s: Ship, fire: bool) -> (Ship, Seq<Body>) {
    if !fire {
        (s, seq![])
    } else if burst_size(s.weapon) > 0 {
        (Ship { burst_left: burst_size(s.weapon) as u32, burst_timer_ms: 0, ..s }, seq![])
    } else {
        (s, volley(cfg, s.weapon, muzzle(cfg, s)))
    }
}

/// The burst queue over `dt` milliseconds: at most one queued shot leaves,
/// when its timer has run out, and the timer is re-armed.
pub open spec fn burst_spec(cfg: Config, s: Ship, dt: u32) -> (Ship, Seq<Body>) {
    if s.burst_left == 0 {
        (s, seq![])
    } else if dt >= s.burst_timer_ms {
        (
            Ship {
                burst_left: (s.burst_left - 1) as u32,
                burst_timer_ms: cfg.burst_interval_ms,
                ..s
            },
            seq![shot(muzzle(cfg, s), 0, cfg.bullet_speed as int)],
        )
    } else {
        (Ship { burst_timer_ms: (s.burst_timer_ms - dt) as u32, ..s }, seq![])
    }
}

/// The player's fire for one tick: the press first, then the burst queue.
pub open spec fn player_fire_spec(cfg: Config, s: Ship, fire: bool, dt: u32) -> (Ship, Seq<Body>) {
    let (s1, first) = trigger_spec(cfg, s, fire);
    let (s2, queued) = burst_spec(cfg, s1, dt);
    (s2, first + queued)
}

/// The ship's horizontal velocity under the held direction keys.
pub open spec fn steer_spec(cfg: Config, s: Ship, left: bool, right: bool) -> Ship {
    let vx: int = if right && !left {
        cfg.ship_speed as int
    } else if left && !right {
        -cfg.ship_speed
    } else {
        0
    };
    Ship { vel: Point { x: vx as i64, y: 0 }, ..s }
}

pub open spec fn fire_interval(cfg: Config, k: EnemyKind) -> u32 {
    match k {
        EnemyKind::Boss => cfg.boss_fire_ms,
        EnemyKind::Soldier => cfg.soldier_fire_ms,
    }
}

/// An enemy's fire timer after `dt` milliseconds, re-armed when it runs out.
pub open spec fn rearmed(cfg: Config, e: Body, dt: u32) -> Body {
    if dt >= e.timer_ms {
        Body { timer_ms: fire_interval(cfg, enemy_kind(e)), ..e }
    } else {
        Body { timer_ms: (e.timer_ms - dt) as u32, ..e }
    }
}

/// An enemy fires when its timer runs out, it is on the visible playfield and
/// there is a ship to aim at.
pub open spec fn fires(cfg: Config, e: Body, dt: u32, target: Option<Point>) -> bool {
    dt >= e.timer_ms && target is Some && on_field(cfg, e.pos)
}

/// An enemy projectile aimed from `e` at `target`, with no lead.
pub open spec fn enemy_shot(cfg: Config, e: Body, target: Point) -> Body {
    let (vx, vy) = aim_spec(e.pos, target, cfg.enemy_bullet_speed as int);
    Body {
        pos: e.pos,
        vel: Point { x: vx as i64, y: vy as i64 },
        timer_ms: 0,
        tag: Tag::Projectile(Owner::FromEnemy),
    }
}

/// The enemies with their timers advanced, and the shots they fire, in order.
pub open spec fn enemy_fire(cfg: Config, es: Seq<Body>, dt: u32, target: Option<Point>) -> (
    Seq<Body>,
    Seq<Body>,
)
    decreases es.len(),
{
    if es.len() == 0 {
        (seq![], seq![])
    } else {
        let (kept, shots) = enemy_fire(cfg, es.drop_last(), dt, target);
        let e = es.last();
        (
            kept.push(rearmed(cfg, e, dt)),
            if fires(cfg, e, dt, target) {
                shots.push(enemy_shot(cfg, e, target->0))
            } else {
                shots
            },
        )
    }
}

/// What the fire controller needs of the ship.
pub open spec fn ship_ready(cfg: Config, s: Ship) -> bool {
    &&& -cfg.ship_limit() <= s.pos.x <= cfg.ship_limit()
    &&& s.pos.y == cfg.ship_start_y
    &&& s.pos.bounded()
    &&& s.vel.slow()
}

pub fn steer(cfg: &Config, s: &Ship, left: bool, right: bool) -> (r: Ship)
    requires
        cfg.wf(),
    ensures
        r == steer_spec(*cfg, *s, left, right),
        r.vel.slow(),
        r.vel.y == 0,
{
    let vx: i64 = if right && !left {
        cfg.ship_speed
    } else if left && !right {
        -cfg.ship_speed
    } else {
        0
    };
    Ship { vel: Point { x: vx, y: 0 }, ..*s }
}

fn make_shot(origin: Point, vx: i64, vy: i64) -> (b: Body)
    ensures
        b == shot(origin, vx as int, vy as int),
{
    Body { pos: origin, vel: Point { x: vx, y: vy }, timer_ms: 0, tag: Tag::Projectile(Owner::FromPlayer) }
}

fn fan_shots(cfg: &Config, origin: Point, n: u32) -> (out: Vec<Body>)
    requires
        cfg.wf(),
        origin.bounded(),
        n <= 7,
    ensures
        out@ == fan(*cfg, origin, n as nat),
        all_sound(out@),
{
    let mut out: Vec<Body> = Vec::new();
    let mut i: u32 = 0;
    while i < n
        invariant
            cfg.wf(),
            origin.bounded(),
            n <= 7,
            i <= n,
            out@ == fan(*cfg, origin, n as nat).take(i as int),
            all_sound(out@),
        decreases n - i,
    {
        let k: i64 = 2 * (i as i64) - (n as i64 - 1);
        assert(-6 * cfg.fan_half_step <= k * cfg.fan_half_step <= 6 * cfg.fan_half_step) by (nonlinear_arith)
            requires
                -6 <= k <= 6,
                0 <= cfg.fan_half_step,
        ;
        let b = make_shot(origin, k * cfg.fan_half_step, cfg.bullet_speed);
        out.push(b);
        assert(out@ == fan(*cfg, origin, n as nat).take(i + 1));
        i += 1;
    }
    assert(fan(*cfg, origin, n as nat).take(n as int) == fan(*cfg, origin, n as nat));
    out
}

/// The shots of one volley of weapon `w` from `origin`.
pub fn fire_volley(cfg: &Config, w: WeaponMode, origin: Point) -> (out: Vec<Body>)
    requires
        cfg.wf(),
        -0x200_0000 <= origin.x <= 0x200_0000,
        -0x200_0000 <= origin.y <= 0x200_0000,
    ensures
        out@ == volley(*cfg, w, origin),
        all_sound(out@),
{
    let up = cfg.bullet_speed;
    let left = -cfg.vee_spread;
    let left_twin = Point { x: origin.x - cfg.twin_offset, ..origin };
    let right_twin = Point { x: origin.x + cfg.twin_offset, ..origin };
    match w {
        WeaponMode::Single => vec![make_shot(origin, 0, up)],
        WeaponMode::DoubleParallel => vec![make_shot(left_twin, 0, up), make_shot(right_twin, 0, up)],
        WeaponMode::DoubleV => vec![make_shot(origin, left, up), make_shot(origin, cfg.vee_spread, up)],
        WeaponMode::Triple => fan_shots(cfg, origin, 3),
        WeaponMode::Quadruple => fan_shots(cfg, origin, 4),
        WeaponMode::Quintuple => fan_shots(cfg, origin, 5),
        WeaponMode::Sextuple => fan_shots(cfg, origin, 6),
        WeaponMode::Septuple => fan_shots(cfg, origin, 7),
        _ => Vec::new(),
    }
}

fn burst_of(w: WeaponMode) -> (n: u32)
    ensures
        n == burst_size(w),
{
    match w {
        WeaponMode::Rapid2 => 2,
        WeaponMode::Rapid3 => 3,
        WeaponMode::Rapid4 => 4,
        WeaponMode::Rapid5 => 5,
        _ => 0,
    }
}

/// The player's fire for one tick.
pub fn fire_player(cfg: &Config, s: &Ship, fire: bool, dt: u32) -> (r: (Ship, Vec<Body>))
    requires
        cfg.wf(),
        ship_ready(*cfg, *s),
    ensures
        (r.0, r.1@) == player_fire_spec(*cfg, *s, fire, dt),
        ship_ready(*cfg, r.0),
        all_sound(r.1@),
        all_of(r.1@, Class::Projectiles),
{
    let origin = Point { x: s.pos.x, y: s.pos.y + cfg.muzzle_offset };
    let mut ship = *s;
    let mut shots: Vec<Body> = Vec::new();
    if fire {
        let n = burst_of(s.weapon);
        if n > 0 {
            ship = Ship { burst_left: n, burst_timer_ms: 0, ..*s };
        } else {
            shots = fire_volley(cfg, s.weapon, origin);
        }
    }
    let ghost first = shots@;
    assert((ship, first) == trigger_spec(*cfg, *s, fire));
    if ship.burst_left > 0 {
        if dt >= ship.burst_timer_ms {
            ship = Ship {
                burst_left: ship.burst_left - 1,
                burst_timer_ms: cfg.burst_interval_ms,
                ..ship
            };
            shots.push(make_shot(origin, 0, cfg.bullet_speed));
        } else {
            ship = Ship { burst_timer_ms: ship.burst_timer_ms - dt, ..ship };
        }
    }
    proof {
        let (s2, queued) = burst_spec(*cfg, trigger_spec(*cfg, *s, fire).0, dt);
        assert(shots@ == first + queued);
        assert forall|i: int| 0 <= i < shots@.len() implies class_of(#[trigger] shots@[i].tag)
            == Class::Projectiles by {
            if i < first.len() {
                if fire && burst_size(s.weapon) == 0 {
                    assert(first[i] == volley(*cfg, s.weapon, origin)[i]);
                }
            }
        }
    }
    (ship, shots)
}

fn enemy_fire_ms(cfg: &Config, e: &Body) -> (r: u32)
    ensures
        r == fire_interval(*cfg, enemy_kind(*e)),
{
    match e.tag {
        Tag::Enemy(EnemyKind::Boss) => cfg.boss_fire_ms,
        _ => cfg.soldier_fire_ms,
    }
}

/// Advances every enemy's fire timer; those whose timer runs out while on the
/// playfield fire one projectile at `target`.
pub fn fire_enemies(cfg: &Config, enemies: &Vec<Body>, dt: u32, target: Option<Point>) -> (r: (
    Vec<Body>,
    Vec<Body>,
))
    requires
        cfg.wf(),
        all_sound(enemies@),
        target matches Some(t) ==> t.bounded(),
    ensures
        (r.0@, r.1@) == enemy_fire(*cfg, enemies@, dt, target),
{
    let mut kept: Vec<Body> = Vec::new();
    let mut shots: Vec<Body> = Vec::new();
    let mut i: usize = 0;
    let half_w = cfg.width / 2;
    let half_h = cfg.height / 2;
    while i < enemies.len()
        invariant
            cfg.wf(),
            all_sound(enemies@),
            target matches Some(t) ==> t.bounded(),
            i <= enemies.len(),
            half_w == cfg.width / 2,
            half_h == cfg.height / 2,
            (kept@, shots@) == enemy_fire(*cfg, enemies@.take(i as int), dt, target),
        decreases enemies.len() - i,
    {
        let e = enemies[i];
        assert(enemies@.take(i + 1).drop_last() == enemies@.take(i as int));
        assert(e.sound());
        if dt >= e.timer_ms {
            kept.push(Body { timer_ms: enemy_fire_ms(cfg, &e), ..e });
            if let Some(t) = target {
                if -half_w <= e.pos.x && e.pos.x <= half_w && -half_h <= e.pos.y && e.pos.y <= half_h {
                    let v = aim(e.pos, t, cfg.enemy_bullet_speed);
                    let tag = Tag::Projectile(Owner::FromEnemy);
                    shots.push(Body { pos: e.pos, vel: v, timer_ms: 0, tag });
                }
            }
        } else {
            kept.push(Body { timer_ms: e.timer_ms - dt, ..e });
        }
        i += 1;
    }
    assert(enemies@.take(enemies.len() as int) == enemies@);
    (kept, shots)
}

/// Enemy fire keeps the enemies as they were but for their timers, and makes
/// only sound projectiles.
pub proof fn lemma_enemy_fire(cfg: Config, es: Seq<Body>, dt: u32, target: Option<Point>)
    requires
        cfg.wf(),
        all_sound(es),
        target matches Some(t) ==> t.bounded(),
    ensures
        ({
            let (kept, shots) = enemy_fire(cfg, es, dt, target);
            &&& kept.len() == es.len()
            &&& forall|i: int|
                0 <= i < es.len() ==> (#[trigger] kept[i]).pos == es[i].pos && kept[i].vel == es[i].vel
                    && kept[i].tag == es[i].tag
            &&& all_sound(kept)
            &&& all_sound(shots)
            &&& all_of(shots, Class::Projectiles)
            &&& all_of(es, Class::Enemies) ==> all_of(kept, Class::Enemies)
        }),
    decreases es.len(),
{
    if es.len() > 0 {
        let p = es.drop_last();
        assert(all_sound(p)) by {
            assert forall|i: int| 0 <= i < p.len() implies (#[trigger] p[i]).sound() by {
                assert(p[i] == es[i]);
            }
        }
        lemma_enemy_fire(cfg, p, dt, target);
        assert(es.last() == es[es.len() - 1]);
        let (kept, shots) = enemy_fire(cfg, es, dt, target);
        let (k0, s0) = enemy_fire(cfg, p, dt, target);
        assert forall|i: int| 0 <= i < es.len() implies (#[trigger] kept[i]).pos == es[i].pos
            && kept[i].vel == es[i].vel && kept[i].tag == es[i].tag by {
            if i < p.len() {
                assert(kept[i] == k0[i]);
                assert(p[i] == es[i]);
            }
        }
        assert forall|i: int| 0 <= i < kept.len() implies (#[trigger] kept[i]).sound() by {
            if i < p.len() {
                assert(kept[i] == k0[i]);
            }
        }
        assert forall|i: int| 0 <= i < s0.len() implies #[trigger] shots[i] == s0[i] by {}
        if fires(cfg, es.last(), dt, target) {
            lemma_aim_bound(es.last().pos, target->0, cfg.enemy_bullet_speed as int);
        }
        if all_of(es, Class::Enemies) {
            assert forall|i: int| 0 <= i < kept.len() implies class_of((#[trigger] kept[i]).tag)
                == Class::Enemies by {
                assert(kept[i].tag == es[i].tag);
            }
        }
    }
}

} // verus!
