use xgalaga::collision::payload_from_roll;
use xgalaga::config::Config;
use xgalaga::entity::{Body, EnemyKind, Owner, Payload, Ship, Tag, WeaponMode};
use xgalaga::geometry::Point;
use xgalaga::movement::{advance_all, move_ship};
use xgalaga::weapon::{fire_enemies, fire_player, fire_volley, steer};

fn ship(weapon: WeaponMode) -> Ship {
    Ship {
        pos: Point::new(0, -300_000),
        vel: Point::new(0, 0),
        health: 3,
        weapon,
        burst_left: 0,
        burst_timer_ms: 0,
    }
}

#[test]
fn single_fires_one_shot_straight_up() {
    let cfg = Config::standard();
    let shots = fire_volley(&cfg, WeaponMode::Single, Point::new(5, 7));
    assert_eq!(shots.len(), 1);
    assert_eq!(shots[0].pos, Point::new(5, 7));
    assert_eq!(shots[0].vel, Point::new(0, 700));
    assert_eq!(shots[0].tag, Tag::Projectile(Owner::FromPlayer));
}

#[test]
fn doubles_fire_parallel_or_diverging_pairs() {
    let cfg = Config::standard();
    let twin = fire_volley(&cfg, WeaponMode::DoubleParallel, Point::new(0, 0));
    assert_eq!(twin.len(), 2);
    assert_eq!(twin[0].pos, Point::new(-10_000, 0));
    assert_eq!(twin[1].pos, Point::new(10_000, 0));
    assert_eq!(twin[0].vel, Point::new(0, 700));
    let vee = fire_volley(&cfg, WeaponMode::DoubleV, Point::new(0, 0));
    assert_eq!(vee[0].vel, Point::new(-150, 700));
    assert_eq!(vee[1].vel, Point::new(150, 700));
}

#[test]
fn fans_spread_symmetrically() {
    let cfg = Config::standard();
    let three: Vec<i64> = fire_volley(&cfg, WeaponMode::Triple, Point::new(0, 0)).iter().map(|b| b.vel.x).collect();
    assert_eq!(three, vec![-120, 0, 120]);
    let four: Vec<i64> = fire_volley(&cfg, WeaponMode::Quadruple, Point::new(0, 0)).iter().map(|b| b.vel.x).collect();
    assert_eq!(four, vec![-180, -60, 60, 180]);
    assert_eq!(fire_volley(&cfg, WeaponMode::Quintuple, Point::new(0, 0)).len(), 5);
    assert_eq!(fire_volley(&cfg, WeaponMode::Sextuple, Point::new(0, 0)).len(), 6);
    let seven: Vec<i64> = fire_volley(&cfg, WeaponMode::Septuple, Point::new(0, 0)).iter().map(|b| b.vel.x).collect();
    assert_eq!(seven, vec![-360, -240, -120, 0, 120, 240, 360]);
}

#[test]
fn fire_comes_from_the_muzzle() {
    let cfg = Config::standard();
    let (s, shots) = fire_player(&cfg, &ship(WeaponMode::Single), true, 16);
    assert_eq!(s, ship(WeaponMode::Single));
    assert_eq!(shots.len(), 1);
    assert_eq!(shots[0].pos, Point::new(0, -280_000));
    let (_, none) = fire_player(&cfg, &ship(WeaponMode::Septuple), false, 16);
    assert!(none.is_empty());
}

#[test]
fn rapid_fire_emits_one_shot_per_interval() {
    let cfg = Config::standard();
    let (s, shots) = fire_player(&cfg, &ship(WeaponMode::Rapid3), true, 16);
    // the first shot leaves at once, two stay queued
    assert_eq!(shots.len(), 1);
    assert_eq!(s.burst_left, 2);
    assert_eq!(s.burst_timer_ms, 100);
    let (s, shots) = fire_player(&cfg, &s, false, 50);
    assert!(shots.is_empty());
    assert_eq!(s.burst_timer_ms, 50);
    let (s, shots) = fire_player(&cfg, &s, false, 50);
    assert_eq!(shots.len(), 1);
    assert_eq!(s.burst_left, 1);
    let (s, shots) = fire_player(&cfg, &s, false, 100);
    assert_eq!(shots.len(), 1);
    assert_eq!(s.burst_left, 0);
    let (_, shots) = fire_player(&cfg, &s, false, 100);
    assert!(shots.is_empty());
}

#[test]
fn steering_sets_horizontal_speed() {
    let cfg = Config::standard();
    let s = ship(WeaponMode::Single);
    assert_eq!(steer(&cfg, &s, true, false).vel, Point::new(-500, 0));
    assert_eq!(steer(&cfg, &s, false, true).vel, Point::new(500, 0));
    assert_eq!(steer(&cfg, &s, true, true).vel, Point::new(0, 0));
}

#[test]
fn the_ship_stops_at_the_edge() {
    let cfg = Config::standard();
    let s = steer(&cfg, &ship(WeaponMode::Single), true, false);
    let moved = move_ship(&cfg, &s, 10_000);
    // 1280 / 2 - 30 / 2 pixels
    assert_eq!(moved.pos.x, -625_000);
    let s = steer(&cfg, &ship(WeaponMode::Single), false, true);
    let moved = move_ship(&cfg, &s, 100);
    assert_eq!(moved.pos.x, 50_000);
}

fn enemy(x: i64, y: i64, timer_ms: u32) -> Body {
    Body { pos: Point::new(x, y), vel: Point::new(0, 0), timer_ms, tag: Tag::Enemy(EnemyKind::Soldier) }
}

#[test]
fn enemies_fire_at_the_ship_only_from_the_playfield() {
    let cfg = Config::standard();
    let on = enemy(0, 100_000, 10);
    let off = enemy(0, 500_000, 10);
    let waiting = enemy(0, 100_000, 1000);
    let (kept, shots) = fire_enemies(&cfg, &vec![on, off, waiting], 16, Some(Point::new(0, -300_000)));
    assert_eq!(shots.len(), 1);
    assert_eq!(shots[0].pos, Point::new(0, 100_000));
    assert_eq!(shots[0].vel, Point::new(0, -216));
    assert_eq!(shots[0].tag, Tag::Projectile(Owner::FromEnemy));
    assert_eq!(kept[0].timer_ms, 2500);
    assert_eq!(kept[1].timer_ms, 2500);
    assert_eq!(kept[2].timer_ms, 984);
    let (_, none) = fire_enemies(&cfg, &vec![on], 16, None);
    assert!(none.is_empty());
}

#[test]
fn bodies_move_and_leave_past_the_margin() {
    let cfg = Config::standard();
    let inside = Body { pos: Point::new(0, 0), vel: Point::new(700, 0), timer_ms: 0, tag: Tag::Projectile(Owner::FromPlayer) };
    let leaving = Body { pos: Point::new(0, 455_000), vel: Point::new(0, 700), timer_ms: 0, tag: Tag::Projectile(Owner::FromPlayer) };
    let out = advance_all(&cfg, &vec![inside, leaving], 10);
    assert_eq!(out.len(), 1);
    assert_eq!(out[0].pos, Point::new(7_000, 0));
}

#[test]
fn effects_expire() {
    let cfg = Config::standard();
    let fx = Body { pos: Point::new(0, 0), vel: Point::new(0, 30), timer_ms: 300, tag: Tag::Effect(xgalaga::entity::EffectKind::Explosion) };
    let out = advance_all(&cfg, &vec![fx], 200);
    assert_eq!(out.len(), 1);
    assert_eq!(out[0].timer_ms, 100);
    assert_eq!(out[0].pos, Point::new(0, 6_000));
    assert!(advance_all(&cfg, &out, 100).is_empty());
}

#[test]
fn rolls_choose_the_drop() {
    let cfg = Config::standard();
    // r % 100 >= 20: nothing
    assert_eq!(payload_from_roll(&cfg, 20), None);
    assert_eq!(payload_from_roll(&cfg, 99), None);
    // r / 100 = 0: weight 0 is a weapon, the first upgrade
    assert_eq!(payload_from_roll(&cfg, 5), Some(Payload::WeaponUpgrade(WeaponMode::DoubleParallel)));
    // r / 100 = 8: an extra life
    assert_eq!(payload_from_roll(&cfg, 800), Some(Payload::ExtraLife));
    // r / 100 = 9: a skipped level
    assert_eq!(payload_from_roll(&cfg, 919), Some(Payload::SkipWave));
    // r / 100 = 21: weight 1, upgrade (21 / 10) % 11 = 2
    assert_eq!(payload_from_roll(&cfg, 2100), Some(Payload::WeaponUpgrade(WeaponMode::Triple)));
}
