use xgalaga::config::Config;
use xgalaga::dice::draw_rolls;
use xgalaga::director::Phase;
use xgalaga::entity::{Body, EffectKind, EnemyKind, Owner, Payload, Tag, WeaponMode};
use xgalaga::geometry::Point;
use xgalaga::sim::{Input, Rolls, Simulation};

fn idle() -> Input {
    Input { move_left: false, move_right: false, fire: false, pause_toggle: false, restart: false, quit: false }
}

fn no_drops() -> Rolls {
    // every roll is 99: 99 % 100 is above any drop chance below 100
    Rolls { spawn: 0, kills: vec![99; 16] }
}

fn quiet_config() -> Config {
    // enemies that never fire, so that only the test's own bodies matter
    let mut cfg = Config::standard();
    cfg.soldier_fire_ms = u32::MAX;
    cfg.boss_fire_ms = u32::MAX;
    cfg
}

fn enemy(kind: EnemyKind, x: i64, y: i64) -> Body {
    Body { pos: Point::new(x, y), vel: Point::new(0, 0), timer_ms: u32::MAX, tag: Tag::Enemy(kind) }
}

fn player_shot(x: i64, y: i64) -> Body {
    Body { pos: Point::new(x, y), vel: Point::new(0, 700), timer_ms: 0, tag: Tag::Projectile(Owner::FromPlayer) }
}

fn ship_pos(sim: &Simulation) -> Point {
    sim.ship.expect("the ship is alive").pos
}

#[test]
fn a_new_game_holds_only_the_ship() {
    let cfg = Config::standard();
    let sim = Simulation::new(cfg);
    let ship = sim.ship.unwrap();
    assert_eq!(ship.health, 3);
    assert_eq!(ship.pos, Point::new(0, -300_000));
    assert_eq!(ship.weapon, WeaponMode::Single);
    assert!(sim.enemies.is_empty() && sim.projectiles.is_empty() && sim.pickups.is_empty() && sim.effects.is_empty());
    assert_eq!(sim.score, 0);
    assert_eq!(sim.director.level, 1);
    assert_eq!(sim.director.wave, 1);
    assert_eq!(sim.director.phase, Phase::Spawning);
}

#[test]
fn a_shot_on_a_soldier_kills_it_next_tick() {
    let mut sim = Simulation::new(quiet_config());
    sim.enemies.push(enemy(EnemyKind::Soldier, 100_000, 100_000));
    sim.projectiles.push(player_shot(100_000, 100_000));
    let r = sim.step(16, &idle(), &no_drops());
    assert!(sim.enemies.is_empty());
    assert!(sim.projectiles.is_empty());
    assert_eq!(sim.score, 10);
    assert_eq!(sim.director.killed, 1);
    assert_eq!(r.soldier_kills, 1);
    assert_eq!(r.boss_kills, 0);
    // an explosion and a floating "+10"
    assert_eq!(sim.effects.len(), 2);
    assert_eq!(sim.effects[1].tag, Tag::Effect(EffectKind::FloatingScore(10)));
}

#[test]
fn two_disjoint_pairs_score_each_once() {
    let mut sim = Simulation::new(quiet_config());
    sim.enemies.push(enemy(EnemyKind::Soldier, -200_000, 100_000));
    sim.enemies.push(enemy(EnemyKind::Boss, 200_000, 100_000));
    sim.projectiles.push(player_shot(-200_000, 100_000));
    sim.projectiles.push(player_shot(200_000, 100_000));
    let r = sim.step(16, &idle(), &no_drops());
    assert_eq!(r.soldier_kills, 1);
    assert_eq!(r.boss_kills, 1);
    assert_eq!(sim.score, 10 + 100);
    assert!(sim.enemies.is_empty());
    assert!(sim.projectiles.is_empty());
}

#[test]
fn one_shot_kills_only_one_of_two_overlapping_enemies() {
    let mut sim = Simulation::new(quiet_config());
    sim.enemies.push(enemy(EnemyKind::Soldier, 0, 100_000));
    sim.enemies.push(enemy(EnemyKind::Soldier, 1_000, 100_000));
    sim.projectiles.push(player_shot(0, 100_000));
    let r = sim.step(16, &idle(), &no_drops());
    assert_eq!(r.soldier_kills, 1);
    assert_eq!(sim.score, 10);
    assert_eq!(sim.enemies.len(), 1);
    assert_eq!(sim.enemies[0].pos, Point::new(1_000, 100_000));
}

#[test]
fn three_rams_end_the_game_once() {
    let mut sim = Simulation::new(quiet_config());
    let mut game_overs = 0;
    for round in 0..3 {
        let at = ship_pos(&sim);
        sim.enemies.push(enemy(EnemyKind::Soldier, at.x, at.y));
        let r = sim.step(16, &idle(), &no_drops());
        assert_eq!(r.rams, 1);
        if r.game_over {
            game_overs += 1;
        }
        if round < 2 {
            assert_eq!(sim.ship.unwrap().health, 2 - round);
            assert!(!sim.game_over);
        }
    }
    assert!(sim.game_over);
    assert!(sim.ship.is_none());
    for _ in 0..5 {
        let r = sim.step(16, &idle(), &no_drops());
        if r.game_over {
            game_overs += 1;
        }
    }
    assert_eq!(game_overs, 1);
    assert!(sim.game_over);
}

#[test]
fn an_enemy_shot_costs_one_life() {
    let mut sim = Simulation::new(quiet_config());
    let at = ship_pos(&sim);
    sim.projectiles.push(Body { pos: at, vel: Point::new(0, 0), timer_ms: 0, tag: Tag::Projectile(Owner::FromEnemy) });
    let r = sim.step(16, &idle(), &no_drops());
    assert_eq!(r.hits, 1);
    assert_eq!(sim.ship.unwrap().health, 2);
    assert!(sim.projectiles.is_empty());
}

#[test]
fn a_full_spawn_phase_brings_the_whole_wave() {
    let cfg = quiet_config();
    let mut sim = Simulation::new(cfg);
    let mut bosses = 0;
    for _ in 0..cfg.enemies_per_wave {
        let r = sim.step(cfg.spawn_interval_ms, &idle(), &no_drops());
        if r.spawned == Some(EnemyKind::Boss) {
            bosses += 1;
        }
    }
    assert_eq!(sim.director.phase, Phase::Fighting);
    assert_eq!(sim.enemies.len(), cfg.enemies_per_wave as usize);
    assert_eq!(bosses, 1);
    assert_eq!(sim.enemies[9].tag, Tag::Enemy(EnemyKind::Boss));
}

#[test]
fn enemies_that_escape_still_end_the_wave_without_praise() {
    let cfg = quiet_config();
    let mut sim = Simulation::new(cfg);
    for _ in 0..cfg.enemies_per_wave {
        sim.step(cfg.spawn_interval_ms, &idle(), &no_drops());
    }
    assert_eq!(sim.director.phase, Phase::Fighting);
    // the first wave crosses from the left; let it fly off the right edge
    let mut cleared = false;
    for _ in 0..40 {
        let r = sim.step(500, &idle(), &no_drops());
        if r.wave_cleared {
            cleared = true;
            break;
        }
    }
    assert!(cleared);
    assert!(sim.enemies.is_empty());
    assert_eq!(sim.director.phase, Phase::Waiting);
    assert_eq!(sim.director.killed, 0);
    assert!(!sim.director.perfect);
}

#[test]
fn the_ship_never_leaves_the_playfield() {
    let cfg = Config::standard();
    let mut sim = Simulation::new(cfg);
    let left = Input { move_left: true, ..idle() };
    for _ in 0..50 {
        sim.step(100, &left, &no_drops());
        if let Some(s) = sim.ship {
            assert!(s.pos.x >= -625_000 && s.pos.x <= 625_000);
        }
    }
    assert_eq!(ship_pos(&sim).x, -625_000);
}

#[test]
fn an_extra_life_pickup_adds_a_life() {
    let mut sim = Simulation::new(quiet_config());
    let at = ship_pos(&sim);
    sim.pickups.push(Body { pos: at, vel: Point::new(0, 0), timer_ms: 0, tag: Tag::Pickup(Payload::ExtraLife) });
    let r = sim.step(16, &idle(), &no_drops());
    assert_eq!(r.extra_lives, 1);
    assert_eq!(sim.ship.unwrap().health, 4);
    assert!(sim.pickups.is_empty());
}

#[test]
fn a_weapon_pickup_changes_the_pattern() {
    let mut sim = Simulation::new(quiet_config());
    let at = ship_pos(&sim);
    sim.pickups.push(Body { pos: at, vel: Point::new(0, 0), timer_ms: 0, tag: Tag::Pickup(Payload::WeaponUpgrade(WeaponMode::Triple)) });
    sim.step(16, &idle(), &no_drops());
    assert_eq!(sim.ship.unwrap().weapon, WeaponMode::Triple);
    sim.step(16, &Input { fire: true, ..idle() }, &no_drops());
    assert_eq!(sim.projectiles.len(), 3);
}

#[test]
fn a_skip_pickup_completes_the_level() {
    let mut sim = Simulation::new(quiet_config());
    let at = ship_pos(&sim);
    sim.pickups.push(Body { pos: at, vel: Point::new(0, 0), timer_ms: 0, tag: Tag::Pickup(Payload::SkipWave) });
    let r = sim.step(16, &idle(), &no_drops());
    assert!(r.skipped);
    assert_eq!(sim.director.phase, Phase::LevelCompleted);
    sim.step(2000, &idle(), &no_drops());
    assert_eq!(sim.director.level, 2);
    assert_eq!(sim.director.wave, 1);
}

#[test]
fn a_lucky_kill_drops_a_pickup() {
    let mut sim = Simulation::new(quiet_config());
    sim.enemies.push(enemy(EnemyKind::Soldier, 100_000, 100_000));
    sim.projectiles.push(player_shot(100_000, 100_000));
    let rolls = Rolls { spawn: 0, kills: vec![800] };
    sim.step(16, &idle(), &rolls);
    assert_eq!(sim.pickups.len(), 1);
    assert_eq!(sim.pickups[0].tag, Tag::Pickup(Payload::ExtraLife));
    assert_eq!(sim.pickups[0].pos, Point::new(100_000, 100_000));
    assert_eq!(sim.pickups[0].vel, Point::new(0, -150));
}

#[test]
fn restart_resets_everything() {
    let cfg = quiet_config();
    let mut sim = Simulation::new(cfg);
    for _ in 0..4 {
        sim.step(cfg.spawn_interval_ms, &Input { fire: true, move_right: true, ..idle() }, &no_drops());
    }
    sim.score = 1234;
    sim.ship = None;
    sim.game_over = true;
    sim.step(16, &Input { restart: true, ..idle() }, &no_drops());
    assert_eq!(sim.score, 0);
    assert_eq!(sim.ship.unwrap().health, cfg.start_health);
    assert_eq!(sim.director.level, 1);
    assert_eq!(sim.director.wave, 1);
    assert!(sim.enemies.is_empty() && sim.projectiles.is_empty() && sim.pickups.is_empty() && sim.effects.is_empty());
    assert!(!sim.game_over);
}

#[test]
fn pause_freezes_the_game() {
    let mut sim = Simulation::new(Config::standard());
    sim.enemies.push(enemy(EnemyKind::Soldier, 0, 0));
    sim.step(16, &Input { pause_toggle: true, ..idle() }, &no_drops());
    assert!(sim.paused);
    let before = sim.enemies[0];
    sim.step(5000, &Input { fire: true, move_left: true, ..idle() }, &no_drops());
    assert_eq!(sim.enemies[0], before);
    assert!(sim.projectiles.is_empty());
    assert_eq!(sim.director.spawn_left_ms, 600);
    sim.step(16, &Input { pause_toggle: true, ..idle() }, &no_drops());
    assert!(!sim.paused);
}

#[test]
fn random_ticks_draw_enough_rolls() {
    let rolls = draw_rolls(5);
    assert_eq!(rolls.kills.len(), 5);
    let mut sim = Simulation::new(Config::standard());
    for _ in 0..20 {
        sim.tick(100, &idle());
    }
    assert!(sim.enemies.len() <= 10);
}
