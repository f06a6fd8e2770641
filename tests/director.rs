use xgalaga::config::Config;
use xgalaga::director::{Direction, Director, Phase};
use xgalaga::entity::EnemyKind;

#[test]
fn first_waves_arrive_left_right_top_then_cycle() {
    let cfg = Config::standard();
    assert_eq!(Director::direction(&cfg, 1, 1), Direction::Left);
    assert_eq!(Director::direction(&cfg, 1, 2), Direction::Right);
    assert_eq!(Director::direction(&cfg, 1, 3), Direction::Top);
    assert_eq!(Director::direction(&cfg, 1, 4), Direction::Left);
    // level 2 wave 1 is the sixth wave overall
    assert_eq!(Director::direction(&cfg, 2, 1), Direction::Top);
    assert_eq!(Director::direction(&cfg, 2, 2), Direction::Left);
}

#[test]
fn a_wave_spawns_its_quota_with_one_boss_last() {
    let cfg = Config::standard();
    let mut d = Director::new(&cfg);
    let mut kinds = Vec::new();
    for _ in 0..cfg.enemies_per_wave {
        let (next, order) = d.advance(&cfg, cfg.spawn_interval_ms, kinds.len(), false);
        let o = order.expect("one enemy per interval");
        assert_eq!(o.index as usize, kinds.len());
        kinds.push(o.kind);
        d = next;
    }
    assert_eq!(d.phase, Phase::Fighting);
    assert_eq!(d.spawned, cfg.enemies_per_wave);
    assert_eq!(kinds.len(), 10);
    assert_eq!(kinds.iter().filter(|k| **k == EnemyKind::Boss).count(), 1);
    assert_eq!(kinds[9], EnemyKind::Boss);
    // no more enemies once the quota is reached
    let (_, order) = d.advance(&cfg, cfg.spawn_interval_ms, 10, false);
    assert!(order.is_none());
}

#[test]
fn no_boss_without_the_boss_rule() {
    let mut cfg = Config::standard();
    cfg.boss_rule = false;
    let mut d = Director::new(&cfg);
    for _ in 0..cfg.enemies_per_wave {
        let (next, order) = d.advance(&cfg, cfg.spawn_interval_ms, 0, false);
        assert_eq!(order.unwrap().kind, EnemyKind::Soldier);
        d = next;
    }
}

#[test]
fn spawn_timer_counts_down_between_enemies() {
    let cfg = Config::standard();
    let d = Director::new(&cfg);
    let (d, order) = d.advance(&cfg, 250, 0, false);
    assert!(order.is_none());
    assert_eq!(d.spawn_left_ms, 350);
    let (d, order) = d.advance(&cfg, 350, 0, false);
    assert!(order.is_some());
    assert_eq!(d.spawn_left_ms, 600);
}

fn fighting(cfg: &Config, killed: u32, wave: u32) -> Director {
    Director {
        phase: Phase::Fighting,
        level: 1,
        wave,
        spawned: cfg.enemies_per_wave,
        killed,
        spawn_left_ms: cfg.spawn_interval_ms,
        pause_left_ms: 0,
        perfect: false,
        victory: false,
    }
}

#[test]
fn fighting_ends_only_when_no_enemy_is_left() {
    let cfg = Config::standard();
    let d = fighting(&cfg, 3, 1);
    let (d2, _) = d.advance(&cfg, 1000, 2, false);
    assert_eq!(d2.phase, Phase::Fighting);
    let (d3, _) = d2.advance(&cfg, 16, 0, false);
    assert_eq!(d3.phase, Phase::Waiting);
    assert_eq!(d3.pause_left_ms, cfg.wave_pause_ms);
    // leaving Fighting happens once: the next ticks pause, then a new wave spawns
    let (d4, _) = d3.advance(&cfg, 16, 0, false);
    assert_eq!(d4.phase, Phase::Waiting);
    let (d5, _) = d4.advance(&cfg, cfg.wave_pause_ms, 0, false);
    assert_eq!(d5.phase, Phase::Spawning);
    assert_eq!(d5.wave, 2);
    assert_eq!(d5.spawned, 0);
    assert_eq!(d5.killed, 0);
}

#[test]
fn escaped_enemies_do_not_make_a_perfect_wave() {
    let cfg = Config::standard();
    let (d, _) = fighting(&cfg, 0, 1).advance(&cfg, 16, 0, false);
    assert_eq!(d.phase, Phase::Waiting);
    assert!(!d.perfect);
    let (d, _) = fighting(&cfg, 10, 1).advance(&cfg, 16, 0, false);
    assert!(d.perfect);
}

#[test]
fn the_fifth_wave_completes_the_level() {
    let cfg = Config::standard();
    let (d, _) = fighting(&cfg, 0, 5).advance(&cfg, 16, 0, false);
    assert_eq!(d.phase, Phase::LevelCompleted);
    let (d, _) = d.advance(&cfg, cfg.wave_pause_ms, 0, false);
    assert_eq!(d.phase, Phase::Spawning);
    assert_eq!(d.level, 2);
    assert_eq!(d.wave, 1);
}

#[test]
fn clearing_the_last_level_is_victory() {
    let cfg = Config::standard();
    let mut d = fighting(&cfg, 0, 5);
    d.level = 3;
    let (d, _) = d.advance(&cfg, 16, 0, false);
    assert_eq!(d.phase, Phase::LevelCompleted);
    let (d, _) = d.advance(&cfg, cfg.wave_pause_ms, 0, false);
    assert!(d.victory);
    assert_eq!(d.level, 3);
    // a victorious director does nothing more
    let (d2, order) = d.advance(&cfg, 100_000, 0, false);
    assert_eq!(d2, d);
    assert!(order.is_none());
}

#[test]
fn a_halted_director_does_nothing() {
    let cfg = Config::standard();
    let d = Director::new(&cfg);
    let (d2, order) = d.advance(&cfg, 100_000, 0, true);
    assert_eq!(d2, d);
    assert!(order.is_none());
}

#[test]
fn a_skip_completes_the_level_early() {
    let cfg = Config::standard();
    let d = Director::new(&cfg);
    let d = d.skip(&cfg);
    assert_eq!(d.phase, Phase::LevelCompleted);
    assert_eq!(d.pause_left_ms, cfg.wave_pause_ms);
}

#[test]
fn kill_counter_saturates() {
    let cfg = Config::standard();
    let d = Director::new(&cfg).record_kills(3);
    assert_eq!(d.killed, 3);
    let d = d.record_kills(u64::MAX);
    assert_eq!(d.killed, u32::MAX);
}
