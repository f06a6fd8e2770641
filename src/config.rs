//! Fixed parameters of a game. Lengths are in milli-pixels, speeds in pixels
//! per second (milli-pixels per millisecond), durations in milliseconds. The
//! playfield is centred on the origin with the y axis pointing up.
use vstd::prelude::*;

verus! {

/// Bound on every length, speed, count and score value of a configuration (2^24).
pub const CFG_MAX: i64 = 16_777_216;

#[derive(Clone, Copy, Debug, PartialEq, Eq, Structural)]
pub struct Config {
    pub width: i64,
    pub height: i64,
    /// How far past the playfield edge a body may drift before it is removed.
    pub margin: i64,
    pub ship_width: i64,
    pub ship_start_y: i64,
    pub ship_speed: i64,
    pub bullet_speed: i64,
    pub enemy_speed: i64,
    pub enemy_bullet_speed: i64,
    pub pickup_speed: i64,
    pub score_drift: i64,
    pub ship_radius: i64,
    pub projectile_radius: i64,
    pub soldier_radius: i64,
    pub boss_radius: i64,
    pub pickup_radius: i64,
    /// Height above the ship at which its projectiles appear.
    pub muzzle_offset: i64,
    /// Horizontal distance of each parallel twin shot from the ship's centre.
    pub twin_offset: i64,
    /// Horizontal speed of each shot of a V pair.
    pub vee_spread: i64,
    /// Half the horizontal speed between neighbouring shots of a fan.
    pub fan_half_step: i64,
    /// Distance outside the playfield at which enemies appear.
    pub entry_gap: i64,
    /// Height at which enemies arriving from a side appear.
    pub side_entry_y: i64,
    /// Downward speed of enemies arriving from a side.
    pub side_drift: i64,
    pub start_health: u32,
    pub enemies_per_wave: u32,
    pub waves_per_level: u32,
    pub levels: u32,
    /// The last enemy of every wave is a boss.
    pub boss_rule: bool,
    pub spawn_interval_ms: u32,
    pub wave_pause_ms: u32,
    pub soldier_fire_ms: u32,
    pub boss_fire_ms: u32,
    pub burst_interval_ms: u32,
    pub explosion_ms: u32,
    pub score_text_ms: u32,
    pub soldier_value: u64,
    pub boss_value: u64,
    /// Chance, in percent, that a kill drops a pickup.
    pub drop_percent: u32,
    pub weapon_weight: u32,
    pub life_weight: u32,
    pub skip_weight: u32,
}

pub open spec fn in_cfg_range(v: int) -> bool {
    0 <= v <= CFG_MAX
}

impl Config {
    pub open spec fn wf(self) -> bool {
        &&& 0 < self.width <= CFG_MAX
        &&& 0 < self.height <= CFG_MAX
        &&& 0 <= self.ship_width <= self.width
        &&& -CFG_MAX <= self.ship_start_y <= CFG_MAX
        &&& in_cfg_range(self.margin as int)
        &&& in_cfg_range(self.ship_speed as int)
        &&& in_cfg_range(self.bullet_speed as int)
        &&& in_cfg_range(self.enemy_speed as int)
        &&& in_cfg_range(self.enemy_bullet_speed as int)
        &&& in_cfg_range(self.pickup_speed as int)
        &&& in_cfg_range(self.score_drift as int)
        &&& in_cfg_range(self.ship_radius as int)
        &&& in_cfg_range(self.projectile_radius as int)
        &&& in_cfg_range(self.soldier_radius as int)
        &&& in_cfg_range(self.boss_radius as int)
        &&& in_cfg_range(self.pickup_radius as int)
        &&& in_cfg_range(self.muzzle_offset as int)
        &&& in_cfg_range(self.twin_offset as int)
        &&& in_cfg_range(self.vee_spread as int)
        &&& in_cfg_range(self.fan_half_step as int)
        &&& in_cfg_range(self.entry_gap as int)
        &&& -CFG_MAX <= self.side_entry_y <= CFG_MAX
        &&& in_cfg_range(self.side_drift as int)
        &&& 1 <= self.start_health <= CFG_MAX
        &&& 1 <= self.enemies_per_wave <= CFG_MAX
        &&& 1 <= self.waves_per_level <= CFG_MAX
        &&& 1 <= self.levels <= CFG_MAX
        &&& self.soldier_value <= CFG_MAX
        &&& self.boss_value <= CFG_MAX
        &&& self.drop_percent <= 100
        &&& self.weapon_weight <= CFG_MAX
        &&& self.life_weight <= CFG_MAX
        &&& self.skip_weight <= CFG_MAX
        &&& self.drop_percent > 0 ==> self.weapon_weight + self.life_weight + self.skip_weight > 0
    }

    /// Furthest the ship's centre may stray from the middle of the playfield.
    pub open spec fn ship_limit(self) -> int {
        self.width / 2 - self.ship_width / 2
    }

    /// The parameters of the classic game: a 1280 by 720 playfield, three
    /// lives, three levels of five waves of ten enemies each.
    pub fn standard() -> (c: Config)
        ensures
            c.wf(),
            c.start_health == 3,
            c.enemies_per_wave == 10,
            c.waves_per_level == 5,
            c.levels == 3,
            c.boss_rule,
            c.soldier_value == 10,
            c.boss_value == 100,
            c.width == 1_280_000,
            c.height == 720_000,
            c.ship_width == 30_000,
            c.spawn_interval_ms == 600,
            c.wave_pause_ms == 2000,
            c.soldier_fire_ms == 2500,
            c.boss_fire_ms == 1200,
            c.burst_interval_ms == 100,
            c.drop_percent == 20,
    {
        Config {
            width: 1_280_000,
            height: 720_000,
            margin: 100_000,
            ship_width: 30_000,
            ship_start_y: -300_000,
            ship_speed: 500,
            bullet_speed: 700,
            enemy_speed: 120,
            enemy_bullet_speed: 216,
            pickup_speed: 150,
            score_drift: 30,
            ship_radius: 12_000,
            projectile_radius: 3_000,
            soldier_radius: 22_000,
            boss_radius: 47_000,
            pickup_radius: 13_000,
            muzzle_offset: 20_000,
            twin_offset: 10_000,
            vee_spread: 150,
            fan_half_step: 60,
            entry_gap: 20_000,
            side_entry_y: 200_000,
            side_drift: 20,
            start_health: 3,
            enemies_per_wave: 10,
            waves_per_level: 5,
            levels: 3,
            boss_rule: true,
            spawn_interval_ms: 600,
            wave_pause_ms: 2000,
            soldier_fire_ms: 2500,
            boss_fire_ms: 1200,
            burst_interval_ms: 100,
            explosion_ms: 300,
            score_text_ms: 600,
            soldier_value: 10,
            boss_value: 100,
            drop_percent: 20,
            weapon_weight: 8,
            life_weight: 1,
            skip_weight: 1,
        }
    }
}

} // verus!
