//! Random numbers for the simulation, drawn from the `rand` crate.
use crate::sim::{step_spec, Input, Report, Rolls, Simulation};
use vstd::prelude::*;

verus! {

/// Relies on `rand::random`, which draws a value from the thread-local
/// generator; nothing is promised of the value.
pub assume_specification<T>[ rand::random::<T> ]() -> (r: T)
    where
        rand::distributions::Standard: rand::distributions::Distribution<T>,
;

/// One random roll for an arriving enemy and `kills` rolls for kills.
pub fn draw_rolls(kills: usize) -> (r: Rolls)
    ensures
        r.kills@.len() == kills,
{
    let spawn: u32 = rand::random::<u32>();
    let mut rolls: Vec<u32> = Vec::new();
    let mut i: usize = 0;
    while i < kills
        invariant
            i <= kills,
            rolls@.len() == i,
        decreases kills - i,
    {
        rolls.push(rand::random::<u32>());
        i += 1;
    }
    Rolls { spawn, kills: rolls }
}

/// The most projectiles the player can add in one tick: a full fan and one
/// queued burst shot.
pub const MAX_NEW_SHOTS: usize = 8;

/// Rolls drawn for a tick that starts with `shots` projectiles in play.
pub open spec fn roll_count(shots: nat) -> nat {
    if shots <= usize::MAX - MAX_NEW_SHOTS {
        (shots + MAX_NEW_SHOTS) as nat
    } else {
        usize::MAX as nat
    }
}

impl Simulation {
    /// Advances the game by `dt` milliseconds with freshly drawn random
    /// numbers: one roll for every projectile that could score a kill.
    pub fn tick(&mut self, dt: u32, input: &Input) -> (r: Report)
        requires
            old(self).wf(),
        ensures
            final(self).config == old(self).config,
            final(self).wf(),
            exists|spawn: u32, kills: Seq<u32>|
                kills.len() == roll_count(old(self).projectiles@.len()) && (final(self)@, r)
                    == step_spec(old(self).config, old(self)@, dt, *input, spawn, kills),
    {
        let n = if self.projectiles.len() <= usize::MAX - MAX_NEW_SHOTS {
            self.projectiles.len() + MAX_NEW_SHOTS
        } else {
            usize::MAX
        };
        let rolls = draw_rolls(n);
        self.step(dt, input, &rolls)
    }
}

} // verus!
