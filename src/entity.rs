//! The entity records held by the simulation.
use crate::geometry::Point;
use vstd::prelude::*;

verus! {

#[derive(Clone, Copy, Debug, PartialEq, Eq, Structural)]
pub enum EnemyKind {
    Soldier,
    Boss,
}

/// Who fired a projectile; fixed for the projectile's whole life.
#[derive(Clone, Copy, Debug, PartialEq, Eq, Structural)]
pub enum Owner {
    FromPlayer,
    FromEnemy,
}

/// The ship's firing pattern.
#[derive(Clone, Copy, Debug, PartialEq, Eq, Structural)]
pub enum WeaponMode {
    Single,
    DoubleParallel,
    DoubleV,
    Triple,
    Quadruple,
    Quintuple,
    Sextuple,
    Septuple,
    Rapid2,
    Rapid3,
    Rapid4,
    Rapid5,
}

/// What a pickup grants when the ship touches it.
#[derive(Clone, Copy, Debug, PartialEq, Eq, Structural)]
pub enum Payload {
    WeaponUpgrade(WeaponMode),
    ExtraLife,
    SkipWave,
}

#[derive(Clone, Copy, Debug, PartialEq, Eq, Structural)]
pub enum EffectKind {
    Explosion,
    FloatingScore(u64),
}

/// What a non-ship entity is.
#[derive(Clone, Copy, Debug, PartialEq, Eq, Structural)]
pub enum Tag {
    Enemy(EnemyKind),
    Projectile(Owner),
    Pickup(Payload),
    Effect(EffectKind),
}

/// Any entity but the ship. `timer_ms` is an enemy's time to its next shot
/// or an effect's remaining life; other entities leave it at zero.
#[derive(Clone, Copy, Debug, PartialEq, Eq, Structural)]
pub struct Body {
    pub pos: Point,
    pub vel: Point,
    pub timer_ms: u32,
    pub tag: Tag,
}

/// The player's ship. `burst_left` shots of a rapid-fire burst are still owed,
/// the next one due in `burst_timer_ms`.
#[derive(Clone, Copy, Debug, PartialEq, Eq, Structural)]
pub struct Ship {
    pub pos: Point,
    pub vel: Point,
    pub health: u32,
    pub weapon: WeaponMode,
    pub burst_left: u32,
    pub burst_timer_ms: u32,
}

impl Body {
    /// Sound position and speed: what every stored body satisfies.
    pub open spec fn sound(self) -> bool {
        self.pos.bounded() && self.vel.slow()
    }
}

/// The four stores of the simulation, one per kind of body.
#[derive(Clone, Copy, Debug, PartialEq, Eq, Structural)]
pub enum Class {
    Enemies,
    Projectiles,
    Pickups,
    Effects,
}

pub open spec fn class_of(t: Tag) -> Class {
    match t {
        Tag::Enemy(_) => Class::Enemies,
        Tag::Projectile(_) => Class::Projectiles,
        Tag::Pickup(_) => Class::Pickups,
        Tag::Effect(_) => Class::Effects,
    }
}

/// Every body of `s` belongs in store `c`.
pub open spec fn all_of(s: Seq<Body>, c: Class) -> bool {
    forall|i: int| 0 <= i < s.len() ==> class_of((#[trigger] s[i]).tag) == c
}

/// Every body of `s` is sound.
pub open spec fn all_sound(s: Seq<Body>) -> bool {
    forall|i: int| 0 <= i < s.len() ==> (#[trigger] s[i]).sound()
}

pub open spec fn enemy_kind(b: Body) -> EnemyKind {
    match b.tag {
        Tag::Enemy(k) => k,
        _ => EnemyKind::Soldier,
    }
}

pub open spec fn owner_of(b: Body) -> Owner {
    match b.tag {
        Tag::Projectile(o) => o,
        _ => Owner::FromEnemy,
    }
}

/// Appending a sound body keeps a sequence sound.
pub proof fn lemma_push_sound(s: Seq<Body>, b: Body)
    requires
        all_sound(s),
        b.sound(),
    ensures
        all_sound(s.push(b)),
{
    assert forall|i: int| 0 <= i < s.push(b).len() implies (#[trigger] s.push(b)[i]).sound() by {
        if i < s.len() {
            assert(s.push(b)[i] == s[i]);
        }
    }
}

/// Joining two sound sequences gives a sound sequence.
pub proof fn lemma_concat_sound(a: Seq<Body>, b: Seq<Body>)
    requires
        all_sound(a),
        all_sound(b),
    ensures
        all_sound(a + b),
{
    assert forall|i: int| 0 <= i < (a + b).len() implies (#[trigger] (a + b)[i]).sound() by {
        if i < a.len() {
            assert((a + b)[i] == a[i]);
        } else {
            assert((a + b)[i] == b[i - a.len()]);
        }
    }
}

/// Appending a body of class `c` keeps a sequence within `c`.
pub proof fn lemma_push_of(s: Seq<Body>, b: Body, c: Class)
    requires
        all_of(s, c),
        class_of(b.tag) == c,
    ensures
        all_of(s.push(b), c),
{
    assert forall|i: int| 0 <= i < s.push(b).len() implies class_of((#[trigger] s.push(b)[i]).tag)
        == c by {
        if i < s.len() {
            assert(s.push(b)[i] == s[i]);
        }
    }
}

/// Joining two sequences within class `c` stays within `c`.
pub proof fn lemma_concat_of(a: Seq<Body>, b: Seq<Body>, c: Class)
    requires
        all_of(a, c),
        all_of(b, c),
    ensures
        all_of(a + b, c),
{
    assert forall|i: int| 0 <= i < (a + b).len() implies class_of((#[trigger] (a + b)[i]).tag) == c by {
        if i < a.len() {
            assert((a + b)[i] == a[i]);
        } else {
            assert((a + b)[i] == b[i - a.len()]);
        }
    }
}

} // verus!
