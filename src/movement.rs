//! The movement integrator: every body moves by velocity times elapsed time;
//! bodies that leave the playfield by more than the margin, and effects whose
//! time is up, are removed. The ship is clamped to the playfield instead.
use crate::config::Config;
use crate::entity::{all_of, all_sound, class_of, Body, Class, Ship, Tag};
use crate::geometry::{Point, SPEED_LIMIT};
use vstd::prelude::*;

verus! {

/// `p` lies within the playfield extended by the margin.
pub open spec fn inside(cfg: Config, p: Point) -> bool {
    &&& -(cfg.width / 2 + cfg.margin) <= p.x <= cfg.width / 2 + cfg.margin
    &&& -(cfg.height / 2 + cfg.margin) <= p.y <= cfg.height / 2 + cfg.margin
}

/// `p` lies within the visible playfield.
pub open spec fn on_field(cfg: Config, p: Point) -> bool {
    &&& -(cfg.width / 2) <= p.x <= cfg.width / 2
    &&& -(cfg.height / 2) <= p.y <= cfg.height / 2
}

pub open spec fn displaced(p: Point, v: Point, dt: u32) -> Point {
    Point { x: (p.x + v.x * dt) as i64, y: (p.y + v.y * dt) as i64 }
}

/// A body `dt` milliseconds later; an effect's remaining life shrinks too.
pub open spec fn moved(b: Body, dt: u32) -> Body {
    Body {
        pos: displaced(b.pos, b.vel, dt),
        timer_ms: if b.tag is Effect {
            if dt < b.timer_ms {
                (b.timer_ms - dt) as u32
            } else {
                0
            }
        } else {
            b.timer_ms
        },
        ..b
    }
}

/// A body is kept after the move when it is still inside the extended
/// playfield and, for an effect, its life has not run out.
pub open spec fn survives(cfg: Config, b: Body, dt: u32) -> bool {
    inside(cfg, moved(b, dt).pos) && (b.tag is Effect ==> dt < b.timer_ms)
}

/// The bodies of `s`, moved, without those that do not survive, in order.
pub open spec fn advance_bodies(cfg: Config, s: Seq<Body>, dt: u32) -> Seq<Body>
    decreases s.len(),
{
    if s.len() == 0 {
        seq![]
    } else {
        let rest = advance_bodies(cfg, s.drop_last(), dt);
        if survives(cfg, s.last(), dt) {
            rest.push(moved(s.last(), dt))
        } else {
            rest
        }
    }
}

pub open spec fn clamp(v: int, lo: int, hi: int) -> int {
    if v < lo {
        lo
    } else if v > hi {
        hi
    } else {
        v
    }
}

/// The ship `dt` milliseconds later: it slides sideways and stops at the edge.
pub open spec fn ship_moved(cfg: Config, s: Ship, dt: u32) -> Ship {
    let x = clamp(s.pos.x + s.vel.x * dt, -cfg.ship_limit(), cfg.ship_limit());
    Ship { pos: Point { x: x as i64, y: s.pos.y }, ..s }
}

proof fn lemma_step_bound(v: int, dt: int)
    requires
        -SPEED_LIMIT <= v <= SPEED_LIMIT,
        0 <= dt <= u32::MAX,
    ensures
        -0x1000_0000_0000_0000 <= v * dt <= 0x1000_0000_0000_0000,
{
    assert(-0x1000_0000 * 0x1_0000_0000 <= v * dt <= 0x1000_0000 * 0x1_0000_0000) by (nonlinear_arith)
        requires
            -0x1000_0000 <= v <= 0x1000_0000,
            0 <= dt <= 0x1_0000_0000,
    ;
}

/// Advancing keeps every body sound and in its store.
pub proof fn lemma_advance_bodies(cfg: Config, s: Seq<Body>, dt: u32, c: Class)
    requires
        cfg.wf(),
        all_sound(s),
        all_of(s, c),
    ensures
        all_sound(advance_bodies(cfg, s, dt)),
        all_of(advance_bodies(cfg, s, dt), c),
        advance_bodies(cfg, s, dt).len() <= s.len(),
    decreases s.len(),
{
    if s.len() > 0 {
        let p = s.drop_last();
        assert forall|i: int| 0 <= i < p.len() implies (#[trigger] p[i]).sound() && class_of(p[i].tag)
            == c by {
            assert(p[i] == s[i]);
        }
        lemma_advance_bodies(cfg, p, dt, c);
        assert(s.last() == s[s.len() - 1]);
        let out = advance_bodies(cfg, s, dt);
        let rest = advance_bodies(cfg, p, dt);
        assert forall|i: int| 0 <= i < out.len() implies (#[trigger] out[i]).sound() && class_of(
            out[i].tag,
        ) == c by {
            if i < rest.len() {
                assert(out[i] == rest[i]);
            }
        }
    }
}

fn move_body(cfg: &Config, b: &Body, dt: u32) -> (r: (Body, bool))
    requires
        cfg.wf(),
        b.sound(),
    ensures
        r.0 == moved(*b, dt),
        r.1 == survives(*cfg, *b, dt),
        r.1 ==> r.0.sound(),
{
    proof {
        lemma_step_bound(b.vel.x as int, dt as int);
        lemma_step_bound(b.vel.y as int, dt as int);
    }
    let x = b.pos.x + b.vel.x * (dt as i64);
    let y = b.pos.y + b.vel.y * (dt as i64);
    let timer_ms = match b.tag {
        Tag::Effect(_) => if dt < b.timer_ms {
            b.timer_ms - dt
        } else {
            0
        },
        _ => b.timer_ms,
    };
    let nb = Body { pos: Point { x, y }, timer_ms, ..*b };
    let half_w = cfg.width / 2 + cfg.margin;
    let half_h = cfg.height / 2 + cfg.margin;
    let keep_time = match b.tag {
        Tag::Effect(_) => dt < b.timer_ms,
        _ => true,
    };
    let keep = -half_w <= x && x <= half_w && -half_h <= y && y <= half_h && keep_time;
    (nb, keep)
}

/// Moves every body of `bodies` and drops those that do not survive.
pub fn advance_all(cfg: &Config, bodies: &Vec<Body>, dt: u32) -> (out: Vec<Body>)
    requires
        cfg.wf(),
        all_sound(bodies@),
    ensures
        out@ == advance_bodies(*cfg, bodies@, dt),
{
    let mut out: Vec<Body> = Vec::new();
    let mut i: usize = 0;
    while i < bodies.len()
        invariant
            cfg.wf(),
            all_sound(bodies@),
            i <= bodies.len(),
            out@ == advance_bodies(*cfg, bodies@.take(i as int), dt),
        decreases bodies.len() - i,
    {
        let (nb, keep) = move_body(cfg, &bodies[i], dt);
        assert(bodies@.take(i + 1).drop_last() == bodies@.take(i as int));
        if keep {
            out.push(nb);
        }
        i += 1;
    }
    assert(bodies@.take(bodies.len() as int) == bodies@);
    out
}

/// Moves the ship sideways and keeps it on the playfield.
pub fn move_ship(cfg: &Config, s: &Ship, dt: u32) -> (r: Ship)
    requires
        cfg.wf(),
        s.pos.bounded(),
        s.vel.slow(),
    ensures
        r == ship_moved(*cfg, *s, dt),
        -cfg.ship_limit() <= r.pos.x <= cfg.ship_limit(),
{
    proof {
        lemma_step_bound(s.vel.x as int, dt as int);
    }
    let limit = cfg.width / 2 - cfg.ship_width / 2;
    let mut x = s.pos.x + s.vel.x * (dt as i64);
    if x < -limit {
        x = -limit;
    } else if x > limit {
        x = limit;
    }
    Ship { pos: Point { x, y: s.pos.y }, ..*s }
}

} // verus!
