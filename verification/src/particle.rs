//! Particles: the short-lived point masses a detonation throws out.  Each
//! one drifts along a fixed direction under friction and gravity, fades by
//! a fixed per-particle decay, and self-removes once another fade step
//! would take its opacity to its decay rate or below.
use vstd::prelude::*;

use rand::rngs::StdRng;

use crate::geom::Point;
use crate::model::Model;
use crate::P_TRAIL_LEN;
use crate::geom::scaled_component;
use crate::sampling::rand_in_range;
use crate::sampling::random_direction;
use crate::ALPHA_INIT;
use crate::COORD_LIMIT;
use crate::DECAY_HI;
use crate::DECAY_LO;
use crate::HUE_LIMIT;
use crate::HUE_SWING;
use crate::P_BRIGHT_HI;
use crate::P_BRIGHT_LO;
use crate::P_FRICTION;
use crate::P_GRAVITY;
use crate::P_HUE_LIMIT;
use crate::P_SPEED_HI;
use crate::P_SPEED_LO;
use crate::P_STEP_MAX;
use crate::SCALE;
use crate::TRAIL_MAX;

verus! {

/// One particle of a detonation burst.  The fixed movement angle is
/// carried as its unit direction vector `(dir_x, dir_y)`, in model units.
pub struct Particle {
    pub x: i64,
    pub y: i64,
    pub trail: Vec<Point>,
    pub dir_x: i64,
    pub dir_y: i64,
    pub speed: i64,
    pub friction: i64,
    pub gravity: i64,
    pub hue: i64,
    pub brightness: i64,
    pub alpha: i64,
    pub decay: i64,
}

/// A particle can drift at most `P_STEP_MAX` per tick and fades by at least
/// `DECAY_LO` per tick, so how far a coordinate may sit from the origin
/// band is bounded by how much opacity the particle has already spent.
pub open spec fn p_pos_ok(c: int, alpha: int) -> bool {
    &&& DECAY_LO * c <= DECAY_LO * COORD_LIMIT + (ALPHA_INIT - alpha) * P_STEP_MAX
    &&& DECAY_LO * (-c) <= DECAY_LO * COORD_LIMIT + (ALPHA_INIT - alpha) * P_STEP_MAX
}

/// Well-formedness of a live particle.  In particular a live particle's
/// opacity always exceeds its own decay rate: the update pass removes any
/// particle for which that would stop holding.
pub open spec fn p_wf(p: Particle) -> bool {
    &&& -SCALE <= p.dir_x <= SCALE
    &&& -SCALE <= p.dir_y <= SCALE
    &&& 0 <= p.speed <= P_SPEED_HI
    &&& 0 < p.friction < SCALE
    &&& 0 <= p.gravity <= P_GRAVITY
    &&& DECAY_LO <= p.decay <= DECAY_HI
    &&& p.decay < p.alpha <= ALPHA_INIT
    &&& -P_HUE_LIMIT <= p.hue <= P_HUE_LIMIT
    &&& 0 <= p.brightness <= SCALE
    &&& 1 <= p.trail@.len() <= TRAIL_MAX
    &&& p_pos_ok(p.x as int, p.alpha as int)
    &&& p_pos_ok(p.y as int, p.alpha as int)
}

/// Coordinates of a live, well-formed particle stay far from overflow.
pub proof fn lemma_p_pos_bounded(c: int, alpha: int)
    requires
        p_pos_ok(c, alpha),
        0 < alpha,
    ensures
        -101_000_000 <= c <= 101_000_000,
{
}

/// The speed after one tick of friction.
pub open spec fn p_next_speed(p: Particle) -> int {
    (p.speed * p.friction) / (SCALE as int)
}

/// How one update tick transforms a surviving particle: the trail slides by
/// one (newest position first), friction scales the speed down, the
/// position advances along the fixed direction with gravity pulling down,
/// and the opacity drops by the particle's decay rate.
pub open spec fn p_step_rel(pre: Particle, post: Particle) -> bool {
    &&& post.trail@ == seq![Point { x: pre.x, y: pre.y }] + pre.trail@.drop_last()
    &&& post.speed == p_next_speed(pre)
    &&& post.x == pre.x + scaled_component(pre.dir_x as int, p_next_speed(pre))
    &&& post.y == pre.y + scaled_component(pre.dir_y as int, p_next_speed(pre)) - pre.gravity
    &&& post.alpha == pre.alpha - pre.decay
    &&& post.dir_x == pre.dir_x
    &&& post.dir_y == pre.dir_y
    &&& post.friction == pre.friction
    &&& post.gravity == pre.gravity
    &&& post.hue == pre.hue
    &&& post.brightness == pre.brightness
    &&& post.decay == pre.decay
}

/// A particle stays in the collection after a tick only while the opacity
/// left after fading still exceeds its decay rate.
pub open spec fn p_survives(p: Particle) -> bool {
    p.alpha - p.decay > p.decay
}

/// The particles of `s` that survive one update tick, in order, still
/// holding their pre-tick values.
pub open spec fn p_live_seq(s: Seq<Particle>) -> Seq<Particle>
    decreases s.len(),
{
    if s.len() == 0 {
        Seq::empty()
    } else {
        let rest = p_live_seq(s.drop_last());
        if p_survives(s.last()) {
            rest.push(s.last())
        } else {
            rest
        }
    }
}

pub proof fn lemma_p_live_seq_len(s: Seq<Particle>)
    ensures
        p_live_seq(s).len() <= s.len(),
    decreases s.len(),
{
    if s.len() > 0 {
        lemma_p_live_seq_len(s.drop_last());
    }
}

pub proof fn lemma_p_live_seq_push(s: Seq<Particle>, p: Particle)
    ensures
        p_live_seq(s.push(p)) == if p_survives(p) {
            p_live_seq(s).push(p)
        } else {
            p_live_seq(s)
        },
{
    assert(s.push(p).drop_last() =~= s);
    assert(s.push(p).last() == p);
}

/// What creation promises of a fresh particle thrown out at `(x, y)` with
/// reference hue `hue`: the deterministic fields exactly, and each sampled
/// field within its band.
pub open spec fn p_fresh(p: Particle, x: int, y: int, hue: int) -> bool {
    &&& p.x == x
    &&& p.y == y
    &&& forall|i: int|
        0 <= i < p.trail@.len() ==> (#[trigger] p.trail@[i]).x == x && p.trail@[i].y == y
    &&& -SCALE <= p.dir_x <= SCALE
    &&& -SCALE <= p.dir_y <= SCALE
    &&& crate::geom::is_unit_dir(p.dir_x as int, p.dir_y as int)
    &&& P_SPEED_LO <= p.speed < P_SPEED_HI
    &&& p.friction == P_FRICTION
    &&& p.gravity == P_GRAVITY
    &&& hue - HUE_SWING <= p.hue < hue + HUE_SWING
    &&& P_BRIGHT_LO <= p.brightness < P_BRIGHT_HI
    &&& p.alpha == ALPHA_INIT
    &&& DECAY_LO <= p.decay < DECAY_HI
}

impl Particle {
    /// One fresh particle at `(x, y)`: direction drawn over the full
    /// circle, speed, hue swing, brightness and decay drawn within their
    /// bands, trail pre-filled with the origin.
    pub fn new(x: i64, y: i64, trail_len: usize, hue: i64, rng: &mut StdRng) -> (p: Particle)
        requires
            -COORD_LIMIT <= x <= COORD_LIMIT,
            -COORD_LIMIT <= y <= COORD_LIMIT,
            1 <= trail_len <= TRAIL_MAX,
            -HUE_LIMIT <= hue <= HUE_LIMIT,
        ensures
            p_fresh(p, x as int, y as int, hue as int),
            p.trail@.len() == trail_len,
            p_wf(p),
    {
        let mut trail: Vec<Point> = Vec::new();
        let mut i: usize = 0;
        while i < trail_len
            invariant
                i <= trail_len,
                trail@.len() == i,
                forall|k: int|
                    0 <= k < i ==> (#[trigger] trail@[k]).x == x && trail@[k].y == y,
            decreases trail_len - i,
        {
            trail.push(Point { x, y });
            i = i + 1;
        }
        let dir = random_direction(rng);
        let speed = rand_in_range(rng, P_SPEED_LO, P_SPEED_HI);
        let hue_v = rand_in_range(rng, hue - HUE_SWING, hue + HUE_SWING);
        let brightness = rand_in_range(rng, P_BRIGHT_LO, P_BRIGHT_HI);
        let decay = rand_in_range(rng, DECAY_LO, DECAY_HI);
        Particle {
            x,
            y,
            trail,
            dir_x: dir.0,
            dir_y: dir.1,
            speed,
            friction: P_FRICTION,
            gravity: P_GRAVITY,
            hue: hue_v,
            brightness,
            alpha: ALPHA_INIT,
            decay,
        }
    }
}

impl Particle {
    /// One detonation burst: `n_particles` fresh particles at `(x, y)`,
    /// each drawn from the world's randomness source with the given
    /// reference hue.  Nothing else in the world changes.
    pub fn create(x: i64, y: i64, n_particles: usize, hue: i64, model: &mut Model)
        requires
            old(model).wf(),
            -COORD_LIMIT <= x <= COORD_LIMIT,
            -COORD_LIMIT <= y <= COORD_LIMIT,
            -HUE_LIMIT <= hue <= HUE_LIMIT,
        ensures
            final(model).wf(),
            final(model).particles@.len() == old(model).particles@.len() + n_particles,
            forall|i: int|
                0 <= i < old(model).particles@.len()
                    ==> final(model).particles@[i] == old(model).particles@[i],
            forall|i: int|
                old(model).particles@.len() <= i < final(model).particles@.len()
                    ==> p_fresh(#[trigger] final(model).particles@[i], x as int, y as int, hue as int)
                        && p_wf(final(model).particles@[i])
                        && final(model).particles@[i].trail@.len() == P_TRAIL_LEN,
            final(model).fireworks == old(model).fireworks,
            final(model).hue == old(model).hue,
            final(model).win_width == old(model).win_width,
            final(model).win_height == old(model).win_height,
            final(model).timer_total == old(model).timer_total,
            final(model).timer_tick == old(model).timer_tick,
    {
        let ghost m0 = *old(model);
        let mut i: usize = 0;
        while i < n_particles
            invariant
                i <= n_particles,
                -COORD_LIMIT <= x <= COORD_LIMIT,
                -COORD_LIMIT <= y <= COORD_LIMIT,
                -HUE_LIMIT <= hue <= HUE_LIMIT,
                m0.wf(),
                model.particles@.len() == m0.particles@.len() + i,
                forall|k: int|
                    0 <= k < m0.particles@.len() ==> model.particles@[k] == m0.particles@[k],
                forall|k: int|
                    m0.particles@.len() <= k < model.particles@.len()
                        ==> p_fresh(#[trigger] model.particles@[k], x as int, y as int, hue as int)
                            && p_wf(model.particles@[k])
                            && model.particles@[k].trail@.len() == P_TRAIL_LEN,
                model.fireworks == m0.fireworks,
                model.hue == m0.hue,
                model.win_width == m0.win_width,
                model.win_height == m0.win_height,
                model.timer_total == m0.timer_total,
                model.timer_tick == m0.timer_tick,
            decreases n_particles - i,
        {
            let p = Particle::new(x, y, P_TRAIL_LEN, hue, &mut model.rng);
            model.particles.push(p);
            i = i + 1;
        }
        proof {
            assert forall|k: int| 0 <= k < model.particles@.len() implies p_wf(
                #[trigger] model.particles@[k],
            ) by {
                if k < m0.particles@.len() {
                    assert(model.particles@[k] == m0.particles@[k]);
                }
            }
        }
    }

    /// One particle update pass over the whole world: every particle
    /// slides its trail, slows, drifts, and fades; exactly those whose
    /// remaining opacity still exceeds their decay rate survive, in
    /// order.  Fireworks, viewport, hue, timers and the randomness source
    /// are untouched.
    pub fn update(model: &mut Model)
        requires
            old(model).wf(),
        ensures
            final(model).wf(),
            final(model).particles@.len() == p_live_seq(old(model).particles@).len(),
            forall|i: int|
                0 <= i < final(model).particles@.len()
                    ==> p_step_rel(
                    p_live_seq(old(model).particles@)[i],
                    #[trigger] final(model).particles@[i],
                ),
            final(model).fireworks == old(model).fireworks,
            final(model).rng == old(model).rng,
            final(model).hue == old(model).hue,
            final(model).win_width == old(model).win_width,
            final(model).win_height == old(model).win_height,
            final(model).timer_total == old(model).timer_total,
            final(model).timer_tick == old(model).timer_tick,
    {
        let ghost m0 = *old(model);
        let n = model.particles.len();
        let mut pending: Vec<Particle> = Vec::new();
        core::mem::swap(&mut pending, &mut model.particles);
        let mut j: usize = 0;
        while j < n
            invariant
                j <= n,
                n == m0.particles@.len(),
                m0.wf(),
                pending@ == m0.particles@.subrange(j as int, n as int),
                ({
                    let live = p_live_seq(m0.particles@.subrange(0, j as int));
                    &&& model.particles@.len() == live.len()
                    &&& forall|i: int|
                        0 <= i < live.len()
                            ==> p_step_rel(live[i], #[trigger] model.particles@[i])
                }),
                forall|i: int|
                    0 <= i < model.particles@.len() ==> p_wf(#[trigger] model.particles@[i]),
                model.fireworks == m0.fireworks,
                model.rng == m0.rng,
                model.hue == m0.hue,
                model.win_width == m0.win_width,
                model.win_height == m0.win_height,
                model.timer_total == m0.timer_total,
                model.timer_tick == m0.timer_tick,
            decreases n - j,
        {
            let ghost processed = m0.particles@.subrange(0, j as int);
            let mut p = pending.remove(0);
            proof {
                assert(p == m0.particles@[j as int]);
                assert(m0.particles@.subrange(j as int, n as int).remove(0) =~= m0.particles@
                    .subrange(j as int + 1, n as int));
                assert(p_wf(p));
            }
            let ghost pre = p;
            let head = Point { x: p.x, y: p.y };
            p.trail.pop();
            p.trail.insert(0, head);
            proof {
                assert(p.trail@ =~= seq![head] + pre.trail@.drop_last());
                assert(0 <= p.speed * p.friction <= 10_000_000) by (nonlinear_arith)
                    requires
                        0 <= p.speed <= P_SPEED_HI,
                        0 < p.friction < SCALE,
                ;
                vstd::arithmetic::div_mod::lemma_div_pos_is_pos(
                    p.speed * p.friction,
                    SCALE as int,
                );
                assert(p.speed * p.friction <= p.speed * (SCALE as int)) by (nonlinear_arith)
                    requires
                        0 <= p.speed,
                        0 < p.friction < SCALE,
                ;
                vstd::arithmetic::div_mod::lemma_div_is_ordered(
                    p.speed * p.friction,
                    p.speed * (SCALE as int),
                    SCALE as int,
                );
                vstd::arithmetic::div_mod::lemma_div_by_multiple(p.speed as int, SCALE as int);
            }
            p.speed = p.speed * p.friction / SCALE;
            let vx = crate::geom::scaled_component_exec(p.dir_x, p.speed);
            let vy = crate::geom::scaled_component_exec(p.dir_y, p.speed);
            proof {
                lemma_p_pos_bounded(pre.x as int, pre.alpha as int);
                lemma_p_pos_bounded(pre.y as int, pre.alpha as int);
            }
            p.x = p.x + vx;
            p.y = p.y + vy - p.gravity;
            p.alpha = p.alpha - p.decay;
            proof {
                assert(p_step_rel(pre, p));
                assert(processed.push(pre) =~= m0.particles@.subrange(0, j as int + 1));
                lemma_p_live_seq_push(processed, pre);
            }
            if p.alpha > p.decay {
                proof {
                    assert(p_survives(pre));
                    lemma_p_step_wf(pre, p);
                }
                model.particles.push(p);
            }
            j = j + 1;
        }
        proof {
            assert(m0.particles@.subrange(0, n as int) =~= m0.particles@);
        }
    }
}

/// One tick of friction strictly slows a moving particle down, and never
/// below zero.
pub proof fn lemma_friction_slows(pre: Particle, post: Particle)
    requires
        p_step_rel(pre, post),
        0 < pre.friction < SCALE,
        0 < pre.speed,
    ensures
        0 <= post.speed < pre.speed,
{
    let s = pre.speed as int;
    let f = pre.friction as int;
    assert(s * f < s * SCALE) by (nonlinear_arith)
        requires
            0 < s,
            f < SCALE,
    ;
    assert(s * f >= 0) by (nonlinear_arith)
        requires
            0 < s,
            0 < f,
    ;
    vstd::arithmetic::div_mod::lemma_div_pos_is_pos(s * f, SCALE as int);
    vstd::arithmetic::div_mod::lemma_div_by_multiple_is_strongly_ordered(
        s * f,
        s * (SCALE as int),
        s,
        SCALE as int,
    );
}

/// A particle's trail buffer keeps its creation-time length through every
/// tick: the oldest entry leaves and the current position enters.
pub proof fn lemma_p_trail_len_constant(pre: Particle, post: Particle)
    requires
        p_step_rel(pre, post),
        pre.trail@.len() >= 1,
    ensures
        post.trail@.len() == pre.trail@.len(),
{
}

/// One tick of fading lowers the opacity by exactly the particle's decay
/// rate, so opacity strictly decreases while the decay rate is positive.
pub proof fn lemma_alpha_fades(pre: Particle, post: Particle)
    requires
        p_step_rel(pre, post),
        0 < pre.decay,
    ensures
        post.alpha == pre.alpha - pre.decay,
        post.alpha < pre.alpha,
{
}

/// A surviving particle is still well-formed after one update tick.
pub proof fn lemma_p_step_wf(pre: Particle, post: Particle)
    requires
        p_wf(pre),
        p_step_rel(pre, post),
        p_survives(pre),
    ensures
        p_wf(post),
{
    let s = pre.speed as int;
    let f = pre.friction as int;
    assert(0 <= s * f <= s * SCALE) by (nonlinear_arith)
        requires
            0 <= s,
            0 < f < SCALE,
    ;
    assert(s * SCALE == s * (SCALE as int));
    vstd::arithmetic::div_mod::lemma_div_pos_is_pos(s * f, SCALE as int);
    vstd::arithmetic::div_mod::lemma_div_is_ordered(s * f, s * (SCALE as int), SCALE as int);
    vstd::arithmetic::div_mod::lemma_div_by_multiple(s, SCALE as int);
    assert(0 <= p_next_speed(pre) <= s);
    crate::geom::lemma_scaled_component_bounded(pre.dir_x as int, p_next_speed(pre));
    crate::geom::lemma_scaled_component_bounded(pre.dir_y as int, p_next_speed(pre));
}

} // verus!
