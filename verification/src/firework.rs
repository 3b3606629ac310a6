//! Fireworks: projectiles that travel from a launch point toward a target,
//! accelerating each tick, and detonate into a burst of particles the
//! moment their straight-line distance from the launch point would reach
//! the launch-to-target distance.
//!
//! Distances are compared squared, which orders exactly as the Euclidean
//! distances themselves do.
use vstd::prelude::*;

use rand::rngs::StdRng;

use crate::geom::dsq;
use crate::geom::dsq_exec;
use crate::geom::is_sqrt_floor;
use crate::geom::isqrt;
use crate::geom::scaled_component;
use crate::geom::unit_component;
use crate::geom::unit_component_exec;
use crate::geom::Point;
use crate::model::Model;
use crate::particle::p_fresh;
use crate::particle::p_wf;
use crate::particle::Particle;
use crate::sampling::rand_in_range;
use crate::BATCH_SIZE;
use crate::COORD_LIMIT;
use crate::FW_TRAIL_LEN;
use crate::P_TRAIL_LEN;
use crate::DIST_SQ_LIMIT;
use crate::FW_ACCEL;
use crate::FW_ACCEL_MAX;
use crate::FW_BRIGHT_HI;
use crate::FW_BRIGHT_LO;
use crate::FW_SPEED_CAP;
use crate::FW_SPEED_INIT;
use crate::HUE_LIMIT;
use crate::HUE_SWING;
use crate::HUE_UNIT;
use crate::RADIUS_BOUND;
use crate::RADIUS_INIT;
use crate::RADIUS_MAX;
use crate::RADIUS_STEP;
use crate::SCALE;
use crate::TRAIL_MAX;

verus! {

/// One firework in flight.  The launch angle is carried as the unit
/// direction vector `(dir_x, dir_y)` from launch point to target, in model
/// units; `dist_sq` and `traveled_sq` are squared distances.
pub struct Firework {
    pub x: i64,
    pub y: i64,
    pub sx: i64,
    pub sy: i64,
    pub tx: i64,
    pub ty: i64,
    pub dist_sq: i64,
    pub traveled_sq: i64,
    pub trail: Vec<Point>,
    pub dir_x: i64,
    pub dir_y: i64,
    pub speed: i64,
    pub acceleration: i64,
    pub brightness: i64,
    pub hue: i64,
    pub target_radius: i64,
}

/// Well-formedness of a firework in flight.  Its position never leaves the
/// disc around the launch point whose squared radius is the squared
/// launch-to-target distance: the update pass detonates it instead.
pub open spec fn fw_wf(f: Firework) -> bool {
    &&& -COORD_LIMIT <= f.sx <= COORD_LIMIT
    &&& -COORD_LIMIT <= f.sy <= COORD_LIMIT
    &&& -COORD_LIMIT <= f.tx <= COORD_LIMIT
    &&& -COORD_LIMIT <= f.ty <= COORD_LIMIT
    &&& f.dist_sq == dsq(f.sx as int, f.sy as int, f.tx as int, f.ty as int)
    &&& 0 <= f.dist_sq <= DIST_SQ_LIMIT
    &&& dsq(f.x as int, f.y as int, f.sx as int, f.sy as int) <= f.dist_sq
    &&& -SCALE <= f.dir_x <= SCALE
    &&& -SCALE <= f.dir_y <= SCALE
    &&& 1 <= f.speed <= FW_SPEED_CAP
    &&& SCALE <= f.acceleration <= FW_ACCEL_MAX
    &&& 1 <= f.trail@.len() <= TRAIL_MAX
    &&& 0 < f.target_radius <= RADIUS_MAX
    &&& 0 <= f.traveled_sq
    &&& -HUE_LIMIT <= f.hue <= HUE_LIMIT
    &&& 0 <= f.brightness <= SCALE
}

/// The speed after one tick of acceleration, capped far above any
/// reachable flight speed.
pub open spec fn fw_next_speed(f: Firework) -> int {
    let s = (f.speed * f.acceleration) / (SCALE as int);
    if s <= FW_SPEED_CAP {
        s
    } else {
        FW_SPEED_CAP as int
    }
}

/// The pulsing target-indicator radius after one tick: it grows by a fixed
/// step until it reaches its bound, then resets to the base value.
pub open spec fn fw_next_radius(f: Firework) -> int {
    if f.target_radius < RADIUS_BOUND {
        f.target_radius + RADIUS_STEP
    } else {
        RADIUS_INIT as int
    }
}

/// The candidate next x position: current position plus this tick's
/// velocity along the fixed direction.
pub open spec fn fw_cand_x(f: Firework) -> int {
    f.x + scaled_component(f.dir_x as int, fw_next_speed(f))
}

/// The candidate next y position.
pub open spec fn fw_cand_y(f: Firework) -> int {
    f.y + scaled_component(f.dir_y as int, fw_next_speed(f))
}

/// Squared distance from the launch point to the candidate next position:
/// the distance traveled, recomputed from scratch every tick.
pub open spec fn fw_cand_dsq(f: Firework) -> int {
    dsq(fw_cand_x(f), fw_cand_y(f), f.sx as int, f.sy as int)
}

/// A firework detonates on the tick whose candidate position would reach
/// or pass the launch-to-target distance.
pub open spec fn fw_detonates(f: Firework) -> bool {
    fw_cand_dsq(f) >= f.dist_sq
}

/// How one update tick transforms a firework that does not detonate: the
/// trail slides by one (newest position first), the indicator radius
/// cycles, the speed accelerates, and the candidate position is committed.
pub open spec fn fw_step_rel(pre: Firework, post: Firework) -> bool {
    &&& post.trail@ == seq![Point { x: pre.x, y: pre.y }] + pre.trail@.drop_last()
    &&& post.target_radius == fw_next_radius(pre)
    &&& post.speed == fw_next_speed(pre)
    &&& post.x == fw_cand_x(pre)
    &&& post.y == fw_cand_y(pre)
    &&& post.traveled_sq == fw_cand_dsq(pre)
    &&& post.sx == pre.sx
    &&& post.sy == pre.sy
    &&& post.tx == pre.tx
    &&& post.ty == pre.ty
    &&& post.dist_sq == pre.dist_sq
    &&& post.dir_x == pre.dir_x
    &&& post.dir_y == pre.dir_y
    &&& post.acceleration == pre.acceleration
    &&& post.hue == pre.hue
    &&& post.brightness == pre.brightness
}

/// The fireworks of `s` that survive one update tick (those that do not
/// detonate), in order, still holding their pre-tick values.
pub open spec fn fw_live_seq(s: Seq<Firework>) -> Seq<Firework>
    decreases s.len(),
{
    if s.len() == 0 {
        Seq::empty()
    } else {
        let rest = fw_live_seq(s.drop_last());
        if fw_detonates(s.last()) {
            rest
        } else {
            rest.push(s.last())
        }
    }
}

/// The fireworks of `s` that detonate on one update tick, in order, still
/// holding their pre-tick values: the m-th entry is the detonator whose
/// burst is the m-th batch appended to the particle collection.
pub open spec fn fw_det_seq(s: Seq<Firework>) -> Seq<Firework>
    decreases s.len(),
{
    if s.len() == 0 {
        Seq::empty()
    } else {
        let rest = fw_det_seq(s.drop_last());
        if fw_detonates(s.last()) {
            rest.push(s.last())
        } else {
            rest
        }
    }
}

pub proof fn lemma_fw_det_seq_push(s: Seq<Firework>, f: Firework)
    ensures
        fw_det_seq(s.push(f)) == if fw_detonates(f) {
            fw_det_seq(s).push(f)
        } else {
            fw_det_seq(s)
        },
{
    assert(s.push(f).drop_last() =~= s);
    assert(s.push(f).last() == f);
}

/// Every firework either detonates or survives: the two subsequences
/// together account for the whole collection.
pub proof fn lemma_fw_split_len(s: Seq<Firework>)
    ensures
        fw_det_seq(s).len() + fw_live_seq(s).len() == s.len(),
    decreases s.len(),
{
    if s.len() > 0 {
        lemma_fw_split_len(s.drop_last());
    }
}

pub proof fn lemma_fw_live_seq_len(s: Seq<Firework>)
    ensures
        fw_live_seq(s).len() <= s.len(),
    decreases s.len(),
{
    if s.len() > 0 {
        lemma_fw_live_seq_len(s.drop_last());
    }
}

pub proof fn lemma_fw_live_seq_push(s: Seq<Firework>, f: Firework)
    ensures
        fw_live_seq(s.push(f)) == if fw_detonates(f) {
            fw_live_seq(s)
        } else {
            fw_live_seq(s).push(f)
        },
{
    assert(s.push(f).drop_last() =~= s);
    assert(s.push(f).last() == f);
}

/// `p` was thrown out by the detonation of one of the first `bound`
/// fireworks of `fws`: a detonating one, with `p` created fresh at its
/// target point under its hue.
pub open spec fn batch_origin_ok(p: Particle, fws: Seq<Firework>, bound: int) -> bool {
    exists|k: int|
        0 <= k < bound && fw_detonates(#[trigger] fws[k]) && p_fresh(
            p,
            fws[k].tx as int,
            fws[k].ty as int,
            fws[k].hue as int,
        )
}

pub proof fn lemma_batch_origin_widen(p: Particle, fws: Seq<Firework>, b1: int, b2: int)
    requires
        batch_origin_ok(p, fws, b1),
        b1 <= b2,
    ensures
        batch_origin_ok(p, fws, b2),
{
    let k = choose|k: int|
        0 <= k < b1 && fw_detonates(#[trigger] fws[k]) && p_fresh(
            p,
            fws[k].tx as int,
            fws[k].ty as int,
            fws[k].hue as int,
        );
    assert(0 <= k < b2 && fw_detonates(fws[k]) && p_fresh(
        p,
        fws[k].tx as int,
        fws[k].ty as int,
        fws[k].hue as int,
    ));
}

/// What creation promises of a fresh firework, apart from its sampled hue
/// and brightness: position at the launch point, trail pre-filled with it,
/// the precomputed squared distance, the initial speed, acceleration and
/// indicator radius, and the unit direction toward the target.
pub open spec fn fw_fresh(f: Firework, sx: int, sy: int, tx: int, ty: int) -> bool {
    &&& f.x == sx
    &&& f.y == sy
    &&& f.sx == sx
    &&& f.sy == sy
    &&& f.tx == tx
    &&& f.ty == ty
    &&& f.dist_sq == dsq(sx, sy, tx, ty)
    &&& f.traveled_sq == 0
    &&& forall|i: int|
        0 <= i < f.trail@.len() ==> (#[trigger] f.trail@[i]).x == sx && f.trail@[i].y == sy
    &&& f.speed == FW_SPEED_INIT
    &&& f.acceleration == FW_ACCEL
    &&& f.target_radius == RADIUS_INIT
    &&& FW_BRIGHT_LO <= f.brightness < FW_BRIGHT_HI
    &&& -SCALE <= f.dir_x <= SCALE
    &&& -SCALE <= f.dir_y <= SCALE
    &&& (f.dist_sq == 0 ==> f.dir_x == SCALE && f.dir_y == 0)
    &&& (f.dist_sq > 0 ==> exists|d: int|
        is_sqrt_floor(d, f.dist_sq as int) && f.dir_x == unit_component(tx - sx, d)
            && f.dir_y == unit_component(ty - sy, d))
}

impl Firework {
    /// One fresh firework from `(sx, sy)` toward `(tx, ty)`.  The squared
    /// launch-to-target distance and the unit direction are precomputed;
    /// brightness is drawn within its band; the hue is drawn within the
    /// swing band of `hue_ref`, or over the whole hue circle without one.
    pub fn new(
        sx: i64,
        sy: i64,
        tx: i64,
        ty: i64,
        trail_len: usize,
        hue_ref: Option<i64>,
        rng: &mut StdRng,
    ) -> (f: Firework)
        requires
            -COORD_LIMIT <= sx <= COORD_LIMIT,
            -COORD_LIMIT <= sy <= COORD_LIMIT,
            -COORD_LIMIT <= tx <= COORD_LIMIT,
            -COORD_LIMIT <= ty <= COORD_LIMIT,
            1 <= trail_len <= TRAIL_MAX,
            hue_ref is Some ==> 0 <= hue_ref->0 < HUE_UNIT,
        ensures
            fw_fresh(f, sx as int, sy as int, tx as int, ty as int),
            f.trail@.len() == trail_len,
            hue_ref is Some ==> hue_ref->0 - HUE_SWING <= f.hue < hue_ref->0 + HUE_SWING,
            hue_ref is None ==> 0 <= f.hue < HUE_UNIT,
            fw_wf(f),
    {
        proof {
            crate::geom::lemma_dsq_bounded(sx as int, sy as int, tx as int, ty as int);
        }
        let dist_sq = dsq_exec(sx, sy, tx, ty);
        let d = isqrt(dist_sq);
        proof {
            if d > 300_000_000 {
                assert(d * d > DIST_SQ_LIMIT) by (nonlinear_arith)
                    requires
                        d > 300_000_000,
                ;
            }
            assert((tx - sx) * (tx - sx) <= dist_sq && (ty - sy) * (ty - sy) <= dist_sq)
                by (nonlinear_arith)
                requires
                    dist_sq == dsq(sx as int, sy as int, tx as int, ty as int),
            ;
        }
        let (dir_x, dir_y) = if d == 0 {
            (SCALE, 0)
        } else {
            (unit_component_exec(tx - sx, d), unit_component_exec(ty - sy, d))
        };
        let mut trail: Vec<Point> = Vec::new();
        let mut i: usize = 0;
        while i < trail_len
            invariant
                i <= trail_len,
                trail@.len() == i,
                forall|k: int|
                    0 <= k < i ==> (#[trigger] trail@[k]).x == sx && trail@[k].y == sy,
            decreases trail_len - i,
        {
            trail.push(Point { x: sx, y: sy });
            i = i + 1;
        }
        let hue = match hue_ref {
            Some(h) => rand_in_range(rng, h - HUE_SWING, h + HUE_SWING),
            None => rand_in_range(rng, 0, HUE_UNIT),
        };
        let brightness = rand_in_range(rng, FW_BRIGHT_LO, FW_BRIGHT_HI);
        proof {
            if dist_sq > 0 {
                assert(d >= 1) by (nonlinear_arith)
                    requires
                        is_sqrt_floor(d as int, dist_sq as int),
                        dist_sq > 0,
                ;
                assert(is_sqrt_floor(d as int, dist_sq as int)
                    && dir_x == unit_component(tx - sx, d as int)
                    && dir_y == unit_component(ty - sy, d as int));
            } else {
                assert(dist_sq == 0);
                assert(d == 0) by (nonlinear_arith)
                    requires
                        is_sqrt_floor(d as int, 0),
                ;
            }
        }
        Firework {
            x: sx,
            y: sy,
            sx,
            sy,
            tx,
            ty,
            dist_sq,
            traveled_sq: 0,
            trail,
            dir_x,
            dir_y,
            speed: FW_SPEED_INIT,
            acceleration: FW_ACCEL,
            brightness,
            hue,
            target_radius: RADIUS_INIT,
        }
    }

    /// One firework update pass over the whole world.  Every firework
    /// slides its trail, cycles its indicator radius, accelerates, and
    /// either commits its candidate position or — when the candidate's
    /// distance from the launch point reaches the launch-to-target
    /// distance — detonates: a full batch of particles is created at its
    /// target point (not at its last traveled position) and the firework
    /// is removed.  Survivors keep their relative order.
    pub fn update(model: &mut Model)
        requires
            old(model).wf(),
        ensures
            final(model).wf(),
            final(model).fireworks@.len() == fw_live_seq(old(model).fireworks@).len(),
            forall|i: int|
                0 <= i < final(model).fireworks@.len()
                    ==> fw_step_rel(
                    fw_live_seq(old(model).fireworks@)[i],
                    #[trigger] final(model).fireworks@[i],
                ),
            final(model).particles@.len() == old(model).particles@.len() + BATCH_SIZE * (old(
                model,
            ).fireworks@.len() - fw_live_seq(old(model).fireworks@).len()),
            forall|i: int|
                0 <= i < old(model).particles@.len()
                    ==> final(model).particles@[i] == old(model).particles@[i],
            forall|i: int|
                old(model).particles@.len() <= i < final(model).particles@.len()
                    ==> p_wf(#[trigger] final(model).particles@[i]) && batch_origin_ok(
                    final(model).particles@[i],
                    old(model).fireworks@,
                    old(model).fireworks@.len() as int,
                ),
            forall|i: int|
                #![trigger final(model).particles@[i]]
                old(model).particles@.len() <= i < final(model).particles@.len() ==> ({
                    let dets = fw_det_seq(old(model).fireworks@);
                    let m = (i - old(model).particles@.len()) / (BATCH_SIZE as int);
                    &&& p_fresh(
                        final(model).particles@[i],
                        dets[m].tx as int,
                        dets[m].ty as int,
                        dets[m].hue as int,
                    )
                    &&& final(model).particles@[i].trail@.len() == P_TRAIL_LEN
                }),
            final(model).hue == old(model).hue,
            final(model).win_width == old(model).win_width,
            final(model).win_height == old(model).win_height,
            final(model).timer_total == old(model).timer_total,
            final(model).timer_tick == old(model).timer_tick,
    {
        let ghost m0 = *old(model);
        let n = model.fireworks.len();
        let mut pending: Vec<Firework> = Vec::new();
        core::mem::swap(&mut pending, &mut model.fireworks);
        let mut kept: Vec<Firework> = Vec::new();
        let mut j: usize = 0;
        while j < n
            invariant
                j <= n,
                n == m0.fireworks@.len(),
                m0.wf(),
                pending@ == m0.fireworks@.subrange(j as int, n as int),
                model.fireworks@.len() == 0,
                ({
                    let live = fw_live_seq(m0.fireworks@.subrange(0, j as int));
                    &&& kept@.len() == live.len()
                    &&& forall|i: int|
                        0 <= i < live.len() ==> fw_step_rel(live[i], #[trigger] kept@[i])
                    &&& model.particles@.len() == m0.particles@.len() + BATCH_SIZE * (j
                        - live.len())
                }),
                forall|i: int| 0 <= i < kept@.len() ==> fw_wf(#[trigger] kept@[i]),
                forall|i: int|
                    0 <= i < model.particles@.len() ==> p_wf(#[trigger] model.particles@[i]),
                forall|i: int|
                    0 <= i < m0.particles@.len()
                        ==> model.particles@[i] == m0.particles@[i],
                forall|i: int|
                    m0.particles@.len() <= i < model.particles@.len()
                        ==> batch_origin_ok(
                        #[trigger] model.particles@[i],
                        m0.fireworks@,
                        j as int,
                    ),
                ({
                    let dets = fw_det_seq(m0.fireworks@.subrange(0, j as int));
                    &&& model.particles@.len() == m0.particles@.len() + BATCH_SIZE * dets.len()
                    &&& forall|i: int|
                        #![trigger model.particles@[i]]
                        m0.particles@.len() <= i < model.particles@.len() ==> ({
                            let m = (i - m0.particles@.len()) / (BATCH_SIZE as int);
                            &&& p_fresh(
                                model.particles@[i],
                                dets[m].tx as int,
                                dets[m].ty as int,
                                dets[m].hue as int,
                            )
                            &&& model.particles@[i].trail@.len() == P_TRAIL_LEN
                        })
                }),
                model.hue == m0.hue,
                model.win_width == m0.win_width,
                model.win_height == m0.win_height,
                model.timer_total == m0.timer_total,
                model.timer_tick == m0.timer_tick,
            decreases n - j,
        {
            let ghost processed = m0.fireworks@.subrange(0, j as int);
            let ghost live = fw_live_seq(processed);
            let mut fw = pending.remove(0);
            proof {
                assert(fw == m0.fireworks@[j as int]);
                assert(m0.fireworks@.subrange(j as int, n as int).remove(0) =~= m0.fireworks@
                    .subrange(j as int + 1, n as int));
                assert(fw_wf(fw));
                lemma_fw_live_seq_len(processed);
            }
            let ghost pre = fw;
            let head = Point { x: fw.x, y: fw.y };
            fw.trail.pop();
            fw.trail.insert(0, head);
            proof {
                assert(fw.trail@ =~= seq![head] + pre.trail@.drop_last());
            }
            if fw.target_radius < RADIUS_BOUND {
                fw.target_radius = fw.target_radius + RADIUS_STEP;
            } else {
                fw.target_radius = RADIUS_INIT;
            }
            proof {
                assert(1 <= fw.speed * fw.acceleration <= 2_000_000_000_000) by (nonlinear_arith)
                    requires
                        1 <= fw.speed <= FW_SPEED_CAP,
                        SCALE <= fw.acceleration <= FW_ACCEL_MAX,
                ;
                vstd::arithmetic::div_mod::lemma_div_pos_is_pos(
                    fw.speed * fw.acceleration,
                    SCALE as int,
                );
            }
            let s2 = fw.speed * fw.acceleration / SCALE;
            fw.speed = if s2 <= FW_SPEED_CAP {
                s2
            } else {
                FW_SPEED_CAP
            };
            let vx = crate::geom::scaled_component_exec(fw.dir_x, fw.speed);
            let vy = crate::geom::scaled_component_exec(fw.dir_y, fw.speed);
            proof {
                crate::geom::lemma_near_point_bounded(
                    pre.x as int,
                    pre.y as int,
                    pre.sx as int,
                    pre.sy as int,
                );
            }
            let cx = fw.x + vx;
            let cy = fw.y + vy;
            let cand_sq = dsq_exec(cx, cy, fw.sx, fw.sy);
            proof {
                assert(cand_sq == fw_cand_dsq(pre));
                assert((cx - fw.sx) * (cx - fw.sx) >= 0 && (cy - fw.sy) * (cy - fw.sy) >= 0)
                    by (nonlinear_arith);
            }
            fw.traveled_sq = cand_sq;
            proof {
                assert(processed.push(pre) =~= m0.fireworks@.subrange(0, j as int + 1));
                lemma_fw_live_seq_push(processed, pre);
                lemma_fw_det_seq_push(processed, pre);
            }
            if cand_sq >= fw.dist_sq {
                proof {
                    assert(fw_detonates(pre));
                }
                let ghost parts_before = model.particles@;
                Particle::create(fw.tx, fw.ty, BATCH_SIZE, fw.hue, model);
                proof {
                    assert forall|i: int|
                        m0.particles@.len() <= i < model.particles@.len() implies batch_origin_ok(
                        #[trigger] model.particles@[i],
                        m0.fireworks@,
                        j as int + 1,
                    ) by {
                        if i < parts_before.len() {
                            assert(model.particles@[i] == parts_before[i]);
                            lemma_batch_origin_widen(
                                model.particles@[i],
                                m0.fireworks@,
                                j as int,
                                j as int + 1,
                            );
                        } else {
                            assert(p_fresh(
                                model.particles@[i],
                                pre.tx as int,
                                pre.ty as int,
                                pre.hue as int,
                            ));
                            assert(fw_detonates(m0.fireworks@[j as int]));
                        }
                    }
                    let dets = fw_det_seq(processed);
                    let dets2 = fw_det_seq(m0.fireworks@.subrange(0, j as int + 1));
                    let base = m0.particles@.len();
                    let b = BATCH_SIZE as int;
                    assert(dets2 == dets.push(pre));
                    assert(parts_before.len() == base + b * dets.len());
                    assert forall|i: int|
                        #![trigger model.particles@[i]]
                        base <= i < model.particles@.len() implies ({
                        let m = (i - base) / b;
                        &&& p_fresh(
                            model.particles@[i],
                            dets2[m].tx as int,
                            dets2[m].ty as int,
                            dets2[m].hue as int,
                        )
                        &&& model.particles@[i].trail@.len() == P_TRAIL_LEN
                    }) by {
                        let m = (i - base) / b;
                        if i < parts_before.len() {
                            assert(model.particles@[i] == parts_before[i]);
                            vstd::arithmetic::div_mod::lemma_div_pos_is_pos(i - base, b);
                            assert(b * dets.len() == dets.len() * b);
                            vstd::arithmetic::div_mod::lemma_div_by_multiple_is_strongly_ordered(
                                i - base,
                                dets.len() * b,
                                dets.len() as int,
                                b,
                            );
                            vstd::arithmetic::div_mod::lemma_div_by_multiple(dets.len() as int, b);
                            assert(0 <= m < dets.len());
                            assert(dets2[m] == dets[m]);
                        } else {
                            let r = i - base - b * dets.len();
                            assert(i - base == dets.len() * b + r);
                            vstd::arithmetic::div_mod::lemma_fundamental_div_mod_converse_div(
                                i - base,
                                b,
                                dets.len() as int,
                                r,
                            );
                            assert(m == dets.len());
                            assert(dets2[m] == pre);
                            assert(p_fresh(
                                model.particles@[i],
                                pre.tx as int,
                                pre.ty as int,
                                pre.hue as int,
                            ));
                        }
                    }
                }
            } else {
                fw.x = cx;
                fw.y = cy;
                proof {
                    assert(!fw_detonates(pre));
                    assert(fw_step_rel(pre, fw));
                    lemma_fw_step_wf(pre, fw);
                    assert forall|i: int|
                        m0.particles@.len() <= i < model.particles@.len() implies batch_origin_ok(
                        #[trigger] model.particles@[i],
                        m0.fireworks@,
                        j as int + 1,
                    ) by {
                        lemma_batch_origin_widen(
                            model.particles@[i],
                            m0.fireworks@,
                            j as int,
                            j as int + 1,
                        );
                    }
                }
                kept.push(fw);
            }
            j = j + 1;
        }
        core::mem::swap(&mut model.fireworks, &mut kept);
        proof {
            assert(m0.fireworks@.subrange(0, n as int) =~= m0.fireworks@);
        }
    }

    /// One automatic launch: a firework from the bottom center of the
    /// viewport toward a random target, its x within the central third
    /// band and its y within the top third of the screen.
    pub fn spawn(model: &mut Model)
        requires
            old(model).wf(),
        ensures
            final(model).wf(),
            final(model).fireworks@.len() == old(model).fireworks@.len() + 1,
            forall|i: int|
                0 <= i < old(model).fireworks@.len()
                    ==> final(model).fireworks@[i] == old(model).fireworks@[i],
            ({
                let f = final(model).fireworks@.last();
                let w_s = (old(model).win_width as int) * (SCALE as int);
                let h_s = (old(model).win_height as int) * (SCALE as int);
                &&& fw_wf(f)
                &&& fw_fresh(f, 0, -(h_s / 2), f.tx as int, f.ty as int)
                &&& -(w_s / 3) <= f.tx < w_s / 3
                &&& h_s / 6 <= f.ty < h_s / 2
                &&& f.trail@.len() == FW_TRAIL_LEN
                &&& old(model).hue - HUE_SWING <= f.hue < old(model).hue + HUE_SWING
            }),
            final(model).particles == old(model).particles,
            final(model).hue == old(model).hue,
            final(model).win_width == old(model).win_width,
            final(model).win_height == old(model).win_height,
            final(model).timer_total == old(model).timer_total,
            final(model).timer_tick == old(model).timer_tick,
    {
        let w_s = (model.win_width as i64) * SCALE;
        let h_s = (model.win_height as i64) * SCALE;
        let band = w_s / 3;
        let tx = rand_in_range(&mut model.rng, -band, band);
        let ty = rand_in_range(&mut model.rng, h_s / 6, h_s / 2);
        Firework::create(tx, ty, model);
    }

    /// One launch toward the caller's target point `(x, y)` — the path a
    /// pointer click takes — from the bottom center of the viewport, with
    /// the world's ambient hue as the reference hue.
    pub fn create(x: i64, y: i64, model: &mut Model)
        requires
            old(model).wf(),
            -COORD_LIMIT <= x <= COORD_LIMIT,
            -COORD_LIMIT <= y <= COORD_LIMIT,
        ensures
            final(model).wf(),
            final(model).fireworks@.len() == old(model).fireworks@.len() + 1,
            forall|i: int|
                0 <= i < old(model).fireworks@.len()
                    ==> final(model).fireworks@[i] == old(model).fireworks@[i],
            ({
                let f = final(model).fireworks@.last();
                let h_s = (old(model).win_height as int) * (SCALE as int);
                &&& fw_wf(f)
                &&& fw_fresh(f, 0, -(h_s / 2), x as int, y as int)
                &&& f.trail@.len() == FW_TRAIL_LEN
                &&& old(model).hue - HUE_SWING <= f.hue < old(model).hue + HUE_SWING
            }),
            final(model).particles == old(model).particles,
            final(model).hue == old(model).hue,
            final(model).win_width == old(model).win_width,
            final(model).win_height == old(model).win_height,
            final(model).timer_total == old(model).timer_total,
            final(model).timer_tick == old(model).timer_tick,
    {
        let h_s = (model.win_height as i64) * SCALE;
        let sy = -(h_s / 2);
        let hue_ref = model.hue;
        let f = Firework::new(0, sy, x, y, FW_TRAIL_LEN, Some(hue_ref), &mut model.rng);
        model.fireworks.push(f);
    }

    /// The floor of the Euclidean distance between two points, the measure
    /// the detonation rule is stated in.
    pub fn compute_dist(p1x: i64, p1y: i64, p2x: i64, p2y: i64) -> (r: i64)
        requires
            -COORD_LIMIT <= p1x <= COORD_LIMIT,
            -COORD_LIMIT <= p1y <= COORD_LIMIT,
            -COORD_LIMIT <= p2x <= COORD_LIMIT,
            -COORD_LIMIT <= p2y <= COORD_LIMIT,
        ensures
            is_sqrt_floor(r as int, dsq(p1x as int, p1y as int, p2x as int, p2y as int)),
    {
        proof {
            crate::geom::lemma_dsq_bounded(p1x as int, p1y as int, p2x as int, p2y as int);
        }
        let sq = dsq_exec(p1x, p1y, p2x, p2y);
        isqrt(sq)
    }
}

/// A firework's trail buffer keeps its creation-time length through every
/// tick: the oldest entry leaves and the current position enters.
pub proof fn lemma_fw_trail_len_constant(pre: Firework, post: Firework)
    requires
        fw_step_rel(pre, post),
        pre.trail@.len() >= 1,
    ensures
        post.trail@.len() == pre.trail@.len(),
{
}

/// One tick of acceleration never slows a well-formed firework down.
pub proof fn lemma_acceleration_speeds_up(pre: Firework, post: Firework)
    requires
        fw_wf(pre),
        fw_step_rel(pre, post),
    ensures
        post.speed >= pre.speed,
{
    let s = pre.speed as int;
    let a = pre.acceleration as int;
    assert(s * (SCALE as int) <= s * a) by (nonlinear_arith)
        requires
            0 <= s,
            SCALE <= a,
    ;
    vstd::arithmetic::div_mod::lemma_div_is_ordered(s * (SCALE as int), s * a, SCALE as int);
    vstd::arithmetic::div_mod::lemma_div_by_multiple(s, SCALE as int);
}

/// While the accelerated speed stays under the cap, one tick multiplies
/// the speed by the acceleration factor exactly (with the product floored
/// back to model units), so it strictly grows whenever the acceleration
/// exceeds one and the speed is large enough for the floored product to
/// move.
pub proof fn lemma_acceleration_strictly_speeds_up(pre: Firework, post: Firework)
    requires
        fw_wf(pre),
        fw_step_rel(pre, post),
        pre.acceleration > SCALE,
        pre.speed * (pre.acceleration - SCALE) >= SCALE,
        pre.speed * pre.acceleration <= FW_SPEED_CAP * SCALE,
    ensures
        post.speed == (pre.speed * pre.acceleration) / (SCALE as int),
        post.speed > pre.speed,
{
    let s = pre.speed as int;
    let a = pre.acceleration as int;
    assert(s * a == s * (SCALE as int) + s * (a - SCALE)) by (nonlinear_arith);
    assert((s + 1) * (SCALE as int) <= s * a);
    vstd::arithmetic::div_mod::lemma_div_is_ordered((s + 1) * (SCALE as int), s * a, SCALE as int);
    vstd::arithmetic::div_mod::lemma_div_by_multiple(s + 1, SCALE as int);
    assert(FW_SPEED_CAP * SCALE == (FW_SPEED_CAP as int) * (SCALE as int));
    vstd::arithmetic::div_mod::lemma_div_is_ordered(s * a, FW_SPEED_CAP * SCALE, SCALE as int);
    vstd::arithmetic::div_mod::lemma_div_by_multiple(FW_SPEED_CAP as int, SCALE as int);
}

/// A firework that does not detonate is still well-formed after one tick.
pub proof fn lemma_fw_step_wf(pre: Firework, post: Firework)
    requires
        fw_wf(pre),
        fw_step_rel(pre, post),
        !fw_detonates(pre),
    ensures
        fw_wf(post),
{
    lemma_acceleration_speeds_up(pre, post);
    let cx = fw_cand_x(pre);
    let cy = fw_cand_y(pre);
    assert((cx - pre.sx) * (cx - pre.sx) >= 0 && (cy - pre.sy) * (cy - pre.sy) >= 0)
        by (nonlinear_arith);
}

/// Removing exactly the detonating fireworks keeps every other firework,
/// in order: when only the firework at index `k` detonates, the survivors
/// are the whole collection with index `k` taken out.
pub proof fn lemma_single_detonation(s: Seq<Firework>, k: int)
    requires
        0 <= k < s.len(),
        fw_detonates(s[k]),
        forall|i: int| 0 <= i < s.len() && i != k ==> !fw_detonates(#[trigger] s[i]),
    ensures
        fw_live_seq(s) == s.remove(k),
    decreases s.len(),
{
    let last = s.len() - 1;
    if k == last {
        lemma_fw_live_all(s.drop_last());
        assert(s.remove(k) =~= s.drop_last());
    } else {
        lemma_single_detonation(s.drop_last(), k);
        assert(!fw_detonates(s.last()));
        assert(fw_live_seq(s) == s.drop_last().remove(k).push(s.last()));
        assert(s.remove(k) =~= s.drop_last().remove(k).push(s.last()));
    }
}

/// When no firework of `s` detonates, all of them survive.
pub proof fn lemma_fw_live_all(s: Seq<Firework>)
    requires
        forall|i: int| 0 <= i < s.len() ==> !fw_detonates(#[trigger] s[i]),
    ensures
        fw_live_seq(s) == s,
    decreases s.len(),
{
    if s.len() > 0 {
        lemma_fw_live_all(s.drop_last());
        assert(fw_live_seq(s) =~= s);
    }
}

} // verus!
