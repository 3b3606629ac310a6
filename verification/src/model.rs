//! The world state: the live firework and particle collections, the shared
//! randomness source, the ambient hue, the viewport bounds and the spawn
//! cadence counters, together with the per-tick orchestration.
use vstd::prelude::*;

use rand::rngs::StdRng;

use crate::firework::fw_fresh;
use crate::firework::fw_live_seq;
use crate::firework::fw_wf;
use crate::firework::Firework;
use crate::particle::p_live_seq;
use crate::particle::p_wf;
use crate::particle::Particle;
use crate::sampling::clock_nanosecond;
use crate::sampling::rand_below;
use crate::sampling::rng_from_seed;
use crate::BATCH_SIZE;
use crate::FW_TRAIL_LEN;
use crate::HUE_SWING;
use crate::HUE_UNIT;
use crate::SCALE;
use crate::SPAWN_PERIOD;
use crate::VIEW_MAX;

verus! {

/// The whole simulation state.  It is exclusively owned by the tick
/// driver; rendering reads it between ticks.
pub struct Model {
    pub fireworks: Vec<Firework>,
    pub particles: Vec<Particle>,
    pub rng: StdRng,
    pub hue: i64,
    pub win_width: u32,
    pub win_height: u32,
    pub timer_total: u8,
    pub timer_tick: u8,
}

impl Model {
    /// Well-formedness of the world: bounded viewport, a hue on the hue
    /// circle, and every live entity well-formed.
    pub open spec fn wf(self) -> bool {
        &&& 1 <= self.win_width <= VIEW_MAX
        &&& 1 <= self.win_height <= VIEW_MAX
        &&& 0 <= self.hue < HUE_UNIT
        &&& self.timer_tick <= self.timer_total
        &&& forall|i: int|
            0 <= i < self.fireworks@.len() ==> fw_wf(#[trigger] self.fireworks@[i])
        &&& forall|i: int|
            0 <= i < self.particles@.len() ==> p_wf(#[trigger] self.particles@[i])
    }

    /// A fresh world with the given viewport and randomness seed: no live
    /// entities, the spawn timer at zero, and an ambient hue drawn from
    /// the seeded generator.
    pub fn new(win_width: u32, win_height: u32, seed: u64) -> (m: Model)
        requires
            1 <= win_width <= VIEW_MAX,
            1 <= win_height <= VIEW_MAX,
        ensures
            m.wf(),
            m.fireworks@.len() == 0,
            m.particles@.len() == 0,
            m.win_width == win_width,
            m.win_height == win_height,
            m.timer_total == SPAWN_PERIOD,
            m.timer_tick == 0,
    {
        let mut rng = rng_from_seed(seed);
        let hue = rand_below(&mut rng, HUE_UNIT as u64);
        Model {
            fireworks: Vec::new(),
            particles: Vec::new(),
            rng,
            hue: hue as i64,
            win_width,
            win_height,
            timer_total: SPAWN_PERIOD,
            timer_tick: 0,
        }
    }

    /// A fresh world seeded from the clock's nanosecond reading.
    pub fn from_clock(win_width: u32, win_height: u32) -> (m: Model)
        requires
            1 <= win_width <= VIEW_MAX,
            1 <= win_height <= VIEW_MAX,
        ensures
            m.wf(),
            m.fireworks@.len() == 0,
            m.particles@.len() == 0,
            m.win_width == win_width,
            m.win_height == win_height,
            m.timer_total == SPAWN_PERIOD,
            m.timer_tick == 0,
    {
        let seed = clock_nanosecond();
        Model::new(win_width, win_height, seed as u64)
    }

    /// One evaluation of the spawn cadence.  Once the tick counter has
    /// reached the cadence, the ambient hue is re-rolled and one firework
    /// is launched from the bottom center toward a random target in the
    /// top third of the screen, and the counter resets; otherwise the
    /// counter just advances and nothing else changes.
    pub fn spawn_tick(&mut self)
        requires
            old(self).wf(),
        ensures
            final(self).wf(),
            final(self).particles == old(self).particles,
            final(self).win_width == old(self).win_width,
            final(self).win_height == old(self).win_height,
            final(self).timer_total == old(self).timer_total,
            old(self).timer_tick >= old(self).timer_total ==> {
                &&& final(self).timer_tick == 0
                &&& final(self).fireworks@.len() == old(self).fireworks@.len() + 1
                &&& forall|i: int|
                    0 <= i < old(self).fireworks@.len()
                        ==> final(self).fireworks@[i] == old(self).fireworks@[i]
                &&& ({
                    let f = final(self).fireworks@.last();
                    let w_s = (old(self).win_width as int) * (SCALE as int);
                    let h_s = (old(self).win_height as int) * (SCALE as int);
                    &&& fw_wf(f)
                    &&& fw_fresh(f, 0, -(h_s / 2), f.tx as int, f.ty as int)
                    &&& -(w_s / 3) <= f.tx < w_s / 3
                    &&& h_s / 6 <= f.ty < h_s / 2
                    &&& f.trail@.len() == FW_TRAIL_LEN
                    &&& final(self).hue - HUE_SWING <= f.hue < final(self).hue + HUE_SWING
                })
            },
            old(self).timer_tick < old(self).timer_total ==> {
                &&& final(self).timer_tick == old(self).timer_tick + 1
                &&& final(self).fireworks == old(self).fireworks
                &&& final(self).hue == old(self).hue
                &&& final(self).rng == old(self).rng
            },
    {
        if self.timer_tick >= self.timer_total {
            let h = rand_below(&mut self.rng, HUE_UNIT as u64);
            self.hue = h as i64;
            Firework::spawn(self);
            self.timer_tick = 0;
        } else {
            self.timer_tick = self.timer_tick + 1;
        }
    }

    /// One full simulation tick, in the fixed orchestration order: all
    /// fireworks advance (detonations enqueue particle batches), then all
    /// particles advance (faded ones are removed), then the spawn cadence
    /// is evaluated.
    pub fn tick(&mut self)
        requires
            old(self).wf(),
        ensures
            final(self).wf(),
            final(self).win_width == old(self).win_width,
            final(self).win_height == old(self).win_height,
            final(self).timer_total == old(self).timer_total,
            final(self).timer_tick == if old(self).timer_tick >= old(self).timer_total {
                0
            } else {
                (old(self).timer_tick + 1) as u8
            },
            final(self).fireworks@.len() == fw_live_seq(old(self).fireworks@).len() + if old(
                self,
            ).timer_tick >= old(self).timer_total {
                1int
            } else {
                0int
            },
            forall|i: int|
                0 <= i < fw_live_seq(old(self).fireworks@).len()
                    ==> crate::firework::fw_step_rel(
                    fw_live_seq(old(self).fireworks@)[i],
                    #[trigger] final(self).fireworks@[i],
                ),
            old(self).timer_tick >= old(self).timer_total ==> {
                let f = final(self).fireworks@.last();
                let w_s = (old(self).win_width as int) * (SCALE as int);
                let h_s = (old(self).win_height as int) * (SCALE as int);
                &&& fw_fresh(f, 0, -(h_s / 2), f.tx as int, f.ty as int)
                &&& f.trail@.len() == FW_TRAIL_LEN
                &&& -(w_s / 3) <= f.tx < w_s / 3
                &&& h_s / 6 <= f.ty < h_s / 2
                &&& final(self).hue - HUE_SWING <= f.hue < final(self).hue + HUE_SWING
                &&& 0 <= final(self).hue < HUE_UNIT
            },
            old(self).timer_tick < old(self).timer_total ==> final(self).hue == old(self).hue,
            final(self).particles@.len() <= old(self).particles@.len() + BATCH_SIZE * (old(
                self,
            ).fireworks@.len() - fw_live_seq(old(self).fireworks@).len()),
            exists|mid: Seq<Particle>|
                {
                    &&& #[trigger] mid.len() == old(self).particles@.len() + BATCH_SIZE * (old(
                        self,
                    ).fireworks@.len() - fw_live_seq(old(self).fireworks@).len())
                    &&& forall|i: int|
                        0 <= i < old(self).particles@.len() ==> mid[i] == old(self).particles@[i]
                    &&& final(self).particles@.len() == p_live_seq(mid).len()
                    &&& forall|i: int|
                        0 <= i < final(self).particles@.len()
                            ==> crate::particle::p_step_rel(
                            p_live_seq(mid)[i],
                            #[trigger] final(self).particles@[i],
                        )
                },
    {
        Firework::update(self);
        proof {
            crate::firework::lemma_fw_live_seq_len(old(self).fireworks@);
        }
        let ghost after_fw = *self;
        Particle::update(self);
        proof {
            crate::particle::lemma_p_live_seq_len(after_fw.particles@);
        }
        self.spawn_tick();
        proof {
            let mid = after_fw.particles@;
            assert(mid.len() == old(self).particles@.len() + BATCH_SIZE * (old(self).fireworks@
                .len() - fw_live_seq(old(self).fireworks@).len()) && (forall|i: int|
                0 <= i < old(self).particles@.len() ==> mid[i] == old(self).particles@[i])
                && self.particles@.len() == p_live_seq(mid).len() && (forall|i: int|
                0 <= i < self.particles@.len() ==> crate::particle::p_step_rel(
                    p_live_seq(mid)[i],
                    #[trigger] self.particles@[i],
                )));
        }
    }

    /// No particle whose opacity has dropped to or below its own decay
    /// rate is ever present in a well-formed world: the update pass
    /// removes it on the tick the threshold is crossed.
    pub proof fn lemma_no_faded_particle_lives(self, i: int)
        requires
            self.wf(),
            0 <= i < self.particles@.len(),
        ensures
            self.particles@[i].alpha > self.particles@[i].decay,
    {
    }

    /// A viewport resize from the host.  It touches nothing but the two
    /// dimensions: every live firework and particle is left exactly as it
    /// was, and only future spawns see the new bounds.
    pub fn set_viewport(&mut self, win_width: u32, win_height: u32)
        requires
            old(self).wf(),
            1 <= win_width <= VIEW_MAX,
            1 <= win_height <= VIEW_MAX,
        ensures
            final(self).wf(),
            final(self).win_width == win_width,
            final(self).win_height == win_height,
            final(self).fireworks == old(self).fireworks,
            final(self).particles == old(self).particles,
            final(self).hue == old(self).hue,
            final(self).rng == old(self).rng,
            final(self).timer_total == old(self).timer_total,
            final(self).timer_tick == old(self).timer_tick,
    {
        self.win_width = win_width;
        self.win_height = win_height;
    }
}

} // verus!
