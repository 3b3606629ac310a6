//! The randomness source behind entity creation: a seedable generator and
//! the few draws the simulation makes from it, together with the clock read
//! that seeds it.
use vstd::prelude::*;

use rand::RngExt;
use rand::SeedableRng;
use rand::rngs::StdRng;

use crate::SCALE;

verus! {

/// Declares `rand::rngs::StdRng` so it can stand in fields and signatures;
/// the value itself is opaque to the verifier.
#[verifier::external_type_specification]
#[verifier::external_body]
pub struct ExStdRng(StdRng);

/// Relies on `rand::rngs::StdRng` implementing `SeedableRng`:
/// `seed_from_u64` builds a generator from a word-sized seed.  Nothing is
/// promised of the stream it will produce.
#[verifier::external_body]
pub fn rng_from_seed(seed: u64) -> (rng: StdRng) {
    StdRng::seed_from_u64(seed)
}

/// Relies on `rand::RngExt::random_range`: a draw from `lo..hi` lies in
/// `lo..hi`, and the call only panics when that range is empty.
#[verifier::external_body]
pub fn rand_below(rng: &mut StdRng, bound: u64) -> (r: u64)
    requires
        bound > 0,
    ensures
        r < bound,
{
    rng.random_range(0..bound)
}

/// Relies on `time::OffsetDateTime`: `now_utc` reads the current UTC time,
/// and `nanosecond` is always below one billion.
#[verifier::external_body]
pub fn clock_nanosecond() -> (r: u32)
    ensures
        r < 1_000_000_000,
{
    time::OffsetDateTime::now_utc().nanosecond()
}

/// A movement direction drawn over the full circle: a point is sampled in
/// the square around the origin until it lands inside the unit disc, then
/// normalized to a unit vector in model units.  After too many rejections
/// the fallback is the unit vector along the positive x axis.  Whatever
/// was drawn, the result is such a normalized direction and nothing else.
pub fn random_direction(rng: &mut StdRng) -> (d: (i64, i64))
    ensures
        -SCALE <= d.0 <= SCALE,
        -SCALE <= d.1 <= SCALE,
        crate::geom::is_unit_dir(d.0 as int, d.1 as int),
{
    let mut attempts: u8 = 0;
    while attempts < 16
        decreases 16 - attempts,
    {
        let dx = rand_in_range(rng, -SCALE, SCALE + 1);
        let dy = rand_in_range(rng, -SCALE, SCALE + 1);
        proof {
            assert(0 <= dx * dx <= SCALE * SCALE && 0 <= dy * dy <= SCALE * SCALE)
                by (nonlinear_arith)
                requires
                    -SCALE <= dx <= SCALE,
                    -SCALE <= dy <= SCALE,
            ;
        }
        let d2 = dx * dx + dy * dy;
        if 0 < d2 && d2 <= SCALE * SCALE {
            let r = crate::geom::isqrt(d2);
            proof {
                if r > SCALE {
                    assert(r * r > SCALE * SCALE) by (nonlinear_arith)
                        requires
                            r > SCALE,
                            SCALE > 0,
                    ;
                }
                assert(r >= 1);
                assert(dx * dx <= d2 && dy * dy <= d2) by (nonlinear_arith)
                    requires
                        d2 == dx * dx + dy * dy,
                ;
            }
            let ux = crate::geom::unit_component_exec(dx, r);
            let uy = crate::geom::unit_component_exec(dy, r);
            proof {
                assert(-SCALE <= dx as int <= SCALE && -SCALE <= dy as int <= SCALE && 0 < (
                dx as int) * (dx as int) + (dy as int) * (dy as int) <= SCALE * SCALE
                    && crate::geom::is_sqrt_floor(
                    r as int,
                    (dx as int) * (dx as int) + (dy as int) * (dy as int),
                ) && ux as int == crate::geom::unit_component(dx as int, r as int)
                    && uy as int == crate::geom::unit_component(dy as int, r as int));
                assert(crate::geom::is_unit_dir(ux as int, uy as int));
            }
            return (ux, uy);
        }
        attempts = attempts + 1;
    }
    (SCALE, 0)
}

/// One draw from `lo..hi` over signed model units.
pub fn rand_in_range(rng: &mut StdRng, lo: i64, hi: i64) -> (r: i64)
    requires
        -1_000_000_000 <= lo < hi <= 1_000_000_000,
    ensures
        lo <= r < hi,
{
    let span = (hi - lo) as u64;
    let draw = rand_below(rng, span);
    lo + (draw as i64)
}

} // verus!
