//! How a particle starts out.
//!
//! The six numbers of a fresh particle are drawn near the origin. Its bias
//! centre is drawn from a square around the origin whose half width is the
//! base scale, and the two other bias points are the centre stretched along
//! one axis and shrunk along the other.
//!
//! The draws come from a source that the caller hands in: a function value
//! that is given the two ends of an interval and returns a number from it.
//! Two calls with the same interval need not agree, so of a drawn number
//! this is stated: the source returned it for that interval, and it lies
//! in the interval.

use crate::complex::{times, Complex};
use crate::particle::{Bias, Particle};
use crate::primitive::{Arithmetic, Op};
use crate::word::{within, Word};
use vstd::prelude::*;

verus! {

/// The half width of the interval around zero from which the state of a
/// fresh particle is drawn: the binary32 encoding of 0.01.
pub const SPREAD: u32 = 0x3C23_D70A;

/// The lower end of that interval: the binary32 encoding of -0.01.
pub const NEGATIVE_SPREAD: u32 = 0xBC23_D70A;

/// The factor by which a bias centre is stretched: the binary32 encoding of
/// 1.05.
pub const STRETCH: u32 = 0x3F86_6666;

/// The factor by which a bias centre is shrunk: the binary32 encoding of
/// 0.95.
pub const SHRINK: u32 = 0x3F73_3333;

/// Whether the source returned `w` when asked for a number between `lo` and
/// `hi`.
pub open spec fn drawn<G: Fn(u32, u32) -> u32>(uniform: &G, lo: u32, hi: u32, w: u32) -> bool {
    call_ensures(*uniform, (lo, hi), w)
}

/// Whether the source serves an interval: it may be asked for a number
/// between `lo` and `hi`, and whatever it returns is a number that lies
/// between them.
pub open spec fn serves<G: Fn(u32, u32) -> u32>(uniform: &G, lo: u32, hi: u32) -> bool {
    &&& call_requires(*uniform, (lo, hi))
    &&& forall|w: u32| #[trigger] drawn(uniform, lo, hi, w) ==> within(lo, w, hi)
}

/// Whether both parts of `z` were drawn between `lo` and `hi` and lie
/// between them.
pub open spec fn drawn_pair<G: Fn(u32, u32) -> u32>(
    uniform: &G,
    lo: u32,
    hi: u32,
    z: Complex<u32>,
) -> bool {
    &&& drawn(uniform, lo, hi, z.re) && within(lo, z.re, hi)
    &&& drawn(uniform, lo, hi, z.im) && within(lo, z.im, hi)
}

/// Whether a particle and its bias are a fresh start for the base scale:
/// every number of the state was drawn between -0.01 and 0.01, both parts
/// of the centre between minus the base scale and the base scale, and the
/// other two bias points are `(cx*1.05, cy*0.95)` and `(cx*0.95, cy*1.05)`.
pub open spec fn is_seed<G: Fn(u32, u32) -> u32, F: Fn(Op<u32>) -> u32>(
    uniform: &G,
    m: &Arithmetic<u32, F>,
    base_scale: u32,
    p: Particle<u32>,
    bias: Bias<u32>,
) -> bool {
    &&& drawn_pair(uniform, NEGATIVE_SPREAD, SPREAD, p.i)
    &&& drawn_pair(uniform, NEGATIVE_SPREAD, SPREAD, p.u)
    &&& drawn_pair(uniform, NEGATIVE_SPREAD, SPREAD, p.l)
    &&& drawn_pair(uniform, base_scale.opposite(), base_scale, bias.c)
    &&& bias.cu == Complex { re: times(m, bias.c.re, STRETCH), im: times(m, bias.c.im, SHRINK) }
    &&& bias.cl == Complex { re: times(m, bias.c.re, SHRINK), im: times(m, bias.c.im, STRETCH) }
}

/// Draws a fresh particle and its bias.
pub fn seed_particle<G: Fn(u32, u32) -> u32, F: Fn(Op<u32>) -> u32>(
    uniform: &G,
    m: &Arithmetic<u32, F>,
    base_scale: u32,
) -> (r: (Particle<u32>, Bias<u32>))
    requires
        serves(uniform, NEGATIVE_SPREAD, SPREAD),
        serves(uniform, base_scale.opposite(), base_scale),
    ensures
        is_seed(uniform, m, base_scale, r.0, r.1),
{
    let i_re = uniform(NEGATIVE_SPREAD, SPREAD);
    let i_im = uniform(NEGATIVE_SPREAD, SPREAD);
    let u_re = uniform(NEGATIVE_SPREAD, SPREAD);
    let u_im = uniform(NEGATIVE_SPREAD, SPREAD);
    let l_re = uniform(NEGATIVE_SPREAD, SPREAD);
    let l_im = uniform(NEGATIVE_SPREAD, SPREAD);
    let low = base_scale.negated();
    let cx = uniform(low, base_scale);
    let cy = uniform(low, base_scale);
    let p = Particle {
        i: Complex { re: i_re, im: i_im },
        u: Complex { re: u_re, im: u_im },
        l: Complex { re: l_re, im: l_im },
    };
    let bias = Bias {
        c: Complex { re: cx, im: cy },
        cu: Complex { re: m.apply(Op::Mul(cx, STRETCH)), im: m.apply(Op::Mul(cy, SHRINK)) },
        cl: Complex { re: m.apply(Op::Mul(cx, SHRINK)), im: m.apply(Op::Mul(cy, STRETCH)) },
    };
    (p, bias)
}

} // verus!
