//! One particle and the map that moves it.
//!
//! A particle carries three complex numbers `I`, `U` and `L` and is pushed
//! towards three fixed bias points. One step of the map is
//!
//! ```text
//! I' = k * I * (U^2 - L^2) + c
//! U' = k * U * (I^2 - L^2) + cu
//! L' = k * L * (U^2 - I^2) + cl
//! ```
//!
//! where every `^2` is a complex square: this is the squared coupling, in
//! which `I` enters the second and third line through `I^2`, never as `I`
//! itself. The factor `k` is real and takes part as the complex number
//! `(k, 0)`.
//!
//! A particle whose step carries it further from the origin than the escape
//! radius is put back at the origin. So is one whose step cannot be placed
//! at all: a step that yields a NaN or an infinity, or a norm that is a
//! NaN, counts as an escape, so that no such value is ever kept. A particle
//! whose `I` is zero and whose `U` has a zero real part counts as frozen and
//! is never moved again; the origin is such a particle.

use crate::complex::{
    complex_add, complex_mul, complex_norm, complex_sqr, complex_sub, difference, norm, product,
    purely_real, square, sum, Complex,
};
use crate::primitive::{Arithmetic, Op};
use crate::word::{exceeds, is_finite, is_nan, is_zero, Word};
use vstd::prelude::*;

verus! {

/// The state of one particle.
#[derive(Clone, Copy, Debug)]
pub struct Particle<T> {
    pub i: Complex<T>,
    pub u: Complex<T>,
    pub l: Complex<T>,
}

/// The three bias points of one particle: a centre and two points near it.
#[derive(Clone, Copy, Debug)]
pub struct Bias<T> {
    pub c: Complex<T>,
    pub cu: Complex<T>,
    pub cl: Complex<T>,
}

/// The particle at the origin: all six numbers are positive zero.
pub open spec fn origin<T: Word>() -> Particle<T> {
    Particle {
        i: Complex { re: T::zero_word(), im: T::zero_word() },
        u: Complex { re: T::zero_word(), im: T::zero_word() },
        l: Complex { re: T::zero_word(), im: T::zero_word() },
    }
}

/// Whether a particle is frozen: both parts of `I` and the real part of `U`
/// are zeros.
pub open spec fn is_frozen<T: Word>(p: Particle<T>) -> bool {
    is_zero(p.i.re) && is_zero(p.i.im) && is_zero(p.u.re)
}

/// The term `k * z * (a - b)` of the map, with `k` as the complex number
/// `(k, 0)`.
pub open spec fn coupled<T: Word, F: Fn(Op<T>) -> T>(
    m: &Arithmetic<T, F>,
    k: T,
    z: Complex<T>,
    a: Complex<T>,
    b: Complex<T>,
) -> Complex<T> {
    product(m, purely_real(k), product(m, z, difference(m, a, b)))
}

/// The particle after one step of the map, before any escape check.
pub open spec fn advanced<T: Word, F: Fn(Op<T>) -> T>(
    m: &Arithmetic<T, F>,
    p: Particle<T>,
    bias: Bias<T>,
    k: T,
) -> Particle<T> {
    let i2 = square(m, p.i);
    let u2 = square(m, p.u);
    let l2 = square(m, p.l);
    Particle {
        i: sum(m, coupled(m, k, p.i, u2, l2), bias.c),
        u: sum(m, coupled(m, k, p.u, i2, l2), bias.cu),
        l: sum(m, coupled(m, k, p.l, u2, i2), bias.cl),
    }
}

/// Whether all six numbers of a particle are finite.
pub open spec fn is_finite_particle<T: Word>(p: Particle<T>) -> bool {
    &&& is_finite(p.i.re) && is_finite(p.i.im)
    &&& is_finite(p.u.re) && is_finite(p.u.im)
    &&& is_finite(p.l.re) && is_finite(p.l.im)
}

/// Whether a norm is beyond the radius: it is a NaN, or a number greater
/// than the radius.
pub open spec fn is_beyond<T: Word>(norm: T, radius: T) -> bool {
    is_nan(norm) || exceeds(norm, radius)
}

/// Whether a particle lies outside the escape radius: one of its six
/// numbers is not finite, or the norm of `I`, of `U` or of `L` is beyond
/// the radius.
pub open spec fn is_outside<T: Word, F: Fn(Op<T>) -> T>(
    m: &Arithmetic<T, F>,
    p: Particle<T>,
    radius: T,
) -> bool {
    ||| !is_finite_particle(p)
    ||| is_beyond(norm(m, p.i), radius)
    ||| is_beyond(norm(m, p.u), radius)
    ||| is_beyond(norm(m, p.l), radius)
}

/// Whether a step makes the particle escape: it is not frozen, and the step
/// carries it outside the radius.
pub open spec fn escapes<T: Word, F: Fn(Op<T>) -> T>(
    m: &Arithmetic<T, F>,
    p: Particle<T>,
    bias: Bias<T>,
    k: T,
    radius: T,
) -> bool {
    !is_frozen(p) && is_outside(m, advanced(m, p, bias, k), radius)
}

/// The particle after one step with its escape check: a frozen particle
/// stays as it is, an escaping one goes to the origin, any other takes the
/// step.
pub open spec fn settled<T: Word, F: Fn(Op<T>) -> T>(
    m: &Arithmetic<T, F>,
    p: Particle<T>,
    bias: Bias<T>,
    k: T,
    radius: T,
) -> Particle<T> {
    if is_frozen(p) {
        p
    } else if is_outside(m, advanced(m, p, bias, k), radius) {
        origin()
    } else {
        advanced(m, p, bias, k)
    }
}

/// Decides whether a particle is frozen.
pub fn frozen<T: Word>(p: &Particle<T>) -> (b: bool)
    ensures
        b == is_frozen(*p),
{
    p.i.re.is_zero() && p.i.im.is_zero() && p.u.re.is_zero()
}

/// The particle at the origin.
pub fn at_origin<T: Word>() -> (p: Particle<T>)
    ensures
        p == origin::<T>(),
{
    Particle {
        i: Complex { re: T::zero(), im: T::zero() },
        u: Complex { re: T::zero(), im: T::zero() },
        l: Complex { re: T::zero(), im: T::zero() },
    }
}

/// Computes `k * z * (a - b)`.
fn couple<T: Word, F: Fn(Op<T>) -> T>(
    m: &Arithmetic<T, F>,
    k: T,
    z: Complex<T>,
    a: Complex<T>,
    b: Complex<T>,
) -> (r: Complex<T>)
    ensures
        r == coupled(m, k, z, a, b),
{
    let gap = complex_sub(m, a, b);
    let inner = complex_mul(m, z, gap);
    complex_mul(m, Complex { re: k, im: T::zero() }, inner)
}

/// Takes one step of the map, without escape check and whether or not the
/// particle is frozen.
pub fn map_step<T: Word, F: Fn(Op<T>) -> T>(
    m: &Arithmetic<T, F>,
    p: Particle<T>,
    bias: Bias<T>,
    k: T,
) -> (q: Particle<T>)
    ensures
        q == advanced(m, p, bias, k),
{
    let i2 = complex_sqr(m, p.i);
    let u2 = complex_sqr(m, p.u);
    let l2 = complex_sqr(m, p.l);
    let next_i = couple(m, k, p.i, u2, l2);
    let next_u = couple(m, k, p.u, i2, l2);
    let next_l = couple(m, k, p.l, u2, i2);
    Particle {
        i: complex_add(m, next_i, bias.c),
        u: complex_add(m, next_u, bias.cu),
        l: complex_add(m, next_l, bias.cl),
    }
}

/// Decides whether all six numbers of a particle are finite.
pub fn finite<T: Word>(p: &Particle<T>) -> (b: bool)
    ensures
        b == is_finite_particle(*p),
{
    p.i.re.is_finite() && p.i.im.is_finite() && p.u.re.is_finite() && p.u.im.is_finite()
        && p.l.re.is_finite() && p.l.im.is_finite()
}

/// Decides whether a norm is beyond the radius.
fn beyond<T: Word>(norm: T, radius: T) -> (b: bool)
    ensures
        b == is_beyond(norm, radius),
{
    norm.is_nan() || norm.exceeds(radius)
}

/// Decides whether a particle lies outside the escape radius.
pub fn outside<T: Word, F: Fn(Op<T>) -> T>(m: &Arithmetic<T, F>, p: &Particle<T>, radius: T) -> (b:
    bool)
    ensures
        b == is_outside(m, *p, radius),
{
    if !finite(p) {
        return true;
    }
    let norm_i = complex_norm(m, p.i);
    let norm_u = complex_norm(m, p.u);
    let norm_l = complex_norm(m, p.l);
    beyond(norm_i, radius) || beyond(norm_u, radius) || beyond(norm_l, radius)
}

/// Moves one particle by one step with its escape check, and says whether
/// it escaped.
pub fn settle<T: Word, F: Fn(Op<T>) -> T>(
    m: &Arithmetic<T, F>,
    p: Particle<T>,
    bias: Bias<T>,
    k: T,
    radius: T,
) -> (r: (Particle<T>, bool))
    ensures
        r.0 == settled(m, p, bias, k, radius),
        r.1 == escapes(m, p, bias, k, radius),
{
    if frozen(&p) {
        (p, false)
    } else {
        let q = map_step(m, p, bias, k);
        if outside(m, &q, radius) {
            (at_origin(), true)
        } else {
            (q, false)
        }
    }
}

} // verus!
