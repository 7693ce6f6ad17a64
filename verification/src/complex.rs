//! Complex numbers over rounded arithmetic.
//!
//! A complex number is a pair of encoded numbers. Each operation is spelled
//! out as the sequence of rounded scalar operations that it performs, in the
//! order in which it performs them: with rounding, a different order is a
//! different result.

use crate::primitive::{Arithmetic, Op};
use crate::word::Word;
use vstd::prelude::*;

verus! {

/// A complex number, held as its real and imaginary part.
#[derive(Clone, Copy, Debug)]
pub struct Complex<T> {
    pub re: T,
    pub im: T,
}

/// The rounded sum `a + b`.
pub open spec fn plus<T, F: Fn(Op<T>) -> T>(m: &Arithmetic<T, F>, a: T, b: T) -> T {
    m.value(Op::Add(a, b))
}

/// The rounded difference `a - b`.
pub open spec fn minus<T, F: Fn(Op<T>) -> T>(m: &Arithmetic<T, F>, a: T, b: T) -> T {
    m.value(Op::Sub(a, b))
}

/// The rounded product `a * b`.
pub open spec fn times<T, F: Fn(Op<T>) -> T>(m: &Arithmetic<T, F>, a: T, b: T) -> T {
    m.value(Op::Mul(a, b))
}

/// The rounded square root of `a`.
pub open spec fn root<T, F: Fn(Op<T>) -> T>(m: &Arithmetic<T, F>, a: T) -> T {
    m.value(Op::Sqrt(a))
}

/// The sum of two complex numbers, part by part.
pub open spec fn sum<T, F: Fn(Op<T>) -> T>(
    m: &Arithmetic<T, F>,
    a: Complex<T>,
    b: Complex<T>,
) -> Complex<T> {
    Complex { re: plus(m, a.re, b.re), im: plus(m, a.im, b.im) }
}

/// The difference of two complex numbers, part by part.
pub open spec fn difference<T, F: Fn(Op<T>) -> T>(
    m: &Arithmetic<T, F>,
    a: Complex<T>,
    b: Complex<T>,
) -> Complex<T> {
    Complex { re: minus(m, a.re, b.re), im: minus(m, a.im, b.im) }
}

/// The product `(a.re*b.re - a.im*b.im, a.re*b.im + a.im*b.re)`.
pub open spec fn product<T, F: Fn(Op<T>) -> T>(
    m: &Arithmetic<T, F>,
    a: Complex<T>,
    b: Complex<T>,
) -> Complex<T> {
    Complex {
        re: minus(m, times(m, a.re, b.re), times(m, a.im, b.im)),
        im: plus(m, times(m, a.re, b.im), times(m, a.im, b.re)),
    }
}

/// The square `(a.re*a.re - a.im*a.im, (2*a.re)*a.im)`.
pub open spec fn square<T: Word, F: Fn(Op<T>) -> T>(m: &Arithmetic<T, F>, a: Complex<T>) -> Complex<
    T,
> {
    Complex {
        re: minus(m, times(m, a.re, a.re), times(m, a.im, a.im)),
        im: times(m, times(m, T::two_word(), a.re), a.im),
    }
}

/// A real number as a complex one: its imaginary part is positive zero.
pub open spec fn purely_real<T: Word>(x: T) -> Complex<T> {
    Complex { re: x, im: T::zero_word() }
}

/// The norm `sqrt(a.re*a.re + a.im*a.im)`.
pub open spec fn norm<T, F: Fn(Op<T>) -> T>(m: &Arithmetic<T, F>, a: Complex<T>) -> T {
    root(m, plus(m, times(m, a.re, a.re), times(m, a.im, a.im)))
}

/// Adds two complex numbers.
pub fn complex_add<T: Word, F: Fn(Op<T>) -> T>(
    m: &Arithmetic<T, F>,
    a: Complex<T>,
    b: Complex<T>,
) -> (r: Complex<T>)
    ensures
        r == sum(m, a, b),
{
    Complex { re: m.apply(Op::Add(a.re, b.re)), im: m.apply(Op::Add(a.im, b.im)) }
}

/// Subtracts the complex number `b` from `a`.
pub fn complex_sub<T: Word, F: Fn(Op<T>) -> T>(
    m: &Arithmetic<T, F>,
    a: Complex<T>,
    b: Complex<T>,
) -> (r: Complex<T>)
    ensures
        r == difference(m, a, b),
{
    Complex { re: m.apply(Op::Sub(a.re, b.re)), im: m.apply(Op::Sub(a.im, b.im)) }
}

/// Multiplies two complex numbers.
pub fn complex_mul<T: Word, F: Fn(Op<T>) -> T>(
    m: &Arithmetic<T, F>,
    a: Complex<T>,
    b: Complex<T>,
) -> (r: Complex<T>)
    ensures
        r == product(m, a, b),
{
    let rr = m.apply(Op::Mul(a.re, b.re));
    let ii = m.apply(Op::Mul(a.im, b.im));
    let ri = m.apply(Op::Mul(a.re, b.im));
    let ir = m.apply(Op::Mul(a.im, b.re));
    Complex { re: m.apply(Op::Sub(rr, ii)), im: m.apply(Op::Add(ri, ir)) }
}

/// Squares a complex number.
pub fn complex_sqr<T: Word, F: Fn(Op<T>) -> T>(m: &Arithmetic<T, F>, a: Complex<T>) -> (r: Complex<
    T,
>)
    ensures
        r == square(m, a),
{
    let rr = m.apply(Op::Mul(a.re, a.re));
    let ii = m.apply(Op::Mul(a.im, a.im));
    let twice = m.apply(Op::Mul(T::two(), a.re));
    Complex { re: m.apply(Op::Sub(rr, ii)), im: m.apply(Op::Mul(twice, a.im)) }
}

/// The norm of a complex number.
pub fn complex_norm<T: Word, F: Fn(Op<T>) -> T>(m: &Arithmetic<T, F>, a: Complex<T>) -> (r: T)
    ensures
        r == norm(m, a),
{
    let rr = m.apply(Op::Mul(a.re, a.re));
    let ii = m.apply(Op::Mul(a.im, a.im));
    let both = m.apply(Op::Add(rr, ii));
    m.apply(Op::Sqrt(both))
}

} // verus!
