//! How fast two precisions drift apart.
//!
//! One particle is followed twice from the same start: once in single
//! precision and once in double precision, the double one starting from the
//! single start widened. After every step the distance between the two
//! states is taken in double precision, over all six numbers, and recorded.
//! Neither trajectory is checked for escape or frozen. The record ends
//! after the asked number of steps, or earlier with the first distance
//! above [`DIVERGENCE_LIMIT`].

use crate::complex::{minus, plus, root, times, Complex};
use crate::particle::{advanced, map_step, Bias, Particle};
use crate::primitive::{Arithmetic, Op, Primitive};
use crate::seed::{is_seed, seed_particle, serves, NEGATIVE_SPREAD, SPREAD};
use crate::word::{exceeds, Word};
use vstd::prelude::*;

verus! {

/// The distance beyond which a record ends: the binary64 encoding of
/// 1000.0.
pub const DIVERGENCE_LIMIT: u64 = 0x408F_4000_0000_0000;

/// The base scale of the bias centre that is drawn: the binary32 encoding
/// of 2.0.
pub const DIVERGENCE_BASE_SCALE: u32 = 0x4000_0000;

/// The lower end of the interval of the bias centre: the binary32 encoding
/// of -2.0.
pub const DIVERGENCE_NEGATIVE_BASE_SCALE: u32 = 0xC000_0000;

/// A single precision complex number in double precision.
pub open spec fn widened<W: Fn(u32) -> u64>(w: &Primitive<u32, u64, W>, z: Complex<u32>) -> Complex<
    u64,
> {
    Complex { re: w.value(z.re), im: w.value(z.im) }
}

/// A single precision particle in double precision.
pub open spec fn widened_particle<W: Fn(u32) -> u64>(
    w: &Primitive<u32, u64, W>,
    p: Particle<u32>,
) -> Particle<u64> {
    Particle { i: widened(w, p.i), u: widened(w, p.u), l: widened(w, p.l) }
}

/// A single precision bias in double precision.
pub open spec fn widened_bias<W: Fn(u32) -> u64>(
    w: &Primitive<u32, u64, W>,
    bias: Bias<u32>,
) -> Bias<u64> {
    Bias { c: widened(w, bias.c), cu: widened(w, bias.cu), cl: widened(w, bias.cl) }
}

/// The squared distance `(a.re - b.re)^2 + (a.im - b.im)^2`.
pub open spec fn gap_squared<D: Fn(Op<u64>) -> u64>(
    d: &Arithmetic<u64, D>,
    a: Complex<u64>,
    b: Complex<u64>,
) -> u64 {
    let x = minus(d, a.re, b.re);
    let y = minus(d, a.im, b.im);
    plus(d, times(d, x, x), times(d, y, y))
}

/// The distance between a double precision state and a single precision
/// one: the single state is widened, and the square root is taken of the
/// squared distances of `I`, `U` and `L`, added in that order.
pub open spec fn separation<D: Fn(Op<u64>) -> u64, W: Fn(u32) -> u64>(
    d: &Arithmetic<u64, D>,
    w: &Primitive<u32, u64, W>,
    single: Particle<u32>,
    double: Particle<u64>,
) -> u64 {
    let gap_i = gap_squared(d, double.i, widened(w, single.i));
    let gap_u = gap_squared(d, double.u, widened(w, single.u));
    let gap_l = gap_squared(d, double.l, widened(w, single.l));
    root(d, plus(d, plus(d, gap_i, gap_u), gap_l))
}

/// The record of distances for `steps` steps from a pair of states.
pub open spec fn divergence<S: Fn(Op<u32>) -> u32, D: Fn(Op<u64>) -> u64, W: Fn(u32) -> u64>(
    s: &Arithmetic<u32, S>,
    d: &Arithmetic<u64, D>,
    w: &Primitive<u32, u64, W>,
    single: Particle<u32>,
    double: Particle<u64>,
    bias: Bias<u32>,
    k_single: u32,
    k: u64,
    steps: nat,
) -> Seq<u64>
    decreases steps,
{
    if steps == 0 {
        Seq::empty()
    } else {
        let next_single = advanced(s, single, bias, k_single);
        let next_double = advanced(d, double, widened_bias(w, bias), k);
        let distance = separation(d, w, next_single, next_double);
        if exceeds(distance, DIVERGENCE_LIMIT) {
            seq![distance]
        } else {
            seq![distance] + divergence(
                s,
                d,
                w,
                next_single,
                next_double,
                bias,
                k_single,
                k,
                (steps - 1) as nat,
            )
        }
    }
}

/// A record is no longer than the steps asked for, and it ends early only
/// at the limit: every distance but the last is within the limit, and a
/// record that is shorter than the steps asked for ends with a distance
/// above it.
pub proof fn lemma_record_ends_at_limit<
    S: Fn(Op<u32>) -> u32,
    D: Fn(Op<u64>) -> u64,
    W: Fn(u32) -> u64,
>(
    s: &Arithmetic<u32, S>,
    d: &Arithmetic<u64, D>,
    w: &Primitive<u32, u64, W>,
    single: Particle<u32>,
    double: Particle<u64>,
    bias: Bias<u32>,
    k_single: u32,
    k: u64,
    steps: nat,
)
    ensures
        ({
            let record = divergence(s, d, w, single, double, bias, k_single, k, steps);
            &&& record.len() <= steps
            &&& steps > 0 ==> record.len() > 0
            &&& forall|j: int|
                0 <= j < record.len() - 1 ==> !exceeds(#[trigger] record[j], DIVERGENCE_LIMIT)
            &&& record.len() < steps ==> exceeds(record.last(), DIVERGENCE_LIMIT)
        }),
    decreases steps,
{
    if steps > 0 {
        let next_single = advanced(s, single, bias, k_single);
        let next_double = advanced(d, double, widened_bias(w, bias), k);
        lemma_record_ends_at_limit(
            s,
            d,
            w,
            next_single,
            next_double,
            bias,
            k_single,
            k,
            (steps - 1) as nat,
        );
    }
}

/// Widens a complex number.
fn widen_complex<W: Fn(u32) -> u64>(w: &Primitive<u32, u64, W>, z: Complex<u32>) -> (r: Complex<u64>)
    ensures
        r == widened(w, z),
{
    Complex { re: w.apply(z.re), im: w.apply(z.im) }
}

/// Computes the squared distance of two complex numbers.
fn squared_gap<D: Fn(Op<u64>) -> u64>(d: &Arithmetic<u64, D>, a: Complex<u64>, b: Complex<u64>) -> (r:
    u64)
    ensures
        r == gap_squared(d, a, b),
{
    let x = d.apply(Op::Sub(a.re, b.re));
    let y = d.apply(Op::Sub(a.im, b.im));
    let xx = d.apply(Op::Mul(x, x));
    let yy = d.apply(Op::Mul(y, y));
    d.apply(Op::Add(xx, yy))
}

/// Computes the distance between a double precision state and a single
/// precision one.
pub fn distance<D: Fn(Op<u64>) -> u64, W: Fn(u32) -> u64>(
    d: &Arithmetic<u64, D>,
    w: &Primitive<u32, u64, W>,
    single: &Particle<u32>,
    double: &Particle<u64>,
) -> (r: u64)
    ensures
        r == separation(d, w, *single, *double),
{
    let gap_i = squared_gap(d, double.i, widen_complex(w, single.i));
    let gap_u = squared_gap(d, double.u, widen_complex(w, single.u));
    let gap_l = squared_gap(d, double.l, widen_complex(w, single.l));
    let both = d.apply(Op::Add(gap_i, gap_u));
    let all = d.apply(Op::Add(both, gap_l));
    d.apply(Op::Sqrt(all))
}

/// Follows one particle in both precisions and records their distance
/// after every step.
pub fn trace_divergence<S: Fn(Op<u32>) -> u32, D: Fn(Op<u64>) -> u64, W: Fn(u32) -> u64>(
    s: &Arithmetic<u32, S>,
    d: &Arithmetic<u64, D>,
    w: &Primitive<u32, u64, W>,
    start: Particle<u32>,
    bias: Bias<u32>,
    k_single: u32,
    k: u64,
    steps: usize,
) -> (record: Vec<u64>)
    ensures
        record@ == divergence(
            s,
            d,
            w,
            start,
            widened_particle(w, start),
            bias,
            k_single,
            k,
            steps as nat,
        ),
        record@.len() <= steps,
{
    let wide_bias = Bias {
        c: widen_complex(w, bias.c),
        cu: widen_complex(w, bias.cu),
        cl: widen_complex(w, bias.cl),
    };
    let mut single = start;
    let mut double = Particle {
        i: widen_complex(w, start.i),
        u: widen_complex(w, start.u),
        l: widen_complex(w, start.l),
    };
    let ghost whole = divergence(s, d, w, single, double, bias, k_single, k, steps as nat);
    let mut record: Vec<u64> = Vec::new();
    let mut left: usize = steps;
    while left > 0
        invariant
            wide_bias == widened_bias(w, bias),
            whole == record@ + divergence(s, d, w, single, double, bias, k_single, k, left as nat),
        decreases left,
    {
        single = map_step(s, single, bias, k_single);
        double = map_step(d, double, wide_bias, k);
        let apart = distance(d, w, &single, &double);
        let ghost so_far = record@;
        record.push(apart);
        if apart.exceeds(DIVERGENCE_LIMIT) {
            left = 0;
        } else {
            left = left - 1;
        }
        proof {
            assert(record@ == so_far + seq![apart]);
            assert(whole == record@ + divergence(
                s,
                d,
                w,
                single,
                double,
                bias,
                k_single,
                k,
                left as nat,
            ));
        }
    }
    proof {
        assert(record@ + Seq::<u64>::empty() == record@);
        lemma_record_ends_at_limit(
            s,
            d,
            w,
            start,
            widened_particle(w, start),
            bias,
            k_single,
            k,
            steps as nat,
        );
    }
    record
}

/// Draws one particle with its bias and records how its single and double
/// precision trajectories drift apart under the factor `k`.
///
/// The single precision trajectory uses `k` narrowed. The start is drawn
/// anew on every call, so two calls with the same arguments may differ. The
/// result is the record of some fresh start.
pub fn evaluate_divergence<
    G: Fn(u32, u32) -> u32,
    S: Fn(Op<u32>) -> u32,
    D: Fn(Op<u64>) -> u64,
    W: Fn(u32) -> u64,
    N: Fn(u64) -> u32,
>(
    k: u64,
    steps: usize,
    uniform: &G,
    s: &Arithmetic<u32, S>,
    d: &Arithmetic<u64, D>,
    w: &Primitive<u32, u64, W>,
    n: &Primitive<u64, u32, N>,
) -> (record: Vec<u64>)
    requires
        serves(uniform, NEGATIVE_SPREAD, SPREAD),
        serves(uniform, DIVERGENCE_NEGATIVE_BASE_SCALE, DIVERGENCE_BASE_SCALE),
    ensures
        exists|start: Particle<u32>, bias: Bias<u32>|
            {
                &&& is_seed(uniform, s, DIVERGENCE_BASE_SCALE, start, bias)
                &&& record@ == #[trigger] divergence(
                    s,
                    d,
                    w,
                    start,
                    widened_particle(w, start),
                    bias,
                    n.value(k),
                    k,
                    steps as nat,
                )
            },
        record@.len() <= steps,
{
    let (start, bias) = seed_particle(uniform, s, DIVERGENCE_BASE_SCALE);
    let k_single = n.apply(k);
    trace_divergence(s, d, w, start, bias, k_single, k, steps)
}

} // verus!
