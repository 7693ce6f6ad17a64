//! What holds of the engine whatever arithmetic and whatever source of
//! draws it is given.

use crate::chaos::score_of;
use crate::complex::{norm, times, Complex};
use crate::divergence::divergence;
use crate::ensemble::{
    escape_count, escapes_during, lemma_ran_len, ran, stepped, survivors_after, MAX_PARTICLES,
};
use crate::particle::{
    advanced, escapes, is_finite_particle, is_frozen, origin, settled, Bias, Particle,
};
use crate::primitive::{Arithmetic, Op, Primitive};
use crate::seed::{is_seed, NEGATIVE_SPREAD, SHRINK, SPREAD, STRETCH};
use crate::word::{is_finite, is_nan, is_positive, is_zero, ordinal, within, Word};
use vstd::prelude::*;

verus! {

/// Whether both parts of a complex number lie between `lo` and `hi`.
pub open spec fn pair_within(lo: u32, z: Complex<u32>, hi: u32) -> bool {
    within(lo, z.re, hi) && within(lo, z.im, hi)
}

/// Whether a word is a number greater than zero.
pub open spec fn is_above_zero<T: Word>(w: T) -> bool {
    !is_nan(w) && ordinal(w) > 0
}

/// Whether a score is minus a quarter.
pub open spec fn is_minus_quarter(numerator: int, denominator: int) -> bool {
    denominator > 0 && 4 * numerator == denominator
}

/// Whether a norm is a number that is at most the radius. Against a
/// radius that is a NaN nothing is measured, and every norm that is a
/// number passes.
pub open spec fn is_at_most<T: Word>(norm: T, radius: T) -> bool {
    !is_nan(norm) && (is_nan(radius) || ordinal(norm) <= ordinal(radius))
}

/// A fresh particle lies within the spread and its bias centre within the
/// base scale: all six numbers of the state are between -0.01 and 0.01,
/// both parts of the centre are between minus the base scale and the base
/// scale, and the two other bias points are the centre times 1.05 and 0.95,
/// and times 0.95 and 1.05. With a base scale that is a positive finite
/// number, the state and the centre are finite.
pub proof fn lemma_seed_is_near_origin<G: Fn(u32, u32) -> u32, F: Fn(Op<u32>) -> u32>(
    uniform: &G,
    m: &Arithmetic<u32, F>,
    base_scale: u32,
    p: Particle<u32>,
    bias: Bias<u32>,
)
    requires
        is_seed(uniform, m, base_scale, p, bias),
    ensures
        pair_within(NEGATIVE_SPREAD, p.i, SPREAD),
        pair_within(NEGATIVE_SPREAD, p.u, SPREAD),
        pair_within(NEGATIVE_SPREAD, p.l, SPREAD),
        pair_within(base_scale.opposite(), bias.c, base_scale),
        bias.cu.re == times(m, bias.c.re, STRETCH),
        bias.cu.im == times(m, bias.c.im, SHRINK),
        bias.cl.re == times(m, bias.c.re, SHRINK),
        bias.cl.im == times(m, bias.c.im, STRETCH),
        is_finite_particle(p),
        is_positive(base_scale) ==> is_finite(bias.c.re) && is_finite(bias.c.im),
{
}

/// The origin is frozen.
pub proof fn lemma_origin_is_frozen<T: Word>()
    ensures
        is_frozen(origin::<T>()),
{
    T::lemma_zero_word();
}

/// A frozen particle is never moved again: however many steps the ensemble
/// takes, it stays exactly as it is.
pub proof fn lemma_frozen_stays_put<F: Fn(Op<u32>) -> u32>(
    m: &Arithmetic<u32, F>,
    ps: Seq<Particle<u32>>,
    bs: Seq<Bias<u32>>,
    k: u32,
    radius: u32,
    steps: nat,
    p: int,
)
    requires
        0 <= p < ps.len(),
        is_frozen(ps[p]),
    ensures
        ran(m, ps, bs, k, radius, steps)[p] == ps[p],
    decreases steps,
{
    if steps > 0 {
        lemma_frozen_stays_put(m, ps, bs, k, radius, (steps - 1) as nat, p);
        lemma_ran_len(m, ps, bs, k, radius, (steps - 1) as nat);
    }
}

/// A particle at the origin stays exactly at the origin, however many steps
/// the ensemble takes.
pub proof fn lemma_origin_stays<F: Fn(Op<u32>) -> u32>(
    m: &Arithmetic<u32, F>,
    ps: Seq<Particle<u32>>,
    bs: Seq<Bias<u32>>,
    k: u32,
    radius: u32,
    steps: nat,
    p: int,
)
    requires
        0 <= p < ps.len(),
        ps[p] == origin::<u32>(),
    ensures
        ran(m, ps, bs, k, radius, steps)[p] == origin::<u32>(),
{
    lemma_frozen_stays_put(m, ps, bs, k, radius, steps, p);
}

/// The survivor count never grows: after more steps it is no larger than
/// after fewer.
pub proof fn lemma_survivors_never_grow<F: Fn(Op<u32>) -> u32>(
    m: &Arithmetic<u32, F>,
    ps: Seq<Particle<u32>>,
    bs: Seq<Bias<u32>>,
    k: u32,
    radius: u32,
    earlier: nat,
    later: nat,
)
    requires
        earlier <= later,
    ensures
        survivors_after(m, ps, bs, k, radius, later) <= survivors_after(
            m,
            ps,
            bs,
            k,
            radius,
            earlier,
        ),
    decreases later,
{
    if earlier < later {
        lemma_survivors_never_grow(m, ps, bs, k, radius, earlier, (later - 1) as nat);
    }
}

/// A particle that a step has moved and left in place lies inside the
/// escape radius: after the step it is at the origin, or all six of its
/// numbers are finite and each of its three norms is a number that is at
/// most the radius.
pub proof fn lemma_moved_particle_is_inside<T: Word, F: Fn(Op<T>) -> T>(
    m: &Arithmetic<T, F>,
    p: Particle<T>,
    bias: Bias<T>,
    k: T,
    radius: T,
)
    requires
        !is_frozen(p),
    ensures
        ({
            let q = settled(m, p, bias, k, radius);
            q == origin::<T>() || {
                &&& is_finite_particle(q)
                &&& is_at_most(norm(m, q.i), radius)
                &&& is_at_most(norm(m, q.u), radius)
                &&& is_at_most(norm(m, q.l), radius)
            }
        }),
{
}

/// A step that yields a NaN or an infinity is an escape: the particle goes
/// to the origin and leaves the survivors, whatever the radius is.
pub proof fn lemma_non_finite_step_escapes<T: Word, F: Fn(Op<T>) -> T>(
    m: &Arithmetic<T, F>,
    p: Particle<T>,
    bias: Bias<T>,
    k: T,
    radius: T,
)
    requires
        !is_frozen(p),
        !is_finite_particle(advanced(m, p, bias, k)),
    ensures
        settled(m, p, bias, k, radius) == origin::<T>(),
        escapes(m, p, bias, k, radius),
{
}

/// So is a step that yields a norm that is a NaN.
pub proof fn lemma_nan_norm_escapes<T: Word, F: Fn(Op<T>) -> T>(
    m: &Arithmetic<T, F>,
    p: Particle<T>,
    bias: Bias<T>,
    k: T,
    radius: T,
)
    requires
        !is_frozen(p),
        ({
            let q = advanced(m, p, bias, k);
            is_nan(norm(m, q.i)) || is_nan(norm(m, q.u)) || is_nan(norm(m, q.l))
        }),
    ensures
        settled(m, p, bias, k, radius) == origin::<T>(),
        escapes(m, p, bias, k, radius),
{
}

/// A step never leaves a NaN or an infinity behind: a particle whose six
/// numbers are finite before a step has six finite numbers after it.
pub proof fn lemma_step_keeps_finite<T: Word, F: Fn(Op<T>) -> T>(
    m: &Arithmetic<T, F>,
    p: Particle<T>,
    bias: Bias<T>,
    k: T,
    radius: T,
)
    requires
        is_finite_particle(p),
    ensures
        is_finite_particle(settled(m, p, bias, k, radius)),
{
    T::lemma_zero_word();
}

/// An ensemble whose numbers are all finite stays so, however many steps it
/// takes and whatever the factor and the radius are.
pub proof fn lemma_run_keeps_finite<F: Fn(Op<u32>) -> u32>(
    m: &Arithmetic<u32, F>,
    ps: Seq<Particle<u32>>,
    bs: Seq<Bias<u32>>,
    k: u32,
    radius: u32,
    steps: nat,
)
    requires
        forall|p: int| 0 <= p < ps.len() ==> is_finite_particle(#[trigger] ps[p]),
    ensures
        forall|p: int|
            0 <= p < ps.len() ==> is_finite_particle(
                #[trigger] ran(m, ps, bs, k, radius, steps)[p],
            ),
    decreases steps,
{
    if steps > 0 {
        let before = ran(m, ps, bs, k, radius, (steps - 1) as nat);
        lemma_run_keeps_finite(m, ps, bs, k, radius, (steps - 1) as nat);
        lemma_ran_len(m, ps, bs, k, radius, (steps - 1) as nat);
        assert forall|p: int| 0 <= p < ps.len() implies is_finite_particle(
            #[trigger] ran(m, ps, bs, k, radius, steps)[p],
        ) by {
            lemma_step_keeps_finite(m, before[p], bs[p], k, radius);
        }
    }
}

/// Without a step nothing happens: the particles are as they were, all of
/// them count as survivors, and the record of distances is empty.
pub proof fn lemma_no_steps<
    S: Fn(Op<u32>) -> u32,
    D: Fn(Op<u64>) -> u64,
    W: Fn(u32) -> u64,
>(
    s: &Arithmetic<u32, S>,
    d: &Arithmetic<u64, D>,
    w: &Primitive<u32, u64, W>,
    ps: Seq<Particle<u32>>,
    bs: Seq<Bias<u32>>,
    k: u32,
    radius: u32,
    single: Particle<u32>,
    double: Particle<u64>,
    bias: Bias<u32>,
    k_double: u64,
)
    ensures
        ran(s, ps, bs, k, radius, 0) == ps,
        survivors_after(s, ps, bs, k, radius, 0) == ps.len(),
        divergence(s, d, w, single, double, bias, k, k_double, 0) == Seq::<u64>::empty(),
{
}

/// The score is minus a quarter when every particle survived and when none
/// did.
pub proof fn lemma_all_or_none_scores_lowest(total: int)
    requires
        0 < total <= MAX_PARTICLES,
    ensures
        is_minus_quarter(
            score_of(total, total).numerator as int,
            score_of(total, total).denominator as int,
        ),
        is_minus_quarter(
            score_of(0, total).numerator as int,
            score_of(0, total).denominator as int,
        ),
{
    crate::chaos::lemma_score_fits(total, total);
    crate::chaos::lemma_score_fits(0, total);
    assert((2 * total - total) * (2 * total - total) == total * total) by (nonlinear_arith);
    assert((2 * 0 - total) * (2 * 0 - total) == total * total) by (nonlinear_arith);
    assert(4 * (total * total) == 4 * total * total) by (nonlinear_arith);
    assert(4 * total * total > 0) by (nonlinear_arith)
        requires
            total > 0,
    ;
}

/// When every particle is frozen a step changes nothing and nothing
/// escapes.
pub proof fn lemma_all_frozen_is_still<F: Fn(Op<u32>) -> u32>(
    m: &Arithmetic<u32, F>,
    ps: Seq<Particle<u32>>,
    bs: Seq<Bias<u32>>,
    k: u32,
    radius: u32,
    upto: nat,
)
    requires
        upto <= ps.len(),
        forall|p: int| 0 <= p < ps.len() ==> is_frozen(#[trigger] ps[p]),
    ensures
        stepped(m, ps, bs, k, radius) == ps,
        escape_count(m, ps, bs, k, radius, upto) == 0,
    decreases upto,
{
    assert(stepped(m, ps, bs, k, radius) =~= ps);
    if upto > 0 {
        lemma_all_frozen_is_still(m, ps, bs, k, radius, (upto - 1) as nat);
    }
}

/// When every particle escapes in a step, the escapes are as many as the
/// particles.
pub proof fn lemma_all_escape<F: Fn(Op<u32>) -> u32>(
    m: &Arithmetic<u32, F>,
    ps: Seq<Particle<u32>>,
    bs: Seq<Bias<u32>>,
    k: u32,
    radius: u32,
    upto: nat,
)
    requires
        upto <= ps.len(),
        forall|p: int| 0 <= p < ps.len() ==> escapes(m, #[trigger] ps[p], bs[p], k, radius),
    ensures
        escape_count(m, ps, bs, k, radius, upto) == upto,
        forall|p: int|
            0 <= p < ps.len() ==> #[trigger] stepped(m, ps, bs, k, radius)[p] == origin::<u32>(),
    decreases upto,
{
    if upto > 0 {
        lemma_all_escape(m, ps, bs, k, radius, (upto - 1) as nat);
    }
}

/// With an escape radius of zero a run of at least one step leaves no
/// survivor and scores minus a quarter, provided that no particle starts
/// frozen and that the first step gives every particle a norm that is a
/// number greater than zero.
pub proof fn lemma_zero_radius_clears<F: Fn(Op<u32>) -> u32>(
    m: &Arithmetic<u32, F>,
    ps: Seq<Particle<u32>>,
    bs: Seq<Bias<u32>>,
    k: u32,
    radius: u32,
    steps: nat,
)
    requires
        is_zero(radius),
        steps >= 1,
        0 < ps.len() <= MAX_PARTICLES,
        forall|p: int| 0 <= p < ps.len() ==> !is_frozen(#[trigger] ps[p]),
        forall|p: int|
            0 <= p < ps.len() ==> {
                let moved = advanced(m, #[trigger] ps[p], bs[p], k);
                is_above_zero(norm(m, moved.i)) || is_above_zero(norm(m, moved.u))
                    || is_above_zero(norm(m, moved.l))
            },
    ensures
        survivors_after(m, ps, bs, k, radius, steps) == 0,
        forall|p: int|
            0 <= p < ps.len() ==> #[trigger] ran(m, ps, bs, k, radius, steps)[p] == origin::<
                u32,
            >(),
        is_minus_quarter(
            score_of(survivors_after(m, ps, bs, k, radius, steps), ps.len() as int).numerator as int,
            score_of(
                survivors_after(m, ps, bs, k, radius, steps),
                ps.len() as int,
            ).denominator as int,
        ),
    decreases steps,
{
    lemma_all_or_none_scores_lowest(ps.len() as int);
    if steps == 1 {
        assert(ran(m, ps, bs, k, radius, 0) == ps);
        assert(escapes_during(m, ps, bs, k, radius, 0) == 0);
        assert forall|p: int| 0 <= p < ps.len() implies escapes(
            m,
            #[trigger] ps[p],
            bs[p],
            k,
            radius,
        ) by {
            let moved = advanced(m, ps[p], bs[p], k);
            assert(is_above_zero(norm(m, moved.i)) || is_above_zero(norm(m, moved.u))
                || is_above_zero(norm(m, moved.l)));
        }
        lemma_all_escape(m, ps, bs, k, radius, ps.len());
    } else {
        let before = ran(m, ps, bs, k, radius, (steps - 1) as nat);
        lemma_zero_radius_clears(m, ps, bs, k, radius, (steps - 1) as nat);
        lemma_ran_len(m, ps, bs, k, radius, (steps - 1) as nat);
        assert forall|p: int| 0 <= p < before.len() implies is_frozen(#[trigger] before[p]) by {
            assert(ran(m, ps, bs, k, radius, (steps - 1) as nat)[p] == origin::<u32>());
        }
        lemma_all_frozen_is_still(m, before, bs, k, radius, ps.len());
    }
}

} // verus!
