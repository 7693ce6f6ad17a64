//! Scoring a factor `k` by how close it sits to the edge of chaos.
//!
//! A fresh ensemble is run for a number of steps and the share of particles
//! that never escaped is taken: the survival rate. The score is
//! `-(rate - 1/2)^2`: it is highest, at zero, when exactly half of the
//! ensemble has escaped, and lowest, at minus a quarter, when all or none
//! has.
//!
//! The score is a ratio of whole numbers and is kept as one, so that no
//! rounding enters it: with `s` survivors among `n` particles it is
//! `-(2s - n)^2 / (4 n^2)`.

use crate::ensemble::{survivors_after, AttractorConfig, MAX_PARTICLES};
use crate::particle::{Bias, Particle};
use crate::primitive::{Arithmetic, Op};
use crate::seed::{is_seed, serves, NEGATIVE_SPREAD, SPREAD};
use vstd::prelude::*;

verus! {

/// The number of particles in the ensemble that is scored.
pub const CHAOS_PARTICLES: usize = 10_000;

/// The base scale of the ensemble that is scored: the binary32 encoding of
/// 2.0.
pub const CHAOS_BASE_SCALE: u32 = 0x4000_0000;

/// The lower end of the interval of its bias centres: the binary32 encoding
/// of -2.0.
pub const CHAOS_NEGATIVE_BASE_SCALE: u32 = 0xC000_0000;

/// A score: the number `-numerator / denominator`.
#[derive(Clone, Copy, Debug, PartialEq, Eq, Structural)]
pub struct Score {
    pub numerator: u128,
    pub denominator: u128,
}

/// The score of `survivors` out of `total` particles.
pub open spec fn score_of(survivors: int, total: int) -> Score {
    Score {
        numerator: ((2 * survivors - total) * (2 * survivors - total)) as u128,
        denominator: (4 * total * total) as u128,
    }
}

/// The numerator and the denominator of a score fit the fields that hold
/// them, and the numerator is no larger than the square of `total`.
pub proof fn lemma_score_fits(survivors: int, total: int)
    requires
        0 <= survivors <= total <= MAX_PARTICLES,
    ensures
        0 <= (2 * survivors - total) * (2 * survivors - total) <= total * total,
        total * total <= 4 * total * total <= u128::MAX,
{
    let gap = 2 * survivors - total;
    assert(-total <= gap <= total);
    assert(0 <= gap * gap <= total * total) by (nonlinear_arith)
        requires
            -total <= gap <= total,
    ;
    assert(total * total <= 4 * total * total) by (nonlinear_arith);
    assert(total <= 0x1FFF_FFFF_FFFF_FFFF);
    assert(4 * total * total <= 4 * 0x1FFF_FFFF_FFFF_FFFF * 0x1FFF_FFFF_FFFF_FFFF)
        by (nonlinear_arith)
        requires
            0 <= total <= 0x1FFF_FFFF_FFFF_FFFF,
    ;
}

/// Scores a survivor count. An ensemble without particles has no survival
/// rate and so no score.
pub fn survival_score(survivors: usize, num_particles: usize) -> (score: Score)
    requires
        survivors <= num_particles,
        0 < num_particles <= MAX_PARTICLES,
    ensures
        score == score_of(survivors as int, num_particles as int),
        score.denominator > 0,
{
    proof {
        lemma_score_fits(survivors as int, num_particles as int);
    }
    let total: u128 = num_particles as u128;
    let twice: u128 = 2 * (survivors as u128);
    let gap: u128 = if twice >= total {
        twice - total
    } else {
        total - twice
    };
    assert(gap * gap == (2 * survivors - num_particles) * (2 * survivors - num_particles))
        by (nonlinear_arith)
        requires
            gap == 2 * survivors - num_particles || gap == -(2 * survivors - num_particles),
    ;
    assert(4 * total * total > 0) by (nonlinear_arith)
        requires
            total > 0,
    ;
    Score { numerator: gap * gap, denominator: 4 * total * total }
}

/// Scores the factor `k`: runs a fresh ensemble of [`CHAOS_PARTICLES`]
/// particles with base scale two for `steps` steps and scores its survivor
/// count.
///
/// The ensemble is drawn anew on every call, so two calls with the same
/// arguments may differ. The result is the score of a run that starts from
/// some fresh ensemble.
pub fn evaluate_chaos_edge<G: Fn(u32, u32) -> u32, F: Fn(Op<u32>) -> u32>(
    k: u32,
    escape_radius: u32,
    steps: usize,
    uniform: &G,
    m: &Arithmetic<u32, F>,
) -> (score: Score)
    requires
        serves(uniform, NEGATIVE_SPREAD, SPREAD),
        serves(uniform, CHAOS_NEGATIVE_BASE_SCALE, CHAOS_BASE_SCALE),
    ensures
        exists|ps: Seq<Particle<u32>>, bs: Seq<Bias<u32>>|
            {
                &&& ps.len() == CHAOS_PARTICLES
                &&& bs.len() == CHAOS_PARTICLES
                &&& forall|p: int|
                    0 <= p < CHAOS_PARTICLES ==> is_seed(
                        uniform,
                        m,
                        CHAOS_BASE_SCALE,
                        #[trigger] ps[p],
                        bs[p],
                    )
                &&& score == score_of(
                    #[trigger] survivors_after(m, ps, bs, k, escape_radius, steps as nat),
                    CHAOS_PARTICLES as int,
                )
            },
{
    let mut ensemble = AttractorConfig::new(CHAOS_PARTICLES, CHAOS_BASE_SCALE, uniform, m);
    let ghost ps = ensemble.particles();
    let ghost bs = ensemble.biases();
    let survivors = ensemble.run(m, k, escape_radius, steps);
    let score = survival_score(survivors, CHAOS_PARTICLES);
    proof {
        assert(score == score_of(
            survivors_after(m, ps, bs, k, escape_radius, steps as nat),
            CHAOS_PARTICLES as int,
        ));
    }
    score
}

} // verus!
