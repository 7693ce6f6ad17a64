//! The ensemble: many particles in two flat buffers.
//!
//! Both buffers hold one record of eight words per particle, in the same
//! order. A record of the state buffer is `I.re, I.im, U.re, U.im, L.re,
//! L.im` and two words of padding; a record of the constants buffer is the
//! three bias points `c, cu, cl` in the same way. The padding is always
//! positive zero. A host that draws the particles reads the buffers as they
//! are, so this layout is part of what the ensemble promises.
//!
//! Contracts speak of the ensemble as two sequences, one of particles and
//! one of biases; [`packs_particles`] and [`packs_biases`] tie them to the
//! buffers.

use crate::complex::Complex;
use crate::particle::{escapes, frozen, is_frozen, settle, settled, Bias, Particle};
use crate::primitive::{Arithmetic, Op};
use crate::seed::{is_seed, seed_particle, serves, NEGATIVE_SPREAD, SPREAD};
use crate::word::{is_positive, Word};
use vstd::prelude::*;

verus! {

/// The number of words in one record of either buffer.
pub const STRIDE: usize = 8;

/// The largest number of particles whose records can be addressed.
pub const MAX_PARTICLES: usize = usize::MAX / 8;

/// The particle that record `p` of a state buffer holds.
pub open spec fn particle_at(buffer: Seq<u32>, p: int) -> Particle<u32> {
    Particle {
        i: Complex { re: buffer[8 * p], im: buffer[8 * p + 1] },
        u: Complex { re: buffer[8 * p + 2], im: buffer[8 * p + 3] },
        l: Complex { re: buffer[8 * p + 4], im: buffer[8 * p + 5] },
    }
}

/// The bias that record `p` of a constants buffer holds.
pub open spec fn bias_at(buffer: Seq<u32>, p: int) -> Bias<u32> {
    Bias {
        c: Complex { re: buffer[8 * p], im: buffer[8 * p + 1] },
        cu: Complex { re: buffer[8 * p + 2], im: buffer[8 * p + 3] },
        cl: Complex { re: buffer[8 * p + 4], im: buffer[8 * p + 5] },
    }
}

/// Whether the last two words of record `p` are positive zero.
pub open spec fn padded_at(buffer: Seq<u32>, p: int) -> bool {
    buffer[8 * p + 6] == 0 && buffer[8 * p + 7] == 0
}

/// Whether a buffer is the packed form of a sequence of particles.
pub open spec fn packs_particles(buffer: Seq<u32>, ps: Seq<Particle<u32>>) -> bool {
    &&& buffer.len() == 8 * ps.len()
    &&& forall|p: int| 0 <= p < ps.len() ==> #[trigger] particle_at(buffer, p) == ps[p]
    &&& forall|p: int| 0 <= p < ps.len() ==> #[trigger] padded_at(buffer, p)
}

/// Whether a buffer is the packed form of a sequence of biases.
pub open spec fn packs_biases(buffer: Seq<u32>, bs: Seq<Bias<u32>>) -> bool {
    &&& buffer.len() == 8 * bs.len()
    &&& forall|p: int| 0 <= p < bs.len() ==> #[trigger] bias_at(buffer, p) == bs[p]
    &&& forall|p: int| 0 <= p < bs.len() ==> #[trigger] padded_at(buffer, p)
}

/// The particles after one step of the whole ensemble: each one settled
/// with its own bias.
pub open spec fn stepped<F: Fn(Op<u32>) -> u32>(
    m: &Arithmetic<u32, F>,
    ps: Seq<Particle<u32>>,
    bs: Seq<Bias<u32>>,
    k: u32,
    radius: u32,
) -> Seq<Particle<u32>> {
    Seq::new(ps.len(), |p: int| settled(m, ps[p], bs[p], k, radius))
}

/// How many of the first `upto` particles escape in one step.
pub open spec fn escape_count<F: Fn(Op<u32>) -> u32>(
    m: &Arithmetic<u32, F>,
    ps: Seq<Particle<u32>>,
    bs: Seq<Bias<u32>>,
    k: u32,
    radius: u32,
    upto: nat,
) -> nat
    decreases upto,
{
    if upto == 0 {
        0
    } else {
        let rest = escape_count(m, ps, bs, k, radius, (upto - 1) as nat);
        if escapes(m, ps[upto - 1], bs[upto - 1], k, radius) {
            rest + 1
        } else {
            rest
        }
    }
}

/// How many of the first `upto` particles are not frozen.
pub open spec fn live_count(ps: Seq<Particle<u32>>, upto: nat) -> nat
    decreases upto,
{
    if upto == 0 {
        0
    } else {
        let rest = live_count(ps, (upto - 1) as nat);
        if is_frozen(ps[upto - 1]) {
            rest
        } else {
            rest + 1
        }
    }
}

/// The particles after `steps` steps of the whole ensemble.
pub open spec fn ran<F: Fn(Op<u32>) -> u32>(
    m: &Arithmetic<u32, F>,
    ps: Seq<Particle<u32>>,
    bs: Seq<Bias<u32>>,
    k: u32,
    radius: u32,
    steps: nat,
) -> Seq<Particle<u32>>
    decreases steps,
{
    if steps == 0 {
        ps
    } else {
        stepped(m, ran(m, ps, bs, k, radius, (steps - 1) as nat), bs, k, radius)
    }
}

/// How many escapes happen in the course of `steps` steps.
pub open spec fn escapes_during<F: Fn(Op<u32>) -> u32>(
    m: &Arithmetic<u32, F>,
    ps: Seq<Particle<u32>>,
    bs: Seq<Bias<u32>>,
    k: u32,
    radius: u32,
    steps: nat,
) -> nat
    decreases steps,
{
    if steps == 0 {
        0
    } else {
        let before = ran(m, ps, bs, k, radius, (steps - 1) as nat);
        escapes_during(m, ps, bs, k, radius, (steps - 1) as nat) + escape_count(
            m,
            before,
            bs,
            k,
            radius,
            ps.len(),
        )
    }
}

/// The survivor count after `steps` steps: every particle counts until it
/// escapes.
pub open spec fn survivors_after<F: Fn(Op<u32>) -> u32>(
    m: &Arithmetic<u32, F>,
    ps: Seq<Particle<u32>>,
    bs: Seq<Bias<u32>>,
    k: u32,
    radius: u32,
    steps: nat,
) -> int {
    ps.len() - escapes_during(m, ps, bs, k, radius, steps)
}

/// No more particles are live than there are particles.
pub proof fn lemma_live_count_bound(ps: Seq<Particle<u32>>, upto: nat)
    ensures
        live_count(ps, upto) <= upto,
    decreases upto,
{
    if upto > 0 {
        lemma_live_count_bound(ps, (upto - 1) as nat);
    }
}

/// Each escape takes one particle from the living: among the first `upto`
/// particles, the escapes of a step and those still live after it are
/// together no more than those live before it.
pub proof fn lemma_escapes_leave_the_living<F: Fn(Op<u32>) -> u32>(
    m: &Arithmetic<u32, F>,
    ps: Seq<Particle<u32>>,
    bs: Seq<Bias<u32>>,
    k: u32,
    radius: u32,
    upto: nat,
)
    requires
        upto <= ps.len(),
    ensures
        escape_count(m, ps, bs, k, radius, upto) + live_count(
            stepped(m, ps, bs, k, radius),
            upto,
        ) <= live_count(ps, upto),
    decreases upto,
{
    if upto > 0 {
        lemma_escapes_leave_the_living(m, ps, bs, k, radius, (upto - 1) as nat);
        assert(stepped(m, ps, bs, k, radius)[upto - 1] == settled(
            m,
            ps[upto - 1],
            bs[upto - 1],
            k,
            radius,
        ));
    }
}

/// A step keeps the number of particles.
pub proof fn lemma_ran_len<F: Fn(Op<u32>) -> u32>(
    m: &Arithmetic<u32, F>,
    ps: Seq<Particle<u32>>,
    bs: Seq<Bias<u32>>,
    k: u32,
    radius: u32,
    steps: nat,
)
    ensures
        ran(m, ps, bs, k, radius, steps).len() == ps.len(),
    decreases steps,
{
    if steps > 0 {
        lemma_ran_len(m, ps, bs, k, radius, (steps - 1) as nat);
    }
}

/// The escapes of a run and the particles still live after it are together
/// no more than the particles live before it.
pub proof fn lemma_run_leaves_the_living<F: Fn(Op<u32>) -> u32>(
    m: &Arithmetic<u32, F>,
    ps: Seq<Particle<u32>>,
    bs: Seq<Bias<u32>>,
    k: u32,
    radius: u32,
    steps: nat,
)
    ensures
        escapes_during(m, ps, bs, k, radius, steps) + live_count(
            ran(m, ps, bs, k, radius, steps),
            ps.len(),
        ) <= live_count(ps, ps.len()),
    decreases steps,
{
    if steps > 0 {
        let before = ran(m, ps, bs, k, radius, (steps - 1) as nat);
        lemma_run_leaves_the_living(m, ps, bs, k, radius, (steps - 1) as nat);
        lemma_ran_len(m, ps, bs, k, radius, (steps - 1) as nat);
        lemma_escapes_leave_the_living(m, before, bs, k, radius, ps.len());
    }
}

/// Why an ensemble was not created.
#[derive(Clone, Copy, Debug, PartialEq, Eq, Structural)]
pub enum ConfigurationError {
    /// The ensemble was to have no particle at all.
    NoParticles,
    /// The ensemble was to have more particles than can be addressed.
    TooManyParticles,
    /// The base scale is not a positive finite number.
    ScaleNotPositive,
}

/// An ensemble of particles with their biases.
pub struct AttractorConfig {
    num_particles: usize,
    states: Vec<u32>,
    constants: Vec<u32>,
}

impl AttractorConfig {
    /// The invariant of the two buffers: eight words per particle in each,
    /// the last two of every record zero.
    pub closed spec fn wf(&self) -> bool {
        &&& self.num_particles <= MAX_PARTICLES
        &&& self.states@.len() == 8 * self.num_particles
        &&& self.constants@.len() == 8 * self.num_particles
        &&& forall|p: int| 0 <= p < self.num_particles ==> #[trigger] padded_at(self.states@, p)
        &&& forall|p: int| 0 <= p < self.num_particles ==> #[trigger] padded_at(self.constants@, p)
    }

    /// The particles of the ensemble, in order.
    pub closed spec fn particles(&self) -> Seq<Particle<u32>> {
        Seq::new(self.num_particles as nat, |p: int| particle_at(self.states@, p))
    }

    /// The biases of the ensemble, in the order of the particles.
    pub closed spec fn biases(&self) -> Seq<Bias<u32>> {
        Seq::new(self.num_particles as nat, |p: int| bias_at(self.constants@, p))
    }

    /// Creates an ensemble of fresh particles. The base scale is a positive
    /// finite number.
    pub fn new<G: Fn(u32, u32) -> u32, F: Fn(Op<u32>) -> u32>(
        num_particles: usize,
        base_scale: u32,
        uniform: &G,
        m: &Arithmetic<u32, F>,
    ) -> (e: Self)
        requires
            num_particles <= MAX_PARTICLES,
            is_positive(base_scale),
            serves(uniform, NEGATIVE_SPREAD, SPREAD),
            serves(uniform, base_scale.opposite(), base_scale),
        ensures
            e.wf(),
            e.particles().len() == num_particles,
            e.biases().len() == num_particles,
            forall|p: int|
                0 <= p < num_particles ==> is_seed(
                    uniform,
                    m,
                    base_scale,
                    #[trigger] e.particles()[p],
                    e.biases()[p],
                ),
    {
        let mut states: Vec<u32> = Vec::new();
        let mut constants: Vec<u32> = Vec::new();
        let mut done: usize = 0;
        while done < num_particles
            invariant
                done <= num_particles <= MAX_PARTICLES,
                serves(uniform, NEGATIVE_SPREAD, SPREAD),
                serves(uniform, base_scale.opposite(), base_scale),
                states@.len() == 8 * done,
                constants@.len() == 8 * done,
                forall|p: int| 0 <= p < done ==> #[trigger] padded_at(states@, p),
                forall|p: int| 0 <= p < done ==> #[trigger] padded_at(constants@, p),
                forall|p: int|
                    0 <= p < done ==> is_seed(
                        uniform,
                        m,
                        base_scale,
                        #[trigger] particle_at(states@, p),
                        bias_at(constants@, p),
                    ),
            decreases num_particles - done,
        {
            let ghost states_before = states@;
            let ghost constants_before = constants@;
            let (particle, bias) = seed_particle(uniform, m, base_scale);
            states.push(particle.i.re);
            states.push(particle.i.im);
            states.push(particle.u.re);
            states.push(particle.u.im);
            states.push(particle.l.re);
            states.push(particle.l.im);
            states.push(0);
            states.push(0);
            constants.push(bias.c.re);
            constants.push(bias.c.im);
            constants.push(bias.cu.re);
            constants.push(bias.cu.im);
            constants.push(bias.cl.re);
            constants.push(bias.cl.im);
            constants.push(0);
            constants.push(0);
            proof {
                assert forall|p: int| 0 <= p < done implies #[trigger] particle_at(states@, p)
                    == particle_at(states_before, p) && bias_at(constants@, p) == bias_at(
                    constants_before,
                    p,
                ) by {}
                assert forall|p: int| 0 <= p < done implies #[trigger] padded_at(states@, p) by {
                    assert(padded_at(states_before, p));
                }
                assert forall|p: int| 0 <= p < done implies #[trigger] padded_at(
                    constants@,
                    p,
                ) by {
                    assert(padded_at(constants_before, p));
                }
                assert(particle_at(states@, done as int) == particle);
                assert(bias_at(constants@, done as int) == bias);
                assert(padded_at(states@, done as int));
                assert(padded_at(constants@, done as int));
            }
            done = done + 1;
        }
        AttractorConfig { num_particles, states, constants }
    }

    /// The number of particles, which is also the number of biases.
    pub fn num_particles(&self) -> (n: usize)
        requires
            self.wf(),
        ensures
            n == self.particles().len(),
            n == self.biases().len(),
            n <= MAX_PARTICLES,
    {
        self.num_particles
    }

    /// The state buffer, as a host reads it.
    pub fn states(&self) -> (buffer: &Vec<u32>)
        requires
            self.wf(),
        ensures
            packs_particles(buffer@, self.particles()),
    {
        &self.states
    }

    /// The constants buffer, as a host reads it.
    pub fn constants(&self) -> (buffer: &Vec<u32>)
        requires
            self.wf(),
        ensures
            packs_biases(buffer@, self.biases()),
    {
        &self.constants
    }

    /// The particle with index `p`.
    pub fn particle(&self, p: usize) -> (r: Particle<u32>)
        requires
            self.wf(),
            p < self.particles().len(),
        ensures
            r == self.particles()[p as int],
    {
        let at: usize = p * 8;
        Particle {
            i: Complex { re: self.states[at], im: self.states[at + 1] },
            u: Complex { re: self.states[at + 2], im: self.states[at + 3] },
            l: Complex { re: self.states[at + 4], im: self.states[at + 5] },
        }
    }

    /// The bias of the particle with index `p`.
    pub fn bias(&self, p: usize) -> (r: Bias<u32>)
        requires
            self.wf(),
            p < self.particles().len(),
        ensures
            r == self.biases()[p as int],
    {
        let at: usize = p * 8;
        Bias {
            c: Complex { re: self.constants[at], im: self.constants[at + 1] },
            cu: Complex { re: self.constants[at + 2], im: self.constants[at + 3] },
            cl: Complex { re: self.constants[at + 4], im: self.constants[at + 5] },
        }
    }

    /// Writes the state of the particle with index `p`.
    fn store(&mut self, p: usize, q: Particle<u32>)
        requires
            old(self).wf(),
            p < old(self).particles().len(),
        ensures
            final(self).wf(),
            final(self).particles() == old(self).particles().update(p as int, q),
            final(self).biases() == old(self).biases(),
    {
        let at: usize = p * 8;
        self.states.set(at, q.i.re);
        self.states.set(at + 1, q.i.im);
        self.states.set(at + 2, q.u.re);
        self.states.set(at + 3, q.u.im);
        self.states.set(at + 4, q.l.re);
        self.states.set(at + 5, q.l.im);
        proof {
            assert forall|j: int| 0 <= j < self.num_particles implies #[trigger] padded_at(
                self.states@,
                j,
            ) by {
                assert(padded_at(old(self).states@, j));
            }
            assert forall|j: int| 0 <= j < self.num_particles && j != p implies particle_at(
                self.states@,
                j,
            ) == particle_at(old(self).states@, j) by {}
            assert(self.particles() =~= old(self).particles().update(p as int, q));
        }
    }

    /// Advances every particle by one step and returns how many escaped.
    ///
    /// A frozen particle is left alone. Any other takes one step of the map
    /// and is then put at the origin if the step carried it outside the
    /// escape radius, or yielded a NaN or an infinity.
    pub fn step<F: Fn(Op<u32>) -> u32>(
        &mut self,
        m: &Arithmetic<u32, F>,
        k: u32,
        escape_radius: u32,
    ) -> (escaped: usize)
        requires
            old(self).wf(),
        ensures
            final(self).wf(),
            final(self).biases() == old(self).biases(),
            final(self).particles() == stepped(
                m,
                old(self).particles(),
                old(self).biases(),
                k,
                escape_radius,
            ),
            escaped == escape_count(
                m,
                old(self).particles(),
                old(self).biases(),
                k,
                escape_radius,
                old(self).particles().len(),
            ),
            escaped + live_count(final(self).particles(), final(self).particles().len())
                <= live_count(old(self).particles(), old(self).particles().len()),
    {
        let ghost before = self.particles();
        let ghost biases = self.biases();
        let count: usize = self.num_particles;
        let mut escaped: usize = 0;
        let mut p: usize = 0;
        while p < count
            invariant
                self.wf(),
                count == before.len(),
                self.particles().len() == count,
                self.biases() == biases,
                biases.len() == count,
                p <= count,
                escaped <= p,
                escaped == escape_count(m, before, biases, k, escape_radius, p as nat),
                forall|j: int|
                    0 <= j < p ==> #[trigger] self.particles()[j] == settled(
                        m,
                        before[j],
                        biases[j],
                        k,
                        escape_radius,
                    ),
                forall|j: int| p <= j < count ==> #[trigger] self.particles()[j] == before[j],
            decreases count - p,
        {
            let particle = self.particle(p);
            if !frozen(&particle) {
                let bias = self.bias(p);
                let (next, gone) = settle(m, particle, bias, k, escape_radius);
                self.store(p, next);
                if gone {
                    escaped = escaped + 1;
                }
            }
            p = p + 1;
        }
        proof {
            assert(self.particles() =~= stepped(m, before, biases, k, escape_radius));
            lemma_escapes_leave_the_living(m, before, biases, k, escape_radius, count as nat);
        }
        escaped
    }

    /// Advances the ensemble by `steps` steps and returns the survivor
    /// count: the number of particles less the escapes of this run.
    pub fn run<F: Fn(Op<u32>) -> u32>(
        &mut self,
        m: &Arithmetic<u32, F>,
        k: u32,
        escape_radius: u32,
        steps: usize,
    ) -> (survivors: usize)
        requires
            old(self).wf(),
        ensures
            final(self).wf(),
            final(self).biases() == old(self).biases(),
            final(self).particles() == ran(
                m,
                old(self).particles(),
                old(self).biases(),
                k,
                escape_radius,
                steps as nat,
            ),
            survivors == survivors_after(
                m,
                old(self).particles(),
                old(self).biases(),
                k,
                escape_radius,
                steps as nat,
            ),
            survivors <= old(self).particles().len(),
    {
        let ghost before = self.particles();
        let ghost biases = self.biases();
        let count: usize = self.num_particles;
        let mut survivors: usize = count;
        let mut taken: usize = 0;
        while taken < steps
            invariant
                self.wf(),
                count == before.len(),
                self.biases() == biases,
                taken <= steps,
                self.particles() == ran(m, before, biases, k, escape_radius, taken as nat),
                survivors == survivors_after(m, before, biases, k, escape_radius, taken as nat),
                survivors <= count,
            decreases steps - taken,
        {
            proof {
                lemma_ran_len(m, before, biases, k, escape_radius, taken as nat);
                lemma_run_leaves_the_living(m, before, biases, k, escape_radius, (taken + 1) as nat);
                lemma_live_count_bound(before, before.len());
            }
            let escaped = self.step(m, k, escape_radius);
            survivors = survivors - escaped;
            taken = taken + 1;
        }
        survivors
    }
}

/// Creates an ensemble of fresh particles, or says what is wrong with the
/// request. A request is turned down before anything is drawn or allocated.
pub fn create_ensemble<G: Fn(u32, u32) -> u32, F: Fn(Op<u32>) -> u32>(
    num_particles: usize,
    base_scale: u32,
    uniform: &G,
    m: &Arithmetic<u32, F>,
) -> (r: Result<AttractorConfig, ConfigurationError>)
    requires
        serves(uniform, NEGATIVE_SPREAD, SPREAD),
        is_positive(base_scale) ==> serves(uniform, base_scale.opposite(), base_scale),
    ensures
        match r {
            Ok(e) => {
                &&& 0 < num_particles <= MAX_PARTICLES
                &&& is_positive(base_scale)
                &&& e.wf()
                &&& e.particles().len() == num_particles
                &&& e.biases().len() == num_particles
                &&& forall|p: int|
                    0 <= p < num_particles ==> is_seed(
                        uniform,
                        m,
                        base_scale,
                        #[trigger] e.particles()[p],
                        e.biases()[p],
                    )
            },
            Err(ConfigurationError::NoParticles) => num_particles == 0,
            Err(ConfigurationError::TooManyParticles) => num_particles > MAX_PARTICLES,
            Err(ConfigurationError::ScaleNotPositive) => {
                &&& 0 < num_particles <= MAX_PARTICLES
                &&& !is_positive(base_scale)
            },
        },
{
    if num_particles == 0 {
        Err(ConfigurationError::NoParticles)
    } else if num_particles > MAX_PARTICLES {
        Err(ConfigurationError::TooManyParticles)
    } else if !base_scale.positive() {
        Err(ConfigurationError::ScaleNotPositive)
    } else {
        Ok(AttractorConfig::new(num_particles, base_scale, uniform, m))
    }
}

} // verus!
