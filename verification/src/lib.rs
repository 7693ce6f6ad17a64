//! An ensemble of particles under a coupled quadratic complex map.
//!
//! Every particle carries three complex numbers that one step of the map
//! couples to each other and pushes towards three bias points. A particle
//! that leaves the escape radius is put at the origin and stays there. On
//! top of the stepping engine sit two measurements: a score that says how
//! close a factor of the map is to the edge of chaos, and a record of how
//! fast a single and a double precision trajectory drift apart.
//!
//! Numbers are IEEE 754 encodings held in machine words ([`word`]). The
//! rounded arithmetic on them and the random draws are handed in by the
//! caller ([`primitive`], [`seed`]); everything else is computed here, and
//! every contract says what is computed in terms of what was handed in.

pub mod chaos;
pub mod complex;
pub mod divergence;
pub mod ensemble;
pub mod laws;
pub mod particle;
pub mod primitive;
pub mod seed;
pub mod word;

pub use crate::chaos::{evaluate_chaos_edge, survival_score, Score};
pub use crate::complex::{complex_mul, complex_sqr, Complex};
pub use crate::divergence::{evaluate_divergence, trace_divergence};
pub use crate::ensemble::{create_ensemble, AttractorConfig, ConfigurationError};
pub use crate::particle::{map_step, settle, Bias, Particle};
pub use crate::primitive::{Arithmetic, Op, Primitive};
pub use crate::seed::seed_particle;
pub use crate::word::Word;
