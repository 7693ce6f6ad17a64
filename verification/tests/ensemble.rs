use quadratic_map_attractor::ensemble::MAX_PARTICLES;
use quadratic_map_attractor::{
    create_ensemble, survival_score, AttractorConfig, ConfigurationError, Op, Primitive,
};
use rand::rngs::StdRng;
use rand::{Rng, SeedableRng};
use std::cell::RefCell;

fn single(op: Op<u32>) -> u32 {
    match op {
        Op::Add(a, b) => (f32::from_bits(a) + f32::from_bits(b)).to_bits(),
        Op::Sub(a, b) => (f32::from_bits(a) - f32::from_bits(b)).to_bits(),
        Op::Mul(a, b) => (f32::from_bits(a) * f32::from_bits(b)).to_bits(),
        Op::Sqrt(a) => f32::from_bits(a).sqrt().to_bits(),
    }
}

fn seeded(seed: u64) -> impl Fn(u32, u32) -> u32 {
    let rng = RefCell::new(StdRng::seed_from_u64(seed));
    move |lo: u32, hi: u32| {
        rng.borrow_mut().gen_range(f32::from_bits(lo)..f32::from_bits(hi)).to_bits()
    }
}

fn scripted(values: Vec<f32>) -> impl Fn(u32, u32) -> u32 {
    let next = RefCell::new(0usize);
    move |_lo: u32, _hi: u32| {
        let mut at = next.borrow_mut();
        let value = values[*at % values.len()];
        *at += 1;
        value.to_bits()
    }
}

fn floats(buffer: &Vec<u32>) -> Vec<f32> {
    buffer.iter().map(|w| f32::from_bits(*w)).collect()
}

fn norm(re: f32, im: f32) -> f32 {
    (re * re + im * im).sqrt()
}

/// One step over flat buffers of native numbers, written out index by index.
fn reference_step(states: &mut Vec<f32>, constants: &Vec<f32>, k: f32, radius: f32) -> usize {
    let mul = |a: (f32, f32), b: (f32, f32)| (a.0 * b.0 - a.1 * b.1, a.0 * b.1 + a.1 * b.0);
    let sqr = |a: (f32, f32)| (a.0 * a.0 - a.1 * a.1, 2.0 * a.0 * a.1);
    let mut escaped = 0;
    for p in 0..states.len() / 8 {
        let at = p * 8;
        if states[at] == 0.0 && states[at + 1] == 0.0 && states[at + 2] == 0.0 {
            continue;
        }
        let i = (states[at], states[at + 1]);
        let u = (states[at + 2], states[at + 3]);
        let l = (states[at + 4], states[at + 5]);
        let (i2, u2, l2) = (sqr(i), sqr(u), sqr(l));
        let next_i = mul((k, 0.0), mul(i, (u2.0 - l2.0, u2.1 - l2.1)));
        let next_u = mul((k, 0.0), mul(u, (i2.0 - l2.0, i2.1 - l2.1)));
        let next_l = mul((k, 0.0), mul(l, (u2.0 - i2.0, u2.1 - i2.1)));
        states[at] = next_i.0 + constants[at];
        states[at + 1] = next_i.1 + constants[at + 1];
        states[at + 2] = next_u.0 + constants[at + 2];
        states[at + 3] = next_u.1 + constants[at + 3];
        states[at + 4] = next_l.0 + constants[at + 4];
        states[at + 5] = next_l.1 + constants[at + 5];
        let norm_i = (states[at].powi(2) + states[at + 1].powi(2)).sqrt();
        let norm_u = (states[at + 2].powi(2) + states[at + 3].powi(2)).sqrt();
        let norm_l = (states[at + 4].powi(2) + states[at + 5].powi(2)).sqrt();
        let lost = states[at..at + 6].iter().any(|x| !x.is_finite())
            || norm_i.is_nan()
            || norm_u.is_nan()
            || norm_l.is_nan();
        if lost || norm_i.max(norm_u).max(norm_l) > radius {
            escaped += 1;
            for f in 0..6 {
                states[at + f] = 0.0;
            }
        }
    }
    escaped
}

#[test]
fn fresh_ensemble_lies_near_the_origin() {
    let m = Primitive::new(single);
    let e = AttractorConfig::new(100, 2.0f32.to_bits(), &seeded(1), &m);
    assert_eq!(e.num_particles(), 100);
    let states = floats(e.states());
    let constants = floats(e.constants());
    assert_eq!(states.len(), 800);
    assert_eq!(constants.len(), 800);
    for p in 0..100 {
        for f in 0..6 {
            assert!(states[p * 8 + f] >= -0.01 && states[p * 8 + f] <= 0.01);
        }
        assert_eq!(e.states()[p * 8 + 6], 0);
        assert_eq!(e.states()[p * 8 + 7], 0);
        let (cx, cy) = (constants[p * 8], constants[p * 8 + 1]);
        assert!(cx >= -2.0 && cx <= 2.0 && cy >= -2.0 && cy <= 2.0);
        assert_eq!(constants[p * 8 + 2], cx * 1.05);
        assert_eq!(constants[p * 8 + 3], cy * 0.95);
        assert_eq!(constants[p * 8 + 4], cx * 0.95);
        assert_eq!(constants[p * 8 + 5], cy * 1.05);
        assert_eq!(e.constants()[p * 8 + 6], 0);
        assert_eq!(e.constants()[p * 8 + 7], 0);
    }
}

#[test]
fn fresh_ensemble_is_not_all_the_same() {
    let m = Primitive::new(single);
    let e = AttractorConfig::new(50, 2.0f32.to_bits(), &seeded(2), &m);
    let states = e.states();
    let mut distinct = 0;
    for p in 1..50 {
        if states[p * 8] != states[0] {
            distinct += 1;
        }
    }
    assert!(distinct > 40);
}

#[test]
fn fresh_ensemble_asks_for_the_two_intervals() {
    let asked = RefCell::new(Vec::new());
    let uniform = |lo: u32, hi: u32| {
        asked.borrow_mut().push((f32::from_bits(lo), f32::from_bits(hi)));
        ((f32::from_bits(lo) + f32::from_bits(hi)) / 2.0 + f32::from_bits(hi) / 4.0).to_bits()
    };
    let m = Primitive::new(single);
    let e = AttractorConfig::new(2, 3.5f32.to_bits(), &uniform, &m);
    let spread = (-0.01f32, 0.01f32);
    let scale = (-3.5f32, 3.5f32);
    let one = vec![spread, spread, spread, spread, spread, spread, scale, scale];
    let mut both = one.clone();
    both.extend(one);
    assert_eq!(*asked.borrow(), both);
    assert_eq!(
        floats(e.states())[..8],
        [0.0025, 0.0025, 0.0025, 0.0025, 0.0025, 0.0025, 0.0, 0.0]
    );
    assert_eq!(
        floats(e.constants())[..8],
        [0.875, 0.875, 0.875 * 1.05, 0.875 * 0.95, 0.875 * 0.95, 0.875 * 1.05, 0.0, 0.0]
    );
}

#[test]
fn records_keep_the_order_of_the_draws() {
    let m = Primitive::new(single);
    let values: Vec<f32> = (1..=16).map(|v| v as f32 / 2048.0).collect();
    let e = AttractorConfig::new(2, 2.0f32.to_bits(), &scripted(values.clone()), &m);
    let v = |n: usize| values[n - 1];
    assert_eq!(floats(e.states()), [
        v(1), v(2), v(3), v(4), v(5), v(6), 0.0, 0.0, v(9), v(10), v(11), v(12), v(13), v(14), 0.0,
        0.0
    ]);
    let c = floats(e.constants());
    assert_eq!(c[..2], [v(7), v(8)]);
    assert_eq!(c[8..10], [v(15), v(16)]);
    assert_eq!(c[10..14], [v(15) * 1.05, v(16) * 0.95, v(15) * 0.95, v(16) * 1.05]);
    assert_eq!(c[14..], [0.0, 0.0]);
    let p = e.particle(1);
    assert_eq!(f32::from_bits(p.i.re), v(9));
    assert_eq!(f32::from_bits(p.i.im), v(10));
    assert_eq!(f32::from_bits(p.u.re), v(11));
    assert_eq!(f32::from_bits(p.u.im), v(12));
    assert_eq!(f32::from_bits(p.l.re), v(13));
    assert_eq!(f32::from_bits(p.l.im), v(14));
    let b = e.bias(0);
    assert_eq!(f32::from_bits(b.c.re), v(7));
    assert_eq!(f32::from_bits(b.c.im), v(8));
    assert_eq!(f32::from_bits(b.cu.re), v(7) * 1.05);
    assert_eq!(f32::from_bits(b.cu.im), v(8) * 0.95);
    assert_eq!(f32::from_bits(b.cl.re), v(7) * 0.95);
    assert_eq!(f32::from_bits(b.cl.im), v(8) * 1.05);
}

#[test]
fn empty_ensemble_has_empty_buffers() {
    let m = Primitive::new(single);
    let mut e = AttractorConfig::new(0, 2.0f32.to_bits(), &seeded(3), &m);
    assert_eq!(e.num_particles(), 0);
    assert!(e.states().is_empty());
    assert!(e.constants().is_empty());
    assert_eq!(e.step(&m, 1.0f32.to_bits(), 4.0f32.to_bits()), 0);
    assert_eq!(e.run(&m, 1.0f32.to_bits(), 4.0f32.to_bits(), 5), 0);
}

#[test]
fn step_agrees_with_the_loop_over_native_numbers() {
    let m = Primitive::new(single);
    let cases = [
        (1.2f32, 4.0f32),
        (0.7, 2.0),
        (2.5, 1.5),
        (-1.3, 3.0),
        (1.0, 1.0e30),
        (1.0, f32::INFINITY),
        (1.0e30, 4.0),
    ];
    for (k, radius) in cases {
        let mut e = AttractorConfig::new(200, 2.0f32.to_bits(), &seeded(11), &m);
        let mut states = floats(e.states());
        let constants = floats(e.constants());
        for _ in 0..40 {
            let escaped = e.step(&m, k.to_bits(), radius.to_bits());
            let expected = reference_step(&mut states, &constants, k, radius);
            assert_eq!(escaped, expected);
            let words: Vec<u32> = states.iter().map(|x| x.to_bits()).collect();
            assert_eq!(*e.states(), words);
        }
        assert_eq!(floats(e.constants()), constants);
    }
}

#[test]
fn no_step_leaves_a_nan_or_an_infinity_behind() {
    // With a radius as wide as 1e30 the states grow until their squares
    // overflow; the step after that yields NaN, and must not be kept.
    let m = Primitive::new(single);
    for radius in [1.0e30f32, f32::MAX, f32::INFINITY, f32::NAN] {
        let mut e = AttractorConfig::new(300, 2.0f32.to_bits(), &seeded(31), &m);
        let mut escaped = 0;
        for _ in 0..60 {
            escaped += e.step(&m, 1.0f32.to_bits(), radius.to_bits());
            assert!(floats(e.states()).iter().all(|x| x.is_finite()));
        }
        assert!(escaped > 0 && escaped <= 300);
        let standing = (0..300).filter(|p| e.states()[p * 8..p * 8 + 6] != [0u32; 6]).count();
        assert_eq!(standing, 300 - escaped);
    }
}

#[test]
fn run_is_repeated_step() {
    let m = Primitive::new(single);
    let (k, radius) = (1.2f32.to_bits(), 4.0f32.to_bits());
    let mut stepped = AttractorConfig::new(300, 2.0f32.to_bits(), &seeded(5), &m);
    let mut ran = AttractorConfig::new(300, 2.0f32.to_bits(), &seeded(5), &m);
    assert_eq!(stepped.states(), ran.states());
    let mut escaped = 0;
    for _ in 0..25 {
        escaped += stepped.step(&m, k, radius);
    }
    let survivors = ran.run(&m, k, radius, 25);
    assert_eq!(survivors, 300 - escaped);
    assert_eq!(stepped.states(), ran.states());
    assert!(escaped > 0 && escaped < 300);
}

#[test]
fn origin_stays_at_the_origin() {
    let m = Primitive::new(single);
    let mut values = vec![0.0f32; 6];
    values.extend([1.5, -0.5]);
    values.extend([0.004, -0.003, 0.002, 0.001, -0.005, 0.006, 0.3, 0.2]);
    let mut e = AttractorConfig::new(2, 2.0f32.to_bits(), &scripted(values), &m);
    for _ in 0..20 {
        e.step(&m, 1.1f32.to_bits(), 100.0f32.to_bits());
        assert_eq!(e.states()[..8], [0u32; 8]);
    }
    assert_ne!(e.states()[8..14], [0u32; 6]);
    let survivors = e.run(&m, 1.1f32.to_bits(), 100.0f32.to_bits(), 30);
    assert_eq!(e.states()[..8], [0u32; 8]);
    assert!(survivors >= 1);
}

#[test]
fn escaped_particle_stays_at_the_origin() {
    let m = Primitive::new(single);
    let (k, radius) = (1.2f32.to_bits(), 1.0f32.to_bits());
    let mut e = AttractorConfig::new(100, 2.0f32.to_bits(), &seeded(21), &m);
    let mut gone = vec![false; 100];
    let mut total = 0;
    for _ in 0..30 {
        let escaped = e.step(&m, k, radius);
        let mut fresh = 0;
        for p in 0..100 {
            let zero = e.states()[p * 8..p * 8 + 6] == [0u32; 6];
            if gone[p] {
                assert!(zero);
            } else if zero {
                gone[p] = true;
                fresh += 1;
            }
        }
        assert_eq!(escaped, fresh);
        total += escaped;
    }
    assert!(total > 0);
}

#[test]
fn frozen_particle_is_never_written() {
    let m = Primitive::new(single);
    let values = vec![0.0f32, -0.0, 0.0, 0.007, 0.008, 0.009, 1.0, 1.0];
    let mut e = AttractorConfig::new(1, 2.0f32.to_bits(), &scripted(values), &m);
    let before = e.states().clone();
    assert_eq!(e.step(&m, 3.0f32.to_bits(), 0.0f32.to_bits()), 0);
    assert_eq!(e.run(&m, 3.0f32.to_bits(), 0.0f32.to_bits(), 10), 1);
    assert_eq!(*e.states(), before);
}

#[test]
fn survivor_count_never_grows() {
    let m = Primitive::new(single);
    let (k, radius) = (1.2f32.to_bits(), 4.0f32.to_bits());
    let mut last = 500;
    let mut dropped = false;
    for steps in 0..40 {
        let mut e = AttractorConfig::new(500, 2.0f32.to_bits(), &seeded(8), &m);
        let survivors = e.run(&m, k, radius, steps);
        assert!(survivors <= last);
        dropped = dropped || survivors < last;
        last = survivors;
    }
    assert!(dropped);
}

#[test]
fn zero_radius_leaves_no_survivor() {
    let m = Primitive::new(single);
    for steps in [1usize, 2, 7] {
        for radius in [0.0f32, -0.0] {
            let mut e = AttractorConfig::new(1000, 2.0f32.to_bits(), &seeded(13), &m);
            let survivors = e.run(&m, 1.2f32.to_bits(), radius.to_bits(), steps);
            assert_eq!(survivors, 0);
            assert!(e.states().iter().all(|w| *w == 0));
            let score = survival_score(survivors, 1000);
            assert_eq!(score.numerator * 4, score.denominator);
            assert_eq!(-(score.numerator as f64) / score.denominator as f64, -0.25);
        }
    }
}

#[test]
fn no_steps_leave_every_particle_a_survivor() {
    let m = Primitive::new(single);
    for radius in [0.0f32, 4.0, f32::NAN] {
        let mut e = AttractorConfig::new(1000, 2.0f32.to_bits(), &seeded(17), &m);
        let before = e.states().clone();
        let survivors = e.run(&m, 1.2f32.to_bits(), radius.to_bits(), 0);
        assert_eq!(survivors, 1000);
        assert_eq!(*e.states(), before);
        let score = survival_score(survivors, 1000);
        assert_eq!(-(score.numerator as f64) / score.denominator as f64, -0.25);
    }
}

#[test]
fn survivors_of_fifty_steps_lie_within_the_radius() {
    let m = Primitive::new(single);
    for seed in 0..20 {
        let mut e = match create_ensemble(100, 2.0f32.to_bits(), &seeded(seed), &m) {
            Ok(e) => e,
            Err(_) => panic!("a valid request was turned down"),
        };
        let survivors = e.run(&m, 1.2f32.to_bits(), 4.0f32.to_bits(), 50);
        assert!(survivors <= 100);
        let states = floats(e.states());
        let mut standing = 0;
        for p in 0..100 {
            let s = &states[p * 8..p * 8 + 8];
            let largest = norm(s[0], s[1]).max(norm(s[2], s[3])).max(norm(s[4], s[5]));
            assert!(largest <= 4.0);
            if s[..6] != [0.0f32; 6] {
                standing += 1;
            }
        }
        assert_eq!(standing, survivors);
    }
}

#[test]
fn create_ensemble_makes_what_new_makes() {
    let m = Primitive::new(single);
    let made = create_ensemble(64, 2.0f32.to_bits(), &seeded(4), &m);
    let direct = AttractorConfig::new(64, 2.0f32.to_bits(), &seeded(4), &m);
    match made {
        Ok(e) => {
            assert_eq!(e.num_particles(), 64);
            assert_eq!(e.states(), direct.states());
            assert_eq!(e.constants(), direct.constants());
        }
        Err(_) => panic!("a valid request was turned down"),
    }
}

#[test]
fn create_ensemble_turns_down_an_empty_ensemble() {
    let m = Primitive::new(single);
    let asked = RefCell::new(0);
    let uniform = |lo: u32, _hi: u32| {
        *asked.borrow_mut() += 1;
        lo
    };
    let r = create_ensemble(0, 2.0f32.to_bits(), &uniform, &m);
    assert_eq!(r.err(), Some(ConfigurationError::NoParticles));
    let r = create_ensemble(0, (-2.0f32).to_bits(), &uniform, &m);
    assert_eq!(r.err(), Some(ConfigurationError::NoParticles));
    assert_eq!(*asked.borrow(), 0);
}

#[test]
fn create_ensemble_turns_down_too_many_particles() {
    let m = Primitive::new(single);
    let uniform = |lo: u32, _hi: u32| lo;
    let r = create_ensemble(usize::MAX, 2.0f32.to_bits(), &uniform, &m);
    assert_eq!(r.err(), Some(ConfigurationError::TooManyParticles));
    let r = create_ensemble(MAX_PARTICLES + 1, 2.0f32.to_bits(), &uniform, &m);
    assert_eq!(r.err(), Some(ConfigurationError::TooManyParticles));
    assert_eq!(MAX_PARTICLES, usize::MAX / 8);
}

#[test]
fn create_ensemble_turns_down_a_scale_that_is_not_positive() {
    let m = Primitive::new(single);
    let asked = RefCell::new(0);
    let uniform = |lo: u32, _hi: u32| {
        *asked.borrow_mut() += 1;
        lo
    };
    for scale in [0.0f32, -0.0, -2.0, f32::NAN, f32::INFINITY, f32::NEG_INFINITY] {
        let r = create_ensemble(10, scale.to_bits(), &uniform, &m);
        assert_eq!(r.err(), Some(ConfigurationError::ScaleNotPositive));
    }
    assert_eq!(*asked.borrow(), 0);
    assert!(create_ensemble(10, f32::MIN_POSITIVE.to_bits(), &uniform, &m).is_ok());
    assert!(create_ensemble(10, f32::MAX.to_bits(), &uniform, &m).is_ok());
}
