use quadratic_map_attractor::chaos::{CHAOS_BASE_SCALE, CHAOS_NEGATIVE_BASE_SCALE};
use quadratic_map_attractor::divergence::{
    DIVERGENCE_BASE_SCALE, DIVERGENCE_LIMIT, DIVERGENCE_NEGATIVE_BASE_SCALE,
};
use quadratic_map_attractor::seed::{NEGATIVE_SPREAD, SHRINK, SPREAD, STRETCH};
use quadratic_map_attractor::word::Word;

fn singles() -> Vec<f32> {
    vec![
        0.0,
        -0.0,
        1.0,
        -1.0,
        0.01,
        -0.01,
        0.5,
        2.0,
        4.0,
        -4.0,
        1000.0,
        1.0e-40,
        -1.0e-40,
        f32::MIN_POSITIVE,
        f32::MAX,
        f32::MIN,
        f32::EPSILON,
        f32::INFINITY,
        f32::NEG_INFINITY,
        f32::NAN,
        -f32::NAN,
        f32::from_bits(0x7F80_0001),
        f32::from_bits(0xFFFF_FFFF),
        f32::from_bits(0x0000_0001),
        f32::from_bits(0x8000_0001),
        3.999_999_8,
        4.000_000_5,
    ]
}

fn doubles() -> Vec<f64> {
    vec![
        0.0,
        -0.0,
        1.0,
        -1.0,
        999.999_999_999,
        1000.0,
        1000.000_000_001,
        -1000.0,
        5.0e-324,
        -5.0e-324,
        f64::MIN_POSITIVE,
        f64::MAX,
        f64::MIN,
        f64::INFINITY,
        f64::NEG_INFINITY,
        f64::NAN,
        -f64::NAN,
        f64::from_bits(0x7FF0_0000_0000_0001),
        f64::from_bits(0xFFFF_FFFF_FFFF_FFFF),
    ]
}

#[test]
fn single_exceeds_is_greater_than() {
    for a in singles() {
        for b in singles() {
            assert_eq!(a.to_bits().exceeds(b.to_bits()), a > b, "{:?} > {:?}", a, b);
        }
    }
}

#[test]
fn double_exceeds_is_greater_than() {
    for a in doubles() {
        for b in doubles() {
            assert_eq!(a.to_bits().exceeds(b.to_bits()), a > b, "{:?} > {:?}", a, b);
        }
    }
}

#[test]
fn single_exceeds_on_neighbouring_words() {
    let mut word: u32 = 0;
    while word < 0xFFFF_0000 {
        let a = f32::from_bits(word);
        let b = f32::from_bits(word.wrapping_add(1));
        let c = f32::from_bits(word ^ 0x8000_0000);
        assert_eq!(word.exceeds(b.to_bits()), a > b);
        assert_eq!(b.to_bits().exceeds(word), b > a);
        assert_eq!(word.exceeds(c.to_bits()), a > c);
        assert_eq!(word.exceeds(word), false);
        word += 0x0000_FFF1;
    }
}

#[test]
fn is_zero_is_equality_with_zero() {
    for a in singles() {
        assert_eq!(a.to_bits().is_zero(), a == 0.0, "{:?}", a);
    }
    for a in doubles() {
        assert_eq!(a.to_bits().is_zero(), a == 0.0, "{:?}", a);
    }
    assert!(0u32.is_zero());
    assert!(0x8000_0000u32.is_zero());
    assert!(!1u32.is_zero());
}

#[test]
fn negated_flips_the_sign() {
    for a in singles() {
        assert_eq!(a.to_bits().negated(), (-a).to_bits(), "{:?}", a);
        assert_eq!(a.to_bits().negated().negated(), a.to_bits());
    }
    for a in doubles() {
        assert_eq!(a.to_bits().negated(), (-a).to_bits(), "{:?}", a);
    }
}

#[test]
fn positive_is_positive_and_finite() {
    for a in singles() {
        assert_eq!(a.to_bits().positive(), a > 0.0 && a.is_finite(), "{:?}", a);
    }
    for a in doubles() {
        assert_eq!(a.to_bits().positive(), a > 0.0 && a.is_finite(), "{:?}", a);
    }
}

#[test]
fn is_nan_and_is_finite_are_those_of_the_number() {
    for a in singles() {
        assert_eq!(Word::is_nan(a.to_bits()), a.is_nan(), "{:?}", a);
        assert_eq!(Word::is_finite(a.to_bits()), a.is_finite(), "{:?}", a);
    }
    for a in doubles() {
        assert_eq!(Word::is_nan(a.to_bits()), a.is_nan(), "{:?}", a);
        assert_eq!(Word::is_finite(a.to_bits()), a.is_finite(), "{:?}", a);
    }
    assert!(Word::is_nan(0x7F80_0001u32));
    assert!(!Word::is_nan(0x7F80_0000u32));
    assert!(!Word::is_finite(0x7F80_0000u32));
    assert!(Word::is_finite(0x7F7F_FFFFu32));
    assert!(Word::is_nan(0xFFF0_0000_0000_0001u64));
    assert!(!Word::is_finite(0xFFF0_0000_0000_0000u64));
    assert!(Word::is_finite(0xFFEF_FFFF_FFFF_FFFFu64));
}

#[test]
fn zero_and_two_are_the_numbers() {
    assert_eq!(<u32 as Word>::zero(), 0.0f32.to_bits());
    assert_eq!(<u32 as Word>::two(), 2.0f32.to_bits());
    assert_eq!(<u64 as Word>::zero(), 0.0f64.to_bits());
    assert_eq!(<u64 as Word>::two(), 2.0f64.to_bits());
}

#[test]
fn constants_encode_their_numbers() {
    assert_eq!(SPREAD, 0.01f32.to_bits());
    assert_eq!(NEGATIVE_SPREAD, (-0.01f32).to_bits());
    assert_eq!(STRETCH, 1.05f32.to_bits());
    assert_eq!(SHRINK, 0.95f32.to_bits());
    assert_eq!(CHAOS_BASE_SCALE, 2.0f32.to_bits());
    assert_eq!(CHAOS_NEGATIVE_BASE_SCALE, (-2.0f32).to_bits());
    assert_eq!(DIVERGENCE_BASE_SCALE, 2.0f32.to_bits());
    assert_eq!(DIVERGENCE_NEGATIVE_BASE_SCALE, (-2.0f32).to_bits());
    assert_eq!(DIVERGENCE_LIMIT, 1000.0f64.to_bits());
}
