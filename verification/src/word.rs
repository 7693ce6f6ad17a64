//! IEEE 754 encodings handled as machine words.
//!
//! The engine never computes on real numbers itself. It stores every number
//! as the bit pattern of its IEEE 754 encoding (binary32 in a `u32`, binary64
//! in a `u64`) and only ever asks three questions of such a word: is it a
//! zero, is it a NaN, and where does it sit on the number line relative to
//! another word. All three are decided on the integer value of the pattern.

use vstd::prelude::*;

verus! {

/// A machine word that carries one IEEE 754 encoded number.
pub trait Word: Copy + Sized {
    /// The encoding without its sign bit, read as an integer. Among the
    /// encodings that are not NaN a larger magnitude is a number further
    /// from zero.
    spec fn magnitude(self) -> int;

    /// Whether the sign bit is set.
    spec fn is_negative(self) -> bool;

    /// The largest magnitude that is still a number: the encoding of
    /// infinity. Every magnitude above it is a NaN.
    spec fn infinity() -> int;

    /// The encoding of positive zero.
    spec fn zero_word() -> Self;

    /// The encoding of the number two.
    spec fn two_word() -> Self;

    /// The encoding of the same number with the opposite sign: the word
    /// with its sign bit flipped.
    spec fn opposite(self) -> Self;

    /// Positive zero is a zero without a sign, and it is finite.
    proof fn lemma_zero_word()
        ensures
            Self::zero_word().magnitude() == 0,
            !Self::zero_word().is_negative(),
            0 < Self::infinity(),
    ;

    /// Positive zero.
    fn zero() -> (r: Self)
        ensures
            r == Self::zero_word(),
    ;

    /// The number two.
    fn two() -> (r: Self)
        ensures
            r == Self::two_word(),
    ;

    /// Whether the word is a zero of either sign, which is what a
    /// comparison of the number with zero for equality answers.
    fn is_zero(self) -> (b: bool)
        ensures
            b == (self.magnitude() == 0),
    ;

    /// Whether `self` is a number strictly greater than the number `other`,
    /// which is what the comparison `>` on the two numbers answers: false
    /// as soon as either side is a NaN, and the two zeros are equal.
    fn exceeds(self, other: Self) -> (b: bool)
        ensures
            b == (self.magnitude() <= Self::infinity() && other.magnitude() <= Self::infinity() && (if self.is_negative() {
                -self.magnitude()
            } else {
                self.magnitude()
            }) > (if other.is_negative() {
                -other.magnitude()
            } else {
                other.magnitude()
            })),
    ;

    /// Whether the word is a NaN.
    fn is_nan(self) -> (b: bool)
        ensures
            b == (self.magnitude() > Self::infinity()),
    ;

    /// Whether the word is a finite number: neither a NaN nor an infinity.
    fn is_finite(self) -> (b: bool)
        ensures
            b == (self.magnitude() < Self::infinity()),
    ;

    /// Whether the word is a number greater than zero and less than
    /// infinity.
    fn positive(self) -> (b: bool)
        ensures
            b == (!self.is_negative() && 0 < self.magnitude() < Self::infinity()),
    ;

    /// The same number with the opposite sign.
    fn negated(self) -> (r: Self)
        ensures
            r == self.opposite(),
    ;
}

/// Whether the word encodes a NaN.
pub open spec fn is_nan<T: Word>(w: T) -> bool {
    w.magnitude() > T::infinity()
}

/// Whether the word encodes a finite number: neither a NaN nor an infinity.
pub open spec fn is_finite<T: Word>(w: T) -> bool {
    w.magnitude() < T::infinity()
}

/// Whether the word encodes a zero of either sign.
pub open spec fn is_zero<T: Word>(w: T) -> bool {
    w.magnitude() == 0
}

/// The place of a word on the number line: its magnitude, counted downwards
/// from zero for a negative word. For two words that are not NaN the numbers
/// they encode compare as their ordinals do.
pub open spec fn ordinal<T: Word>(w: T) -> int {
    if w.is_negative() {
        -w.magnitude()
    } else {
        w.magnitude()
    }
}

/// Whether `a` is a number strictly greater than the number `b`.
pub open spec fn exceeds<T: Word>(a: T, b: T) -> bool {
    !is_nan(a) && !is_nan(b) && ordinal(a) > ordinal(b)
}

/// Whether the word encodes a positive finite number.
pub open spec fn is_positive<T: Word>(w: T) -> bool {
    !w.is_negative() && 0 < w.magnitude() < T::infinity()
}

/// Whether `w` is a number that lies in the closed interval from `lo` to `hi`.
pub open spec fn within<T: Word>(lo: T, w: T, hi: T) -> bool {
    !is_nan(w) && ordinal(lo) <= ordinal(w) <= ordinal(hi)
}

/// The sign bit of a binary32 encoding.
pub const SINGLE_SIGN: u32 = 0x8000_0000;

/// The sign bit of a binary64 encoding.
pub const DOUBLE_SIGN: u64 = 0x8000_0000_0000_0000;

impl Word for u32 {
    open spec fn magnitude(self) -> int {
        if self >= SINGLE_SIGN {
            self - SINGLE_SIGN
        } else {
            self as int
        }
    }

    open spec fn is_negative(self) -> bool {
        self >= SINGLE_SIGN
    }

    open spec fn infinity() -> int {
        0x7F80_0000
    }

    open spec fn zero_word() -> u32 {
        0
    }

    open spec fn two_word() -> u32 {
        0x4000_0000
    }

    open spec fn opposite(self) -> u32 {
        if self >= SINGLE_SIGN {
            (self - SINGLE_SIGN) as u32
        } else {
            (self + SINGLE_SIGN) as u32
        }
    }

    proof fn lemma_zero_word() {
    }

    fn zero() -> (r: u32) {
        0
    }

    fn two() -> (r: u32) {
        0x4000_0000
    }

    fn is_zero(self) -> (b: bool) {
        self == 0 || self == SINGLE_SIGN
    }

    fn exceeds(self, other: u32) -> (b: bool) {
        let a: u32 = if self >= SINGLE_SIGN { self - SINGLE_SIGN } else { self };
        let b: u32 = if other >= SINGLE_SIGN { other - SINGLE_SIGN } else { other };
        if a > 0x7F80_0000 || b > 0x7F80_0000 {
            false
        } else if self >= SINGLE_SIGN {
            other >= SINGLE_SIGN && a < b
        } else if other >= SINGLE_SIGN {
            a > 0 || b > 0
        } else {
            a > b
        }
    }

    fn is_nan(self) -> (b: bool) {
        let a: u32 = if self >= SINGLE_SIGN { self - SINGLE_SIGN } else { self };
        a > 0x7F80_0000
    }

    fn is_finite(self) -> (b: bool) {
        let a: u32 = if self >= SINGLE_SIGN { self - SINGLE_SIGN } else { self };
        a < 0x7F80_0000
    }

    fn positive(self) -> (b: bool) {
        0 < self && self < 0x7F80_0000
    }

    fn negated(self) -> (r: u32) {
        if self >= SINGLE_SIGN {
            self - SINGLE_SIGN
        } else {
            self + SINGLE_SIGN
        }
    }
}

impl Word for u64 {
    open spec fn magnitude(self) -> int {
        if self >= DOUBLE_SIGN {
            self - DOUBLE_SIGN
        } else {
            self as int
        }
    }

    open spec fn is_negative(self) -> bool {
        self >= DOUBLE_SIGN
    }

    open spec fn infinity() -> int {
        0x7FF0_0000_0000_0000
    }

    open spec fn zero_word() -> u64 {
        0
    }

    open spec fn two_word() -> u64 {
        0x4000_0000_0000_0000
    }

    open spec fn opposite(self) -> u64 {
        if self >= DOUBLE_SIGN {
            (self - DOUBLE_SIGN) as u64
        } else {
            (self + DOUBLE_SIGN) as u64
        }
    }

    proof fn lemma_zero_word() {
    }

    fn zero() -> (r: u64) {
        0
    }

    fn two() -> (r: u64) {
        0x4000_0000_0000_0000
    }

    fn is_zero(self) -> (b: bool) {
        self == 0 || self == DOUBLE_SIGN
    }

    fn exceeds(self, other: u64) -> (b: bool) {
        let a: u64 = if self >= DOUBLE_SIGN { self - DOUBLE_SIGN } else { self };
        let b: u64 = if other >= DOUBLE_SIGN { other - DOUBLE_SIGN } else { other };
        if a > 0x7FF0_0000_0000_0000 || b > 0x7FF0_0000_0000_0000 {
            false
        } else if self >= DOUBLE_SIGN {
            other >= DOUBLE_SIGN && a < b
        } else if other >= DOUBLE_SIGN {
            a > 0 || b > 0
        } else {
            a > b
        }
    }

    fn is_nan(self) -> (b: bool) {
        let a: u64 = if self >= DOUBLE_SIGN { self - DOUBLE_SIGN } else { self };
        a > 0x7FF0_0000_0000_0000
    }

    fn is_finite(self) -> (b: bool) {
        let a: u64 = if self >= DOUBLE_SIGN { self - DOUBLE_SIGN } else { self };
        a < 0x7FF0_0000_0000_0000
    }

    fn positive(self) -> (b: bool) {
        0 < self && self < 0x7FF0_0000_0000_0000
    }

    fn negated(self) -> (r: u64) {
        if self >= DOUBLE_SIGN {
            self - DOUBLE_SIGN
        } else {
            self + DOUBLE_SIGN
        }
    }
}

} // verus!
