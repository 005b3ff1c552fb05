//! Unsigned machine words that can carry an angle.
//!
//! A word of `n` bits holds one of `2^n` values; the angle stored in it is
//! that value times `2π / 2^n`. The trait [`Word`] collects, for each
//! unsigned primitive width, the wrapping and checked integer operations
//! that the angle arithmetic needs, each with its exact arithmetic meaning.
use vstd::prelude::*;

verus! {

use vstd::arithmetic::power2::{pow2, lemma2_to64, lemma2_to64_rest, lemma_pow2_adds, lemma_pow2_pos, lemma_pow2_unfold};
use vstd::arithmetic::div_mod::{lemma_mul_mod_noop_right, lemma_small_mod};
use vstd::bits::{lemma_u8_shr_is_div, lemma_u16_shr_is_div, lemma_u32_shr_is_div, lemma_u64_shr_is_div, lemma_u128_shr_is_div};

/// The number of distinct values of a word type: the steps in one full turn.
pub open spec fn modulus<T: Word>() -> nat {
    pow2(T::width())
}

/// Reducing a value that lies within one modulus of the range `[0, m)`.
proof fn lemma_mod_once(s: int, m: int)
    by (nonlinear_arith)
    requires
        0 < m,
        -m <= s < 2 * m,
    ensures
        s % m == (if s < 0 {
            s + m
        } else if s < m {
            s
        } else {
            s - m
        }),
{
}

/// The number of values of a 128-bit word.
pub proof fn lemma_pow2_128()
    ensures
        pow2(128) == 0x1_0000_0000_0000_0000_0000_0000_0000_0000nat,
{
    lemma2_to64();
    lemma2_to64_rest();
    lemma_pow2_adds(64, 64);
}

/// An unsigned primitive integer of a fixed width.
pub trait Word: Sized + Copy {
    /// The number of bits of the type.
    spec fn width() -> nat;

    /// The integer held by the word.
    spec fn value(self) -> nat;

    /// The word holding `n` reduced modulo `2^width`.
    spec fn from_value(n: nat) -> Self;

    /// The type's own left shift by `k` bits (bits shifted out are lost).
    spec fn shifted_left(self, k: u32) -> Self;

    /// The type's own right shift by `k` bits.
    spec fn shifted_right(self, k: u32) -> Self;

    /// The supported widths, each with at least 256 values.
    proof fn lemma_width()
        ensures
            Self::width() == 8 || Self::width() == 16 || Self::width() == 32
                || Self::width() == 64 || Self::width() == 128,
            pow2(Self::width()) >= 0x100,
    ;

    /// A word's value is below `2^width` and determines the word.
    proof fn lemma_value(x: Self)
        ensures
            x.value() < pow2(Self::width()),
            Self::from_value(x.value()) == x,
    ;

    /// `from_value` reduces modulo `2^width`.
    proof fn lemma_from_value(n: nat)
        ensures
            Self::from_value(n).value() == n % pow2(Self::width()),
    ;

    /// Shifting left by nothing changes nothing.
    proof fn lemma_shl_zero(x: Self)
        ensures
            x.shifted_left(0) == x,
    ;

    /// A shift by `k + 1` bits is a shift by `k` bits and then by one.
    proof fn lemma_shl_step(x: Self, k: u32)
        requires
            k + 1 < Self::width(),
        ensures
            x.shifted_left((k + 1) as u32) == x.shifted_left(k).shifted_left(1),
    ;

    /// A shift left by one bit doubles the value, dropping the top bit.
    proof fn lemma_shl_one(x: Self)
        ensures
            x.shifted_left(1).value() == (2 * x.value()) % pow2(Self::width()),
    ;

    /// A shift right by `k` bits divides the value by `2^k`.
    proof fn lemma_shr(x: Self, k: u32)
        requires
            k < Self::width(),
        ensures
            x.shifted_right(k).value() == x.value() / pow2(k as nat),
    ;

    /// The number of bits of the type.
    fn bits() -> (r: u32)
        ensures
            r == Self::width(),
    ;

    /// The word holding zero.
    fn zero() -> (r: Self)
        ensures
            r.value() == 0,
    ;

    /// The largest value of the type.
    fn max_value() -> (r: Self)
        ensures
            r.value() == pow2(Self::width()) - 1,
    ;

    /// Sum modulo `2^width`.
    fn wrapping_add(self, rhs: Self) -> (r: Self)
        ensures
            r.value() == (self.value() + rhs.value()) % pow2(Self::width()),
    ;

    /// Difference modulo `2^width`.
    fn wrapping_sub(self, rhs: Self) -> (r: Self)
        ensures
            r.value() == (self.value() - rhs.value()) % (pow2(Self::width()) as int),
    ;

    /// Opposite modulo `2^width`.
    fn wrapping_neg(self) -> (r: Self)
        ensures
            r.value() == (0 - self.value()) % (pow2(Self::width()) as int),
    ;

    /// Product modulo `2^width`.
    fn wrapping_mul(self, rhs: Self) -> (r: Self)
        ensures
            r.value() == (self.value() * rhs.value()) % pow2(Self::width()),
    ;

    /// Product, or `None` where it does not fit.
    fn checked_mul(self, rhs: Self) -> (r: Option<Self>)
        ensures
            match r {
                Some(v) => self.value() * rhs.value() < pow2(Self::width()) && v.value()
                    == self.value() * rhs.value(),
                None => self.value() * rhs.value() >= pow2(Self::width()),
            },
    ;

    /// Quotient rounded down, or `None` for a zero divisor.
    fn checked_div(self, rhs: Self) -> (r: Option<Self>)
        ensures
            match r {
                Some(v) => rhs.value() != 0 && v.value() == self.value() / rhs.value(),
                None => rhs.value() == 0,
            },
    ;

    /// Quotient rounded down, for a nonzero divisor.
    fn quotient(self, rhs: Self) -> (r: Self)
        requires
            rhs.value() != 0,
        ensures
            r.value() == self.value() / rhs.value(),
    ;

    /// The type's `<<` by fewer bits than the width.
    fn shift_left(self, k: u32) -> (r: Self)
        requires
            k < Self::width(),
        ensures
            r == self.shifted_left(k),
    ;

    /// The type's `>>` by fewer bits than the width.
    fn shift_right(self, k: u32) -> (r: Self)
        requires
            k < Self::width(),
        ensures
            r == self.shifted_right(k),
    ;

    /// The value as a `u128`.
    fn to_u128(self) -> (r: u128)
        ensures
            r == self.value(),
    ;

    /// The word holding a value that fits in it.
    fn from_u128(v: u128) -> (r: Self)
        requires
            v < pow2(Self::width()),
        ensures
            r.value() == v,
    ;
}

/// Shifting a word left by `k` bits multiplies its value by `2^k`, modulo
/// `2^width`.
pub proof fn lemma_shift_left_is_mul<T: Word>(x: T, k: u32)
    requires
        k < T::width(),
    ensures
        x.shifted_left(k).value() == (x.value() * pow2(k as nat)) % pow2(T::width()),
    decreases k,
{
    let m = pow2(T::width());
    T::lemma_value(x);
    lemma_pow2_pos(T::width());
    if k == 0 {
        T::lemma_shl_zero(x);
        lemma2_to64();
        lemma_small_mod(x.value(), m);
    } else {
        let j = (k - 1) as u32;
        lemma_shift_left_is_mul(x, j);
        T::lemma_shl_step(x, j);
        let y = x.shifted_left(j);
        T::lemma_shl_one(y);
        lemma_mul_mod_noop_right(2, (x.value() * pow2(j as nat)) as int, m as int);
        lemma_pow2_unfold(k as nat);
        let p = pow2(j as nat);
        assert(2 * (x.value() * p) == x.value() * (2 * p)) by (nonlinear_arith);
    }
}

impl Word for u8 {
    open spec fn width() -> nat {
        8
    }

    open spec fn value(self) -> nat {
        self as nat
    }

    open spec fn from_value(n: nat) -> u8 {
        (n % 0x100) as u8
    }

    open spec fn shifted_left(self, k: u32) -> u8 {
        self << k
    }

    open spec fn shifted_right(self, k: u32) -> u8 {
        self >> k
    }

    proof fn lemma_width() {
        lemma2_to64();
    }

    proof fn lemma_value(x: u8) {
        lemma2_to64();
    }

    proof fn lemma_from_value(n: nat) {
        lemma2_to64();
    }

    proof fn lemma_shl_zero(x: u8) {
        assert(x << 0u32 == x) by (bit_vector);
    }

    proof fn lemma_shl_step(x: u8, k: u32) {
        assert(x << ((k + 1) as u32) == (x << k) << 1u32) by (bit_vector)
            requires
                k < 7,
        ;
    }

    proof fn lemma_shl_one(x: u8) {
        lemma2_to64();
        assert(x < 0x80 ==> (x << 1u32) == 2 * x) by (bit_vector);
        assert(x >= 0x80 ==> (x << 1u32) + 0x100 == 2 * x) by (bit_vector);
        lemma_mod_once(2 * x, 0x100);
    }

    proof fn lemma_shr(x: u8, k: u32) {
        lemma_u8_shr_is_div(x, k as u8);
    }

    fn bits() -> (r: u32) {
        8
    }

    fn zero() -> (r: u8) {
        0
    }

    fn max_value() -> (r: u8) {
        proof {
            lemma2_to64();
        }
        u8::MAX
    }

    fn wrapping_add(self, rhs: u8) -> (r: u8) {
        proof {
            lemma2_to64();
            lemma_mod_once(self + rhs, 0x100);
        }
        u8::wrapping_add(self, rhs)
    }

    fn wrapping_sub(self, rhs: u8) -> (r: u8) {
        proof {
            lemma2_to64();
            lemma_mod_once(self - rhs, 0x100);
        }
        u8::wrapping_sub(self, rhs)
    }

    fn wrapping_neg(self) -> (r: u8) {
        proof {
            lemma2_to64();
            lemma_mod_once(0 - self, 0x100);
        }
        u8::wrapping_sub(0, self)
    }

    fn wrapping_mul(self, rhs: u8) -> (r: u8) {
        proof {
            lemma2_to64();
        }
        u8::wrapping_mul(self, rhs)
    }

    fn checked_mul(self, rhs: u8) -> (r: Option<u8>) {
        proof {
            lemma2_to64();
        }
        u8::checked_mul(self, rhs)
    }

    fn checked_div(self, rhs: u8) -> (r: Option<u8>) {
        u8::checked_div(self, rhs)
    }

    fn quotient(self, rhs: u8) -> (r: u8) {
        self / rhs
    }

    fn shift_left(self, k: u32) -> (r: u8) {
        self << k
    }

    fn shift_right(self, k: u32) -> (r: u8) {
        self >> k
    }

    fn to_u128(self) -> (r: u128) {
        self as u128
    }

    fn from_u128(v: u128) -> (r: u8) {
        proof {
            lemma2_to64();
        }
        v as u8
    }
}

impl Word for u16 {
    open spec fn width() -> nat {
        16
    }

    open spec fn value(self) -> nat {
        self as nat
    }

    open spec fn from_value(n: nat) -> u16 {
        (n % 0x1_0000) as u16
    }

    open spec fn shifted_left(self, k: u32) -> u16 {
        self << k
    }

    open spec fn shifted_right(self, k: u32) -> u16 {
        self >> k
    }

    proof fn lemma_width() {
        lemma2_to64();
    }

    proof fn lemma_value(x: u16) {
        lemma2_to64();
    }

    proof fn lemma_from_value(n: nat) {
        lemma2_to64();
    }

    proof fn lemma_shl_zero(x: u16) {
        assert(x << 0u32 == x) by (bit_vector);
    }

    proof fn lemma_shl_step(x: u16, k: u32) {
        assert(x << ((k + 1) as u32) == (x << k) << 1u32) by (bit_vector)
            requires
                k < 15,
        ;
    }

    proof fn lemma_shl_one(x: u16) {
        lemma2_to64();
        assert(x < 0x8000 ==> (x << 1u32) == 2 * x) by (bit_vector);
        assert(x >= 0x8000 ==> (x << 1u32) + 0x1_0000 == 2 * x) by (bit_vector);
        lemma_mod_once(2 * x, 0x1_0000);
    }

    proof fn lemma_shr(x: u16, k: u32) {
        lemma_u16_shr_is_div(x, k as u16);
    }

    fn bits() -> (r: u32) {
        16
    }

    fn zero() -> (r: u16) {
        0
    }

    fn max_value() -> (r: u16) {
        proof {
            lemma2_to64();
        }
        u16::MAX
    }

    fn wrapping_add(self, rhs: u16) -> (r: u16) {
        proof {
            lemma2_to64();
            lemma_mod_once(self + rhs, 0x1_0000);
        }
        u16::wrapping_add(self, rhs)
    }

    fn wrapping_sub(self, rhs: u16) -> (r: u16) {
        proof {
            lemma2_to64();
            lemma_mod_once(self - rhs, 0x1_0000);
        }
        u16::wrapping_sub(self, rhs)
    }

    fn wrapping_neg(self) -> (r: u16) {
        proof {
            lemma2_to64();
            lemma_mod_once(0 - self, 0x1_0000);
        }
        u16::wrapping_sub(0, self)
    }

    fn wrapping_mul(self, rhs: u16) -> (r: u16) {
        proof {
            lemma2_to64();
        }
        u16::wrapping_mul(self, rhs)
    }

    fn checked_mul(self, rhs: u16) -> (r: Option<u16>) {
        proof {
            lemma2_to64();
        }
        u16::checked_mul(self, rhs)
    }

    fn checked_div(self, rhs: u16) -> (r: Option<u16>) {
        u16::checked_div(self, rhs)
    }

    fn quotient(self, rhs: u16) -> (r: u16) {
        self / rhs
    }

    fn shift_left(self, k: u32) -> (r: u16) {
        self << k
    }

    fn shift_right(self, k: u32) -> (r: u16) {
        self >> k
    }

    fn to_u128(self) -> (r: u128) {
        self as u128
    }

    fn from_u128(v: u128) -> (r: u16) {
        proof {
            lemma2_to64();
        }
        v as u16
    }
}

impl Word for u32 {
    open spec fn width() -> nat {
        32
    }

    open spec fn value(self) -> nat {
        self as nat
    }

    open spec fn from_value(n: nat) -> u32 {
        (n % 0x1_0000_0000) as u32
    }

    open spec fn shifted_left(self, k: u32) -> u32 {
        self << k
    }

    open spec fn shifted_right(self, k: u32) -> u32 {
        self >> k
    }

    proof fn lemma_width() {
        lemma2_to64();
    }

    proof fn lemma_value(x: u32) {
        lemma2_to64();
    }

    proof fn lemma_from_value(n: nat) {
        lemma2_to64();
    }

    proof fn lemma_shl_zero(x: u32) {
        assert(x << 0u32 == x) by (bit_vector);
    }

    proof fn lemma_shl_step(x: u32, k: u32) {
        assert(x << ((k + 1) as u32) == (x << k) << 1u32) by (bit_vector)
            requires
                k < 31,
        ;
    }

    proof fn lemma_shl_one(x: u32) {
        lemma2_to64();
        assert(x < 0x8000_0000 ==> (x << 1u32) == 2 * x) by (bit_vector);
        assert(x >= 0x8000_0000 ==> (x << 1u32) + 0x1_0000_0000 == 2 * x) by (bit_vector);
        lemma_mod_once(2 * x, 0x1_0000_0000);
    }

    proof fn lemma_shr(x: u32, k: u32) {
        lemma_u32_shr_is_div(x, k as u32);
    }

    fn bits() -> (r: u32) {
        32
    }

    fn zero() -> (r: u32) {
        0
    }

    fn max_value() -> (r: u32) {
        proof {
            lemma2_to64();
        }
        u32::MAX
    }

    fn wrapping_add(self, rhs: u32) -> (r: u32) {
        proof {
            lemma2_to64();
            lemma_mod_once(self + rhs, 0x1_0000_0000);
        }
        u32::wrapping_add(self, rhs)
    }

    fn wrapping_sub(self, rhs: u32) -> (r: u32) {
        proof {
            lemma2_to64();
            lemma_mod_once(self - rhs, 0x1_0000_0000);
        }
        u32::wrapping_sub(self, rhs)
    }

    fn wrapping_neg(self) -> (r: u32) {
        proof {
            lemma2_to64();
            lemma_mod_once(0 - self, 0x1_0000_0000);
        }
        u32::wrapping_sub(0, self)
    }

    fn wrapping_mul(self, rhs: u32) -> (r: u32) {
        proof {
            lemma2_to64();
        }
        u32::wrapping_mul(self, rhs)
    }

    fn checked_mul(self, rhs: u32) -> (r: Option<u32>) {
        proof {
            lemma2_to64();
        }
        u32::checked_mul(self, rhs)
    }

    fn checked_div(self, rhs: u32) -> (r: Option<u32>) {
        u32::checked_div(self, rhs)
    }

    fn quotient(self, rhs: u32) -> (r: u32) {
        self / rhs
    }

    fn shift_left(self, k: u32) -> (r: u32) {
        self << k
    }

    fn shift_right(self, k: u32) -> (r: u32) {
        self >> k
    }

    fn to_u128(self) -> (r: u128) {
        self as u128
    }

    fn from_u128(v: u128) -> (r: u32) {
        proof {
            lemma2_to64();
        }
        v as u32
    }
}

impl Word for u64 {
    open spec fn width() -> nat {
        64
    }

    open spec fn value(self) -> nat {
        self as nat
    }

    open spec fn from_value(n: nat) -> u64 {
        (n % 0x1_0000_0000_0000_0000) as u64
    }

    open spec fn shifted_left(self, k: u32) -> u64 {
        self << k
    }

    open spec fn shifted_right(self, k: u32) -> u64 {
        self >> k
    }

    proof fn lemma_width() {
        lemma2_to64();
    }

    proof fn lemma_value(x: u64) {
        lemma2_to64();
    }

    proof fn lemma_from_value(n: nat) {
        lemma2_to64();
    }

    proof fn lemma_shl_zero(x: u64) {
        assert(x << 0u32 == x) by (bit_vector);
    }

    proof fn lemma_shl_step(x: u64, k: u32) {
        assert(x << ((k + 1) as u32) == (x << k) << 1u32) by (bit_vector)
            requires
                k < 63,
        ;
    }

    proof fn lemma_shl_one(x: u64) {
        lemma2_to64();
        assert(x < 0x8000_0000_0000_0000 ==> (x << 1u32) == 2 * x) by (bit_vector);
        assert(x >= 0x8000_0000_0000_0000 ==> (x << 1u32) + 0x1_0000_0000_0000_0000 == 2 * x) by (bit_vector);
        lemma_mod_once(2 * x, 0x1_0000_0000_0000_0000);
    }

    proof fn lemma_shr(x: u64, k: u32) {
        lemma_u64_shr_is_div(x, k as u64);
    }

    fn bits() -> (r: u32) {
        64
    }

    fn zero() -> (r: u64) {
        0
    }

    fn max_value() -> (r: u64) {
        proof {
            lemma2_to64();
        }
        u64::MAX
    }

    fn wrapping_add(self, rhs: u64) -> (r: u64) {
        proof {
            lemma2_to64();
            lemma_mod_once(self + rhs, 0x1_0000_0000_0000_0000);
        }
        u64::wrapping_add(self, rhs)
    }

    fn wrapping_sub(self, rhs: u64) -> (r: u64) {
        proof {
            lemma2_to64();
            lemma_mod_once(self - rhs, 0x1_0000_0000_0000_0000);
        }
        u64::wrapping_sub(self, rhs)
    }

    fn wrapping_neg(self) -> (r: u64) {
        proof {
            lemma2_to64();
            lemma_mod_once(0 - self, 0x1_0000_0000_0000_0000);
        }
        u64::wrapping_sub(0, self)
    }

    fn wrapping_mul(self, rhs: u64) -> (r: u64) {
        proof {
            lemma2_to64();
        }
        u64::wrapping_mul(self, rhs)
    }

    fn checked_mul(self, rhs: u64) -> (r: Option<u64>) {
        proof {
            lemma2_to64();
        }
        u64::checked_mul(self, rhs)
    }

    fn checked_div(self, rhs: u64) -> (r: Option<u64>) {
        u64::checked_div(self, rhs)
    }

    fn quotient(self, rhs: u64) -> (r: u64) {
        self / rhs
    }

    fn shift_left(self, k: u32) -> (r: u64) {
        self << k
    }

    fn shift_right(self, k: u32) -> (r: u64) {
        self >> k
    }

    fn to_u128(self) -> (r: u128) {
        self as u128
    }

    fn from_u128(v: u128) -> (r: u64) {
        proof {
            lemma2_to64();
        }
        v as u64
    }
}

impl Word for u128 {
    open spec fn width() -> nat {
        128
    }

    open spec fn value(self) -> nat {
        self as nat
    }

    open spec fn from_value(n: nat) -> u128 {
        (n % 0x1_0000_0000_0000_0000_0000_0000_0000_0000nat) as u128
    }

    open spec fn shifted_left(self, k: u32) -> u128 {
        self << k
    }

    open spec fn shifted_right(self, k: u32) -> u128 {
        self >> k
    }

    proof fn lemma_width() {
        lemma_pow2_128();
    }

    proof fn lemma_value(x: u128) {
        lemma_pow2_128();
    }

    proof fn lemma_from_value(n: nat) {
        lemma_pow2_128();
    }

    proof fn lemma_shl_zero(x: u128) {
        assert(x << 0u32 == x) by (bit_vector);
    }

    proof fn lemma_shl_step(x: u128, k: u32) {
        assert(x << ((k + 1) as u32) == (x << k) << 1u32) by (bit_vector)
            requires
                k < 127,
        ;
    }

    proof fn lemma_shl_one(x: u128) {
        lemma_pow2_128();
        assert(x < 0x8000_0000_0000_0000_0000_0000_0000_0000 ==> (x << 1u32) == 2 * x) by (bit_vector);
        assert(x >= 0x8000_0000_0000_0000_0000_0000_0000_0000 ==> (x << 1u32) == 2 * (x - 0x8000_0000_0000_0000_0000_0000_0000_0000u128)) by (bit_vector);
        lemma_mod_once(2 * x, 0x1_0000_0000_0000_0000_0000_0000_0000_0000int);
    }

    proof fn lemma_shr(x: u128, k: u32) {
        lemma_u128_shr_is_div(x, k as u128);
    }

    fn bits() -> (r: u32) {
        128
    }

    fn zero() -> (r: u128) {
        0
    }

    fn max_value() -> (r: u128) {
        proof {
            lemma_pow2_128();
        }
        u128::MAX
    }

    fn wrapping_add(self, rhs: u128) -> (r: u128) {
        proof {
            lemma_pow2_128();
            lemma_mod_once(self + rhs, 0x1_0000_0000_0000_0000_0000_0000_0000_0000int);
        }
        u128::wrapping_add(self, rhs)
    }

    fn wrapping_sub(self, rhs: u128) -> (r: u128) {
        proof {
            lemma_pow2_128();
            lemma_mod_once(self - rhs, 0x1_0000_0000_0000_0000_0000_0000_0000_0000int);
        }
        u128::wrapping_sub(self, rhs)
    }

    fn wrapping_neg(self) -> (r: u128) {
        proof {
            lemma_pow2_128();
            lemma_mod_once(0 - self, 0x1_0000_0000_0000_0000_0000_0000_0000_0000int);
        }
        u128::wrapping_sub(0, self)
    }

    fn wrapping_mul(self, rhs: u128) -> (r: u128) {
        proof {
            lemma_pow2_128();
        }
        u128::wrapping_mul(self, rhs)
    }

    fn checked_mul(self, rhs: u128) -> (r: Option<u128>) {
        proof {
            lemma_pow2_128();
        }
        u128::checked_mul(self, rhs)
    }

    fn checked_div(self, rhs: u128) -> (r: Option<u128>) {
        u128::checked_div(self, rhs)
    }

    fn quotient(self, rhs: u128) -> (r: u128) {
        self / rhs
    }

    fn shift_left(self, k: u32) -> (r: u128) {
        self << k
    }

    fn shift_right(self, k: u32) -> (r: u128) {
        self >> k
    }

    fn to_u128(self) -> (r: u128) {
        self as u128
    }

    fn from_u128(v: u128) -> (r: u128) {
        proof {
            lemma_pow2_128();
        }
        v as u128
    }
}

} // verus!
