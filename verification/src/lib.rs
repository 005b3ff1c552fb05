//! Fixed-point angles modulo 2π, backed by unsigned integers.
//!
//! [`Angle<T>`] represents an angle as an unsigned integer where the full
//! range of `T` maps onto one full turn (2π radians / 360 degrees). Wrapping
//! integer arithmetic provides the wraparound at 2π, so modular arithmetic is
//! free.
//!
//! The abstract value of an angle, `a@`, is its step count in `[0, 2^n)` for
//! an `n`-bit word; one step is `2π / 2^n` radians.

pub mod consts;
pub mod laws;
pub mod ops;
pub mod word;

use vstd::prelude::*;

verus! {

use vstd::arithmetic::power2::{pow2, lemma_pow2_adds, lemma_pow2_pos, lemma_pow2_strictly_increases};
use crate::word::{Word, modulus, lemma_shift_left_is_mul};

/// Fixed-point angle modulo 2π, stored as an unsigned integer `T`.
///
/// The full range of `T` covers one turn: `T::MAX + 1` corresponds to 2π.
/// Instantiated with an unsigned primitive integer; the type aliases
/// [`Angle8`] through [`Angle128`] are the supported widths.
#[derive(Copy, Clone, Debug, PartialEq, Eq, Hash, Default)]
pub struct Angle<T>(pub T);

/// 8-bit angle: one full turn per 256 steps.
pub type Angle8 = Angle<u8>;

/// 16-bit angle: one full turn per 65,536 steps.
pub type Angle16 = Angle<u16>;

/// 32-bit angle: one full turn per 2³² steps.
pub type Angle32 = Angle<u32>;

/// 64-bit angle: one full turn per 2⁶⁴ steps.
pub type Angle64 = Angle<u64>;

/// 128-bit angle: one full turn per 2¹²⁸ steps.
pub type Angle128 = Angle<u128>;

impl<T: Word> View for Angle<T> {
    type V = nat;

    /// The number of steps of `2π / 2^n` from zero to this angle.
    open spec fn view(&self) -> nat {
        self.0.value()
    }
}

impl<T: Word> Angle<T> {
    /// The angle `n` steps from zero, going round as often as needed.
    pub open spec fn wrapped(n: int) -> Self {
        Angle(T::from_value((n % (modulus::<T>() as int)) as nat))
    }

    /// The same angle in a word of another width: the top bits of the wider
    /// word line up with the bits of the narrower one.
    pub open spec fn reencoded<U: Word>(self) -> Angle<U> {
        if T::width() >= U::width() {
            Angle::wrapped((self@ / pow2((T::width() - U::width()) as nat)) as int)
        } else {
            Angle::wrapped((self@ * pow2((U::width() - T::width()) as nat)) as int)
        }
    }

    /// Multiply by an integer scalar, returning `None` on raw integer
    /// overflow.
    ///
    /// Unlike the wrapping `Mul` impl, this surfaces overflow instead of
    /// wrapping: useful when you need to know whether the operation
    /// crossed 2π.
    pub fn checked_mul(self, rhs: T) -> (r: Option<Self>)
        ensures
            match r {
                Some(a) => self@ * rhs.value() < modulus::<T>() && a@ == self@ * rhs.value(),
                None => self@ * rhs.value() >= modulus::<T>(),
            },
    {
        match self.0.checked_mul(rhs) {
            Some(v) => Some(Angle(v)),
            None => None,
        }
    }

    /// Divide by an integer scalar, returning `None` on division by zero.
    pub fn checked_div(self, rhs: T) -> (r: Option<Self>)
        ensures
            match r {
                Some(a) => rhs.value() != 0 && a@ == self@ / rhs.value(),
                None => rhs.value() == 0,
            },
    {
        match self.0.checked_div(rhs) {
            Some(v) => Some(Angle(v)),
            None => None,
        }
    }

    /// Re-encode the angle in a different integer width.
    ///
    /// Widening copies the source value into the top bits of the target;
    /// narrowing keeps the top bits of the source. The angle itself is
    /// preserved up to the target's resolution.
    pub fn cast<U: Word>(self) -> (r: Angle<U>)
        ensures
            r == self.reencoded::<U>(),
            T::width() >= U::width() ==> r@ == self@ / pow2((T::width() - U::width()) as nat),
            T::width() < U::width() ==> r@ == self@ * pow2((U::width() - T::width()) as nat),
    {
        proof {
            T::lemma_width();
            U::lemma_width();
            T::lemma_value(self.0);
        }
        let src_bits = T::bits();
        let dst_bits = U::bits();
        if src_bits >= dst_bits {
            let k = src_bits - dst_bits;
            let shifted = self.0.shift_right(k);
            proof {
                T::lemma_shr(self.0, k);
                lemma_pow2_adds(k as nat, dst_bits as nat);
                lemma_quotient_below(self@, pow2(k as nat), pow2(dst_bits as nat));
            }
            let r = Angle(U::from_u128(shifted.to_u128()));
            proof {
                U::lemma_value(r.0);
                vstd::arithmetic::div_mod::lemma_small_mod(r@, modulus::<U>());
            }
            r
        } else {
            let k = dst_bits - src_bits;
            proof {
                lemma_pow2_adds(src_bits as nat, k as nat);
                lemma_pow2_strictly_increases(src_bits as nat, dst_bits as nat);
            }
            let widened = U::from_u128(self.0.to_u128());
            proof {
                lemma_shift_left_is_mul(widened, k);
                lemma_pow2_pos(k as nat);
                lemma_product_below(self@, pow2(src_bits as nat), pow2(k as nat));
                vstd::arithmetic::div_mod::lemma_small_mod(
                    self@ * pow2(k as nat),
                    pow2(dst_bits as nat),
                );
            }
            let r = Angle(widened.shift_left(k));
            proof {
                U::lemma_value(r.0);
            }
            r
        }
    }
}

/// A value below `a * b` divided by `a` is below `b`.
proof fn lemma_quotient_below(x: nat, a: nat, b: nat)
    by (nonlinear_arith)
    requires
        a > 0,
        x < a * b,
    ensures
        x / a < b,
{
}

/// A value below `a` scaled by `b > 0` is below `a * b`.
proof fn lemma_product_below(x: nat, a: nat, b: nat)
    by (nonlinear_arith)
    requires
        b > 0,
        x < a,
    ensures
        x * b < a * b,
{
}

} // verus!
