//! Named angles, for every supported width.
use vstd::prelude::*;

verus! {

use vstd::arithmetic::power2::{lemma_pow2_adds, lemma2_to64};
use crate::Angle;
use crate::word::{Word, modulus};

/// One more than the largest value divided by `d` is the number of values
/// divided by `d`, when `d` divides that number.
proof fn lemma_pred_div_succ(q: nat, d: nat)
    by (nonlinear_arith)
    requires
        q > 0,
        d > 0,
    ensures
        ((q * d - 1) as nat) / d + 1 == (q * d) / d,
        (q * d) / d == q,
{
    assert((q * d - 1) == (q - 1) * d + (d - 1));
}

/// The number of values of a word is a multiple of 16.
proof fn lemma_modulus_multiple_of_16<T: Word>()
    ensures
        modulus::<T>() == (modulus::<T>() / 16) * 16,
        modulus::<T>() / 16 > 0,
{
    T::lemma_width();
    lemma2_to64();
    lemma_pow2_adds((T::width() - 4) as nat, 4);
}

impl<T: Word> Angle<T> {
    /// `MAX / d + 1` for a power of two `d` dividing the number of values:
    /// exactly one `d`-th of a turn.
    fn fraction_of_turn(d: u128) -> (r: Self)
        requires
            d == 2 || d == 4 || d == 8 || d == 16,
        ensures
            r@ == modulus::<T>() / (d as nat),
    {
        let ghost q = modulus::<T>() / (d as nat);
        proof {
            T::lemma_width();
            lemma_modulus_multiple_of_16::<T>();
            assert(modulus::<T>() == q * (d as nat) && q < modulus::<T>()) by (nonlinear_arith)
                requires
                    modulus::<T>() == (modulus::<T>() / 16) * 16,
                    q == modulus::<T>() / (d as nat),
                    d == 2 || d == 4 || d == 8 || d == 16,
                    modulus::<T>() / 16 > 0,
            ;
            lemma_pred_div_succ(q, d as nat);
        }
        let m = T::max_value();
        let part = m.quotient(T::from_u128(d));
        let r = Angle(part.wrapping_add(T::from_u128(1)));
        proof {
            vstd::arithmetic::div_mod::lemma_small_mod(q, modulus::<T>());
        }
        r
    }

    /// `MAX / d` for `d` not dividing the number of values: a `d`-th of a
    /// turn, truncated to the nearest representable value below.
    fn truncated_fraction_of_turn(d: u128) -> (r: Self)
        requires
            d == 6 || d == 12,
        ensures
            r@ == ((modulus::<T>() - 1) as nat) / (d as nat),
    {
        proof {
            T::lemma_width();
        }
        Angle(T::max_value().quotient(T::from_u128(d)))
    }

    /// The zero angle.
    pub fn zero() -> (r: Self)
        ensures
            r@ == 0,
    {
        Angle(T::zero())
    }

    /// One full turn (2π). Wraps to zero in this representation.
    pub fn tau() -> (r: Self)
        ensures
            r@ == 0,
    {
        Angle(T::zero())
    }

    /// π (half turn).
    pub fn pi() -> (r: Self)
        ensures
            r@ == modulus::<T>() / 2,
    {
        Self::fraction_of_turn(2)
    }

    /// π/2 (quarter turn).
    pub fn frac_pi_2() -> (r: Self)
        ensures
            r@ == modulus::<T>() / 4,
    {
        Self::fraction_of_turn(4)
    }

    /// π/3 (truncated to the nearest representable value).
    pub fn frac_pi_3() -> (r: Self)
        ensures
            r@ == ((modulus::<T>() - 1) as nat) / 6,
    {
        Self::truncated_fraction_of_turn(6)
    }

    /// π/4 (eighth turn).
    pub fn frac_pi_4() -> (r: Self)
        ensures
            r@ == modulus::<T>() / 8,
    {
        Self::fraction_of_turn(8)
    }

    /// π/6 (truncated to the nearest representable value).
    pub fn frac_pi_6() -> (r: Self)
        ensures
            r@ == ((modulus::<T>() - 1) as nat) / 12,
    {
        Self::truncated_fraction_of_turn(12)
    }

    /// π/8.
    pub fn frac_pi_8() -> (r: Self)
        ensures
            r@ == modulus::<T>() / 16,
    {
        Self::fraction_of_turn(16)
    }
}

} // verus!
