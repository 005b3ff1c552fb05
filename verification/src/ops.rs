//! Operators on angles: all arithmetic wraps modulo one full turn.
use vstd::prelude::*;

verus! {

use vstd::arithmetic::power2::pow2;
use crate::Angle;
use crate::word::{Word, modulus, lemma_shift_left_is_mul};

impl<T: Word> core::ops::Add for Angle<T> {
    type Output = Self;

    /// Sum of two angles, wrapping at 2π.
    fn add(self, rhs: Self) -> (r: Self)
        ensures
            r@ == (self@ + rhs@) % modulus::<T>(),
    {
        let r = Angle(self.0.wrapping_add(rhs.0));
        proof {
            T::lemma_value(r.0);
        }
        r
    }
}

impl<T: Word> vstd::std_specs::ops::AddSpecImpl for Angle<T> {
    open spec fn obeys_add_spec() -> bool {
        true
    }

    open spec fn add_req(self, rhs: Self) -> bool {
        true
    }

    open spec fn add_spec(self, rhs: Self) -> Self {
        Angle::wrapped((self@ + rhs@) as int)
    }
}

impl<T: Word> core::ops::Sub for Angle<T> {
    type Output = Self;

    /// Difference of two angles, wrapping below zero.
    fn sub(self, rhs: Self) -> (r: Self)
        ensures
            r@ == (self@ - rhs@) % (modulus::<T>() as int),
    {
        let r = Angle(self.0.wrapping_sub(rhs.0));
        proof {
            T::lemma_value(r.0);
        }
        r
    }
}

impl<T: Word> vstd::std_specs::ops::SubSpecImpl for Angle<T> {
    open spec fn obeys_sub_spec() -> bool {
        true
    }

    open spec fn sub_req(self, rhs: Self) -> bool {
        true
    }

    open spec fn sub_spec(self, rhs: Self) -> Self {
        Angle::wrapped(self@ - rhs@)
    }
}

impl<T: Word> core::ops::Neg for Angle<T> {
    type Output = Self;

    /// The opposite angle: the one that adds up with `self` to a full turn.
    fn neg(self) -> (r: Self)
        ensures
            r@ == (0 - self@) % (modulus::<T>() as int),
    {
        let r = Angle(self.0.wrapping_neg());
        proof {
            T::lemma_value(r.0);
        }
        r
    }
}

impl<T: Word> vstd::std_specs::ops::NegSpecImpl for Angle<T> {
    open spec fn obeys_neg_spec() -> bool {
        true
    }

    open spec fn neg_req(self) -> bool {
        true
    }

    open spec fn neg_spec(self) -> Self {
        Angle::wrapped(0 - self@)
    }
}

impl<T: Word> core::ops::Mul<T> for Angle<T> {
    type Output = Self;

    /// The angle scaled by an integer, wrapping at 2π.
    fn mul(self, rhs: T) -> (r: Self)
        ensures
            r@ == (self@ * rhs.value()) % modulus::<T>(),
    {
        let r = Angle(self.0.wrapping_mul(rhs));
        proof {
            T::lemma_value(r.0);
        }
        r
    }
}

impl<T: Word> vstd::std_specs::ops::MulSpecImpl<T> for Angle<T> {
    open spec fn obeys_mul_spec() -> bool {
        true
    }

    open spec fn mul_req(self, rhs: T) -> bool {
        true
    }

    open spec fn mul_spec(self, rhs: T) -> Self {
        Angle::wrapped((self@ * rhs.value()) as int)
    }
}

impl<T: Word> core::ops::Div<T> for Angle<T> {
    type Output = Self;

    /// The angle divided by a nonzero integer, rounding down.
    fn div(self, rhs: T) -> (r: Self)
        ensures
            r@ == self@ / rhs.value(),
    {
        let r = Angle(self.0.quotient(rhs));
        proof {
            T::lemma_value(r.0);
            T::lemma_value(self.0);
            vstd::arithmetic::div_mod::lemma_small_mod(r@, modulus::<T>());
        }
        r
    }
}

impl<T: Word> vstd::std_specs::ops::DivSpecImpl<T> for Angle<T> {
    open spec fn obeys_div_spec() -> bool {
        true
    }

    open spec fn div_req(self, rhs: T) -> bool {
        rhs.value() != 0
    }

    open spec fn div_spec(self, rhs: T) -> Self {
        Angle::wrapped((self@ / rhs.value()) as int)
    }
}

impl<T: Word> core::ops::Shl<usize> for Angle<T> {
    type Output = Self;

    /// The angle doubled `rhs` times, wrapping at 2π; shifting by the full
    /// width or more gives the zero angle.
    fn shl(self, rhs: usize) -> (r: Self)
        ensures
            r@ == (if rhs >= T::width() {
                0
            } else {
                (self@ * pow2(rhs as nat)) % modulus::<T>()
            }),
    {
        proof {
            T::lemma_width();
        }
        let r = if rhs >= T::bits() as usize {
            Angle(T::zero())
        } else {
            proof {
                lemma_shift_left_is_mul(self.0, rhs as u32);
            }
            Angle(self.0.shift_left(rhs as u32))
        };
        proof {
            T::lemma_value(r.0);
            vstd::arithmetic::div_mod::lemma_small_mod(r@, modulus::<T>());
        }
        r
    }
}

impl<T: Word> vstd::std_specs::ops::ShlSpecImpl<usize> for Angle<T> {
    open spec fn obeys_shl_spec() -> bool {
        true
    }

    open spec fn shl_req(self, rhs: usize) -> bool {
        true
    }

    open spec fn shl_spec(self, rhs: usize) -> Self {
        if rhs >= T::width() {
            Angle::wrapped(0)
        } else {
            Angle::wrapped((self@ * pow2(rhs as nat)) as int)
        }
    }
}

impl<T: Word> core::ops::Shr<usize> for Angle<T> {
    type Output = Self;

    /// The angle halved `rhs` times, rounding down; shifting by the full
    /// width or more gives the zero angle.
    fn shr(self, rhs: usize) -> (r: Self)
        ensures
            r@ == (if rhs >= T::width() {
                0
            } else {
                self@ / pow2(rhs as nat)
            }),
    {
        proof {
            T::lemma_width();
        }
        let r = if rhs >= T::bits() as usize {
            Angle(T::zero())
        } else {
            proof {
                T::lemma_shr(self.0, rhs as u32);
            }
            Angle(self.0.shift_right(rhs as u32))
        };
        proof {
            T::lemma_value(r.0);
            vstd::arithmetic::div_mod::lemma_small_mod(r@, modulus::<T>());
        }
        r
    }
}

impl<T: Word> vstd::std_specs::ops::ShrSpecImpl<usize> for Angle<T> {
    open spec fn obeys_shr_spec() -> bool {
        true
    }

    open spec fn shr_req(self, rhs: usize) -> bool {
        true
    }

    open spec fn shr_spec(self, rhs: usize) -> Self {
        if rhs >= T::width() {
            Angle::wrapped(0)
        } else {
            Angle::wrapped((self@ / pow2(rhs as nat)) as int)
        }
    }
}

} // verus!
