//! Laws of angle arithmetic: angles form the integers modulo one turn, and
//! re-encoding in another width keeps the angle up to the coarser resolution.
use vstd::prelude::*;

verus! {

use vstd::arithmetic::power2::{pow2, lemma_pow2_adds, lemma_pow2_pos};
use vstd::arithmetic::div_mod::{
    lemma_small_mod,
    lemma_add_mod_noop_right,
    lemma_sub_mod_noop_right,
    lemma_mod_twice,
};
use vstd::std_specs::ops::{AddSpec, SubSpec, NegSpec, MulSpec, ShlSpec};
use crate::Angle;
use crate::word::{Word, modulus};

/// Two angles of one width are equal exactly when their step counts are.
pub proof fn lemma_view_determines_angle<T: Word>(a: Angle<T>, b: Angle<T>)
    ensures
        a@ == b@ <==> a == b,
{
    T::lemma_value(a.0);
    T::lemma_value(b.0);
}

/// The angle `n` steps from zero has `n` reduced modulo one turn as its
/// step count.
pub proof fn lemma_wrapped<T: Word>(n: int)
    ensures
        Angle::<T>::wrapped(n)@ == n % (modulus::<T>() as int),
{
    let m = modulus::<T>();
    lemma_pow2_pos(T::width());
    T::lemma_from_value((n % (m as int)) as nat);
    lemma_small_mod((n % (m as int)) as nat, m);
}

/// Going `a@` steps from zero reaches `a`.
pub proof fn lemma_wrapped_view<T: Word>(a: Angle<T>)
    ensures
        Angle::<T>::wrapped(a@ as int) == a,
{
    T::lemma_value(a.0);
    lemma_small_mod(a@, modulus::<T>());
}

/// Addition of angles is commutative.
pub proof fn lemma_add_commutative<T: Word>(a: Angle<T>, b: Angle<T>)
    ensures
        a.add_spec(b) == b.add_spec(a),
{
    assert(a@ + b@ == b@ + a@);
}

/// Addition of angles is associative, wraparound included.
pub proof fn lemma_add_associative<T: Word>(a: Angle<T>, b: Angle<T>, c: Angle<T>)
    ensures
        a.add_spec(b).add_spec(c) == a.add_spec(b.add_spec(c)),
{
    let m = modulus::<T>() as int;
    let (x, y, z) = (a@ as int, b@ as int, c@ as int);
    lemma_pow2_pos(T::width());
    lemma_wrapped::<T>(x + y);
    lemma_wrapped::<T>(y + z);
    lemma_add_mod_noop_right(z, x + y, m);
    lemma_add_mod_noop_right(x, y + z, m);
    assert(z + (x + y) == x + (y + z));
    assert(((x + y) % m + z) % m == (x + (y + z) % m) % m);
}

/// The zero angle is neutral for addition.
pub proof fn lemma_add_zero<T: Word>(a: Angle<T>, z: Angle<T>)
    requires
        z@ == 0,
    ensures
        a.add_spec(z) == a,
{
    lemma_wrapped_view(a);
}

/// An angle plus its opposite is the zero angle.
pub proof fn lemma_add_neg<T: Word>(a: Angle<T>)
    ensures
        a.add_spec(a.neg_spec())@ == 0,
{
    let m = modulus::<T>() as int;
    lemma_pow2_pos(T::width());
    lemma_wrapped::<T>(0 - a@);
    lemma_wrapped::<T>(a@ + a.neg_spec()@ as int);
    lemma_add_mod_noop_right(a@ as int, 0 - a@, m);
    assert(a@ + (0 - a@) == 0);
    lemma_small_mod(0, m as nat);
}

/// Taking the opposite twice gives the angle back.
pub proof fn lemma_neg_involutive<T: Word>(a: Angle<T>)
    ensures
        a.neg_spec().neg_spec() == a,
{
    let m = modulus::<T>() as int;
    lemma_pow2_pos(T::width());
    lemma_wrapped::<T>(0 - a@);
    lemma_sub_mod_noop_right(0, 0 - a@, m);
    assert(0 - (0 - a@) == a@);
    lemma_wrapped_view(a);
    lemma_mod_twice(a@ as int, m);
}

/// Subtracting an angle is adding its opposite.
pub proof fn lemma_sub_is_add_neg<T: Word>(a: Angle<T>, b: Angle<T>)
    ensures
        a.sub_spec(b) == a.add_spec(b.neg_spec()),
{
    let m = modulus::<T>() as int;
    lemma_pow2_pos(T::width());
    lemma_wrapped::<T>(0 - b@);
    lemma_add_mod_noop_right(a@ as int, 0 - b@, m);
    assert(a@ + (0 - b@) == a@ - b@);
    lemma_mod_twice(a@ - b@, m);
}

/// Subtracting `b` undoes adding `b`, across the wraparound at 2π.
pub proof fn lemma_sub_undoes_add<T: Word>(a: Angle<T>, b: Angle<T>)
    ensures
        a.add_spec(b).sub_spec(b) == a,
{
    let m = modulus::<T>() as int;
    lemma_pow2_pos(T::width());
    let (x, y) = (a@ as int, b@ as int);
    lemma_wrapped::<T>(x + y);
    lemma_add_mod_noop_right(0 - y, x + y, m);
    assert((0 - y) + (x + y) == x);
    assert((x + y) % m - y == (0 - y) + (x + y) % m);
    lemma_mod_twice(a@ as int, m);
    lemma_wrapped_view(a);
}

/// A half turn is its own opposite, and two half turns make a full turn.
pub proof fn lemma_half_turn<T: Word>(p: Angle<T>)
    requires
        p@ == modulus::<T>() / 2,
    ensures
        p.neg_spec() == p,
        p.add_spec(p)@ == 0,
{
    let m = modulus::<T>() as int;
    T::lemma_width();
    vstd::arithmetic::power2::lemma_pow2_unfold(T::width());
    assert(m == p@ * 2);
    lemma_wrapped::<T>(0 - p@);
    lemma_wrapped::<T>(p@ + p@ as int);
    assert((0 - p@) % m == p@) by {
        vstd::arithmetic::div_mod::lemma_mod_multiples_vanish(1, 0 - p@, m);
        lemma_small_mod(p@, m as nat);
    }
    vstd::arithmetic::div_mod::lemma_mod_self_0(m);
    lemma_view_determines_angle(p.neg_spec(), p);
}

/// Where the product does not overflow, the wrapping product is the exact
/// product: the checked and the wrapping multiplication agree whenever the
/// checked one gives a result.
pub proof fn lemma_checked_mul_agrees<T: Word>(a: Angle<T>, k: T)
    requires
        a@ * k.value() < modulus::<T>(),
    ensures
        a.mul_spec(k)@ == a@ * k.value(),
{
    lemma_wrapped::<T>((a@ * k.value()) as int);
    lemma_small_mod(a@ * k.value(), modulus::<T>());
}

/// Shifting left by one bit doubles the angle.
pub proof fn lemma_shl_one_doubles<T: Word>(a: Angle<T>)
    ensures
        a.shl_spec(1) == a.add_spec(a),
{
    T::lemma_width();
    vstd::arithmetic::power2::lemma2_to64();
    assert(a@ * pow2(1) == a@ + a@);
}

/// Re-encoding in the same width is the identity.
pub proof fn lemma_reencode_same_width<T: Word>(a: Angle<T>)
    ensures
        a.reencoded::<T>() == a,
{
    vstd::arithmetic::power2::lemma2_to64();
    assert(a@ / pow2(0) == a@);
    lemma_wrapped_view(a);
}

/// Widening and then narrowing back loses nothing.
pub proof fn lemma_widen_then_narrow<T: Word, U: Word>(a: Angle<T>)
    requires
        T::width() <= U::width(),
    ensures
        a.reencoded::<U>().reencoded::<T>() == a,
{
    let k = (U::width() - T::width()) as nat;
    let w = a.reencoded::<U>();
    lemma_reencoding_preserves_angle::<T, U>(a);
    lemma_reencoding_preserves_angle::<U, T>(w);
    lemma_pow2_pos(k);
    vstd::arithmetic::power2::lemma2_to64();
    vstd::arithmetic::div_mod::lemma_div_by_multiple(a@ as int, pow2(k) as int);
    if T::width() == U::width() {
        // Equal widths: both re-encodings divide by 2^0 = 1.
        vstd::arithmetic::div_mod::lemma_div_by_multiple(a@ as int, 1);
    }
    assert(w@ == a@ * pow2(k));
    lemma_view_determines_angle(w.reencoded::<T>(), a);
}

/// Re-encoding keeps the angle up to the resolution of the coarser width:
/// with `M` steps per turn in `T` and `N` in `U`, the result `r` satisfies
/// `r / N <= a / M < (r + 1) / N`, with equality when widening.
pub proof fn lemma_reencoding_preserves_angle<T: Word, U: Word>(a: Angle<T>)
    ensures
        ({
            let r = a.reencoded::<U>();
            &&& T::width() >= U::width() ==> r@ == a@ / pow2((T::width() - U::width()) as nat)
            &&& T::width() < U::width() ==> r@ == a@ * pow2((U::width() - T::width()) as nat)
            &&& r@ * modulus::<T>() <= a@ * modulus::<U>()
            &&& a@ * modulus::<U>() < (r@ + 1) * modulus::<T>()
            &&& T::width() <= U::width() ==> r@ * modulus::<T>() == a@ * modulus::<U>()
        }),
{
    let r = a.reencoded::<U>();
    let mt = modulus::<T>();
    let mu = modulus::<U>();
    T::lemma_value(a.0);
    lemma_pow2_pos(T::width());
    lemma_pow2_pos(U::width());
    if T::width() >= U::width() {
        let k = (T::width() - U::width()) as nat;
        lemma_pow2_pos(k);
        lemma_pow2_adds(k, U::width());
        let q = a@ / pow2(k);
        lemma_quotient_bounds(a@, pow2(k), mu);
        lemma_wrapped::<U>(q as int);
        lemma_small_mod(q, mu);
        lemma_scaled_floor(a@, pow2(k), mu);
        if T::width() == U::width() {
            vstd::arithmetic::power2::lemma2_to64();
            assert(k == 0);
            assert(pow2(k) == 1);
            assert(a@ / 1 == a@) by (nonlinear_arith);
            assert(q == a@);
        }
    } else {
        let k = (U::width() - T::width()) as nat;
        lemma_pow2_pos(k);
        lemma_pow2_adds(T::width(), k);
        let p = a@ * pow2(k);
        lemma_product_bound(a@, mt, pow2(k));
        lemma_wrapped::<U>(p as int);
        lemma_small_mod(p, mu);
        assert(p * mt == a@ * mu) by (nonlinear_arith)
            requires
                p == a@ * pow2(k),
                mu == mt * pow2(k),
        ;
        assert(a@ * mu < (p + 1) * mt) by (nonlinear_arith)
            requires
                p * mt == a@ * mu,
                mt > 0,
        ;
    }
}

/// `x / d < b` when `x < d * b`.
proof fn lemma_quotient_bounds(x: nat, d: nat, b: nat)
    by (nonlinear_arith)
    requires
        d > 0,
        x < d * b,
    ensures
        x / d < b,
{
}

/// `x * c < a * c` when `x < a` and `c > 0`.
proof fn lemma_product_bound(x: nat, a: nat, c: nat)
    by (nonlinear_arith)
    requires
        x < a,
        c > 0,
    ensures
        x * c < a * c,
{
}

/// With `M = d * N`: `(x / d) * M <= x * N < (x / d + 1) * M`.
proof fn lemma_scaled_floor(x: nat, d: nat, n: nat)
    requires
        d > 0,
        n > 0,
    ensures
        (x / d) * (d * n) <= x * n,
        x * n < (x / d + 1) * (d * n),
{
    let q = x / d;
    vstd::arithmetic::div_mod::lemma_fundamental_div_mod(x as int, d as int);
    assert(q * (d * n) <= x * n && x * n < (q + 1) * (d * n)) by (nonlinear_arith)
        requires
            x == d * q + x % d,
            0 <= x % d < d,
            n > 0,
    ;
}

} // verus!
