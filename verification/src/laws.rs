//! The general laws of the folding algebra, stated over the same spec
//! functions the operations' contracts use and proved once for every
//! operand the contracts admit.

use vstd::prelude::*;
use vstd::arithmetic::power2::lemma_pow2_strictly_increases;
use crate::arith::{
    width_ok, fits, modulus, signed_value, encode, cast_bits, truncated_div, truncated_rem,
    wrap_add, wrap_neg, lemma_modulus_bounds, lemma_encode_shift, lemma_encode_small,
    lemma_encode_signed, lemma_signed_value_bounds, lemma_xor_self,
};

verus! {

/// Double negation is the identity under wrap-around semantics:
/// negating any fitting pattern twice returns the pattern.
pub proof fn lemma_double_wrap_neg(w: u32, a: u64)
    requires
        width_ok(w),
        fits(w, a),
    ensures
        wrap_neg(w, wrap_neg(w, a)) == a,
{
    lemma_modulus_bounds(w);
    if a == 0 {
        lemma_encode_small(w, 0);
    } else {
        lemma_encode_shift(w, -(a as int));
        lemma_encode_small(w, modulus(w) - a);
        assert(wrap_neg(w, a) as nat == modulus(w) - a);
        lemma_encode_shift(w, -((modulus(w) - a) as int));
        lemma_encode_small(w, a as int);
    }
}

/// Wrap-around addition is commutative: folding `a + b` and `b + a`
/// produces the same constant.
pub proof fn lemma_wrap_add_commutes(w: u32, a: u64, b: u64)
    ensures
        wrap_add(w, a, b) == wrap_add(w, b, a),
{
}

/// Exclusive or of a pattern with itself is the zero constant of its
/// width.
pub proof fn lemma_xor_self_is_zero(w: u32, a: u64)
    requires
        width_ok(w),
        fits(w, a),
    ensures
        (a ^ a) == 0,
        (a ^ a) == encode(w, 0),
{
    lemma_xor_self(a);
    lemma_encode_small(w, 0);
}

/// A widening cast preserves the value it was asked to preserve: with
/// the signed flag it keeps the signed reading (sign-extension), and
/// without it it keeps the pattern (zero-extension).
pub proof fn lemma_cast_widen(w: u32, bits: u64, wt: u32)
    requires
        width_ok(w),
        width_ok(wt),
        w <= wt,
        fits(w, bits),
    ensures
        signed_value(wt, cast_bits(w, bits, wt, true)) == signed_value(w, bits),
        cast_bits(w, bits, wt, false) == bits,
{
    lemma_modulus_bounds(w);
    lemma_modulus_bounds(wt);
    lemma_signed_value_bounds(w, bits);
    if w < wt {
        lemma_pow2_strictly_increases((w - 1) as nat, (wt - 1) as nat);
        lemma_pow2_strictly_increases(w as nat, wt as nat);
    }
    lemma_encode_signed(wt, signed_value(w, bits));
    lemma_encode_small(wt, bits as int);
}

/// Exactness of exact division: when the divisor evenly divides the
/// dividend, the truncated quotient recovers the dividend, so the
/// exact and the plain signed division agree and discard nothing.
pub proof fn lemma_exact_division_recovers(a: int, b: int)
    requires
        b != 0,
        truncated_rem(a, b) == 0,
    ensures
        b * truncated_div(a, b) == a,
{
}

} // verus!
