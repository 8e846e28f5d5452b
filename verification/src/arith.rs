//! The arithmetic model of fixed-width integer constants.
//!
//! A constant of width `w` (1 to 64) is stored as a zero-extended bit
//! pattern in a `u64`. This module defines the mathematical meaning of
//! such patterns (unsigned and two's-complement readings, wrap-around
//! encoding) together with the verified executable helpers the folding
//! operations are built from.

use vstd::prelude::*;
use vstd::arithmetic::power2::{
    pow2, lemma_pow2_pos, lemma_pow2_unfold, lemma_pow2_adds, lemma_pow2_strictly_increases,
    lemma2_to64, lemma2_to64_rest,
};
use vstd::arithmetic::div_mod::{
    lemma_mod_division_less_than_divisor, lemma_mod_add_multiples_vanish,
    lemma_mod_sub_multiples_vanish, lemma_small_mod, lemma_fundamental_div_mod,
    lemma_mul_mod_noop_general, lemma_mod_multiples_vanish,
};
use vstd::bits::{lemma_u64_pow2_no_overflow, lemma_u64_shl_is_mul};

verus! {

/// Bit widths this layer of the engine supports.
pub open spec fn width_ok(w: u32) -> bool {
    1 <= w <= 64
}

/// The number of bit patterns of width `w`, that is 2^w.
pub open spec fn modulus(w: u32) -> nat {
    pow2(w as nat)
}

/// 2^(w-1): the magnitude of the most negative signed value of width `w`.
pub open spec fn half_modulus(w: u32) -> nat {
    pow2((w - 1) as nat)
}

/// A stored bit pattern is kept zero-extended: it lies below 2^w.
pub open spec fn fits(w: u32, bits: u64) -> bool {
    (bits as nat) < modulus(w)
}

/// The two's-complement reading of a bit pattern of width `w`.
pub open spec fn signed_value(w: u32, bits: u64) -> int {
    if (bits as nat) < half_modulus(w) {
        bits as int
    } else {
        bits - modulus(w)
    }
}

/// Encode a mathematical integer as the bit pattern of width `w` it wraps to.
pub open spec fn encode(w: u32, v: int) -> u64 {
    (v % (modulus(w) as int)) as u64
}

/// Whether `v` is representable as a signed value of width `w`.
pub open spec fn in_signed_range(w: u32, v: int) -> bool {
    -(half_modulus(w) as int) <= v < half_modulus(w) as int
}

pub open spec fn abs_val(v: int) -> int {
    if v < 0 {
        -v
    } else {
        v
    }
}

/// Signed division truncating toward zero, as the engine's division
/// instruction defines it.
pub open spec fn truncated_div(a: int, b: int) -> int {
    if (a < 0) == (b < 0) {
        abs_val(a) / abs_val(b)
    } else {
        -(abs_val(a) / abs_val(b))
    }
}

/// The remainder matching `truncated_div`: it carries the dividend's sign.
pub open spec fn truncated_rem(a: int, b: int) -> int {
    a - b * truncated_div(a, b)
}

/// The result of the wrap-around addition of two patterns of width `w`.
pub open spec fn wrap_add(w: u32, a: u64, b: u64) -> u64 {
    encode(w, a + b)
}

/// The result of the wrap-around subtraction of two patterns of width `w`.
pub open spec fn wrap_sub(w: u32, a: u64, b: u64) -> u64 {
    encode(w, a - b)
}

/// The result of the wrap-around multiplication of two patterns of width `w`.
pub open spec fn wrap_mul(w: u32, a: u64, b: u64) -> u64 {
    encode(w, a * b)
}

/// The result of the wrap-around negation of a pattern of width `w`.
pub open spec fn wrap_neg(w: u32, a: u64) -> u64 {
    encode(w, -(a as int))
}

/// The bit pattern a cast to width `wt` produces: the source pattern is
/// read signed or unsigned as the flag says, then wrapped into the
/// target width. Narrowing therefore truncates regardless of the flag.
pub open spec fn cast_bits(w: u32, bits: u64, wt: u32, is_signed: bool) -> u64 {
    if is_signed {
        encode(wt, signed_value(w, bits))
    } else {
        encode(wt, bits as int)
    }
}

/// Basic facts about the modulus of a well-formed width.
pub proof fn lemma_modulus_bounds(w: u32)
    requires
        width_ok(w),
    ensures
        modulus(w) == 2 * half_modulus(w),
        1 <= half_modulus(w) <= 0x8000000000000000,
        2 <= modulus(w) <= 0x10000000000000000,
        w == 64 ==> modulus(w) == 0x10000000000000000,
{
    lemma_pow2_unfold(w as nat);
    lemma_pow2_pos((w - 1) as nat);
    lemma2_to64();
    lemma2_to64_rest();
    if w < 64 {
        lemma_pow2_strictly_increases(w as nat, 64);
    }
    if w - 1 < 63 {
        lemma_pow2_strictly_increases((w - 1) as nat, 63);
    }
}

/// Encoding always lands inside the width, and agrees with the
/// mathematical remainder.
pub proof fn lemma_encode_bounds(w: u32, v: int)
    requires
        width_ok(w),
    ensures
        fits(w, encode(w, v)),
        encode(w, v) as int == v % (modulus(w) as int),
{
    lemma_modulus_bounds(w);
    lemma_mod_division_less_than_divisor(v, modulus(w) as int);
}

/// A pattern that already fits encodes to itself.
pub proof fn lemma_encode_of_fitting(w: u32, bits: u64)
    requires
        width_ok(w),
        fits(w, bits),
    ensures
        encode(w, bits as int) == bits,
{
    lemma_modulus_bounds(w);
    lemma_small_mod(bits as nat, modulus(w));
}

/// Shifting the encoded integer by the modulus does not change the pattern.
pub proof fn lemma_encode_shift(w: u32, v: int)
    requires
        width_ok(w),
    ensures
        encode(w, v + modulus(w)) == encode(w, v),
        encode(w, v - modulus(w)) == encode(w, v),
{
    lemma_modulus_bounds(w);
    lemma_mod_add_multiples_vanish(v, modulus(w) as int);
    lemma_mod_sub_multiples_vanish(v, modulus(w) as int);
}

/// Encoding a value in signed range and reading the pattern back as
/// signed returns the value: the two's-complement round trip.
pub proof fn lemma_encode_signed(w: u32, v: int)
    requires
        width_ok(w),
        in_signed_range(w, v),
    ensures
        fits(w, encode(w, v)),
        signed_value(w, encode(w, v)) == v,
{
    lemma_modulus_bounds(w);
    lemma_encode_bounds(w, v);
    if v >= 0 {
        lemma_small_mod(v as nat, modulus(w));
    } else {
        lemma_mod_add_multiples_vanish(v, modulus(w) as int);
        lemma_small_mod((v + modulus(w)) as nat, modulus(w));
        assert((v + modulus(w)) as nat >= half_modulus(w));
    }
}

/// The signed reading of a fitting pattern is in signed range, is
/// congruent to the pattern, and encodes back to the pattern.
pub proof fn lemma_signed_value_bounds(w: u32, bits: u64)
    requires
        width_ok(w),
        fits(w, bits),
    ensures
        in_signed_range(w, signed_value(w, bits)),
        encode(w, signed_value(w, bits)) == bits,
        (signed_value(w, bits) < 0) == ((bits as nat) >= half_modulus(w)),
        abs_val(signed_value(w, bits)) <= half_modulus(w),
{
    lemma_modulus_bounds(w);
    if (bits as nat) < half_modulus(w) {
        lemma_small_mod(bits as nat, modulus(w));
    } else {
        lemma_mod_add_multiples_vanish(bits - modulus(w), modulus(w) as int);
        lemma_small_mod(bits as nat, modulus(w));
    }
}

/// Operands that are congruent modulo the width produce the same
/// wrapped sum, difference, product and negation; in particular the
/// unsigned and the signed readings of the same patterns do.
pub proof fn lemma_encode_signed_ops(w: u32, a: u64, b: u64)
    requires
        width_ok(w),
        fits(w, a),
        fits(w, b),
    ensures
        encode(w, signed_value(w, a) + signed_value(w, b)) == wrap_add(w, a, b),
        encode(w, signed_value(w, a) - signed_value(w, b)) == wrap_sub(w, a, b),
        encode(w, signed_value(w, a) * signed_value(w, b)) == wrap_mul(w, a, b),
        encode(w, -signed_value(w, a)) == wrap_neg(w, a),
{
    lemma_modulus_bounds(w);
    let m = modulus(w) as int;
    let sa = signed_value(w, a);
    let sb = signed_value(w, b);
    // additive cases: the signed sums differ from the unsigned ones by 0, m or 2m
    if sa != a as int {
        lemma_encode_shift(w, sa + sb);
        lemma_encode_shift(w, sa - sb);
        lemma_encode_shift(w, -(a as int));
    }
    if sb != b as int {
        lemma_encode_shift(w, a + sb);
        lemma_encode_shift(w, sa - b);
    }
    assert(encode(w, sa + sb) == wrap_add(w, a, b));
    assert(encode(w, sa - sb) == wrap_sub(w, a, b));
    assert(encode(w, -sa) == wrap_neg(w, a));
    // multiplicative case: reduce both factors modulo m first
    lemma_mod_sub_multiples_vanish(a as int, m);
    lemma_mod_sub_multiples_vanish(b as int, m);
    lemma_small_mod(a as nat, modulus(w));
    lemma_small_mod(b as nat, modulus(w));
    assert(sa % m == a as int % m);
    assert(sb % m == b as int % m);
    lemma_mul_mod_noop_general(sa, sb, m);
    lemma_mul_mod_noop_general(a as int, b as int, m);
    assert((sa * sb) % m == ((sa % m) * (sb % m)) % m);
    assert((a as int * b as int) % m == ((a as int % m) * (b as int % m)) % m);
}

/// The executable modulus: 2^w as a `u128`.
pub(crate) fn modulus_exec(w: u32) -> (m: u128)
    requires
        w <= 64,
    ensures
        m == pow2(w as nat),
{
    let mut i: u32 = 0;
    let mut acc: u128 = 1;
    proof {
        lemma2_to64();
    }
    while i < w
        invariant
            i <= w <= 64,
            acc == pow2(i as nat),
        decreases w - i,
    {
        proof {
            if (i as nat) < 63 {
                lemma_pow2_strictly_increases(i as nat, 63);
            }
            lemma2_to64_rest();
            lemma_pow2_unfold((i + 1) as nat);
        }
        acc = acc * 2;
        i = i + 1;
    }
    acc
}

/// Reduce a non-negative intermediate result into width `w`.
pub(crate) fn reduce(w: u32, x: u128) -> (r: u64)
    requires
        width_ok(w),
    ensures
        fits(w, r),
        r == encode(w, x as int),
{
    let m = modulus_exec(w);
    proof {
        lemma_modulus_bounds(w);
        lemma_mod_division_less_than_divisor(x as int, m as int);
    }
    (x % m) as u64
}

/// 2^(w-1) as a `u64`.
pub(crate) fn half_modulus_exec(w: u32) -> (h: u64)
    requires
        width_ok(w),
    ensures
        h == half_modulus(w),
{
    proof {
        lemma_modulus_bounds(w);
    }
    modulus_exec(w - 1) as u64
}

/// Split a fitting pattern into its sign and magnitude.
pub(crate) fn signed_parts(w: u32, bits: u64) -> (p: (bool, u64))
    requires
        width_ok(w),
        fits(w, bits),
    ensures
        p.0 == (signed_value(w, bits) < 0),
        p.1 as int == abs_val(signed_value(w, bits)),
        p.0 ==> 1 <= p.1 as nat <= half_modulus(w),
        !p.0 ==> (p.1 as nat) < half_modulus(w) && p.1 == bits,
{
    proof {
        lemma_modulus_bounds(w);
        lemma_signed_value_bounds(w, bits);
    }
    let h = half_modulus_exec(w);
    if bits < h {
        (false, bits)
    } else {
        let m = modulus_exec(w);
        (true, (m - bits as u128) as u64)
    }
}

/// Rebuild the pattern of a signed value given as sign and magnitude.
pub(crate) fn from_signed(w: u32, neg: bool, mag: u64) -> (r: u64)
    requires
        width_ok(w),
        neg ==> mag as nat <= half_modulus(w),
        !neg ==> (mag as nat) < half_modulus(w),
    ensures
        fits(w, r),
        r == encode(w, if neg { -(mag as int) } else { mag as int }),
        signed_value(w, r) == if neg { -(mag as int) } else { mag as int },
{
    proof {
        lemma_modulus_bounds(w);
        lemma_encode_signed(w, if neg { -(mag as int) } else { mag as int });
    }
    if !neg || mag == 0 {
        proof {
            lemma_small_mod(mag as nat, modulus(w));
        }
        mag
    } else {
        let m = modulus_exec(w);
        proof {
            lemma_mod_add_multiples_vanish(-(mag as int), m as int);
            lemma_small_mod((m - mag as int) as nat, modulus(w));
        }
        (m - mag as u128) as u64
    }
}

/// A value already inside the width encodes to itself.
pub proof fn lemma_encode_small(w: u32, v: int)
    requires
        width_ok(w),
        0 <= v < modulus(w),
    ensures
        encode(w, v) as int == v,
{
    lemma_modulus_bounds(w);
    lemma_small_mod(v as nat, modulus(w));
}

/// The executable wrap-around subtraction of two fitting patterns.
pub(crate) fn fold_sub(w: u32, a: u64, b: u64) -> (r: u64)
    requires
        width_ok(w),
        fits(w, a),
        fits(w, b),
    ensures
        fits(w, r),
        r == wrap_sub(w, a, b),
{
    let m = modulus_exec(w);
    proof {
        lemma_modulus_bounds(w);
        lemma_mod_add_multiples_vanish(a - b, m as int);
        lemma_mod_division_less_than_divisor(a - b, m as int);
    }
    let s: u128 = a as u128 + (m - b as u128);
    (s % m) as u64
}

/// The all-ones mask of width `w`: 2^w - 1.
pub(crate) fn mask_exec(w: u32) -> (m: u64)
    requires
        width_ok(w),
    ensures
        m as nat == modulus(w) - 1,
        w < 64 ==> m == (1u64 << (w as u64)) - 1,
{
    proof {
        lemma_modulus_bounds(w);
        lemma2_to64();
        lemma2_to64_rest();
    }
    if w == 64 {
        u64::MAX
    } else {
        let sh: u64 = w as u64;
        proof {
            lemma_u64_pow2_no_overflow(w as nat);
            lemma_u64_shl_is_mul(1u64, sh);
        }
        (1u64 << sh) - 1
    }
}

/// Bitwise combinations of patterns below an all-low-bits mask stay
/// below it, and complement within the mask is subtraction from it.
pub proof fn lemma_bitops_mask(a: u64, b: u64, m: u64, sh: u64)
    by (bit_vector)
    requires
        sh < 64,
        m == (1u64 << sh) - 1,
        a <= m,
        b <= m,
    ensures
        (a & b) <= m,
        (a | b) <= m,
        (a ^ b) <= m,
        (m - a) == (a ^ m),
{
}

/// Exclusive or of a pattern with itself clears every bit.
pub proof fn lemma_xor_self(a: u64)
    by (bit_vector)
    ensures
        (a ^ a) == 0,
{
}

/// Complement within the full 64-bit mask is subtraction from it.
pub proof fn lemma_not_full(a: u64)
    by (bit_vector)
    ensures
        (u64::MAX - a) == (a ^ u64::MAX),
{
}

/// The truncating remainder in sign-and-magnitude form: it has the
/// dividend's sign and the magnitude of the unsigned remainder.
pub proof fn lemma_truncated_rem_magnitude(a: int, b: int)
    requires
        b != 0,
    ensures
        truncated_rem(a, b) == if a < 0 {
            -(abs_val(a) % abs_val(b))
        } else {
            abs_val(a) % abs_val(b)
        },
{
    let ma = abs_val(a);
    let mb = abs_val(b);
    lemma_fundamental_div_mod(ma, mb);
    let q = ma / mb;
    let r = ma % mb;
    if a >= 0 && b > 0 {
        assert(a - b * q == r) by (nonlinear_arith)
            requires
                a == ma,
                b == mb,
                ma == mb * q + r,
        ;
    } else if a >= 0 && b < 0 {
        assert(a - b * (-q) == r) by (nonlinear_arith)
            requires
                a == ma,
                b == -mb,
                ma == mb * q + r,
        ;
    } else if a < 0 && b > 0 {
        assert(a - b * (-q) == -r) by (nonlinear_arith)
            requires
                a == -ma,
                b == mb,
                ma == mb * q + r,
        ;
    } else {
        assert(a - b * q == -r) by (nonlinear_arith)
            requires
                a == -ma,
                b == -mb,
                ma == mb * q + r,
        ;
    }
}

/// Narrowing reads the same pattern whether the source is taken signed
/// or unsigned: truncation ignores the signedness flag.
pub proof fn lemma_cast_narrow(w: u32, bits: u64, wt: u32)
    requires
        width_ok(w),
        width_ok(wt),
        wt <= w,
        fits(w, bits),
    ensures
        encode(wt, signed_value(w, bits)) == encode(wt, bits as int),
{
    lemma_modulus_bounds(w);
    lemma_modulus_bounds(wt);
    if (bits as nat) >= half_modulus(w) {
        lemma_pow2_adds(wt as nat, (w - wt) as nat);
        let k = pow2((w - wt) as nat) as int;
        let mt = modulus(wt) as int;
        assert(modulus(w) as int == mt * k);
        lemma_mod_multiples_vanish(-k, bits as int, mt);
        assert(mt * -k + bits == bits - modulus(w)) by (nonlinear_arith)
            requires
                modulus(w) as int == mt * k,
        ;
    }
}

/// The executable integer cast: truncate to a smaller width, or extend
/// to a larger one, sign-extending exactly when the flag says so.
pub(crate) fn cast_exec(w: u32, bits: u64, wt: u32, is_signed: bool) -> (r: u64)
    requires
        width_ok(w),
        width_ok(wt),
        fits(w, bits),
    ensures
        fits(wt, r),
        r == cast_bits(w, bits, wt, is_signed),
        wt >= w && is_signed ==> signed_value(wt, r) == signed_value(w, bits),
        wt >= w && !is_signed ==> r == bits,
        wt <= w ==> r as nat == (bits as nat) % modulus(wt),
{
    proof {
        lemma_modulus_bounds(w);
        lemma_modulus_bounds(wt);
    }
    if wt <= w {
        let r = reduce(wt, bits as u128);
        proof {
            lemma_cast_narrow(w, bits, wt);
            lemma_encode_bounds(wt, bits as int);
            if wt == w {
                lemma_small_mod(bits as nat, modulus(w));
            }
        }
        r
    } else if !is_signed {
        proof {
            lemma_pow2_strictly_increases(w as nat, wt as nat);
            lemma_small_mod(bits as nat, modulus(wt));
        }
        bits
    } else {
        let (neg, mag) = signed_parts(w, bits);
        proof {
            lemma_pow2_strictly_increases((w - 1) as nat, (wt - 1) as nat);
            lemma_signed_value_bounds(w, bits);
        }
        from_signed(wt, neg, mag)
    }
}

} // verus!

