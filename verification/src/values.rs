//! The typed integer-value wrapper and its constant-folding operations.
//!
//! A wrapper owns one non-null handle to an interned integer constant.
//! Every operation is a pure function of its operands: it folds the
//! constant at the model's width, wraps the resulting handle into a new
//! wrapper, and records which overflow discipline the operation claimed.
//! Operand widths must match, and the no-wrap and exact variants demand
//! that no overflow (or no discarded remainder) occurs: in the native
//! engine those misuses are undefined behaviour caught at best by a late
//! assertion, so here they are preconditions discharged by proof.

use vstd::prelude::*;
use crate::arith::{
    width_ok, fits, modulus, half_modulus, signed_value, encode, in_signed_range,
    wrap_add, wrap_sub, wrap_mul, wrap_neg, cast_bits, truncated_div, truncated_rem,
    lemma_modulus_bounds, lemma_encode_signed, lemma_encode_signed_ops, lemma_signed_value_bounds,
    lemma_bitops_mask, lemma_not_full, lemma_truncated_rem_magnitude, lemma_encode_small,
    reduce, signed_parts, from_signed, cast_exec, mask_exec, fold_sub,
};
use crate::handle::{Handle, OverflowTag};
use crate::render::{render, rendered};
use crate::traits::AsValueRef;
use crate::types::IntType;
use std::io::Write;
use vstd::arithmetic::div_mod::{
    lemma_div_nonincreasing, lemma_div_decreases, lemma_mod_division_less_than_divisor,
};
use vstd::arithmetic::mul::lemma_mul_upper_bound;

verus! {

/// A typed wrapper owning one non-null handle to an integer constant.
///
/// Wrappers are cheap copyable handles with identity, not owners of the
/// constant's storage: the engine's context owns that. Two wrappers are
/// equal exactly when their underlying handles are equal; since the
/// engine interns constants, equal values may share one handle.
#[derive(Clone, Copy, Debug)]
pub struct IntValue {
    handle: Handle,
}

/// A view of a value as an instruction. The constants this layer folds
/// are never instruction results, so it only ever passes such views
/// through; it cannot create one.
#[derive(Clone, Copy, Debug)]
pub struct InstructionValue {
    handle: Handle,
}

impl AsValueRef for InstructionValue {
    closed spec fn raw_handle(&self) -> Handle {
        self.handle
    }

    fn as_value_ref(&self) -> (h: Handle) {
        self.handle
    }
}

impl AsValueRef for IntValue {
    closed spec fn raw_handle(&self) -> Handle {
        self.handle
    }

    fn as_value_ref(&self) -> (h: Handle) {
        self.handle
    }
}

impl IntValue {
    #[verifier::type_invariant]
    spec fn inv(self) -> bool {
        self.handle.int_constant_wf()
    }

    /// The raw handle this wrapper owns.
    pub open spec fn raw(self) -> Handle {
        self.raw_handle()
    }

    pub open spec fn width(self) -> u32 {
        self.raw().spec_width()
    }

    pub open spec fn bits(self) -> u64 {
        self.raw().spec_bits()
    }

    pub open spec fn tag(self) -> OverflowTag {
        self.raw().spec_tag()
    }

    /// The two's-complement reading of this constant.
    pub open spec fn signed_val(self) -> int {
        signed_value(self.width(), self.bits())
    }

    /// The spec-level image of `new`.
    pub closed spec fn wrapped(handle: Handle) -> IntValue {
        IntValue { handle }
    }

    /// Wrap a handle obtained from the engine.
    ///
    /// Constructing a wrapper from the null handle, or from a malformed
    /// record, is a caller error, not a recoverable condition: the
    /// native layer asserts on it, and here the assertion has become
    /// the precondition, so no usable wrapper over a null handle can
    /// ever exist.
    pub fn new(handle: Handle) -> (v: IntValue)
        requires
            handle.int_constant_wf(),
        ensures
            v == IntValue::wrapped(handle),
            v.raw() == handle,
    {
        IntValue { handle }
    }

    /// Wrapping a well-formed non-null handle and reading it back
    /// through the capability interface returns the very handle:
    /// the round-trip identity of `new` and `as_value_ref`.
    pub proof fn lemma_wrap_round_trip(handle: Handle)
        requires
            handle.int_constant_wf(),
        ensures
            IntValue::wrapped(handle).raw() == handle,
    {
    }

    /// The width, pattern and attribute behind the handle.
    fn raw_parts(&self) -> (p: (u32, u64, OverflowTag))
        ensures
            p.0 == self.width(),
            p.1 == self.bits(),
            p.2 == self.tag(),
            width_ok(p.0),
            fits(p.0, p.1),
    {
        proof {
            use_type_invariant(&*self);
        }
        match self.handle {
            Handle::IntConstant { width, bits, tag } => (width, bits, tag),
            Handle::Null => {
                proof {
                    assert(false);
                }
                (1, 0, OverflowTag::Plain)
            },
        }
    }

    /// A freshly folded constant, wrapped.
    fn make(w: u32, bits: u64, tag: OverflowTag) -> (v: IntValue)
        requires
            width_ok(w),
            fits(w, bits),
        ensures
            v.width() == w,
            v.bits() == bits,
            v.tag() == tag,
    {
        IntValue { handle: Handle::IntConstant { width: w, bits, tag } }
    }

    /// The label of this value. The engine keeps no names on interned
    /// constants, so the label of a pure constant is always empty.
    pub fn get_name(&self) -> (name: String)
        ensures
            name@.len() == 0,
    {
        String::new()
    }

    /// Request a label for this value. The engine drops name requests
    /// on interned constants, so this has no effect on anything this
    /// layer can observe, and none on semantic identity.
    pub fn set_name(&self, _name: &str) {
    }

    /// The integer type of this constant.
    pub fn get_type(&self) -> (t: IntType)
        ensures
            t.width() == self.width(),
    {
        let (w, _, _) = self.raw_parts();
        IntType::new(w)
    }

    /// Whether this constant is the architectural zero of its type.
    pub fn is_null(&self) -> (r: bool)
        ensures
            r == (self.bits() == 0),
    {
        let (_, bits, _) = self.raw_parts();
        bits == 0
    }

    /// Whether this constant is a deliberately unspecified bit pattern.
    /// The folding operations of this layer only ever produce concrete
    /// constants, so the answer is always no.
    pub fn is_undef(&self) -> (r: bool)
        ensures
            !r,
    {
        false
    }

    /// A view of this value as an instruction, if it is one. A folded
    /// constant is never the result of an instruction, so the view is
    /// always empty; callers must branch on it all the same.
    pub fn as_instruction(&self) -> (r: Option<InstructionValue>)
        ensures
            r is None,
    {
        None
    }

    /// The pattern of this constant, zero-extended to 64 bits.
    pub fn get_zero_extended_constant(&self) -> (v: u64)
        ensures
            v == self.bits(),
    {
        let (_, bits, _) = self.raw_parts();
        bits
    }

    /// The printed form of this constant: its type, its signed decimal
    /// value, and the overflow attribute its fold recorded, for
    /// example `i32 13 nsw`. Rendering is one-directional: nothing
    /// parses it back.
    pub fn print_to_string(&self) -> (s: String)
        ensures
            s@ == rendered(self.width(), self.bits(), self.tag()),
    {
        let (w, bits, tag) = self.raw_parts();
        render(w, bits, tag)
    }

    /// Write this constant's printed form to the standard error
    /// stream, for debugging.
    pub fn print_to_stderr(&self) {
        let s = self.print_to_string();
        stderr_line(&s);
    }

    /// Bitwise complement: flips every bit of the pattern.
    pub fn const_not(&self) -> (r: IntValue)
        ensures
            r.width() == self.width(),
            r.tag() == OverflowTag::Plain,
            r.bits() == (self.bits() ^ ((modulus(self.width()) - 1) as u64)),
            r.bits() as nat == modulus(self.width()) - 1 - self.bits(),
    {
        let (w, a, _) = self.raw_parts();
        let m = mask_exec(w);
        proof {
            lemma_modulus_bounds(w);
            if w < 64 {
                lemma_bitops_mask(a, a, m, w as u64);
            } else {
                lemma_not_full(a);
            }
        }
        Self::make(w, m - a, OverflowTag::Plain)
    }

    /// Wrap-around arithmetic negation.
    pub fn const_neg(&self) -> (r: IntValue)
        ensures
            r.width() == self.width(),
            r.tag() == OverflowTag::Plain,
            r.bits() == wrap_neg(self.width(), self.bits()),
    {
        let (w, a, _) = self.raw_parts();
        proof {
            lemma_modulus_bounds(w);
        }
        let folded = fold_sub(w, 0, a);
        Self::make(w, folded, OverflowTag::Plain)
    }

    /// Negation that claims no signed overflow: the operand must not be
    /// the most negative value of its width, and the result is the
    /// exact mathematical negation.
    pub fn const_nsw_neg(&self) -> (r: IntValue)
        requires
            self.signed_val() != -(half_modulus(self.width()) as int),
        ensures
            r.width() == self.width(),
            r.tag() == OverflowTag::NoSignedWrap,
            r.bits() == wrap_neg(self.width(), self.bits()),
            r.signed_val() == -self.signed_val(),
    {
        let (w, a, _) = self.raw_parts();
        let (na, ma) = signed_parts(w, a);
        proof {
            lemma_modulus_bounds(w);
            lemma_signed_value_bounds(w, a);
            lemma_encode_signed_ops(w, a, a);
            lemma_encode_signed(w, -signed_value(w, a));
        }
        let folded = from_signed(w, if ma == 0 { false } else { !na }, ma);
        Self::make(w, folded, OverflowTag::NoSignedWrap)
    }

    /// Negation that claims no unsigned overflow: only the zero pattern
    /// negates without unsigned wrap, so the operand must be zero.
    pub fn const_nuw_neg(&self) -> (r: IntValue)
        requires
            self.bits() == 0,
        ensures
            r.width() == self.width(),
            r.tag() == OverflowTag::NoUnsignedWrap,
            r.bits() == 0,
            r.bits() == wrap_neg(self.width(), self.bits()),
    {
        let (w, _, _) = self.raw_parts();
        proof {
            lemma_modulus_bounds(w);
            lemma_encode_small(w, 0);
        }
        Self::make(w, 0, OverflowTag::NoUnsignedWrap)
    }

    /// Wrap-around addition of two constants of the same width.
    pub fn const_add(&self, rhs: &IntValue) -> (r: IntValue)
        requires
            self.width() == rhs.width(),
        ensures
            r.width() == self.width(),
            r.tag() == OverflowTag::Plain,
            r.bits() == wrap_add(self.width(), self.bits(), rhs.bits()),
    {
        let (w, a, _) = self.raw_parts();
        let (_, b, _) = rhs.raw_parts();
        let folded = reduce(w, a as u128 + b as u128);
        Self::make(w, folded, OverflowTag::Plain)
    }

    /// Addition that claims no signed overflow: the exact signed sum
    /// must be representable, and the result carries it.
    pub fn const_nsw_add(&self, rhs: &IntValue) -> (r: IntValue)
        requires
            self.width() == rhs.width(),
            in_signed_range(self.width(), self.signed_val() + rhs.signed_val()),
        ensures
            r.width() == self.width(),
            r.tag() == OverflowTag::NoSignedWrap,
            r.bits() == wrap_add(self.width(), self.bits(), rhs.bits()),
            r.signed_val() == self.signed_val() + rhs.signed_val(),
    {
        let (w, a, _) = self.raw_parts();
        let (_, b, _) = rhs.raw_parts();
        proof {
            lemma_encode_signed_ops(w, a, b);
            lemma_encode_signed(w, signed_value(w, a) + signed_value(w, b));
        }
        let folded = reduce(w, a as u128 + b as u128);
        Self::make(w, folded, OverflowTag::NoSignedWrap)
    }

    /// Addition that claims no unsigned overflow: the exact unsigned
    /// sum must fit the width, and the result carries it.
    pub fn const_nuw_add(&self, rhs: &IntValue) -> (r: IntValue)
        requires
            self.width() == rhs.width(),
            self.bits() + rhs.bits() < modulus(self.width()),
        ensures
            r.width() == self.width(),
            r.tag() == OverflowTag::NoUnsignedWrap,
            r.bits() == self.bits() + rhs.bits(),
            r.bits() == wrap_add(self.width(), self.bits(), rhs.bits()),
    {
        let (w, a, _) = self.raw_parts();
        let (_, b, _) = rhs.raw_parts();
        proof {
            lemma_modulus_bounds(w);
            lemma_encode_small(w, a + b);
        }
        Self::make(w, a + b, OverflowTag::NoUnsignedWrap)
    }

    /// Wrap-around subtraction of two constants of the same width.
    pub fn const_sub(&self, rhs: &IntValue) -> (r: IntValue)
        requires
            self.width() == rhs.width(),
        ensures
            r.width() == self.width(),
            r.tag() == OverflowTag::Plain,
            r.bits() == wrap_sub(self.width(), self.bits(), rhs.bits()),
    {
        let (w, a, _) = self.raw_parts();
        let (_, b, _) = rhs.raw_parts();
        let folded = fold_sub(w, a, b);
        Self::make(w, folded, OverflowTag::Plain)
    }

    /// Subtraction that claims no signed overflow.
    pub fn const_nsw_sub(&self, rhs: &IntValue) -> (r: IntValue)
        requires
            self.width() == rhs.width(),
            in_signed_range(self.width(), self.signed_val() - rhs.signed_val()),
        ensures
            r.width() == self.width(),
            r.tag() == OverflowTag::NoSignedWrap,
            r.bits() == wrap_sub(self.width(), self.bits(), rhs.bits()),
            r.signed_val() == self.signed_val() - rhs.signed_val(),
    {
        let (w, a, _) = self.raw_parts();
        let (_, b, _) = rhs.raw_parts();
        proof {
            lemma_encode_signed_ops(w, a, b);
            lemma_encode_signed(w, signed_value(w, a) - signed_value(w, b));
        }
        let folded = fold_sub(w, a, b);
        Self::make(w, folded, OverflowTag::NoSignedWrap)
    }

    /// Subtraction that claims no unsigned overflow: the minuend must
    /// not be below the subtrahend, and the result is their difference.
    pub fn const_nuw_sub(&self, rhs: &IntValue) -> (r: IntValue)
        requires
            self.width() == rhs.width(),
            self.bits() >= rhs.bits(),
        ensures
            r.width() == self.width(),
            r.tag() == OverflowTag::NoUnsignedWrap,
            r.bits() == self.bits() - rhs.bits(),
            r.bits() == wrap_sub(self.width(), self.bits(), rhs.bits()),
    {
        let (w, a, _) = self.raw_parts();
        let (_, b, _) = rhs.raw_parts();
        proof {
            lemma_modulus_bounds(w);
            lemma_encode_small(w, a - b);
        }
        Self::make(w, a - b, OverflowTag::NoUnsignedWrap)
    }

    /// Wrap-around multiplication of two constants of the same width.
    pub fn const_mul(&self, rhs: &IntValue) -> (r: IntValue)
        requires
            self.width() == rhs.width(),
        ensures
            r.width() == self.width(),
            r.tag() == OverflowTag::Plain,
            r.bits() == wrap_mul(self.width(), self.bits(), rhs.bits()),
    {
        let (w, a, _) = self.raw_parts();
        let (_, b, _) = rhs.raw_parts();
        proof {
            lemma_mul_upper_bound(a as int, 0xffffffffffffffff, b as int, 0xffffffffffffffff);
        }
        let folded = reduce(w, a as u128 * b as u128);
        Self::make(w, folded, OverflowTag::Plain)
    }

    /// Multiplication that claims no signed overflow.
    pub fn const_nsw_mul(&self, rhs: &IntValue) -> (r: IntValue)
        requires
            self.width() == rhs.width(),
            in_signed_range(self.width(), self.signed_val() * rhs.signed_val()),
        ensures
            r.width() == self.width(),
            r.tag() == OverflowTag::NoSignedWrap,
            r.bits() == wrap_mul(self.width(), self.bits(), rhs.bits()),
            r.signed_val() == self.signed_val() * rhs.signed_val(),
    {
        let (w, a, _) = self.raw_parts();
        let (_, b, _) = rhs.raw_parts();
        proof {
            lemma_mul_upper_bound(a as int, 0xffffffffffffffff, b as int, 0xffffffffffffffff);
            lemma_encode_signed_ops(w, a, b);
            lemma_encode_signed(w, signed_value(w, a) * signed_value(w, b));
        }
        let folded = reduce(w, a as u128 * b as u128);
        Self::make(w, folded, OverflowTag::NoSignedWrap)
    }

    /// Multiplication that claims no unsigned overflow: the exact
    /// unsigned product must fit the width, and the result carries it.
    pub fn const_nuw_mul(&self, rhs: &IntValue) -> (r: IntValue)
        requires
            self.width() == rhs.width(),
            self.bits() * rhs.bits() < modulus(self.width()),
        ensures
            r.width() == self.width(),
            r.tag() == OverflowTag::NoUnsignedWrap,
            r.bits() == self.bits() * rhs.bits(),
            r.bits() == wrap_mul(self.width(), self.bits(), rhs.bits()),
    {
        let (w, a, _) = self.raw_parts();
        let (_, b, _) = rhs.raw_parts();
        proof {
            lemma_modulus_bounds(w);
            lemma_encode_small(w, a * b);
        }
        Self::make(w, a * b, OverflowTag::NoUnsignedWrap)
    }

    /// Unsigned division. The divisor must not be the zero constant:
    /// dividing by it is undefined in the engine.
    pub fn const_unsigned_div(&self, rhs: &IntValue) -> (r: IntValue)
        requires
            self.width() == rhs.width(),
            rhs.bits() != 0,
        ensures
            r.width() == self.width(),
            r.tag() == OverflowTag::Plain,
            r.bits() == self.bits() / rhs.bits(),
    {
        let (w, a, _) = self.raw_parts();
        let (_, b, _) = rhs.raw_parts();
        proof {
            lemma_div_nonincreasing(a as int, b as int);
        }
        Self::make(w, a / b, OverflowTag::Plain)
    }

    /// Unsigned remainder, matching `const_unsigned_div`.
    pub fn const_unsigned_remainder(&self, rhs: &IntValue) -> (r: IntValue)
        requires
            self.width() == rhs.width(),
            rhs.bits() != 0,
        ensures
            r.width() == self.width(),
            r.tag() == OverflowTag::Plain,
            r.bits() == self.bits() % rhs.bits(),
    {
        let (w, a, _) = self.raw_parts();
        let (_, b, _) = rhs.raw_parts();
        proof {
            lemma_mod_division_less_than_divisor(a as int, b as int);
        }
        Self::make(w, a % b, OverflowTag::Plain)
    }

    /// Signed division, truncating toward zero. The divisor must not be
    /// the zero constant, and dividing the most negative value by minus
    /// one is excluded: both are undefined in the engine.
    pub fn const_signed_div(&self, rhs: &IntValue) -> (r: IntValue)
        requires
            self.width() == rhs.width(),
            rhs.bits() != 0,
            !(self.signed_val() == -(half_modulus(self.width()) as int) && rhs.signed_val() == -1),
        ensures
            r.width() == self.width(),
            r.tag() == OverflowTag::Plain,
            r.bits() == encode(self.width(), truncated_div(self.signed_val(), rhs.signed_val())),
            r.signed_val() == truncated_div(self.signed_val(), rhs.signed_val()),
    {
        let (w, a, _) = self.raw_parts();
        let (_, b, _) = rhs.raw_parts();
        let (na, ma) = signed_parts(w, a);
        let (nb, mb) = signed_parts(w, b);
        let q = ma / mb;
        proof {
            lemma_modulus_bounds(w);
            lemma_div_nonincreasing(ma as int, mb as int);
            if q != 0 && na == nb {
                if mb == 1 {
                    // the divisor is one or minus one; the excluded
                    // overflow case is the only way to reach the bound
                    assert(ma < half_modulus(w) || !na);
                } else {
                    lemma_div_decreases(ma as int, mb as int);
                }
            }
        }
        let folded = from_signed(w, if q == 0 { false } else { na != nb }, q);
        Self::make(w, folded, OverflowTag::Plain)
    }

    /// Signed remainder, carrying the dividend's sign and matching
    /// `const_signed_div`. The same operand pairs are excluded.
    pub fn const_signed_remainder(&self, rhs: &IntValue) -> (r: IntValue)
        requires
            self.width() == rhs.width(),
            rhs.bits() != 0,
            !(self.signed_val() == -(half_modulus(self.width()) as int) && rhs.signed_val() == -1),
        ensures
            r.width() == self.width(),
            r.tag() == OverflowTag::Plain,
            r.bits() == encode(self.width(), truncated_rem(self.signed_val(), rhs.signed_val())),
            r.signed_val() == truncated_rem(self.signed_val(), rhs.signed_val()),
    {
        let (w, a, _) = self.raw_parts();
        let (_, b, _) = rhs.raw_parts();
        let (na, ma) = signed_parts(w, a);
        let (nb, mb) = signed_parts(w, b);
        let rm = ma % mb;
        proof {
            lemma_modulus_bounds(w);
            lemma_mod_division_less_than_divisor(ma as int, mb as int);
            lemma_truncated_rem_magnitude(signed_value(w, a), signed_value(w, b));
        }
        let folded = from_signed(w, if rm == 0 { false } else { na }, rm);
        Self::make(w, folded, OverflowTag::Plain)
    }

    /// Exact signed division: beyond the preconditions of
    /// `const_signed_div`, the divisor must divide the dividend with no
    /// remainder; discarding one is undefined in the engine. On the
    /// admitted operands the result is that of `const_signed_div`.
    pub fn const_exact_signed_div(&self, rhs: &IntValue) -> (r: IntValue)
        requires
            self.width() == rhs.width(),
            rhs.bits() != 0,
            !(self.signed_val() == -(half_modulus(self.width()) as int) && rhs.signed_val() == -1),
            truncated_rem(self.signed_val(), rhs.signed_val()) == 0,
        ensures
            r.width() == self.width(),
            r.tag() == OverflowTag::Plain,
            r.bits() == encode(self.width(), truncated_div(self.signed_val(), rhs.signed_val())),
            r.signed_val() == truncated_div(self.signed_val(), rhs.signed_val()),
    {
        self.const_signed_div(rhs)
    }

    /// Bitwise conjunction of two constants of the same width.
    pub fn const_and(&self, rhs: &IntValue) -> (r: IntValue)
        requires
            self.width() == rhs.width(),
        ensures
            r.width() == self.width(),
            r.tag() == OverflowTag::Plain,
            r.bits() == (self.bits() & rhs.bits()),
    {
        let (w, a, _) = self.raw_parts();
        let (_, b, _) = rhs.raw_parts();
        let m = mask_exec(w);
        proof {
            lemma_modulus_bounds(w);
            if w < 64 {
                lemma_bitops_mask(a, b, m, w as u64);
            }
        }
        Self::make(w, a & b, OverflowTag::Plain)
    }

    /// Bitwise disjunction of two constants of the same width.
    pub fn const_or(&self, rhs: &IntValue) -> (r: IntValue)
        requires
            self.width() == rhs.width(),
        ensures
            r.width() == self.width(),
            r.tag() == OverflowTag::Plain,
            r.bits() == (self.bits() | rhs.bits()),
    {
        let (w, a, _) = self.raw_parts();
        let (_, b, _) = rhs.raw_parts();
        let m = mask_exec(w);
        proof {
            lemma_modulus_bounds(w);
            if w < 64 {
                lemma_bitops_mask(a, b, m, w as u64);
            }
        }
        Self::make(w, a | b, OverflowTag::Plain)
    }

    /// Bitwise exclusive or of two constants of the same width.
    pub fn const_xor(&self, rhs: &IntValue) -> (r: IntValue)
        requires
            self.width() == rhs.width(),
        ensures
            r.width() == self.width(),
            r.tag() == OverflowTag::Plain,
            r.bits() == (self.bits() ^ rhs.bits()),
    {
        let (w, a, _) = self.raw_parts();
        let (_, b, _) = rhs.raw_parts();
        let m = mask_exec(w);
        proof {
            lemma_modulus_bounds(w);
            if w < 64 {
                lemma_bitops_mask(a, b, m, w as u64);
            }
        }
        Self::make(w, a ^ b, OverflowTag::Plain)
    }

    /// Cast to another integer type. The pattern is read signed or
    /// unsigned as the flag says: widening sign-extends exactly when
    /// the flag is set, and narrowing truncates regardless of it.
    pub fn const_cast(&self, int_type: &IntType, is_signed: bool) -> (r: IntValue)
        ensures
            r.width() == int_type.width(),
            r.tag() == OverflowTag::Plain,
            r.bits() == cast_bits(self.width(), self.bits(), int_type.width(), is_signed),
            int_type.width() >= self.width() && is_signed ==> r.signed_val() == self.signed_val(),
            int_type.width() >= self.width() && !is_signed ==> r.bits() == self.bits(),
            int_type.width() <= self.width() ==> r.bits() as nat == (self.bits() as nat) % modulus(
                int_type.width(),
            ),
    {
        let (w, a, _) = self.raw_parts();
        let wt = int_type.get_bit_width();
        let folded = cast_exec(w, a, wt, is_signed);
        Self::make(wt, folded, OverflowTag::Plain)
    }
}

/// Relies on std::io::stderr (through writeln): writes one
/// already-rendered line to the standard error stream.
#[verifier::external_body]
fn stderr_line(s: &String) {
    let _ = writeln!(std::io::stderr(), "{}", s);
}

impl PartialEq for IntValue {
    /// Wrapper equality is exactly equality of the underlying handles:
    /// the engine may intern equal constants, so equal values may
    /// share one handle, and two wrappers compare equal precisely when
    /// they hold the same handle. For the looser relation that ignores
    /// the recorded overflow attribute, see `Handle::same_constant`.
    fn eq(&self, other: &IntValue) -> (r: bool) {
        self.handle == other.handle
    }
}

impl vstd::std_specs::cmp::PartialEqSpecImpl for IntValue {
    open spec fn obeys_eq_spec() -> bool {
        true
    }

    open spec fn eq_spec(&self, other: &IntValue) -> bool {
        self.raw() == other.raw()
    }
}

} // verus!
