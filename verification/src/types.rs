//! The integer type wrapper: a bit width.
//!
//! Signedness is not part of the type; the operations take it as an
//! explicit argument where it matters.

use vstd::prelude::*;
use crate::arith::{width_ok, fits, encode, lemma_encode_of_fitting, reduce};
use crate::handle::{Handle, OverflowTag};
use crate::values::IntValue;

verus! {

/// An integer type of a fixed bit width between 1 and 64.
#[derive(Clone, Copy, Debug, PartialEq, Eq, Structural)]
pub struct IntType {
    bit_width: u32,
}

impl IntType {
    #[verifier::type_invariant]
    spec fn inv(self) -> bool {
        width_ok(self.bit_width)
    }

    /// The bit width this type describes.
    pub closed spec fn width(self) -> u32 {
        self.bit_width
    }

    /// The integer type of the given width.
    pub fn new(width: u32) -> (t: IntType)
        requires
            width_ok(width),
        ensures
            t.width() == width,
    {
        IntType { bit_width: width }
    }

    pub fn get_bit_width(&self) -> (w: u32)
        ensures
            w == self.width(),
            width_ok(w),
    {
        proof {
            use_type_invariant(&*self);
        }
        self.bit_width
    }

    /// The constant of this type whose pattern is `value` wrapped into
    /// the width.
    pub fn const_int(&self, value: u64) -> (v: IntValue)
        ensures
            v.width() == self.width(),
            v.bits() == encode(self.width(), value as int),
            v.tag() == OverflowTag::Plain,
            fits(self.width(), value) ==> v.bits() == value,
    {
        proof {
            use_type_invariant(&*self);
        }
        let folded = reduce(self.bit_width, value as u128);
        proof {
            if fits(self.width(), value) {
                lemma_encode_of_fitting(self.bit_width, value);
            }
        }
        IntValue::new(Handle::IntConstant { width: self.bit_width, bits: folded, tag: OverflowTag::Plain })
    }
}

} // verus!
