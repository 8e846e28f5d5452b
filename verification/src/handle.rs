//! The model of the engine's untyped native handle.
//!
//! The native interface passes every value as one opaque,
//! reference-like handle. The engine interns constants by value, so a
//! handle to an integer constant is identified by the record it refers
//! to: the bit width, the zero-extended bit pattern, and the overflow
//! attribute the producing fold recorded. The null handle refers to
//! nothing; no wrapper may ever hold it.

use vstd::prelude::*;
use crate::arith::{width_ok, fits};

verus! {

/// The overflow attribute a folding operation records on the constant
/// it produces. The engine encodes wrap-around, no-signed-wrap and
/// no-unsigned-wrap as distinct instruction attributes, so the record
/// keeps them apart; the attribute is part of the record a handle
/// refers to and shows in the printed form.
#[derive(Clone, Copy, Debug, PartialEq, Eq, Structural)]
pub enum OverflowTag {
    Plain,
    NoSignedWrap,
    NoUnsignedWrap,
}

/// An untyped native handle: null, or a reference to an interned
/// integer constant, identified by the record it refers to.
#[derive(Clone, Copy, Debug, PartialEq, Eq, Structural)]
pub enum Handle {
    Null,
    IntConstant { width: u32, bits: u64, tag: OverflowTag },
}

impl Handle {
    /// A handle fit for an integer-value wrapper: non-null, of a
    /// supported width, with its pattern stored zero-extended.
    pub open spec fn int_constant_wf(self) -> bool {
        match self {
            Handle::IntConstant { width, bits, .. } => width_ok(width) && fits(width, bits),
            Handle::Null => false,
        }
    }

    pub open spec fn spec_width(self) -> u32 {
        match self {
            Handle::IntConstant { width, .. } => width,
            Handle::Null => 0,
        }
    }

    pub open spec fn spec_bits(self) -> u64 {
        match self {
            Handle::IntConstant { bits, .. } => bits,
            Handle::Null => 0,
        }
    }

    pub open spec fn spec_tag(self) -> OverflowTag {
        match self {
            Handle::IntConstant { tag, .. } => tag,
            Handle::Null => OverflowTag::Plain,
        }
    }

    /// Two handles refer to structurally equal constants: same width
    /// and same bit pattern, whatever attribute their folds recorded.
    /// Wrapper equality is stricter: it compares the handles whole,
    /// attribute included.
    pub open spec fn same_constant(self, other: Handle) -> bool {
        self.spec_width() == other.spec_width() && self.spec_bits() == other.spec_bits()
    }
}

} // verus!
