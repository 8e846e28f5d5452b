//! The capability interface generic code uses to reach a wrapper's
//! raw handle.
//!
//! Generic algorithms (printing, instruction building, type queries)
//! are written against this one narrow trait instead of against each
//! concrete wrapper type; end users of the wrappers never touch the
//! handle themselves.

use vstd::prelude::*;
use crate::handle::Handle;

verus! {

/// The one capability every typed value wrapper offers: answer "give
/// me your raw handle".
pub trait AsValueRef {
    /// The handle the wrapper holds.
    spec fn raw_handle(&self) -> Handle;

    /// Hand the raw handle out, exactly as stored.
    fn as_value_ref(&self) -> (h: Handle)
        ensures
            h == self.raw_handle(),
    ;
}

} // verus!
