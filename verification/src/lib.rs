//! A strongly-typed constant-value algebra over an IR construction engine
//! whose native interface passes every value as one untyped handle.
//!
//! The library models the integer-constant kind: a typed wrapper that owns a
//! non-null handle, a catalogue of named constant-folding operations with
//! exact overflow/signedness semantics (wrap-around, no-signed-wrap,
//! no-unsigned-wrap, exact division), and a narrow capability trait through
//! which generic code can read the raw handle back.

pub mod arith;
pub mod handle;
pub mod laws;
pub mod render;
pub mod traits;
pub mod types;
pub mod values;

pub use handle::{Handle, OverflowTag};
pub use traits::AsValueRef;
pub use types::IntType;
pub use values::{InstructionValue, IntValue};
