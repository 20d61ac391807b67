//! The values that evaluation produces.

use vstd::prelude::*;

verus! {

/// What a statement or an expression evaluates to.
#[derive(Debug, Clone, Copy, PartialEq, Eq, Structural)]
pub enum Val {
    /// A 32-bit signed integer.
    Number(i32),
    /// The value of a statement that yields nothing, such as a binding.
    Unit,
}

} // verus!
