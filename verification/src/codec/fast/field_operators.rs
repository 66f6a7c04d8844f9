//! The operators that a field instruction may carry.

use vstd::prelude::*;

verus! {

/// How a field is encoded against the previous value of the same field.
#[derive(Debug, Clone, Copy, PartialEq, Eq, Structural)]
pub enum FieldOperatorInstruction {
    Constant,
    Default,
    Copy,
    Increment,
    Delta,
    Tail,
}

} // verus!
