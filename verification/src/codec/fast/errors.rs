//! The errors of FAST.

use crate::error::{SchemaError, SchemaErrorModel};
use vstd::prelude::*;

verus! {

/// An error found in a template, before any message is handled.
#[derive(Debug, Clone, PartialEq, Eq)]
pub enum StaticError {
    /// The template definition does not follow the schema.
    S1(SchemaError),
}

impl View for StaticError {
    type V = SchemaErrorModel;

    open spec fn view(&self) -> SchemaErrorModel {
        match self {
            StaticError::S1(e) => e@,
        }
    }
}

/// An error met while a message is encoded or decoded against a template.
#[derive(Debug, Clone, Copy, PartialEq, Eq, Structural)]
pub enum DynamicError {
    /// The presence map does not fit the template.
    PresenceMapMismatch,
    /// The stream ends in the middle of a field.
    Underflow,
    /// A value does not fit in the type of its field.
    Overflow,
}

} // verus!
