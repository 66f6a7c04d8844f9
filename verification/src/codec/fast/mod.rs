//! FAST: templates and the values that their instructions carry.

pub mod errors;
pub mod field_operators;
pub mod template;
