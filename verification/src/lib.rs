//! FIX protocol codecs driven by a versioned dictionary.
//!
//! A [`Dictionary`] is the schema of one protocol version. The codecs under
//! [`codec`] use it to pass between wire bytes and the [`message::Message`]
//! model, which knows nothing of any schema.

pub mod codec;
pub mod dictionary;
pub mod error;
pub mod json;
pub mod message;
pub mod quickfix;
pub mod text;
pub mod version;
pub mod xml;

pub use dictionary::Dictionary;
pub use version::Version;
