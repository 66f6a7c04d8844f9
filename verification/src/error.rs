//! Errors reported while a dictionary or a template is built.

use vstd::prelude::*;

verus! {

/// Why a schema document was rejected. The document is rejected as a whole:
/// no partial dictionary or template is handed out.
#[derive(Debug, Clone, PartialEq, Eq)]
pub enum SchemaError {
    /// The document is not well-formed XML, or lacks its root elements.
    BadXml,
    /// A type name outside the closed set of types.
    UnknownType(String),
    /// A reference to a field or component that is defined nowhere.
    UnknownReference(String),
    /// Two fields share a tag.
    DuplicateTag(u32),
    /// Two fields share a name.
    DuplicateName(String),
    /// A required attribute is absent or does not hold a value of its type.
    MissingAttribute(String),
}

/// The mathematical model of a [`SchemaError`].
pub enum SchemaErrorModel {
    BadXml,
    UnknownType(Seq<char>),
    UnknownReference(Seq<char>),
    DuplicateTag(u32),
    DuplicateName(Seq<char>),
    MissingAttribute(Seq<char>),
}

impl View for SchemaError {
    type V = SchemaErrorModel;

    open spec fn view(&self) -> SchemaErrorModel {
        match self {
            SchemaError::BadXml => SchemaErrorModel::BadXml,
            SchemaError::UnknownType(s) => SchemaErrorModel::UnknownType(s@),
            SchemaError::UnknownReference(s) => SchemaErrorModel::UnknownReference(s@),
            SchemaError::DuplicateTag(t) => SchemaErrorModel::DuplicateTag(*t),
            SchemaError::DuplicateName(s) => SchemaErrorModel::DuplicateName(s@),
            SchemaError::MissingAttribute(s) => SchemaErrorModel::MissingAttribute(s@),
        }
    }
}

impl SchemaErrorModel {
    /// A short description of the error.
    pub open spec fn message(self) -> Seq<char> {
        match self {
            SchemaErrorModel::BadXml => "the document is not well-formed"@,
            SchemaErrorModel::UnknownType(_) => "unknown type"@,
            SchemaErrorModel::UnknownReference(_) => "unknown reference"@,
            SchemaErrorModel::DuplicateTag(_) => "duplicate tag"@,
            SchemaErrorModel::DuplicateName(_) => "duplicate name"@,
            SchemaErrorModel::MissingAttribute(_) => "missing attribute"@,
        }
    }
}

impl SchemaError {
    /// A short description of the error.
    pub fn message(&self) -> (r: &'static str)
        ensures
            r@ == self@.message(),
    {
        match self {
            SchemaError::BadXml => "the document is not well-formed",
            SchemaError::UnknownType(_) => "unknown type",
            SchemaError::UnknownReference(_) => "unknown reference",
            SchemaError::DuplicateTag(_) => "duplicate tag",
            SchemaError::DuplicateName(_) => "duplicate name",
            SchemaError::MissingAttribute(_) => "missing attribute",
        }
    }
}

} // verus!
