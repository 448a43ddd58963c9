use vstd::prelude::*;

verus! {

/// Why a JSON value is not the description of a document.
#[derive(Debug, Clone, Copy, PartialEq, Eq, Structural)]
pub enum SchemaError {
    /// The description of a document, or of a node's children, is not an array.
    RootNotArray,
    /// A node has no `name`, or its `name` is not a string.
    MissingName,
    /// A node's `arguments` is not an array.
    BadArguments,
    /// A node's `properties` is not an object.
    BadProperties,
    /// A node's `type` is neither a string nor null.
    BadNodeType,
}

/// Why a JSON value is not the description of a single entry.
#[derive(Debug, Clone, Copy, PartialEq, Eq, Structural)]
pub enum ClassifyError {
    /// The value is an array, or an object that wraps no scalar.
    NotALiteral,
    /// The value is a whole number that fits neither in 64 signed bits nor
    /// exactly in a double.
    NumericRange,
}

/// Why a text is not JSON.
#[derive(Debug)]
pub struct ParseError {
    /// What `serde_json` says of the text.
    pub cause: serde_json::Error,
}

/// Why a text could not be converted.
#[derive(Debug)]
pub enum ConvertError {
    /// The text is not JSON.
    Parse(ParseError),
    /// The JSON value does not describe a document.
    Schema(SchemaError),
}

impl SchemaError {
    pub open spec fn message_spec(self) -> Seq<char> {
        match self {
            SchemaError::RootNotArray => "Document root must be a JSON array"@,
            SchemaError::MissingName => "`name` must exist and be a String"@,
            SchemaError::BadArguments => "`arguments` must be an Array"@,
            SchemaError::BadProperties => "`properties` must be an Object"@,
            SchemaError::BadNodeType => "`type` must be a String"@,
        }
    }

    /// The diagnostic to show for this error.
    pub fn message(&self) -> (s: &'static str)
        ensures
            s@ == self.message_spec(),
    {
        match self {
            SchemaError::RootNotArray => "Document root must be a JSON array",
            SchemaError::MissingName => "`name` must exist and be a String",
            SchemaError::BadArguments => "`arguments` must be an Array",
            SchemaError::BadProperties => "`properties` must be an Object",
            SchemaError::BadNodeType => "`type` must be a String",
        }
    }
}

impl ClassifyError {
    pub open spec fn message_spec(self) -> Seq<char> {
        match self {
            ClassifyError::NotALiteral => "Type cannot be represented as a KDL value"@,
            ClassifyError::NumericRange => "Number fits neither a 64-bit integer nor a 64-bit float"@,
        }
    }

    /// The diagnostic to show for this error.
    pub fn message(&self) -> (s: &'static str)
        ensures
            s@ == self.message_spec(),
    {
        match self {
            ClassifyError::NotALiteral => "Type cannot be represented as a KDL value",
            ClassifyError::NumericRange => "Number fits neither a 64-bit integer nor a 64-bit float",
        }
    }
}

} // verus!
