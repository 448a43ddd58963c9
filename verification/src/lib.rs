//! Conversion of a JSON description of a document into KDL.
//!
//! The JSON side is a tree of [`json::Json`] values; the KDL side is built
//! with the `kdl` crate. What the conversion produces is stated over the
//! views of both: [`json::JsonView`] and [`document::NodeView`].

pub mod number;
pub mod json;
pub mod value;
pub mod error;
pub mod document;
pub mod entry;
pub mod node;
pub mod convert;
pub mod laws;

pub use convert::{convert, convert_text};
pub use document::Literal;
pub use entry::{classify, entry_to_kdl, Classified};
pub use error::{ClassifyError, ConvertError, ParseError, SchemaError};
pub use json::Json;
pub use node::{build_node, json_to_kdl};
pub use value::{from_value, parse};
