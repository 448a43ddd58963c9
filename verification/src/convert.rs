use vstd::prelude::*;
use crate::document::{document_text, rendered};
use crate::error::{ConvertError, SchemaError};
use crate::json::{Json, JsonView};
use crate::node::{document_spec, json_to_kdl};
use crate::value::{parse, parsed};

verus! {

/// The text of the document that a JSON value describes, as `kdl` writes it.
pub open spec fn text_spec(root: JsonView) -> Result<Seq<char>, SchemaError> {
    match document_spec(root) {
        Ok(nodes) => Ok(rendered(nodes)),
        Err(e) => Err(e),
    }
}

/// Converts the JSON description of a document into KDL text.
pub fn convert(root: &Json) -> (r: Result<String, SchemaError>)
    ensures
        match r {
            Ok(text) => text_spec(root@) == Ok::<Seq<char>, SchemaError>(text@),
            Err(e) => text_spec(root@) == Err::<Seq<char>, SchemaError>(e),
        },
{
    match json_to_kdl(root) {
        Ok(document) => Ok(document_text(&document)),
        Err(e) => Err(e),
    }
}

/// Converts a JSON text that describes a document into KDL text.
pub fn convert_text(text: &str) -> (r: Result<String, ConvertError>)
    ensures
        match r {
            Ok(out) => parsed(text@) matches Some(root) && text_spec(root) == Ok::<
                Seq<char>,
                SchemaError,
            >(out@),
            Err(ConvertError::Parse(_)) => parsed(text@) is None,
            Err(ConvertError::Schema(e)) => parsed(text@) matches Some(root) && text_spec(root)
                == Err::<Seq<char>, SchemaError>(e),
        },
{
    match parse(text) {
        Ok(root) => match convert(&root) {
            Ok(out) => Ok(out),
            Err(e) => Err(ConvertError::Schema(e)),
        },
        Err(e) => Err(ConvertError::Parse(e)),
    }
}

} // verus!
