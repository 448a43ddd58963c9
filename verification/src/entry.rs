use vstd::prelude::*;
use crate::document::{
    entry_plain, entry_set_ty, entry_view, new_entry, EntryView, Literal, LiteralView,
};
use crate::error::ClassifyError;
use crate::json::{lookup, Json, JsonView};
use crate::number::{
    double_holds, double_of, number_as_i64, number_as_u64, number_is_float, NumberView,
};

verus! {

/// A classified value: its literal and its optional type annotation.
#[derive(Debug, Clone, Copy, PartialEq)]
pub struct Classified<'a> {
    pub literal: Literal<'a>,
    pub ty: Option<&'a str>,
}

/// The mathematical content of a [`Classified`].
pub struct ClassifiedView {
    pub literal: LiteralView,
    pub ty: Option<Seq<char>>,
}

impl<'a> View for Classified<'a> {
    type V = ClassifiedView;

    open spec fn view(&self) -> ClassifiedView {
        ClassifiedView {
            literal: self.literal@,
            ty: match self.ty {
                Some(t) => Some(t@),
                None => None,
            },
        }
    }
}

/// The annotation that a value carries: the string under `type`, if any.
pub open spec fn annotation_of(raw: JsonView) -> Option<Seq<char>> {
    match lookup(raw, "type"@) {
        Some(JsonView::String(t)) => Some(t),
        _ => None,
    }
}

/// The value to classify: what stands under `value`, or the value itself.
pub open spec fn unwrapped(raw: JsonView) -> JsonView {
    match lookup(raw, "value"@) {
        Some(inner) => inner,
        None => raw,
    }
}

/// The literal that a JSON value stands for, if it is a scalar. A whole
/// number is an integer where it fits in 64 signed bits, else a float where
/// a double holds it exactly; it is refused where neither holds.
pub open spec fn literal_of(v: JsonView) -> Result<LiteralView, ClassifyError> {
    match v {
        JsonView::Null => Ok(LiteralView::Null),
        JsonView::Bool(b) => Ok(LiteralView::Bool(b)),
        JsonView::Number(NumberView::Float(bits)) => Ok(LiteralView::Float(bits)),
        JsonView::Number(NumberView::Integer(i)) => if i64::MIN <= i <= i64::MAX {
            Ok(LiteralView::Integer(i as i64))
        } else if double_holds(i) {
            Ok(LiteralView::Float(double_of(i)))
        } else {
            Err(ClassifyError::NumericRange)
        },
        JsonView::String(s) => Ok(LiteralView::String(s)),
        JsonView::Array(_) => Err(ClassifyError::NotALiteral),
        JsonView::Object(_) => Err(ClassifyError::NotALiteral),
    }
}

/// The classification of a value: the literal of what it wraps, with its
/// annotation.
pub open spec fn classify_spec(raw: JsonView) -> Result<ClassifiedView, ClassifyError> {
    match literal_of(unwrapped(raw)) {
        Ok(literal) => Ok(ClassifiedView { literal, ty: annotation_of(raw) }),
        Err(e) => Err(e),
    }
}

/// The entry that a value describes: an argument with the classified literal
/// and annotation.
pub open spec fn entry_spec(raw: JsonView) -> Result<EntryView, ClassifyError> {
    match classify_spec(raw) {
        Ok(c) => Ok(EntryView { name: None, ty: c.ty, value: c.literal }),
        Err(e) => Err(e),
    }
}

/// Classifies a value: finds the scalar it stands for and the annotation it
/// carries.
pub fn classify<'a>(raw: &'a Json) -> (r: Result<Classified<'a>, ClassifyError>)
    ensures
        match r {
            Ok(c) => classify_spec(raw@) == Ok::<ClassifiedView, ClassifyError>(c@)
                && c.literal.wf(),
            Err(e) => classify_spec(raw@) == Err::<ClassifiedView, ClassifyError>(e),
        },
{
    let ty = match raw.get("type") {
        Some(Json::String(t)) => Some(t.as_str()),
        _ => None,
    };
    let inner = match raw.get("value") {
        Some(v) => v,
        None => raw,
    };
    let literal = match inner {
        Json::Null => Literal::Null,
        Json::Bool(b) => Literal::Bool(*b),
        Json::Number(n) => {
            if number_is_float(n) {
                Literal::Float(n)
            } else {
                match number_as_i64(n) {
                    Some(i) => Literal::Integer(i),
                    None => match number_as_u64(n) {
                        Some(u) => {
                            if u % 2048 == 0 {
                                Literal::Float(n)
                            } else {
                                return Err(ClassifyError::NumericRange);
                            }
                        },
                        None => {
                            return Err(ClassifyError::NumericRange);
                        },
                    },
                }
            }
        },
        Json::String(s) => Literal::String(s.as_str()),
        _ => {
            return Err(ClassifyError::NotALiteral);
        },
    };
    Ok(Classified { literal, ty })
}

/// Builds the entry that a value describes.
pub fn entry_to_kdl(raw: &Json) -> (r: Result<kdl::KdlEntry, ClassifyError>)
    ensures
        match r {
            Ok(e) => entry_spec(raw@) == Ok::<EntryView, ClassifyError>(entry_view(e))
                && entry_plain(e),
            Err(e) => entry_spec(raw@) == Err::<EntryView, ClassifyError>(e),
        },
{
    match classify(raw) {
        Ok(c) => {
            let mut entry = new_entry(&c.literal);
            if let Some(t) = c.ty {
                entry_set_ty(&mut entry, t);
            }
            Ok(entry)
        },
        Err(e) => Err(e),
    }
}

} // verus!
