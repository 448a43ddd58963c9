use vstd::prelude::*;
use crate::error::ParseError;
use crate::json::{array_view, distinct_keys, object_view, unique_keys, Json, JsonView};
use crate::number::number_view;

verus! {

/// `serde_json::Value`.
#[verifier::external_type_specification]
#[verifier::external_body]
pub struct ExValue(serde_json::Value);

/// `serde_json::Error`, which says why a text is not JSON.
#[verifier::external_type_specification]
#[verifier::external_body]
pub struct ExJsonError(serde_json::Error);

/// The content of a `serde_json::Value`. The pairs of an object stand in
/// the order in which its map is walked.
pub uninterp spec fn value_view(v: serde_json::Value) -> JsonView;

/// What `serde_json` reads from a text: the content of the value, or nothing
/// where the text is not JSON.
pub uninterp spec fn parsed(text: Seq<char>) -> Option<JsonView>;

/// One level of a `serde_json::Value`: which variant it is, with what the
/// variant holds.
pub enum Shape<'a> {
    Null,
    Bool(bool),
    Number(&'a serde_json::Number),
    String(&'a str),
    Array(&'a Vec<serde_json::Value>),
    Object(Vec<(&'a String, &'a serde_json::Value)>),
}

/// The contents of a list of values, in order.
pub open spec fn values_view(items: Seq<serde_json::Value>) -> Seq<JsonView> {
    Seq::new(items.len(), |i: int| value_view(items[i]))
}

/// The contents of a list of members, in order.
pub open spec fn members_view(pairs: Seq<(&String, &serde_json::Value)>) -> Seq<
    (Seq<char>, JsonView),
> {
    Seq::new(pairs.len(), |i: int| (pairs[i].0@, value_view(*pairs[i].1)))
}

impl<'a> View for Shape<'a> {
    type V = JsonView;

    open spec fn view(&self) -> JsonView {
        match self {
            Shape::Null => JsonView::Null,
            Shape::Bool(b) => JsonView::Bool(*b),
            Shape::Number(n) => JsonView::Number(number_view(**n)),
            Shape::String(s) => JsonView::String(s@),
            Shape::Array(items) => JsonView::Array(values_view(items@)),
            Shape::Object(pairs) => JsonView::Object(members_view(pairs@)),
        }
    }
}

/// The variant of a `serde_json::Value` and what it holds; for an object,
/// the pairs that `Map::iter` gives, in its order. A map holds each key
/// once.
#[verifier::external_body]
pub(crate) fn shape_of<'a>(v: &'a serde_json::Value) -> (s: Shape<'a>)
    ensures
        s@ == value_view(*v),
        s matches Shape::Object(pairs) ==> distinct_keys(members_view(pairs@)),
{
    match v {
        serde_json::Value::Null => Shape::Null,
        serde_json::Value::Bool(b) => Shape::Bool(*b),
        serde_json::Value::Number(n) => Shape::Number(n),
        serde_json::Value::String(s) => Shape::String(s),
        serde_json::Value::Array(items) => Shape::Array(items),
        serde_json::Value::Object(map) => Shape::Object(map.iter().collect()),
    }
}

/// `serde_json::from_str` for a `Value`: the value that the text spells, or
/// the error where it spells none.
#[verifier::external_body]
pub(crate) fn parse_value(text: &str) -> (r: Result<serde_json::Value, serde_json::Error>)
    ensures
        match r {
            Ok(v) => parsed(text@) == Some(value_view(v)),
            Err(_) => parsed(text@) is None,
        },
{
    serde_json::from_str(text)
}

/// The JSON value with the content of a `serde_json::Value`. No object in
/// it has a key twice.
pub fn from_value(v: &serde_json::Value) -> (r: Json)
    ensures
        r@ == value_view(*v),
        unique_keys(r@),
    decreases value_view(*v),
{
    match shape_of(v) {
        Shape::Null => Json::Null,
        Shape::Bool(b) => Json::Bool(b),
        Shape::Number(n) => Json::Number(n.clone()),
        Shape::String(s) => Json::String(s.to_owned()),
        Shape::Array(items) => {
            let ghost values = values_view(items@);
            let mut out: Vec<Json> = Vec::new();
            let mut i: usize = 0;
            while i < items.len()
                invariant
                    i <= items.len(),
                    out@.len() == i,
                    values == values_view(items@),
                    value_view(*v) == JsonView::Array(values),
                    forall|j: int|
                        0 <= j < i ==> out@[j]@ == value_view(items@[j]) && unique_keys(out@[j]@),
                decreases items.len() - i,
            {
                proof {
                    assert(values[i as int] == value_view(items@[i as int]));
                    assert(value_view(*v)->Array_0[i as int] == values[i as int]);
                }
                let item = from_value(&items[i]);
                out.push(item);
                i += 1;
            }
            proof {
                assert(array_view(out@) =~= values_view(items@));
            }
            Json::Array(out)
        },
        Shape::Object(pairs) => {
            let ghost members = members_view(pairs@);
            let mut out: Vec<(String, Json)> = Vec::new();
            let mut i: usize = 0;
            while i < pairs.len()
                invariant
                    i <= pairs.len(),
                    out@.len() == i,
                    members == members_view(pairs@),
                    value_view(*v) == JsonView::Object(members),
                    distinct_keys(members),
                    forall|j: int|
                        0 <= j < i ==> out@[j].0@ == pairs@[j].0@ && out@[j].1@ == value_view(
                            *pairs@[j].1,
                        ) && unique_keys(out@[j].1@),
                decreases pairs.len() - i,
            {
                proof {
                    assert(members[i as int].1 == value_view(*pairs@[i as int].1));
                    assert(value_view(*v)->Object_0[i as int].1 == members[i as int].1);
                }
                let key = pairs[i].0.clone();
                let member = from_value(pairs[i].1);
                out.push((key, member));
                i += 1;
            }
            proof {
                assert(object_view(out@) =~= members_view(pairs@));
            }
            Json::Object(out)
        },
    }
}

/// Reads a JSON text. No object in the value has a key twice.
pub fn parse(text: &str) -> (r: Result<Json, ParseError>)
    ensures
        match r {
            Ok(json) => parsed(text@) == Some(json@) && unique_keys(json@),
            Err(_) => parsed(text@) is None,
        },
{
    match parse_value(text) {
        Ok(v) => Ok(from_value(&v)),
        Err(cause) => Err(ParseError { cause }),
    }
}

} // verus!
