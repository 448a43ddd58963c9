use vstd::prelude::*;
use crate::number::{number_view, NumberView};

verus! {

/// A JSON value. An object keeps its pairs in the order in which they were
/// written; a key is found at its first pair.
#[derive(Debug, PartialEq)]
pub enum Json {
    Null,
    Bool(bool),
    Number(serde_json::Number),
    String(String),
    Array(Vec<Json>),
    Object(Vec<(String, Json)>),
}

/// The mathematical content of a [`Json`] value.
pub enum JsonView {
    Null,
    Bool(bool),
    Number(NumberView),
    String(Seq<char>),
    Array(Seq<JsonView>),
    Object(Seq<(Seq<char>, JsonView)>),
}

impl View for Json {
    type V = JsonView;

    open spec fn view(&self) -> JsonView
        decreases self,
    {
        match self {
            Json::Null => JsonView::Null,
            Json::Bool(b) => JsonView::Bool(*b),
            Json::Number(n) => JsonView::Number(number_view(*n)),
            Json::String(s) => JsonView::String(s@),
            Json::Array(items) => JsonView::Array(array_view(items@)),
            Json::Object(pairs) => JsonView::Object(object_view(pairs@)),
        }
    }
}

/// The views of the items of an array, in order.
pub open spec fn array_view(items: Seq<Json>) -> Seq<JsonView>
    decreases items,
{
    Seq::new(
        items.len(),
        |i: int|
            if 0 <= i < items.len() {
                items[i].view()
            } else {
                JsonView::Null
            },
    )
}

/// The views of the pairs of an object, in order.
pub open spec fn object_view(pairs: Seq<(String, Json)>) -> Seq<(Seq<char>, JsonView)>
    decreases pairs,
{
    Seq::new(
        pairs.len(),
        |i: int|
            if 0 <= i < pairs.len() {
                (pairs[i].0@, pairs[i].1.view())
            } else {
                (Seq::empty(), JsonView::Null)
            },
    )
}

/// The position of the first pair under `key`.
pub open spec fn index_of(pairs: Seq<(Seq<char>, JsonView)>, key: Seq<char>) -> Option<int>
    decreases pairs.len(),
{
    if pairs.len() == 0 {
        None
    } else if pairs[0].0 == key {
        Some(0int)
    } else {
        match index_of(pairs.drop_first(), key) {
            Some(i) => Some(i + 1),
            None => None,
        }
    }
}

/// The member of an object under `key`; nothing for any other value.
pub open spec fn lookup(v: JsonView, key: Seq<char>) -> Option<JsonView> {
    match v {
        JsonView::Object(pairs) => match index_of(pairs, key) {
            Some(i) => Some(pairs[i].1),
            None => None,
        },
        _ => None,
    }
}

/// No two pairs share a key.
pub open spec fn distinct_keys(pairs: Seq<(Seq<char>, JsonView)>) -> bool {
    forall|i: int, j: int| 0 <= i < j < pairs.len() ==> pairs[i].0 != pairs[j].0
}

/// Every object in the value, at any depth, has distinct keys: the value
/// can be written as JSON in which each key of an object occurs once.
pub open spec fn unique_keys(v: JsonView) -> bool
    decreases v,
{
    match v {
        JsonView::Array(items) => forall|i: int|
            0 <= i < items.len() ==> unique_keys(#[trigger] items[i]),
        JsonView::Object(pairs) => distinct_keys(pairs) && forall|i: int|
            0 <= i < pairs.len() ==> unique_keys(#[trigger] pairs[i].1),
        _ => true,
    }
}

/// A member of a value with unique keys has unique keys.
pub proof fn lemma_lookup_unique_keys(v: JsonView, key: Seq<char>)
    requires
        unique_keys(v),
    ensures
        lookup(v, key) matches Some(member) ==> unique_keys(member),
{
    if let JsonView::Object(pairs) = v {
        lemma_index_of_some(pairs, key);
    }
}

/// `index_of` finds a pair under `key`, and none stands before it.
pub proof fn lemma_index_of_some(pairs: Seq<(Seq<char>, JsonView)>, key: Seq<char>)
    ensures
        index_of(pairs, key) matches Some(i) ==> {
            &&& 0 <= i < pairs.len()
            &&& pairs[i].0 == key
            &&& forall|j: int| 0 <= j < i ==> pairs[j].0 != key
        },
    decreases pairs.len(),
{
    if pairs.len() > 0 && pairs[0].0 != key {
        let rest = pairs.drop_first();
        lemma_index_of_some(rest, key);
        if let Some(i) = index_of(rest, key) {
            assert(rest[i] == pairs[i + 1]);
            assert forall|j: int| 0 <= j < i + 1 implies pairs[j].0 != key by {
                if j > 0 {
                    assert(rest[j - 1] == pairs[j]);
                }
            }
        }
    }
}

/// The first pair under `key` is the one that `index_of` finds.
pub proof fn lemma_index_of_first(pairs: Seq<(Seq<char>, JsonView)>, key: Seq<char>, i: int)
    requires
        0 <= i < pairs.len(),
        pairs[i].0 == key,
        forall|j: int| 0 <= j < i ==> pairs[j].0 != key,
    ensures
        index_of(pairs, key) == Some(i),
    decreases i,
{
    if i > 0 {
        let rest = pairs.drop_first();
        assert(rest[i - 1] == pairs[i]);
        assert forall|j: int| 0 <= j < i - 1 implies rest[j].0 != key by {
            assert(rest[j] == pairs[j + 1]);
        }
        lemma_index_of_first(rest, key, i - 1);
    }
}

/// Where no pair stands under `key`, `index_of` finds none.
pub proof fn lemma_index_of_none(pairs: Seq<(Seq<char>, JsonView)>, key: Seq<char>)
    requires
        forall|j: int| 0 <= j < pairs.len() ==> pairs[j].0 != key,
    ensures
        index_of(pairs, key) is None,
    decreases pairs.len(),
{
    if pairs.len() > 0 {
        let rest = pairs.drop_first();
        assert forall|j: int| 0 <= j < rest.len() implies rest[j].0 != key by {
            assert(rest[j] == pairs[j + 1]);
        }
        lemma_index_of_none(rest, key);
    }
}

/// A member of an object is a smaller value than the object.
pub proof fn lemma_lookup_decreases(v: JsonView, key: Seq<char>)
    ensures
        lookup(v, key) matches Some(member) ==> decreases_to!(v => member),
{
    if let JsonView::Object(pairs) = v {
        lemma_index_of_some(pairs, key);
    }
}

impl Json {
    /// The member under `key` where this value is an object that has one.
    pub fn get(&self, key: &str) -> (r: Option<&Json>)
        ensures
            match r {
                Some(member) => lookup(self@, key@) == Some(member@),
                None => lookup(self@, key@) is None,
            },
    {
        match self {
            Json::Object(pairs) => {
                let wanted = key.to_owned();
                let mut i: usize = 0;
                while i < pairs.len()
                    invariant
                        i <= pairs.len(),
                        wanted@ == key@,
                        self@ == JsonView::Object(object_view(pairs@)),
                        forall|j: int| 0 <= j < i ==> object_view(pairs@)[j].0 != key@,
                    decreases pairs.len() - i,
                {
                    if pairs[i].0 == wanted {
                        proof {
                            lemma_index_of_first(object_view(pairs@), key@, i as int);
                        }
                        return Some(&pairs[i].1);
                    }
                    i += 1;
                }
                proof {
                    lemma_index_of_none(object_view(pairs@), key@);
                }
                None
            },
            _ => None,
        }
    }

    /// Whether this value is `null`.
    pub fn is_null(&self) -> (r: bool)
        ensures
            r == (self@ is Null),
    {
        match self {
            Json::Null => true,
            _ => false,
        }
    }

    /// The text of a string.
    pub fn as_str(&self) -> (r: Option<&str>)
        ensures
            match r {
                Some(s) => self@ == JsonView::String(s@),
                None => !(self@ is String),
            },
    {
        match self {
            Json::String(s) => Some(s.as_str()),
            _ => None,
        }
    }

    /// The items of an array.
    pub fn as_array(&self) -> (r: Option<&Vec<Json>>)
        ensures
            match r {
                Some(items) => self@ == JsonView::Array(array_view(items@)),
                None => !(self@ is Array),
            },
    {
        match self {
            Json::Array(items) => Some(items),
            _ => None,
        }
    }

    /// The pairs of an object.
    pub fn as_object(&self) -> (r: Option<&Vec<(String, Json)>>)
        ensures
            match r {
                Some(pairs) => self@ == JsonView::Object(object_view(pairs@)),
                None => !(self@ is Object),
            },
    {
        match self {
            Json::Object(pairs) => Some(pairs),
            _ => None,
        }
    }
}

} // verus!
