//! JSON values as plain data.
//!
//! Reading the text of a document is left to `serde_json`; what it reads is
//! copied into a tree of plain values, which is all that the rest of the
//! crate looks at.

use vstd::prelude::*;

verus! {

/// A JSON value.
#[derive(Debug, PartialEq, Eq)]
pub enum Json {
    Null,
    Bool(bool),
    /// A number: as a 64-bit integer where it is one, and as the bits of an
    /// IEEE 754 double where it has one.
    Number(Option<i64>, Option<u64>),
    Text(String),
    Array(Vec<Json>),
    /// The members of an object.
    Object(Vec<(String, Json)>),
}

pub enum JsonView {
    Null,
    Bool(bool),
    Number(Option<i64>, Option<u64>),
    Text(Seq<char>),
    Array(Seq<JsonView>),
    Object(Seq<(Seq<char>, JsonView)>),
}

/// The mathematical value of a JSON value.
pub open spec fn json_view(json: Json) -> JsonView
    decreases json,
{
    match json {
        Json::Null => JsonView::Null,
        Json::Bool(b) => JsonView::Bool(b),
        Json::Number(integer, double) => JsonView::Number(integer, double),
        Json::Text(s) => JsonView::Text(s@),
        Json::Array(items) => JsonView::Array(
            Seq::new(
                items@.len(),
                |i: int|
                    if 0 <= i < items@.len() {
                        json_view(items@[i])
                    } else {
                        JsonView::Null
                    },
            ),
        ),
        Json::Object(members) => JsonView::Object(
            Seq::new(
                members@.len(),
                |i: int|
                    if 0 <= i < members@.len() {
                        (members@[i].0@, json_view(members@[i].1))
                    } else {
                        (Seq::empty(), JsonView::Null)
                    },
            ),
        ),
    }
}

impl View for Json {
    type V = JsonView;

    open spec fn view(&self) -> JsonView {
        json_view(*self)
    }
}

impl DeepView for Json {
    type V = JsonView;

    open spec fn deep_view(&self) -> JsonView {
        json_view(*self)
    }
}

impl Clone for Json {
    #[verifier::loop_isolation(false)]
    fn clone(&self) -> (r: Self)
        ensures
            r@ == self@,
        decreases self,
    {
        match self {
            Json::Null => Json::Null,
            Json::Bool(b) => Json::Bool(*b),
            Json::Number(integer, double) => Json::Number(*integer, *double),
            Json::Text(s) => Json::Text(s.clone()),
            Json::Array(items) => {
                let mut copy: Vec<Json> = Vec::new();
                let mut i: usize = 0;
                while i < items.len()
                    invariant
                        i <= items@.len(),
                        copy@.len() == i,
                        forall|k: int| 0 <= k < i ==> (#[trigger] copy@[k])@ == items@[k]@,
                    decreases items@.len() - i,
                {
                    assert(decreases_to!(self => items[i as int]));
                    copy.push(items[i].clone());
                    i += 1;
                }
                let r = Json::Array(copy);
                assert(r@->Array_0 =~= self@->Array_0);
                r
            },
            Json::Object(members) => {
                let mut copy: Vec<(String, Json)> = Vec::new();
                let mut i: usize = 0;
                while i < members.len()
                    invariant
                        i <= members@.len(),
                        copy@.len() == i,
                        forall|k: int|
                            0 <= k < i ==> (#[trigger] copy@[k]).0@ == members@[k].0@ && copy@[k].1@
                                == members@[k].1@,
                    decreases members@.len() - i,
                {
                    assert(decreases_to!(self => members[i as int].1));
                    copy.push((members[i].0.clone(), members[i].1.clone()));
                    i += 1;
                }
                let r = Json::Object(copy);
                assert(r@->Object_0 =~= self@->Object_0);
                r
            },
        }
    }
}

/// A value as `serde_json` holds it.
#[verifier::external_type_specification]
#[verifier::external_body]
pub struct ExSerdeValue(serde_json::Value);

/// The error with which `serde_json` rejects a text.
#[verifier::external_type_specification]
#[verifier::external_body]
pub struct ExSerdeError(serde_json::Error);

/// What `serde_json::from_slice` reads from a text as a `serde_json::Value`,
/// copied into plain data; `None` where it rejects the text.
pub uninterp spec fn json_document(text: Seq<u8>) -> Option<JsonView>;

/// Copies a `serde_json::Value` into plain data, variant by variant.  A
/// number is given by `Number::as_i64` and by the bits of `Number::as_f64`;
/// the members of an object come in the order of `Map::iter`.
#[verifier::external_body]
fn plain(value: &serde_json::Value) -> Json {
    match value {
        serde_json::Value::Null => Json::Null,
        serde_json::Value::Bool(b) => Json::Bool(*b),
        serde_json::Value::Number(n) => Json::Number(
            n.as_i64(),
            n.as_f64().map(|double| double.to_bits()),
        ),
        serde_json::Value::String(s) => Json::Text(s.clone()),
        serde_json::Value::Array(a) => Json::Array(a.iter().map(plain).collect()),
        serde_json::Value::Object(m) => Json::Object(
            m.iter().map(|(k, v)| (k.clone(), plain(v))).collect(),
        ),
    }
}

/// `serde_json::from_slice::<serde_json::Value>`: reads a JSON text.  The
/// result depends on the text alone.
#[verifier::external_body]
fn read_json(text: &[u8]) -> (r: Result<Json, serde_json::Error>)
    ensures
        r matches Ok(json) ==> json_document(text@) == Some(json@),
        r is Err ==> json_document(text@) is None,
{
    match serde_json::from_slice::<serde_json::Value>(text) {
        Ok(value) => Ok(plain(&value)),
        Err(error) => Err(error),
    }
}

/// Reads a JSON text; `None` where it is not well formed.
pub fn parse_json(text: &[u8]) -> (json: Option<Json>)
    ensures
        match json {
            Some(json) => json_document(text@) == Some(json@),
            None => json_document(text@) is None,
        },
{
    match read_json(text) {
        Ok(json) => Some(json),
        Err(_) => None,
    }
}

} // verus!
