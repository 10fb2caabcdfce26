use vstd::prelude::*;

use crate::json::{compact, Json, JsonView, Member};
use crate::text::decimal;

verus! {

/// A parsed value of the `serde_json` crate.
#[verifier::external_type_specification]
#[verifier::external_body]
pub struct ExValue(serde_json::Value);

/// What a parsed value holds.
pub uninterp spec fn value_view(value: serde_json::Value) -> JsonView;

/// What [`serde_json::from_str`] reads in a text: a value, or what it says is wrong with it.
pub uninterp spec fn parsed_json(text: Seq<char>) -> Result<JsonView, Seq<char>>;

/// Whether a value is null, a Boolean, a string, or an integer written in decimal.
pub open spec fn is_plain(value: JsonView) -> bool {
    match value {
        JsonView::Null => true,
        JsonView::Bool(_) => true,
        JsonView::Str(_) => true,
        JsonView::Number { text, integer } => integer matches Some(n) && text == decimal(n as int),
        _ => false,
    }
}

/// Whether a value is an object of plain values, each under a key of its own.
pub open spec fn is_flat_object(value: JsonView) -> bool {
    match value {
        JsonView::Object(members) => {
            &&& forall|i: int| 0 <= i < members.len() ==> is_plain((#[trigger] members[i]).1)
            &&& forall|i: int, j: int|
                0 <= i < j < members.len() ==> (#[trigger] members[i]).0 != (
                #[trigger] members[j]).0
        },
        _ => false,
    }
}

/// Whether two objects give the same under every key.
pub open spec fn same_members(a: JsonView, b: JsonView) -> bool {
    &&& a is Object
    &&& b is Object
    &&& forall|key: Seq<char>| #[trigger] a.get(key) == b.get(key)
}

/// Whether what was read in a text is right where that is the compact text of an object of
/// plain values, each under a key of its own: an object that gives the same under every key.
pub open spec fn reads_flat_objects(
    text: Seq<char>,
    read: Result<serde_json::Value, String>,
) -> bool {
    forall|object: JsonView|
        is_flat_object(object) && text == #[trigger] compact(object) ==> {
            &&& read is Ok
            &&& same_members(value_view(read->Ok_0), object)
        }
}

/// [`serde_json::from_str`], for a value of any shape: the value that the text says, or the
/// text of the error. The compact text of an object of plain values, each under a key of its
/// own, is read as an object that gives the same under every key. Which other texts are JSON,
/// and what each of them says, is left to the name.
#[verifier::external_body]
fn read_value(text: &str) -> (read: Result<serde_json::Value, String>)
    ensures
        match read {
            Ok(value) => parsed_json(text@) == Ok::<JsonView, Seq<char>>(value_view(value)),
            Err(message) => parsed_json(text@) == Err::<JsonView, Seq<char>>(message@),
        },
        reads_flat_objects(text@, read),
{
    serde_json::from_str(text).map_err(|error: serde_json::Error| error.to_string())
}

/// The outermost layer of a parsed value.
enum Layer {
    Null,
    Bool(bool),
    Number { text: String, integer: Option<i64> },
    Str(String),
    Array(Vec<serde_json::Value>),
    Object(Vec<(String, serde_json::Value)>),
}

spec fn layer_view(layer: Layer) -> JsonView {
    match layer {
        Layer::Null => JsonView::Null,
        Layer::Bool(b) => JsonView::Bool(b),
        Layer::Number { text, integer } => JsonView::Number { text: text@, integer },
        Layer::Str(text) => JsonView::Str(text@),
        Layer::Array(items) => JsonView::Array(
            Seq::new(items@.len(), |i: int| value_view(items@[i])),
        ),
        Layer::Object(members) => JsonView::Object(
            Seq::new(members@.len(), |i: int| (members@[i].0@, value_view(members@[i].1))),
        ),
    }
}

/// The variants of [`serde_json::Value`]: an array holds its items and an object its members,
/// each in the order in which they are walked. A number is given by its text and by
/// [`serde_json::Number::as_i64`].
#[verifier::external_body]
fn outer_layer(value: serde_json::Value) -> (layer: Layer)
    ensures
        layer_view(layer) == value_view(value),
{
    match value {
        serde_json::Value::Null => Layer::Null,
        serde_json::Value::Bool(b) => Layer::Bool(b),
        serde_json::Value::Number(n) => Layer::Number { text: n.to_string(), integer: n.as_i64() },
        serde_json::Value::String(text) => Layer::Str(text),
        serde_json::Value::Array(items) => Layer::Array(items),
        serde_json::Value::Object(members) => Layer::Object(members.into_iter().collect()),
    }
}

fn json_of(value: serde_json::Value) -> (json: Json)
    ensures
        json@ == value_view(value),
    decreases value_view(value),
{
    let ghost whole = value_view(value);
    match outer_layer(value) {
        Layer::Null => Json::Null,
        Layer::Bool(b) => Json::Bool(b),
        Layer::Number { text, integer } => Json::Number { text, integer },
        Layer::Str(text) => Json::Str(text),
        Layer::Array(items) => {
            let mut parts: Vec<Json> = Vec::new();
            let ghost views = whole->Array_0;
            for item in it: items
                invariant
                    whole == value_view(value),
                    whole == JsonView::Array(views),
                    views.len() == it.seq().len(),
                    forall|i: int|
                        0 <= i < views.len() ==> #[trigger] views[i] == value_view(it.seq()[i]),
                    parts@.len() == it.index(),
                    forall|i: int| 0 <= i < it.index() ==> (#[trigger] parts@[i])@ == views[i],
            {
                assert(value_view(item) == views[it.index() as int]);
                assert(decreases_to!(whole => whole->Array_0));
                assert(decreases_to!(views => views[it.index() as int]));
                parts.push(json_of(item));
            }
            let json = Json::Array(parts);
            assert(json@->Array_0 =~= views);
            json
        },
        Layer::Object(members) => {
            let mut parts: Vec<Member> = Vec::new();
            let ghost views = whole->Object_0;
            for member in it: members
                invariant
                    whole == value_view(value),
                    whole == JsonView::Object(views),
                    views.len() == it.seq().len(),
                    forall|i: int|
                        0 <= i < views.len() ==> #[trigger] views[i] == (
                            it.seq()[i].0@,
                            value_view(it.seq()[i].1),
                        ),
                    parts@.len() == it.index(),
                    forall|i: int|
                        0 <= i < it.index() ==> ((#[trigger] parts@[i]).key@, parts@[i].value@)
                            == views[i],
            {
                let (key, part) = member;
                assert((key@, value_view(part)) == views[it.index() as int]);
                assert(decreases_to!(whole => whole->Object_0));
                assert(decreases_to!(views => views[it.index() as int]));
                assert(decreases_to!(views[it.index() as int] => views[it.index() as int].1));
                parts.push(Member { key, value: json_of(part) });
            }
            let json = Json::Object(parts);
            assert(json@->Object_0 =~= views);
            json
        },
    }
}

/// Reads a JSON text.
pub fn parse_json(text: &str) -> (parsed: Result<Json, String>)
    ensures
        match parsed {
            Ok(json) => parsed_json(text@) == Ok::<JsonView, Seq<char>>(json@),
            Err(message) => parsed_json(text@) == Err::<JsonView, Seq<char>>(message@),
        },
        forall|object: JsonView|
            is_flat_object(object) && text@ == #[trigger] compact(object) ==> (parsed matches Ok(
                json,
            ) && same_members(json@, object)),
{
    match read_value(text) {
        Ok(value) => Ok(json_of(value)),
        Err(message) => Err(message),
    }
}

} // verus!
