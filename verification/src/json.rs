use vstd::prelude::*;
use vstd::utf8::*;

use crate::text::{decimal, decimal_text, same_text};

verus! {

/// A JSON value.
///
/// A number is held by its text, with the value beside it where it is an integer that an
/// `i64` can hold.
#[derive(Debug)]
pub enum Json {
    Null,
    Bool(bool),
    Number { text: String, integer: Option<i64> },
    Str(String),
    Array(Vec<Json>),
    Object(Vec<Member>),
}

/// One member of a JSON object.
#[derive(Debug)]
pub struct Member {
    pub key: String,
    pub value: Json,
}

/// The mathematical value of a [`Json`].
pub enum JsonView {
    Null,
    Bool(bool),
    Number { text: Seq<char>, integer: Option<i64> },
    Str(Seq<char>),
    Array(Seq<JsonView>),
    Object(Seq<(Seq<char>, JsonView)>),
}

pub open spec fn json_view(json: Json) -> JsonView
    decreases json,
{
    match json {
        Json::Null => JsonView::Null,
        Json::Bool(b) => JsonView::Bool(b),
        Json::Number { text, integer } => JsonView::Number { text: text@, integer },
        Json::Str(text) => JsonView::Str(text@),
        Json::Array(items) => JsonView::Array(
            Seq::new(
                items@.len(),
                |i: int|
                    if 0 <= i < items@.len() {
                        json_view(items[i])
                    } else {
                        JsonView::Null
                    },
            ),
        ),
        Json::Object(members) => JsonView::Object(
            Seq::new(
                members@.len(),
                |i: int|
                    if 0 <= i < members@.len() {
                        (members[i].key@, json_view(members[i].value))
                    } else {
                        (Seq::<char>::empty(), JsonView::Null)
                    },
            ),
        ),
    }
}

impl View for Json {
    type V = JsonView;

    open spec fn view(&self) -> JsonView {
        json_view(*self)
    }
}

/// The value of the first member with this key.
pub open spec fn member(members: Seq<(Seq<char>, JsonView)>, key: Seq<char>) -> Option<JsonView>
    decreases members.len(),
{
    if members.len() == 0 {
        None
    } else if members[0].0 == key {
        Some(members[0].1)
    } else {
        member(members.drop_first(), key)
    }
}

/// The members with the first one of this key replaced, or with a new one at the end.
pub open spec fn with_member(
    members: Seq<(Seq<char>, JsonView)>,
    key: Seq<char>,
    value: JsonView,
) -> Seq<(Seq<char>, JsonView)>
    decreases members.len(),
{
    if members.len() == 0 {
        seq![(key, value)]
    } else if members[0].0 == key {
        seq![(key, value)] + members.drop_first()
    } else {
        seq![members[0]] + with_member(members.drop_first(), key, value)
    }
}

impl JsonView {
    pub open spec fn empty_object() -> JsonView {
        JsonView::Object(Seq::empty())
    }

    /// The value under `key`, where this is an object that has one.
    pub open spec fn get(self, key: Seq<char>) -> Option<JsonView> {
        match self {
            JsonView::Object(members) => member(members, key),
            _ => None,
        }
    }

    /// The value under `key`, or null.
    pub open spec fn field(self, key: Seq<char>) -> JsonView {
        match self.get(key) {
            Some(value) => value,
            None => JsonView::Null,
        }
    }

    /// This object with `value` under `key`; null stands for the empty object.
    pub open spec fn with(self, key: Seq<char>, value: JsonView) -> JsonView {
        match self {
            JsonView::Object(members) => JsonView::Object(with_member(members, key, value)),
            _ => JsonView::Object(seq![(key, value)]),
        }
    }

    pub open spec fn as_str(self) -> Option<Seq<char>> {
        match self {
            JsonView::Str(text) => Some(text),
            _ => None,
        }
    }

    pub open spec fn as_i64(self) -> Option<i64> {
        match self {
            JsonView::Number { integer, .. } => integer,
            _ => None,
        }
    }

    pub open spec fn as_array(self) -> Option<Seq<JsonView>> {
        match self {
            JsonView::Array(items) => Some(items),
            _ => None,
        }
    }

    /// The items of an array, and nothing for any other value.
    pub open spec fn items(self) -> Seq<JsonView> {
        match self {
            JsonView::Array(items) => items,
            _ => Seq::empty(),
        }
    }

    /// The text of a string, and the empty text for any other value.
    pub open spec fn text(self) -> Seq<char> {
        match self {
            JsonView::Str(text) => text,
            _ => Seq::empty(),
        }
    }

    /// Whether this is the string `text`.
    pub open spec fn is_text(self, text: Seq<char>) -> bool {
        self == JsonView::Str(text)
    }
}

/// A value that was put under a key is what the key gives back, and the other keys give what
/// they gave before.
pub broadcast proof fn lemma_get_with(object: JsonView, key: Seq<char>, value: JsonView, other: Seq<char>)
    requires
        object is Object || object is Null,
    ensures
        (#[trigger] object.with(key, value).get(other)) == if other == key {
            Some(value)
        } else {
            object.get(other)
        },
{
    match object {
        JsonView::Object(members) => lemma_member_with(members, key, value, other),
        _ => {
            assert(seq![(key, value)].drop_first() =~= Seq::empty());
            reveal_with_fuel(member, 2);
        },
    }
}

proof fn lemma_member_with(
    members: Seq<(Seq<char>, JsonView)>,
    key: Seq<char>,
    value: JsonView,
    other: Seq<char>,
)
    ensures
        member(with_member(members, key, value), other) == if other == key {
            Some(value)
        } else {
            member(members, other)
        },
    decreases members.len(),
{
    let after = with_member(members, key, value);
    if members.len() == 0 {
        assert(after.drop_first() =~= Seq::empty());
        reveal_with_fuel(member, 2);
    } else if members[0].0 == key {
        assert(after.drop_first() =~= members.drop_first());
    } else {
        lemma_member_with(members.drop_first(), key, value, other);
        assert(after.drop_first() =~= with_member(members.drop_first(), key, value));
    }
}

pub proof fn lemma_member_at(members: Seq<(Seq<char>, JsonView)>, key: Seq<char>, at: int)
    requires
        0 <= at < members.len(),
        members[at].0 == key,
        forall|j: int| 0 <= j < at ==> members[j].0 != key,
    ensures
        member(members, key) == Some(members[at].1),
        forall|value: JsonView| #[trigger]
            with_member(members, key, value) == members.update(at, (key, value)),
    decreases members.len(),
{
    if at > 0 {
        lemma_member_at(members.drop_first(), key, at - 1);
        assert forall|value: JsonView| #[trigger]
            with_member(members, key, value) == members.update(at, (key, value)) by {
            let rest = with_member(members.drop_first(), key, value);
            assert(rest == members.drop_first().update(at - 1, (key, value)));
            assert(seq![members[0]] + rest =~= members.update(at, (key, value)));
        }
    } else {
        assert forall|value: JsonView| #[trigger]
            with_member(members, key, value) == members.update(at, (key, value)) by {
            assert(seq![(key, value)] + members.drop_first() =~= members.update(0, (key, value)));
        }
    }
}

/// A key gives a value just where a member has it.
pub proof fn lemma_member_found(members: Seq<(Seq<char>, JsonView)>, key: Seq<char>)
    ensures
        member(members, key) is Some <==> exists|i: int|
            0 <= i < members.len() && (#[trigger] members[i]).0 == key,
    decreases members.len(),
{
    if members.len() > 0 {
        let rest = members.drop_first();
        lemma_member_found(rest, key);
        if exists|i: int| 0 <= i < rest.len() && (#[trigger] rest[i]).0 == key {
            let i = choose|i: int| 0 <= i < rest.len() && (#[trigger] rest[i]).0 == key;
            assert(members[i + 1].0 == key);
        }
        if exists|i: int| 0 <= i < members.len() && (#[trigger] members[i]).0 == key {
            let i = choose|i: int| 0 <= i < members.len() && (#[trigger] members[i]).0 == key;
            if i > 0 {
                assert(rest[i - 1].0 == key);
            }
        }
    }
}

proof fn lemma_member_absent(members: Seq<(Seq<char>, JsonView)>, key: Seq<char>)
    requires
        forall|j: int| 0 <= j < members.len() ==> members[j].0 != key,
    ensures
        member(members, key) is None,
        forall|value: JsonView| #[trigger]
            with_member(members, key, value) == members.push((key, value)),
    decreases members.len(),
{
    if members.len() > 0 {
        lemma_member_absent(members.drop_first(), key);
    }
    assert forall|value: JsonView| #[trigger]
        with_member(members, key, value) == members.push((key, value)) by {
        if members.len() > 0 {
            let rest = with_member(members.drop_first(), key, value);
            assert(rest == members.drop_first().push((key, value)));
            assert(seq![members[0]] + rest =~= members.push((key, value)));
        } else {
            assert(seq![(key, value)] =~= members.push((key, value)));
        }
    }
}

/// The place of the first member with this key.
fn member_index(members: &Vec<Member>, key: &str) -> (at: Option<usize>)
    ensures
        match at {
            Some(at) => {
                &&& at < members@.len()
                &&& members@[at as int].key@ == key@
                &&& forall|j: int| 0 <= j < at ==> members@[j].key@ != key@
            },
            None => forall|j: int| 0 <= j < members@.len() ==> members@[j].key@ != key@,
        },
{
    let mut i: usize = 0;
    while i < members.len()
        invariant
            i <= members@.len(),
            forall|j: int| 0 <= j < i ==> members@[j].key@ != key@,
        decreases members@.len() - i,
    {
        if same_text(members[i].key.as_str(), key) {
            return Some(i);
        }
        i += 1;
    }
    None
}

impl Json {
    /// The value under `key`, where this is an object that has one.
    pub fn get(&self, key: &str) -> (value: Option<&Json>)
        ensures
            match value {
                Some(value) => self@.get(key@) == Some(value@),
                None => self@.get(key@) is None,
            },
    {
        match self {
            Json::Object(members) => {
                let ghost ms = self@->Object_0;
                match member_index(members, key) {
                    Some(at) => {
                        proof {
                            lemma_member_at(ms, key@, at as int);
                        }
                        Some(&members[at].value)
                    },
                    None => {
                        proof {
                            lemma_member_absent(ms, key@);
                        }
                        None
                    },
                }
            },
            _ => None,
        }
    }

    /// The value under `key`, or null.
    pub fn field(&self, key: &str) -> (value: &Json)
        ensures
            value@ == self@.field(key@),
    {
        match self.get(key) {
            Some(value) => value,
            None => &Json::Null,
        }
    }

    pub fn as_str(&self) -> (text: Option<&str>)
        ensures
            match text {
                Some(text) => self@.as_str() == Some(text@),
                None => self@.as_str() is None,
            },
    {
        match self {
            Json::Str(text) => Some(text.as_str()),
            _ => None,
        }
    }

    pub fn as_i64(&self) -> (integer: Option<i64>)
        ensures
            integer == self@.as_i64(),
    {
        match self {
            Json::Number { integer, .. } => *integer,
            _ => None,
        }
    }

    pub fn as_array(&self) -> (items: Option<&Vec<Json>>)
        ensures
            match items {
                Some(items) => self@.as_array() == Some(items@.map_values(|j: Json| j@)),
                None => self@.as_array() is None,
            },
    {
        match self {
            Json::Array(items) => {
                assert(self@->Array_0 =~= items@.map_values(|j: Json| j@));
                Some(items)
            },
            _ => None,
        }
    }

    pub fn is_null(&self) -> (null: bool)
        ensures
            null == (self@ is Null),
    {
        matches!(self, Json::Null)
    }

    pub fn is_object(&self) -> (object: bool)
        ensures
            object == (self@ is Object),
    {
        matches!(self, Json::Object(_))
    }

    /// Whether this is the string `text`.
    pub fn is_text(&self, text: &str) -> (same: bool)
        ensures
            same == self@.is_text(text@),
    {
        match self {
            Json::Str(own) => same_text(own.as_str(), text),
            _ => false,
        }
    }

    pub fn object() -> (object: Json)
        ensures
            object@ == JsonView::empty_object(),
    {
        let object = Json::Object(Vec::new());
        assert(object@->Object_0 =~= Seq::empty());
        object
    }

    pub fn string(text: &str) -> (json: Json)
        ensures
            json@ == JsonView::Str(text@),
    {
        Json::Str(text.to_owned())
    }

    pub fn integer(value: i64) -> (json: Json)
        ensures
            json@ == (JsonView::Number { text: decimal(value as int), integer: Some(value) }),
    {
        Json::Number { text: decimal_text(value), integer: Some(value) }
    }

    /// Puts `value` under `key`. A null becomes an object first.
    pub fn set(&mut self, key: &str, value: Json)
        requires
            old(self)@ is Object || old(self)@ is Null,
        ensures
            final(self)@ == old(self)@.with(key@, value@),
    {
        let ghost before = self@;
        let ghost put = value@;
        match self {
            Json::Object(members) => {
                let ghost old_members = members@;
                let ghost ms = before->Object_0;
                let at = member_index(members, key);
                let new = Member { key: key.to_owned(), value };
                match at {
                    Some(at) => {
                        members.set(at, new);
                        proof {
                            lemma_member_at(ms, key@, at as int);
                            assert(json_view(Json::Object(*members))->Object_0 =~= ms.update(
                                at as int,
                                (key@, put),
                            ));
                        }
                    },
                    None => {
                        members.push(new);
                        proof {
                            lemma_member_absent(ms, key@);
                            assert(json_view(Json::Object(*members))->Object_0 =~= ms.push(
                                (key@, put),
                            ));
                        }
                    },
                }
            },
            _ => {
                let mut members: Vec<Member> = Vec::new();
                members.push(Member { key: key.to_owned(), value });
                *self = Json::Object(members);
                assert(self@->Object_0 =~= seq![(key@, put)]);
            },
        }
    }

    /// This object with `value` under `key`.
    pub fn with(self, key: &str, value: Json) -> (json: Json)
        requires
            self@ is Object || self@ is Null,
        ensures
            json@ == self@.with(key@, value@),
    {
        let mut json = self;
        json.set(key, value);
        json
    }

    /// A copy of the whole value.
    pub fn duplicate(&self) -> (copy: Json)
        ensures
            copy@ == self@,
        decreases self,
    {
        match self {
            Json::Null => Json::Null,
            Json::Bool(b) => Json::Bool(*b),
            Json::Number { text, integer } => Json::Number {
                text: text.clone(),
                integer: *integer,
            },
            Json::Str(text) => Json::Str(text.clone()),
            Json::Array(items) => {
                let mut copies: Vec<Json> = Vec::new();
                let mut i: usize = 0;
                while i < items.len()
                    invariant
                        i <= items@.len(),
                        self matches Json::Array(its) && its == items,
                        copies@.len() == i,
                        forall|j: int| 0 <= j < i ==> copies@[j]@ == items@[j]@,
                    decreases items@.len() - i,
                {
                    copies.push(items[i].duplicate());
                    i += 1;
                }
                let copy = Json::Array(copies);
                assert(copy@->Array_0 =~= self@->Array_0);
                copy
            },
            Json::Object(members) => {
                let mut copies: Vec<Member> = Vec::new();
                let mut i: usize = 0;
                while i < members.len()
                    invariant
                        i <= members@.len(),
                        self matches Json::Object(ms) && ms == members,
                        copies@.len() == i,
                        forall|j: int|
                            0 <= j < i ==> copies@[j].key@ == members@[j].key@
                                && copies@[j].value@ == members@[j].value@,
                    decreases members@.len() - i,
                {
                    copies.push(
                        Member {
                            key: members[i].key.clone(),
                            value: members[i].value.duplicate(),
                        },
                    );
                    i += 1;
                }
                let copy = Json::Object(copies);
                assert(copy@->Object_0 =~= self@->Object_0);
                copy
            },
        }
    }
}

/// How a character stands inside a quoted JSON string.
pub open spec fn escaped(c: char) -> Seq<char> {
    if c == '"' {
        seq!['\\', '"']
    } else if c == '\\' {
        seq!['\\', '\\']
    } else if c as u32 == 8 {
        seq!['\\', 'b']
    } else if c as u32 == 9 {
        seq!['\\', 't']
    } else if c as u32 == 10 {
        seq!['\\', 'n']
    } else if c as u32 == 12 {
        seq!['\\', 'f']
    } else if c as u32 == 13 {
        seq!['\\', 'r']
    } else if c as u32 <= 31 {
        seq!['\\', 'u', '0', '0', hex_digit(c as u32 as nat / 16), hex_digit(c as u32 as nat % 16)]
    } else {
        seq![c]
    }
}

/// The lower-case hexadecimal digit of a number below sixteen.
pub open spec fn hex_digit(n: nat) -> char {
    if n < 10 {
        (48 + n) as u8 as char
    } else {
        (87 + n) as u8 as char
    }
}

/// The text as it stands between the quotes of a JSON string.
pub open spec fn escaped_text(text: Seq<char>) -> Seq<char>
    decreases text.len(),
{
    if text.len() == 0 {
        Seq::empty()
    } else {
        escaped_text(text.drop_last()) + escaped(text.last())
    }
}

/// The JSON string that stands for a text.
pub open spec fn quoted(text: Seq<char>) -> Seq<char> {
    seq!['"'] + escaped_text(text) + seq!['"']
}

/// The compact JSON text of a value: no white space, members in their order.
pub open spec fn compact(value: JsonView) -> Seq<char>
    decreases value, 0nat,
{
    match value {
        JsonView::Null => "null"@,
        JsonView::Bool(true) => "true"@,
        JsonView::Bool(false) => "false"@,
        JsonView::Number { text, .. } => text,
        JsonView::Str(text) => quoted(text),
        JsonView::Array(items) => "["@ + compact_items(items, items.len()) + "]"@,
        JsonView::Object(members) => "{"@ + compact_members(members, members.len()) + "}"@,
    }
}

/// The first `n` items, separated by commas.
pub open spec fn compact_items(items: Seq<JsonView>, n: nat) -> Seq<char>
    decreases items, n,
    when n <= items.len()
{
    if n == 0 {
        Seq::empty()
    } else {
        compact_items(items, (n - 1) as nat) + (if n == 1 {
            Seq::empty()
        } else {
            ","@
        }) + compact(items[n - 1])
    }
}

/// The first `n` members, separated by commas.
pub open spec fn compact_members(members: Seq<(Seq<char>, JsonView)>, n: nat) -> Seq<char>
    decreases members, n,
    when n <= members.len()
{
    if n == 0 {
        Seq::empty()
    } else {
        compact_members(members, (n - 1) as nat) + (if n == 1 {
            Seq::empty()
        } else {
            ","@
        }) + quoted(members[n - 1].0) + ":"@ + compact(members[n - 1].1)
    }
}

/// [`serde_json::Value`]'s text of a string: the text between quotes, with the quote, the
/// reverse solidus and the control characters below the space escaped, and everything else
/// as it is.
#[verifier::external_body]
fn quoted_text(text: &str) -> (json: String)
    ensures
        json@ == quoted(text@),
{
    serde_json::Value::String(text.to_owned()).to_string()
}

impl Json {
    /// The compact JSON text of this value.
    pub fn to_text(&self) -> (text: String)
        ensures
            text@ == compact(self@),
        decreases self,
    {
        match self {
            Json::Null => "null".to_owned(),
            Json::Bool(b) => if *b {
                "true".to_owned()
            } else {
                "false".to_owned()
            },
            Json::Number { text, .. } => text.clone(),
            Json::Str(text) => quoted_text(text.as_str()),
            Json::Array(items) => {
                let mut text = "[".to_owned();
                let ghost views = self@->Array_0;
                let mut i: usize = 0;
                while i < items.len()
                    invariant
                        i <= items@.len(),
                        self matches Json::Array(its) && its == items,
                        views == self@->Array_0,
                        views.len() == items@.len(),
                        text@ == "["@ + compact_items(views, i as nat),
                    decreases items@.len() - i,
                {
                    if i > 0 {
                        text.append(",");
                    }
                    let item = items[i].to_text();
                    text.append(item.as_str());
                    i += 1;
                    assert(text@ =~= "["@ + compact_items(views, i as nat));
                }
                text.append("]");
                text
            },
            Json::Object(members) => {
                let mut text = "{".to_owned();
                let ghost views = self@->Object_0;
                let mut i: usize = 0;
                while i < members.len()
                    invariant
                        i <= members@.len(),
                        self matches Json::Object(ms) && ms == members,
                        views == self@->Object_0,
                        views.len() == members@.len(),
                        text@ == "{"@ + compact_members(views, i as nat),
                    decreases members@.len() - i,
                {
                    if i > 0 {
                        text.append(",");
                    }
                    let key = quoted_text(members[i].key.as_str());
                    text.append(key.as_str());
                    text.append(":");
                    let value = members[i].value.to_text();
                    text.append(value.as_str());
                    i += 1;
                    assert(text@ =~= "{"@ + compact_members(views, i as nat));
                }
                text.append("}");
                text
            },
        }
    }
}

/// The number of bytes in the compact JSON text of a value.
pub open spec fn json_bytes(value: JsonView) -> nat {
    encode_utf8(compact(value)).len()
}

pub fn serialized_json_bytes(value: &Json) -> (bytes: usize)
    ensures
        bytes == json_bytes(value@),
{
    let text = value.to_text();
    text.as_str().as_bytes().len()
}

} // verus!
