//! JSON values as plain data, and how they are read from text.

use vstd::prelude::*;
use crate::text::text_eq;

verus! {

/// A JSON number: its integer value where it has one that fits, and the
/// text it is written as.
#[derive(Debug)]
pub struct JsonNumber {
    pub integer: Option<i64>,
    pub text: String,
}

/// A member of a JSON object.
#[derive(Debug)]
pub struct Member {
    pub key: String,
    pub value: Json,
}

/// A JSON value.
#[derive(Debug)]
pub enum Json {
    Null,
    Bool(bool),
    Number(JsonNumber),
    Text(String),
    Array(Vec<Json>),
    Object(Vec<Member>),
}

/// The model of a JSON number.
pub ghost struct JsonNumberModel {
    pub integer: Option<i64>,
    pub text: Seq<char>,
}

/// The model of a member of a JSON object.
pub ghost struct MemberModel {
    pub key: Seq<char>,
    pub value: JsonModel,
}

/// The model of a JSON value.
pub ghost enum JsonModel {
    Null,
    Bool(bool),
    Number(JsonNumberModel),
    Text(Seq<char>),
    Array(Seq<JsonModel>),
    Object(Seq<MemberModel>),
}

pub open spec fn json_model(value: Json) -> JsonModel
    decreases value,
{
    match value {
        Json::Null => JsonModel::Null,
        Json::Bool(b) => JsonModel::Bool(b),
        Json::Number(number) => JsonModel::Number(
            JsonNumberModel { integer: number.integer, text: number.text@ },
        ),
        Json::Text(text) => JsonModel::Text(text@),
        Json::Array(items) => JsonModel::Array(
            Seq::new(
                items@.len(),
                |i: int|
                    if 0 <= i < items@.len() {
                        json_model(items@[i])
                    } else {
                        JsonModel::Null
                    },
            ),
        ),
        Json::Object(members) => JsonModel::Object(
            Seq::new(
                members@.len(),
                |i: int|
                    if 0 <= i < members@.len() {
                        MemberModel {
                            key: members@[i].key@,
                            value: json_model(members@[i].value),
                        }
                    } else {
                        MemberModel { key: Seq::empty(), value: JsonModel::Null }
                    },
            ),
        ),
    }
}

impl View for Json {
    type V = JsonModel;

    open spec fn view(&self) -> JsonModel {
        json_model(*self)
    }
}

/// The models of a list of values, in order.
pub open spec fn models(items: Seq<Json>) -> Seq<JsonModel> {
    Seq::new(items.len(), |i: int| items[i]@)
}

/// The position of the first member with a key, at or after `from`; the
/// number of members if there is none.
pub open spec fn member_index(members: Seq<MemberModel>, key: Seq<char>, from: int) -> int
    decreases members.len() - from,
{
    if 0 <= from < members.len() {
        if members[from].key == key {
            from
        } else {
            member_index(members, key, from + 1)
        }
    } else {
        members.len() as int
    }
}

/// The value of the first member of an object that has the key.
pub open spec fn json_get(value: JsonModel, key: Seq<char>) -> Option<JsonModel> {
    match value {
        JsonModel::Object(members) => {
            let index = member_index(members, key, 0);
            if 0 <= index < members.len() {
                Some(members[index].value)
            } else {
                None
            }
        },
        _ => None,
    }
}

/// The string that a value is, if it is one.
pub open spec fn json_string(value: JsonModel) -> Option<Seq<char>> {
    match value {
        JsonModel::Text(text) => Some(text),
        _ => None,
    }
}

/// The boolean that a value is, if it is one.
pub open spec fn json_bool(value: JsonModel) -> Option<bool> {
    match value {
        JsonModel::Bool(b) => Some(b),
        _ => None,
    }
}

/// The items of a value, if it is an array.
pub open spec fn json_array(value: JsonModel) -> Option<Seq<JsonModel>> {
    match value {
        JsonModel::Array(items) => Some(items),
        _ => None,
    }
}

/// The integer that a value is, if it is a number with one.
pub open spec fn json_integer(value: JsonModel) -> Option<i64> {
    match value {
        JsonModel::Number(number) => number.integer,
        _ => None,
    }
}

/// The string under a key of an object.
pub open spec fn json_get_string(value: JsonModel, key: Seq<char>) -> Option<Seq<char>> {
    match json_get(value, key) {
        Some(member) => json_string(member),
        None => None,
    }
}

/// The boolean under a key of an object.
pub open spec fn json_get_bool(value: JsonModel, key: Seq<char>) -> Option<bool> {
    match json_get(value, key) {
        Some(member) => json_bool(member),
        None => None,
    }
}

/// The items of the array under a key of an object.
pub open spec fn json_get_array(value: JsonModel, key: Seq<char>) -> Option<Seq<JsonModel>> {
    match json_get(value, key) {
        Some(member) => json_array(member),
        None => None,
    }
}

/// The position of the first member of the value itself with a key, at
/// or after `from`; the number of members if there is none.
pub open spec fn own_member_index(members: Seq<Member>, key: Seq<char>, from: int) -> int
    decreases members.len() - from,
{
    if 0 <= from < members.len() {
        if members[from].key@ == key {
            from
        } else {
            own_member_index(members, key, from + 1)
        }
    } else {
        members.len() as int
    }
}

/// The member of the value itself that stands under a key.
pub open spec fn own_member(value: Json, key: Seq<char>) -> Option<Json> {
    match value {
        Json::Object(members) => {
            let index = own_member_index(members@, key, 0);
            if 0 <= index < members@.len() {
                Some(members@[index].value)
            } else {
                None
            }
        },
        _ => None,
    }
}

/// The items of the value itself, if it is an array.
pub open spec fn own_items(value: Json) -> Option<Seq<Json>> {
    match value {
        Json::Array(items) => Some(items@),
        _ => None,
    }
}

proof fn lemma_member_index_of_model(members: Vec<Member>, key: Seq<char>, from: int)
    requires
        0 <= from <= members@.len(),
    ensures
        json_model(Json::Object(members)) matches JsonModel::Object(listed) && member_index(
            listed,
            key,
            from,
        ) == own_member_index(members@, key, from),
    decreases members@.len() - from,
{
    if from < members@.len() {
        lemma_member_index_of_model(members, key, from + 1);
    }
}

/// The member under a key of a value is, in the model, the member under
/// that key of the value's model.
pub proof fn lemma_member_of_model(value: Json, key: Seq<char>)
    ensures
        match own_member(value, key) {
            Some(member) => json_get(value@, key) == Some(member@),
            None => json_get(value@, key) is None,
        },
{
    match value {
        Json::Object(members) => {
            lemma_member_index_of_model(members, key, 0);
        },
        _ => {},
    }
}

impl Json {
    pub fn is_object(&self) -> (r: bool)
        ensures
            r == (self is Object),
            r == (self@ is Object),
    {
        match self {
            Json::Object(_) => true,
            _ => false,
        }
    }

    pub fn is_number(&self) -> (r: bool)
        ensures
            r == (self is Number),
            r == (self@ is Number),
    {
        match self {
            Json::Number(_) => true,
            _ => false,
        }
    }

    pub fn is_null(&self) -> (r: bool)
        ensures
            r == (self is Null),
            r == (self@ is Null),
    {
        match self {
            Json::Null => true,
            _ => false,
        }
    }

    pub fn as_str(&self) -> (r: Option<&String>)
        ensures
            match r {
                Some(text) => json_string(self@) == Some(text@) && *self == Json::Text(*text),
                None => json_string(self@) is None,
            },
    {
        match self {
            Json::Text(text) => Some(text),
            _ => None,
        }
    }

    pub fn as_bool(&self) -> (r: Option<bool>)
        ensures
            r == json_bool(self@),
    {
        match self {
            Json::Bool(b) => Some(*b),
            _ => None,
        }
    }

    pub fn as_i64(&self) -> (r: Option<i64>)
        ensures
            r == json_integer(self@),
    {
        match self {
            Json::Number(number) => number.integer,
            _ => None,
        }
    }

    pub fn as_array(&self) -> (r: Option<&Vec<Json>>)
        ensures
            match r {
                Some(items) => json_array(self@) == Some(models(items@)) && *self == Json::Array(
                    *items,
                ),
                None => json_array(self@) is None,
            },
    {
        match self {
            Json::Array(items) => {
                assert(self@->Array_0 =~= models(items@));
                Some(items)
            },
            _ => None,
        }
    }

    /// The value under a key, if this is an object that has the key.
    pub fn get(&self, key: &str) -> (r: Option<&Json>)
        ensures
            match r {
                Some(member) => own_member(*self, key@) == Some(*member) && json_get(self@, key@)
                    == Some(member@),
                None => own_member(*self, key@) is None && json_get(self@, key@) is None,
            },
    {
        match self {
            Json::Object(members) => {
                let mut i: usize = 0;
                while i < members.len()
                    invariant
                        i <= members@.len(),
                        *self == Json::Object(*members),
                        own_member_index(members@, key@, 0) == own_member_index(
                            members@,
                            key@,
                            i as int,
                        ),
                    decreases members@.len() - i,
                {
                    if text_eq(members[i].key.as_str(), key) {
                        proof {
                            lemma_member_of_model(*self, key@);
                        }
                        return Some(&members[i].value);
                    }
                    i += 1;
                }
                proof {
                    lemma_member_of_model(*self, key@);
                }
                None
            },
            _ => None,
        }
    }

    /// The string under a key.
    pub fn get_str(&self, key: &str) -> (r: Option<&String>)
        ensures
            match r {
                Some(text) => json_get_string(self@, key@) == Some(text@),
                None => json_get_string(self@, key@) is None,
            },
    {
        match self.get(key) {
            Some(member) => member.as_str(),
            None => None,
        }
    }

    /// The boolean under a key.
    pub fn get_bool(&self, key: &str) -> (r: Option<bool>)
        ensures
            r == json_get_bool(self@, key@),
    {
        match self.get(key) {
            Some(member) => member.as_bool(),
            None => None,
        }
    }

    /// The array under a key.
    pub fn get_array(&self, key: &str) -> (r: Option<&Vec<Json>>)
        ensures
            match r {
                Some(items) => json_get_array(self@, key@) == Some(models(items@)) && own_member(
                    *self,
                    key@,
                ) == Some(Json::Array(*items)),
                None => json_get_array(self@, key@) is None,
            },
    {
        match self.get(key) {
            Some(member) => member.as_array(),
            None => None,
        }
    }
}

/// A value under a key of an object is smaller than the object.
pub proof fn lemma_get_decreases(value: Json, key: Seq<char>)
    ensures
        own_member(value, key) matches Some(member) ==> decreases_to!(value => member),
{
    match value {
        Json::Object(members) => {
            let index = own_member_index(members@, key, 0);
            if 0 <= index < members@.len() {
                assert(decreases_to!(value => members));
                assert(decreases_to!(members => members@));
                assert(decreases_to!(members@ => members@[index]));
                assert(decreases_to!(members@[index] => members@[index].value));
            }
        },
        _ => {},
    }
}

/// An item of an array is smaller than the array.
pub proof fn lemma_item_decreases(value: Json, index: int)
    ensures
        own_items(value) matches Some(items) ==> (0 <= index < items.len() ==> decreases_to!(value => items[index])),
{
    match value {
        Json::Array(items) => {
            if 0 <= index < items@.len() {
                assert(decreases_to!(value => items));
                assert(decreases_to!(items => items@));
                assert(decreases_to!(items@ => items@[index]));
            }
        },
        _ => {},
    }
}

#[verifier::external_type_specification]
#[verifier::external_body]
pub struct ExValue(serde_json::Value);

/// What `serde_json` reads a text as: the value, or nothing where the
/// text is no JSON.
pub uninterp spec fn json_of_text(text: Seq<char>) -> Option<JsonModel>;

/// Turns a `serde_json::Value` into a `Json`, variant by variant. For a
/// number it asks `Number::as_i64` and `Number::to_string`. Nothing is
/// stated of the result.
#[verifier::external_body]
pub(crate) fn json_from_value(value: &serde_json::Value) -> Json {
    match value {
        serde_json::Value::Null => Json::Null,
        serde_json::Value::Bool(b) => Json::Bool(*b),
        serde_json::Value::Number(n) => Json::Number(JsonNumber { integer: n.as_i64(), text: n.to_string() }),
        serde_json::Value::String(s) => Json::Text(s.clone()),
        serde_json::Value::Array(items) => Json::Array(items.iter().map(json_from_value).collect()),
        serde_json::Value::Object(map) => Json::Object(
            map.iter().map(|(k, v)| Member { key: k.clone(), value: json_from_value(v) }).collect(),
        ),
    }
}

/// Calls `serde_json::from_str`. The contract only gives the result its
/// name: what is read depends on the text alone.
#[verifier::external_body]
fn read_json(text: &str) -> (r: Option<Json>)
    ensures
        match r {
            Some(value) => json_of_text(text@) == Some(value@),
            None => json_of_text(text@) is None,
        },
{
    serde_json::from_str::<serde_json::Value>(text).ok().map(|value| json_from_value(&value))
}

/// Reads a text as JSON; nothing where the text is none.
pub fn parse_json(text: &str) -> (r: Option<Json>)
    ensures
        match r {
            Some(value) => json_of_text(text@) == Some(value@),
            None => json_of_text(text@) is None,
        },
{
    read_json(text)
}

} // verus!
