//! JSON documents as the sidecar protocol reads and writes them.

use vstd::prelude::*;

verus! {

/// What a JSON document says, apart from how it is spelled.
///
/// `Integer` covers the numbers that are kept exactly, `Real` the others, by
/// the bit pattern of their binary64 value.
#[verifier::ext_equal]
pub enum Json {
    Null,
    Bool(bool),
    Integer(int),
    Real(u64),
    Text(Seq<char>),
    Array(Seq<Json>),
    Object(Map<Seq<char>, Json>),
}

impl Json {
    /// The member under `key`; `Null` where there is none.
    pub open spec fn field(self, key: Seq<char>) -> Json {
        match self {
            Json::Object(members) => if members.contains_key(key) {
                members[key]
            } else {
                Json::Null
            },
            _ => Json::Null,
        }
    }

    /// The characters of a string; `None` for anything else.
    pub open spec fn text(self) -> Option<Seq<char>> {
        match self {
            Json::Text(chars) => Some(chars),
            _ => None,
        }
    }

    /// The value of a number that is a whole number from 0 to `u64::MAX`.
    pub open spec fn count(self) -> Option<u64> {
        match self {
            Json::Integer(n) => if 0 <= n <= u64::MAX {
                Some(n as u64)
            } else {
                None
            },
            _ => None,
        }
    }

    /// The elements of an array; `None` for anything else.
    pub open spec fn items(self) -> Option<Seq<Json>> {
        match self {
            Json::Array(items) => Some(items),
            _ => None,
        }
    }

    /// An object with the member `value` under `key` and its other members
    /// unchanged; `self` where it is no object.
    pub open spec fn with(self, key: Seq<char>, value: Json) -> Json {
        match self {
            Json::Object(members) => Json::Object(members.insert(key, value)),
            _ => self,
        }
    }

    /// Whether `self` holds no `Real` and nests at most `depth` arrays and
    /// objects in one another.
    pub open spec fn is_exact(self, depth: nat) -> bool
        decreases depth,
    {
        match self {
            Json::Real(_) => false,
            Json::Array(items) => depth > 0 && forall|i: int|
                0 <= i < items.len() ==> (#[trigger] items[i]).is_exact((depth - 1) as nat),
            Json::Object(members) => depth > 0 && forall|key: Seq<char>|
                members.contains_key(key) ==> (#[trigger] members[key]).is_exact(
                    (depth - 1) as nat,
                ),
            _ => true,
        }
    }
}

/// `serde_json::Value` is carried as it is; [`document`] says what it holds.
#[verifier::external_type_specification]
#[verifier::external_body]
pub struct ExValue(serde_json::Value);

/// `serde_json::Error` is only told apart from a value.
#[verifier::external_type_specification]
#[verifier::external_body]
pub struct ExError(serde_json::Error);

/// The document that a `serde_json::Value` holds.
pub uninterp spec fn document(value: serde_json::Value) -> Json;

/// The document that `serde_json::from_str` reads from a text as a `Value`;
/// `None` where it reports an error.
pub uninterp spec fn parsed(text: Seq<char>) -> Option<Json>;

/// The compact text that `Value`'s `Display` writes for a document.
pub uninterp spec fn printed(json: Json) -> Seq<char>;

/// The documents that the values in `list` hold.
pub open spec fn documents(list: Seq<serde_json::Value>) -> Seq<Json> {
    list.map_values(|value: serde_json::Value| document(value))
}

/// `serde_json::from_str`, read as a `Value`: whether it succeeds, and on what
/// document, depends on the text alone.
#[verifier::external_body]
pub(crate) fn parse(text: &str) -> (result: Result<serde_json::Value, serde_json::Error>)
    ensures
        match result {
            Ok(value) => parsed(text@) == Some(document(value)),
            Err(_) => parsed(text@) is None,
        },
{
    serde_json::from_str(text)
}

/// `Value`'s index operator with a string: the member under that key of an
/// object, and `Null` where there is no such member or no object.
#[verifier::external_body]
pub(crate) fn field<'a>(value: &'a serde_json::Value, key: &str) -> (member: &'a serde_json::Value)
    ensures
        document(*member) == document(*value).field(key@),
{
    &value[key]
}

/// `Value::as_str` gives the characters of a string and `None` for anything
/// else.
pub assume_specification[ serde_json::Value::as_str ](value: &serde_json::Value) -> (result: Option<
    &str,
>)
    ensures
        match result {
            Some(text) => document(*value).text() == Some(text@),
            None => document(*value).text() is None,
        },
;

/// `Value::as_u64` gives the value of a number that is a whole number from 0
/// to `u64::MAX`, kept as such, and `None` for anything else.
pub assume_specification[ serde_json::Value::as_u64 ](value: &serde_json::Value) -> (result: Option<
    u64,
>)
    ensures
        result == document(*value).count(),
;

/// `Value::as_array` gives the elements of an array and `None` for anything
/// else.
pub assume_specification[ serde_json::Value::as_array ](
    value: &serde_json::Value,
) -> (result: Option<&Vec<serde_json::Value>>)
    ensures
        match result {
            Some(items) => document(*value).items() == Some(documents(items@)),
            None => document(*value).items() is None,
        },
;

/// `Value`'s `Clone` gives a value that holds the same document.
pub assume_specification[ <serde_json::Value as Clone>::clone ](
    value: &serde_json::Value,
) -> (copy: serde_json::Value)
    ensures
        document(copy) == document(*value),
;

/// `Value::default` is `Null`.
#[verifier::external_body]
pub(crate) fn null() -> (value: serde_json::Value)
    ensures
        document(value) == Json::Null,
{
    serde_json::Value::default()
}

/// `Value::from` on a string slice is a string with its characters.
#[verifier::external_body]
pub(crate) fn string(text: &str) -> (value: serde_json::Value)
    ensures
        document(value) == Json::Text(text@),
{
    serde_json::Value::from(text)
}

/// `Value::from` on a `u64` is that number, kept as a whole number.
#[verifier::external_body]
pub(crate) fn integer(n: u64) -> (value: serde_json::Value)
    ensures
        document(value) == Json::Integer(n as int),
{
    serde_json::Value::from(n)
}

/// `Value::from` on a `serde_json::Map` without members is an object without
/// members.
#[verifier::external_body]
pub(crate) fn empty_object() -> (value: serde_json::Value)
    ensures
        document(value) == Json::Object(Map::empty()),
{
    serde_json::Value::from(serde_json::Map::new())
}

/// Assignment through `Value`'s index operator with a string: sets the member
/// under that key, whether it was there or not. The operator panics on
/// anything but an object and `Null`.
#[verifier::external_body]
pub(crate) fn put(object: &mut serde_json::Value, key: &str, value: serde_json::Value)
    requires
        document(*old(object)) is Object,
    ensures
        document(*final(object)) == document(*old(object)).with(key@, document(value)),
{
    object[key] = value;
}

/// `Value`'s `Display`, which writes compact JSON. It escapes every control
/// character in a string and writes none between tokens. `from_str` reads the
/// document back, except that it may round a `Real` and that it refuses more
/// than 127 levels.
#[verifier::external_body]
pub(crate) fn print(value: &serde_json::Value) -> (text: String)
    ensures
        text@ == printed(document(*value)),
        forall|i: int| 0 <= i < text@.len() ==> #[trigger] text@[i] >= ' ',
        document(*value).is_exact(100) ==> parsed(text@) == Some(document(*value)),
{
    value.to_string()
}

} // verus!
