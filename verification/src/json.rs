//! JSON documents: the tree that a `serde_json::Value` holds, and the calls
//! into `serde_json` that read, build and parse such values.

use serde_json::Value;
use vstd::prelude::*;

use crate::text::decimal_text;
use crate::text::stands_before;
use crate::text::texts;

verus! {

#[verifier::external_type_specification]
#[verifier::external_body]
pub struct ExValue(serde_json::Value);

#[verifier::external_type_specification]
#[verifier::external_body]
#[verifier::reject_recursive_types(K)]
#[verifier::reject_recursive_types(V)]
pub struct ExObject<K, V>(serde_json::Map<K, V>);

/// A JSON document as a tree. A number is given by the text that it is written
/// as, and an object by its fields.
pub ghost enum Json {
    Null,
    Bool(bool),
    Number(Seq<char>),
    Text(Seq<char>),
    Array(Seq<Json>),
    Object(Map<Seq<char>, Json>),
}

/// A name for the tree that a `serde_json::Value` holds.
pub uninterp spec fn json_of(value: serde_json::Value) -> Json;

/// A name for the fields that a `serde_json::Map` holds.
pub uninterp spec fn fields_of(object: serde_json::Map<String, Value>) -> Map<Seq<char>, Json>;

/// A name for what `serde_json::from_str` makes of a text: the document, or
/// the words of the error.
pub uninterp spec fn parsed_json(text: Seq<char>) -> Result<Json, Seq<char>>;

/// A name for the text that a string is shown as in quotes, with escapes, by
/// its `Debug` format.
pub uninterp spec fn quoted_text(text: Seq<char>) -> Seq<char>;

/// Whether the text of a number is that of a floating-point number: these are
/// written with a point or an exponent, integers with neither.
pub open spec fn is_float_text(number: Seq<char>) -> bool {
    number.contains('.') || number.contains('e')
}

/// The words for a document of an unexpected type in a refusal.
pub open spec fn type_words(document: Json) -> Seq<char> {
    match document {
        Json::Null => "null"@,
        Json::Bool(true) => "boolean `true`"@,
        Json::Bool(false) => "boolean `false`"@,
        Json::Number(number) => if is_float_text(number) {
            "floating point `"@ + number + "`"@
        } else {
            "integer `"@ + number + "`"@
        },
        Json::Text(text) => "string "@ + quoted_text(text),
        Json::Array(_) => "sequence"@,
        Json::Object(_) => "map"@,
    }
}

/// The refusal of a document whose type is not the expected one.
pub open spec fn type_refusal(document: Json, expected: Seq<char>) -> Seq<char> {
    "invalid type: "@ + type_words(document) + ", expected "@ + expected
}

/// The refusal of the first item of a list that is no string.
pub open spec fn item_refusal(items: Seq<Json>) -> Seq<char>
    decreases items.len(),
{
    if items.len() == 0 {
        Seq::empty()
    } else if items[0] !is Text {
        type_refusal(items[0], "a string"@)
    } else {
        item_refusal(items.drop_first())
    }
}

/// The refusal of a document that is no list of strings.
pub open spec fn string_list_refusal(document: Json) -> Seq<char> {
    match document {
        Json::Array(items) => item_refusal(items),
        _ => type_refusal(document, "a sequence"@),
    }
}

/// The refusal of a document that is no string.
pub open spec fn string_refusal(document: Json) -> Seq<char> {
    type_refusal(document, "a string"@)
}

impl Json {
    /// The field of an object, where the document is one and has it.
    pub open spec fn field(self, key: Seq<char>) -> Option<Json> {
        match self {
            Json::Object(fields) => field_of(fields, key),
            _ => None,
        }
    }

    /// Whether the document is a list of strings.
    pub open spec fn is_string_list(self) -> bool {
        match self {
            Json::Array(items) => forall|i: int|
                0 <= i < items.len() ==> (#[trigger] items[i]) is Text,
            _ => false,
        }
    }

    /// The strings of a list of strings.
    pub open spec fn string_list(self) -> Seq<Seq<char>> {
        self->Array_0.map_values(|item: Json| item->Text_0)
    }
}

/// The fields of an empty object.
pub open spec fn no_fields() -> Map<Seq<char>, Json> {
    Map::empty()
}

/// The field of an object with a given key, where there is one.
pub open spec fn field_of(fields: Map<Seq<char>, Json>, key: Seq<char>) -> Option<Json> {
    if fields.contains_key(key) {
        Some(fields[key])
    } else {
        None
    }
}

/// Calls `serde_json::from_str`. What it makes of a text goes by the name
/// `parsed_json`.
#[verifier::external_body]
pub(crate) fn parse_json(text: &str) -> (parsed: Result<Value, String>)
    ensures
        match parsed {
            Ok(value) => parsed_json(text@) == Ok::<Json, Seq<char>>(json_of(value)),
            Err(words) => parsed_json(text@) == Err::<Json, Seq<char>>(words@),
        },
{
    serde_json::from_str(text).map_err(|error: serde_json::Error| error.to_string())
}

/// Calls `Value::get` with a key: the field of that key, where the value is an
/// object that has it.
#[verifier::external_body]
pub(crate) fn get<'a>(value: &'a Value, key: &str) -> (found: Option<&'a Value>)
    ensures
        match found {
            Some(field) => json_of(*value).field(key@) == Some(json_of(*field)),
            None => json_of(*value).field(key@) is None,
        },
{
    value.get(key)
}

/// Calls `Value::as_object`: the object that the value holds, where it holds
/// one.
#[verifier::external_body]
pub(crate) fn as_object(value: &Value) -> (found: Option<&serde_json::Map<String, Value>>)
    ensures
        match found {
            Some(object) => json_of(*value) == Json::Object(fields_of(*object)),
            None => json_of(*value) !is Object,
        },
{
    value.as_object()
}

/// Calls `Value::as_object_mut`: the object that the value holds, where it
/// holds one; the value then holds what becomes of that object.
#[verifier::external_body]
pub(crate) fn as_object_mut(value: &mut Value) -> (found: Option<
    &mut serde_json::Map<String, Value>,
>)
    ensures
        found matches Some(object) ==> {
            &&& json_of(*old(value)) == Json::Object(fields_of(*object))
            &&& json_of(*final(value)) == Json::Object(fields_of(*final(object)))
        },
        found is None ==> {
            &&& json_of(*old(value)) !is Object
            &&& json_of(*final(value)) == json_of(*old(value))
        },
{
    value.as_object_mut()
}

/// Calls `Value::as_array`: the items of the array that the value holds, where
/// it holds one.
#[verifier::external_body]
pub(crate) fn as_array(value: &Value) -> (found: Option<&Vec<Value>>)
    ensures
        match found {
            Some(items) => json_of(*value) == Json::Array(
                items@.map_values(|item: Value| json_of(item)),
            ),
            None => json_of(*value) !is Array,
        },
{
    value.as_array()
}

/// Calls `Value::as_str`: the string that the value holds, where it holds one.
#[verifier::external_body]
pub(crate) fn as_str(value: &Value) -> (found: Option<&str>)
    ensures
        match found {
            Some(text) => json_of(*value) == Json::Text(text@),
            None => json_of(*value) !is Text,
        },
{
    value.as_str()
}

/// Calls `serde_json::from_value` for a list of strings, which takes an array
/// of strings and nothing else. It refuses another document for its type, and
/// an array for the type of its first item that is no string. How a string is
/// shown in a refusal goes by the name `quoted_text`.
#[verifier::external_body]
pub(crate) fn read_string_list(value: &Value) -> (read: Result<Vec<String>, String>)
    ensures
        match read {
            Ok(list) => json_of(*value).is_string_list() && texts(list@) == json_of(
                *value,
            ).string_list(),
            Err(words) => match json_of(*value) {
                Json::Text(text) => words@ == "invalid type: "@ + ("string "@ + quoted_text(text))
                    + ", expected "@ + "a sequence"@,
                document => !document.is_string_list() && words@ == string_list_refusal(document),
            },
        },
{
    serde_json::from_value(value.clone()).map_err(|error: serde_json::Error| error.to_string())
}

/// Calls `serde_json::from_value` for a string, which takes a string and
/// nothing else. It refuses another document for its type.
#[verifier::external_body]
pub(crate) fn read_string(value: &Value) -> (read: Result<String, String>)
    ensures
        match read {
            Ok(text) => json_of(*value) == Json::Text(text@),
            Err(words) => json_of(*value) !is Text && words@ == string_refusal(json_of(*value)),
        },
{
    serde_json::from_value(value.clone()).map_err(|error: serde_json::Error| error.to_string())
}

/// Calls `serde_json::Map::get`: the field of a key, where there is one.
#[verifier::external_body]
pub(crate) fn get_field<'a>(object: &'a serde_json::Map<String, Value>, key: &str) -> (found:
    Option<&'a Value>)
    ensures
        match found {
            Some(field) => field_of(fields_of(*object), key@) == Some(json_of(*field)),
            None => field_of(fields_of(*object), key@) is None,
        },
{
    object.get(key)
}

/// Calls `serde_json::Map::keys`, which walks the backing `BTreeMap`: every
/// key of the object once, in ascending order.
#[verifier::external_body]
pub(crate) fn keys(object: &serde_json::Map<String, Value>) -> (list: Vec<String>)
    ensures
        forall|key: Seq<char>|
            #[trigger] fields_of(*object).contains_key(key) <==> texts(list@).contains(key),
        forall|i: int, j: int|
            0 <= i < j < list@.len() ==> stands_before(#[trigger] list@[i]@, #[trigger] list@[j]@),
{
    object.keys().cloned().collect()
}

/// Calls `serde_json::Map::new`: an object without fields.
#[verifier::external_body]
pub(crate) fn new_object() -> (object: serde_json::Map<String, Value>)
    ensures
        fields_of(object) == no_fields(),
{
    serde_json::Map::new()
}

/// Calls `serde_json::Map::insert`: the object gains a field, or the field of
/// that key gets a new value.
#[verifier::external_body]
pub(crate) fn insert(object: &mut serde_json::Map<String, Value>, key: String, value: Value)
    ensures
        fields_of(*final(object)) == fields_of(*old(object)).insert(key@, json_of(value)),
{
    object.insert(key, value);
}

/// Calls `serde_json::Map::clone`: an object with the same fields.
#[verifier::external_body]
pub(crate) fn clone_object(object: &serde_json::Map<String, Value>) -> (copy: serde_json::Map<
    String,
    Value,
>)
    ensures
        fields_of(copy) == fields_of(*object),
{
    object.clone()
}

/// Calls `Value::from` on a string.
#[verifier::external_body]
pub(crate) fn text_value(text: String) -> (value: Value)
    ensures
        json_of(value) == Json::Text(text@),
{
    Value::from(text)
}

/// Calls `Value::from` on a number, which is written in decimal.
#[verifier::external_body]
pub(crate) fn number_value(number: u64) -> (value: Value)
    ensures
        json_of(value) == Json::Number(decimal_text(number as nat)),
{
    Value::from(number)
}

/// Calls `Value::from` on an object.
#[verifier::external_body]
pub(crate) fn object_value(object: serde_json::Map<String, Value>) -> (value: Value)
    ensures
        json_of(value) == Json::Object(fields_of(object)),
{
    Value::from(object)
}

/// Calls `Value::default`, which is null.
#[verifier::external_body]
pub(crate) fn null_value() -> (value: Value)
    ensures
        json_of(value) == Json::Null,
{
    Value::default()
}

/// A text field for an object.
pub(crate) fn put_text(object: &mut serde_json::Map<String, Value>, key: &str, text: &str)
    ensures
        fields_of(*final(object)) == fields_of(*old(object)).insert(key@, Json::Text(text@)),
{
    insert(object, key.to_owned(), text_value(text.to_owned()));
}

/// A refusal names the type of what it refuses, with the value of booleans,
/// numbers and strings, and then what was expected.
pub proof fn refusal_names_the_type(document: Json, expected: Seq<char>)
    ensures
        ({
            let refusal = type_refusal(document, expected);
            let end = ", expected "@ + expected;
            match document {
                Json::Null => refusal == "invalid type: "@ + "null"@ + end,
                Json::Bool(value) => refusal == "invalid type: "@ + (if value {
                    "boolean `true`"@
                } else {
                    "boolean `false`"@
                }) + end,
                Json::Number(number) => refusal == "invalid type: "@ + (if number.contains('.')
                    || number.contains('e') {
                    "floating point `"@
                } else {
                    "integer `"@
                }) + number + "`"@ + end,
                Json::Text(text) => refusal == "invalid type: "@ + "string "@ + quoted_text(text)
                    + end,
                Json::Array(_) => refusal == "invalid type: "@ + "sequence"@ + end,
                Json::Object(_) => refusal == "invalid type: "@ + "map"@ + end,
            }
        }),
{
    let refusal = type_refusal(document, expected);
    let end = ", expected "@ + expected;
    assert(refusal =~= "invalid type: "@ + type_words(document) + end);
    match document {
        Json::Number(number) => {
            let kind = if is_float_text(number) {
                "floating point `"@
            } else {
                "integer `"@
            };
            assert("invalid type: "@ + type_words(document) + end =~= "invalid type: "@ + kind
                + number + "`"@ + end);
        },
        Json::Text(text) => {
            assert("invalid type: "@ + type_words(document) + end =~= "invalid type: "@
                + "string "@ + quoted_text(text) + end);
        },
        _ => {},
    }
}

/// A list is refused for its first item that is no string, and any other
/// document for its own type.
pub proof fn list_is_refused_for_its_first_bad_item(items: Seq<Json>, bad: int, document: Json)
    requires
        0 <= bad < items.len(),
        items[bad] !is Text,
        forall|i: int| 0 <= i < bad ==> (#[trigger] items[i]) is Text,
    ensures
        string_list_refusal(Json::Array(items)) == type_refusal(items[bad], "a string"@),
        document !is Array ==> string_list_refusal(document) == type_refusal(
            document,
            "a sequence"@,
        ),
        string_refusal(document) == type_refusal(document, "a string"@),
    decreases items.len(),
{
    if bad > 0 {
        let rest = items.drop_first();
        assert(rest[bad - 1] == items[bad]);
        assert forall|i: int| 0 <= i < bad - 1 implies (#[trigger] rest[i]) is Text by {
            assert(rest[i] == items[i + 1]);
        }
        assert(items[0] is Text);
        list_is_refused_for_its_first_bad_item(rest, bad - 1, document);
    }
}

}
