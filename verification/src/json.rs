//! A plain model of JSON values, the parse call into serde_json, and the
//! lookups that the rest of the library makes on parsed replies.
use vstd::prelude::*;

verus! {

/// A JSON number as serde_json holds it: a non-negative integer that fits in
/// `u64`, a negative integer that fits in `i64`, or anything else, which
/// serde_json keeps as a float (its value is not kept here).
#[derive(Clone, Copy, Debug, PartialEq, Eq, Structural)]
pub enum JsonNumber {
    PosInt(u64),
    NegInt(i64),
    Float,
}

/// A parsed JSON value. Object members keep the order in which the parser
/// hands them out (serde_json sorts them by key).
#[derive(Debug)]
pub enum Json {
    Null,
    Bool(bool),
    Number(JsonNumber),
    Str(String),
    Array(Vec<Json>),
    Object(Vec<(String, Json)>),
}

#[verifier::external_type_specification]
#[verifier::external_body]
pub struct ExSerdeJsonValue(serde_json::Value);

/// Name for what `serde_json::from_str::<serde_json::Value>` makes of a text:
/// the value, or the text of the error it reports.
pub uninterp spec fn json_parse(text: Seq<char>) -> Result<Json, Seq<char>>;

/// Converts a `serde_json::Value` one for one into the library's `Json`:
/// each variant to the variant of the same name, numbers by `as_u64`, then
/// `as_i64`, else `Float`, and object members in the map's own order.
#[verifier::external_body]
fn json_from_value(v: serde_json::Value) -> Json {
    match v {
        serde_json::Value::Null => Json::Null,
        serde_json::Value::Bool(b) => Json::Bool(b),
        serde_json::Value::Number(n) => Json::Number(
            n.as_u64().map(JsonNumber::PosInt).or(n.as_i64().map(JsonNumber::NegInt)).unwrap_or(
                JsonNumber::Float,
            ),
        ),
        serde_json::Value::String(s) => Json::Str(s),
        serde_json::Value::Array(a) => Json::Array(a.into_iter().map(json_from_value).collect()),
        serde_json::Value::Object(m) => Json::Object(
            m.into_iter().map(|(k, x)| (k, json_from_value(x))).collect(),
        ),
    }
}

/// A value that serde_json decoded elsewhere (an HTTP client's body
/// decoding, say), converted as `json_from_value` converts a parsed one.
pub fn json_of_value(v: serde_json::Value) -> Json {
    json_from_value(v)
}

/// `serde_json::from_str::<serde_json::Value>`: parses `text` as one JSON
/// value. The outcome is named by `json_parse` (the error as its `Display`
/// text); the source shows that an empty text is always an error (it ends
/// while a value is expected).
#[verifier::external_body]
pub(crate) fn parse_json(text: &str) -> (r: Result<Json, String>)
    ensures
        match r {
            Ok(v) => json_parse(text@) == Ok::<Json, Seq<char>>(v),
            Err(e) => json_parse(text@) == Err::<Json, Seq<char>>(e@),
        },
        text@.len() == 0 ==> r is Err,
{
    match serde_json::from_str::<serde_json::Value>(text) {
        Ok(v) => Ok(json_from_value(v)),
        Err(e) => Err(e.to_string()),
    }
}

/// The value that `parse_json` gives back, as a spec value.
pub open spec fn parse_result(text: Seq<char>) -> Option<Json> {
    match json_parse(text) {
        Ok(v) => Some(v),
        Err(_) => None,
    }
}

// ---------------------------------------------------------------------------
// Lookups (`value["key"]`, `as_str`, `as_u64`, `as_array`)
// ---------------------------------------------------------------------------

/// The value of the first member named `key` among `es`.
pub open spec fn lookup(es: Seq<(String, Json)>, key: Seq<char>) -> Option<Json>
    decreases es.len(),
{
    if es.len() == 0 {
        None
    } else if es[0].0@ == key {
        Some(es[0].1)
    } else {
        lookup(es.drop_first(), key)
    }
}

/// `value[key]`: the member `key` of an object, and `Null` for a missing
/// member or a value that is not an object.
pub open spec fn member(v: Json, key: Seq<char>) -> Json {
    match v {
        Json::Object(es) => match lookup(es@, key) {
            Some(x) => x,
            None => Json::Null,
        },
        _ => Json::Null,
    }
}

/// `as_str`: the text of a string value.
pub open spec fn as_text(v: Json) -> Option<Seq<char>> {
    match v {
        Json::Str(s) => Some(s@),
        _ => None,
    }
}

/// `as_u64`: a non-negative integer kept as such.
pub open spec fn as_unsigned(v: Json) -> Option<u64> {
    match v {
        Json::Number(JsonNumber::PosInt(u)) => Some(u),
        _ => None,
    }
}

proof fn lemma_lookup_skip(es: Seq<(String, Json)>, key: Seq<char>, i: int)
    requires
        0 <= i < es.len(),
        es[i].0@ != key,
    ensures
        lookup(es.skip(i), key) == lookup(es.skip(i + 1), key),
{
    assert(es.skip(i).drop_first() =~= es.skip(i + 1));
}

/// `value[key]`, borrowed: `None` stands for the `Null` that a missing
/// member reads as.
pub fn get_member<'a>(v: &'a Json, key: &str) -> (r: Option<&'a Json>)
    ensures
        match r {
            Some(x) => member(*v, key@) == *x && (*v is Object),
            None => member(*v, key@) == Json::Null && (v matches Json::Object(es) ==> lookup(
                es@,
                key@,
            ) is None),
        },
{
    match v {
        Json::Object(es) => {
            let mut i: usize = 0;
            assert(es@.skip(0) =~= es@);
            while i < es.len()
                invariant
                    i <= es@.len(),
                    *v == Json::Object(*es),
                    lookup(es@, key@) == lookup(es@.skip(i as int), key@),
                decreases es.len() - i,
            {
                if crate::text::str_equal(es[i].0.as_str(), key) {
                    assert(es@.skip(i as int)[0] == es@[i as int]);
                    assert(lookup(es@.skip(i as int), key@) == Some(es@[i as int].1));
                    return Some(&es[i].1);
                }
                proof {
                    lemma_lookup_skip(es@, key@, i as int);
                }
                i = i + 1;
            }
            None
        },
        _ => None,
    }
}

/// `value[key].as_str()`.
pub fn member_text<'a>(v: &'a Json, key: &str) -> (r: Option<&'a String>)
    ensures
        match r {
            Some(s) => as_text(member(*v, key@)) == Some(s@),
            None => as_text(member(*v, key@)) is None,
        },
{
    match get_member(v, key) {
        Some(Json::Str(s)) => Some(s),
        _ => None,
    }
}

/// `value[key].as_u64()`.
pub fn member_unsigned(v: &Json, key: &str) -> (r: Option<u64>)
    ensures
        r == as_unsigned(member(*v, key@)),
{
    match get_member(v, key) {
        Some(Json::Number(JsonNumber::PosInt(u))) => Some(*u),
        _ => None,
    }
}

// ---------------------------------------------------------------------------
// Locating the question array
// ---------------------------------------------------------------------------

/// The first non-empty array found in `v`: `v` itself when it is one, else,
/// for an object, the first found in its members' values, in order.
pub open spec fn find_array(v: Json) -> Option<Seq<Json>>
    decreases v, 0int,
{
    match v {
        Json::Array(a) => if a@.len() > 0 {
            Some(a@)
        } else {
            None
        },
        Json::Object(es) => {
            proof {
                assert(decreases_to!(v => es));
                assert(decreases_to!(es => es@));
            }
            find_in_members(es@, 0)
        },
        _ => None,
    }
}

/// The first non-empty array found in the values of `es[i..]`.
pub open spec fn find_in_members(es: Seq<(String, Json)>, i: int) -> Option<Seq<Json>>
    decreases es, es.len() - i,
{
    if 0 <= i < es.len() {
        proof {
            assert(decreases_to!(es => es[i]));
            assert(decreases_to!(es[i] => es[i].1));
        }
        match find_array(es[i].1) {
            Some(a) => Some(a),
            None => find_in_members(es, i + 1),
        }
    } else {
        None
    }
}

/// Finds the first array of question-shaped objects inside a JSON value:
/// the value itself when it is a non-empty array, else the first one nested
/// in an object's members (models sometimes wrap the array in an object,
/// such as `{"questions": [...]}`).
pub fn find_question_array(value: &Json) -> (r: Option<&Vec<Json>>)
    ensures
        match r {
            Some(a) => find_array(*value) == Some(a@),
            None => find_array(*value) is None,
        },
    decreases *value,
{
    match value {
        Json::Array(arr) => {
            if arr.len() > 0 {
                return Some(arr);
            }
            None
        },
        Json::Object(es) => {
            let mut i: usize = 0;
            while i < es.len()
                invariant
                    i <= es@.len(),
                    *value == Json::Object(*es),
                    find_array(*value) == find_in_members(es@, i as int),
                decreases es.len() - i,
            {
                proof {
                    assert(decreases_to!(*value => *es));
                    assert(decreases_to!(*es => es@));
                    assert(decreases_to!(es@ => es@[i as int]));
                    assert(decreases_to!(es@[i as int] => es@[i as int].1));
                }
                let found = find_question_array(&es[i].1);
                if found.is_some() {
                    return found;
                }
                i = i + 1;
            }
            None
        },
        _ => None,
    }
}

/// The array found in a value is never empty.
pub proof fn found_array_is_nonempty(v: Json)
    ensures
        find_array(v) matches Some(a) ==> a.len() > 0,
    decreases v, 0int,
{
    if let Json::Object(es) = v {
        assert(decreases_to!(v => es));
        assert(decreases_to!(es => es@));
        found_in_members_is_nonempty(es@, 0);
    }
}

/// The array found among the members' values is never empty.
pub proof fn found_in_members_is_nonempty(es: Seq<(String, Json)>, i: int)
    ensures
        find_in_members(es, i) matches Some(a) ==> a.len() > 0,
    decreases es, es.len() - i,
{
    if 0 <= i < es.len() {
        assert(decreases_to!(es => es[i]));
        assert(decreases_to!(es[i] => es[i].1));
        found_array_is_nonempty(es[i].1);
        found_in_members_is_nonempty(es, i + 1);
    }
}

} // verus!
