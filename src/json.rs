//! A JSON tree that verified code can read, parsing through serde_json, and
//! the one field of a completion chunk that the protocol consumes.
use vstd::prelude::*;

verus! {

/// serde_json's parsed value, carried opaquely into `json_tree`.
#[verifier::external_type_specification]
#[verifier::external_body]
pub struct ExValue(serde_json::Value);

/// A parsed JSON value. Numbers are kept as a kind only; object members keep
/// the order in which the parser hands them out.
pub enum Json {
    Null,
    Bool(bool),
    Number,
    Str(String),
    Array(Vec<Json>),
    Object(Vec<(String, Json)>),
}

/// The value that serde_json reads from these bytes, if they hold exactly one.
pub uninterp spec fn json_parse(bytes: Seq<u8>) -> Option<Json>;

/// Relies on serde_json::from_slice: it reads one JSON value, with nothing but
/// whitespace around it, or fails; the outcome depends on the bytes alone.
#[verifier::external_body]
fn parse_json(bytes: &[u8]) -> (r: Option<Json>)
    ensures
        r == json_parse(bytes@),
{
    serde_json::from_slice::<serde_json::Value>(bytes).ok().map(json_tree)
}

/// Copies a serde_json value node for node into a `Json` (used by
/// `parse_json`); object members come in the order of serde_json's map.
#[verifier::external_body]
fn json_tree(v: serde_json::Value) -> Json {
    match v {
        serde_json::Value::Null => Json::Null,
        serde_json::Value::Bool(b) => Json::Bool(b),
        serde_json::Value::Number(_) => Json::Number,
        serde_json::Value::String(s) => Json::Str(s),
        serde_json::Value::Array(a) => Json::Array(a.into_iter().map(json_tree).collect()),
        serde_json::Value::Object(m) => Json::Object(
            m.into_iter().map(|(k, x)| (k, json_tree(x))).collect(),
        ),
    }
}

/// The first member of an object named `key`.
pub open spec fn member(fields: Seq<(String, Json)>, key: Seq<char>) -> Option<Json>
    decreases fields.len(),
{
    if fields.len() == 0 {
        None
    } else if fields[0].0@ == key {
        Some(fields[0].1)
    } else {
        member(fields.drop_first(), key)
    }
}

/// `choices[0].delta.content`, where it is a string.
pub open spec fn delta_content(j: Json) -> Option<Seq<char>> {
    match j {
        Json::Object(top) => match member(top@, "choices"@) {
            Some(Json::Array(choices)) => if choices@.len() > 0 {
                match choices@[0] {
                    Json::Object(choice) => match member(choice@, "delta"@) {
                        Some(Json::Object(delta)) => match member(delta@, "content"@) {
                            Some(Json::Str(s)) => Some(s@),
                            _ => None,
                        },
                        _ => None,
                    },
                    _ => None,
                }
            } else {
                None
            },
            _ => None,
        },
        _ => None,
    }
}

/// What a payload means once it is known not to be the end marker: `None`
/// where it is not JSON, `Some(c)` with the content fragment `c` it carries.
pub open spec fn payload_content(bytes: Seq<u8>) -> Option<Option<Seq<char>>> {
    match json_parse(bytes) {
        None => None,
        Some(j) => Some(delta_content(j)),
    }
}

fn find_member<'a>(fields: &'a Vec<(String, Json)>, key: &String) -> (r: Option<&'a Json>)
    ensures
        match r {
            Some(j) => member(fields@, key@) == Some(*j),
            None => member(fields@, key@) is None,
        },
{
    let mut i: usize = 0;
    assert(fields@.skip(0) =~= fields@);
    while i < fields.len()
        invariant
            i <= fields@.len(),
            member(fields@, key@) == member(fields@.skip(i as int), key@),
        decreases fields@.len() - i,
    {
        assert(fields@.skip(i as int).drop_first() =~= fields@.skip(i + 1));
        if fields[i].0 == *key {
            return Some(&fields[i].1);
        }
        i = i + 1;
    }
    None
}

/// Reads `choices[0].delta.content` from a parsed chunk.
pub fn chunk_content(j: &Json) -> (r: Option<String>)
    ensures
        match r {
            Some(s) => delta_content(*j) == Some(s@),
            None => delta_content(*j) is None,
        },
{
    let choices_key = "choices".to_owned();
    let delta_key = "delta".to_owned();
    let content_key = "content".to_owned();
    match j {
        Json::Object(top) => match find_member(top, &choices_key) {
            Some(Json::Array(choices)) => {
                if choices.len() == 0 {
                    return None;
                }
                match &choices[0] {
                    Json::Object(choice) => match find_member(choice, &delta_key) {
                        Some(Json::Object(delta)) => match find_member(delta, &content_key) {
                            Some(Json::Str(s)) => Some(s.clone()),
                            _ => None,
                        },
                        _ => None,
                    },
                    _ => None,
                }
            },
            _ => None,
        },
        _ => None,
    }
}

/// Parses a payload and reads its content fragment: `None` where the bytes
/// are not JSON.
pub fn read_payload(bytes: &[u8]) -> (r: Option<Option<String>>)
    ensures
        match r {
            None => payload_content(bytes@) is None,
            Some(None) => payload_content(bytes@) == Some(None::<Seq<char>>),
            Some(Some(s)) => payload_content(bytes@) == Some(Some(s@)),
        },
{
    match parse_json(bytes) {
        None => None,
        Some(j) => Some(chunk_content(&j)),
    }
}

} // verus!
