//! Checks on the text of single command-line arguments.

use crate::decimal::decimal_u64;
use crate::decimal::parse_u64;
use crate::json::all_objects;
use crate::json::are_all_objects;
use crate::json::Json;
use crate::json::JsonValue;
use crate::json::lemma_array_view;
use crate::json::parsed_text;
use vstd::prelude::*;
use vstd::string::StringExecFns;

verus! {

/// A count on the command line is in order if it is a decimal number above
/// zero.
pub open spec fn is_positive_integer(text: Seq<char>) -> bool {
    decimal_u64(text) matches Some(n) && n > 0
}

/// Accepts the text of a positive integer, and says what is wrong with any
/// other.
pub fn unsigned_int(v: String) -> (r: Result<(), String>)
    ensures
        r is Ok <==> is_positive_integer(v@),
        r matches Err(message) ==> message@ == "Value should be a positive integer"@,
{
    match parse_u64(v.as_str()) {
        Some(n) if n > 0 => Ok(()),
        _ => Err(String::from_str("Value should be a positive integer")),
    }
}

/// What is said of a JSON body that is an array with something else than
/// objects in it.
pub const NOT_ALL_OBJECTS: &'static str =
    "JSON body should be an array of objects if you're trying to publish multiple events";

/// What is said of a JSON body that is neither an object nor an array.
pub const NOT_AN_OBJECT: &'static str = "JSON body of event needs to be an object";

/// What leads the message on a body that is no JSON.
pub const MALFORMED: &'static str = "JSON body of event is malformed: ";

/// What is wrong with the shape of `document` as the body of events: an
/// array must hold objects only, anything else must be an object.
pub open spec fn body_shape_error(document: JsonValue) -> Option<Seq<char>> {
    match document {
        JsonValue::Array(items) => if all_objects(items) {
            None
        } else {
            Some(NOT_ALL_OBJECTS@)
        },
        JsonValue::Object(_) => None,
        _ => Some(NOT_AN_OBJECT@),
    }
}

/// Checks the JSON body of events, given as the long argument that was
/// loaded for it: it must be JSON, and either one object or an array of
/// objects. An argument that could not be loaded is refused with what was
/// said of it.
pub fn json(value: Result<String, String>) -> (r: Result<(), String>)
    ensures
        match (value, r) {
            (Err(said), Err(message)) => message@ == said@,
            (Ok(text), Ok(_)) => parsed_text(text@) matches Some(document) && body_shape_error(
                document,
            ) is None,
            (Ok(text), Err(message)) => match parsed_text(text@) {
                Some(document) => body_shape_error(document) == Some(message@),
                None => exists|detail: Seq<char>| message@ == MALFORMED@ + detail,
            },
            _ => false,
        },
{
    broadcast use lemma_array_view;

    let text = match value {
        Ok(text) => text,
        Err(said) => {
            return Err(said);
        },
    };
    match Json::parse_text(text.as_str()) {
        Err(error) => {
            let mut message = String::from_str(MALFORMED);
            message.append(error.message.as_str());
            assert(message@ == MALFORMED@ + error.message@);
            Err(message)
        },
        Ok(Json::Array(items)) => {
            if are_all_objects(&items) {
                Ok(())
            } else {
                Err(String::from_str(NOT_ALL_OBJECTS))
            }
        },
        Ok(Json::Object(_)) => Ok(()),
        Ok(_) => Err(String::from_str(NOT_AN_OBJECT)),
    }
}

/// The limit that the text of a `take` argument spells, if it spells a
/// number that fits.
pub open spec fn limit_of(value: Option<&str>) -> Option<usize> {
    match value {
        Some(text) => match decimal_u64(text@) {
            Some(n) => if n <= usize::MAX {
                Some(n as usize)
            } else {
                None
            },
            None => None,
        },
        None => None,
    }
}

/// Reads the number of events to take from the text of the argument, if
/// there is one.
pub fn take_limit(value: Option<&str>) -> (r: Option<usize>)
    ensures
        r == limit_of(value),
{
    match value {
        Some(text) => match parse_u64(text) {
            Some(n) => if n <= usize::MAX as u64 {
                Some(n as usize)
            } else {
                None
            },
            None => None,
        },
        None => None,
    }
}

} // verus!
