//! What a command shows when it ends: the response of the broker, or the
//! failure.

use crate::fail::Failure;
use crate::fail::failure;
use crate::fail::failure_text;
use crate::fail::paint_red;
use crate::fail::painted_red;
use crate::json::compact_text;
use crate::json::Json;
use crate::json::JsonError;
use crate::json::parsed_text;
use crate::json::pretty_text;
use vstd::prelude::*;
use vstd::string::StringExecFns;

verus! {

/// The header of the failure for a response with another status than the
/// expected one.
pub const UNEXPECTED_RESPONSE: &'static str = "Unexpected response:";

/// The message of a failure whose detail starts on a line of its own.
pub open spec fn failureln_text(header: Seq<char>, detailed: Seq<char>) -> Seq<char> {
    painted_red(header) + "\n"@ + detailed
}

/// Constructs a `Failure` that spans two lines: the header in red, then the
/// detail.
pub fn failureln(header: &str, detailed: &str) -> (r: Failure)
    ensures
        r@ == failureln_text(header@, detailed@),
{
    let mut show = paint_red(header);
    show.append("\n");
    show.append(detailed);
    Failure::new(show)
}

/// JSON text laid out for reading: the indented form of the document that
/// `text` spells, and `text` itself where it spells none or the document
/// cannot be printed.
pub open spec fn pretty_json_text(text: Seq<char>) -> Seq<char> {
    match parsed_text(text) {
        Some(document) => match pretty_text(document) {
            Some(pretty) => pretty,
            None => text,
        },
        None => text,
    }
}

/// Lays JSON text out for reading; text that is no JSON stays as it is.
pub fn pretty_json(json: &str) -> (r: String)
    ensures
        r@ == pretty_json_text(json@),
{
    match Json::parse_text(json) {
        Ok(document) => match document.to_pretty_text() {
            Ok(pretty) => pretty,
            Err(_) => String::from_str(json),
        },
        Err(_) => String::from_str(json),
    }
}

/// The line to print for a JSON value that is held as text.
pub open spec fn rendered_json(text: Seq<char>, pretty: bool) -> Seq<char> {
    if pretty {
        pretty_json_text(text)
    } else {
        text
    }
}

/// The line to print for a JSON value that is held as text: laid out for
/// reading if `pretty`, else as it is.
pub fn render_json(result: &str, pretty: bool) -> (r: String)
    ensures
        r@ == rendered_json(result@, pretty),
{
    if pretty {
        pretty_json(result)
    } else {
        String::from_str(result)
    }
}

/// The line to print for a JSON value: its indented text if `pretty`, else
/// its compact text.
pub fn render_json_value(value: &Json, pretty: bool) -> (r: Result<String, JsonError>)
    ensures
        match r {
            Ok(line) => Some(line@) == (if pretty {
                pretty_text(value@)
            } else {
                compact_text(value@)
            }),
            Err(_) => (if pretty {
                pretty_text(value@)
            } else {
                compact_text(value@)
            }) is None,
        },
{
    if pretty {
        value.to_pretty_text()
    } else {
        value.to_text()
    }
}

/// How a command that made one request ends.
#[derive(Debug)]
pub enum Outcome {
    /// It ends in success, after printing `output` if there is any.
    Success { output: Option<String> },
    /// It ends in failure, after showing the failure.
    Failed { failure: Failure },
}

/// The mathematical model of an `Outcome`.
pub enum OutcomeValue {
    Success { output: Option<Seq<char>> },
    Failed { failure: Seq<char> },
}

impl View for Outcome {
    type V = OutcomeValue;

    open spec fn view(&self) -> OutcomeValue {
        match self {
            Outcome::Success { output } => OutcomeValue::Success {
                output: match output {
                    Some(line) => Some(line@),
                    None => None,
                },
            },
            Outcome::Failed { failure } => OutcomeValue::Failed { failure: failure@ },
        }
    }
}

/// How a command ends whose request came back with the status `status` and
/// the body `body`, where the status `expected` was expected.
pub open spec fn response_outcome(
    status: u16,
    body: Seq<char>,
    expected: u16,
    pretty: bool,
) -> OutcomeValue {
    if status == expected {
        OutcomeValue::Success {
            output: if body.len() == 0 {
                None
            } else {
                Some(rendered_json(body, pretty))
            },
        }
    } else if pretty {
        OutcomeValue::Failed {
            failure: failureln_text(UNEXPECTED_RESPONSE@, pretty_json_text(body)),
        }
    } else {
        OutcomeValue::Failed { failure: failure_text(UNEXPECTED_RESPONSE@, body) }
    }
}

/// Decides how a command ends from what came of its request: success with
/// the response to print if the status is the expected one, else failure
/// with the response as the detail; a request that failed ends in its
/// failure.
pub fn final_result(
    result: Result<(u16, String), Failure>,
    expected_status_code: u16,
    pretty: bool,
) -> (r: Outcome)
    ensures
        match result {
            Ok((status, body)) => r@ == response_outcome(
                status,
                body@,
                expected_status_code,
                pretty,
            ),
            Err(failure) => r@ == (OutcomeValue::Failed { failure: failure@ }),
        },
{
    match result {
        Ok((status_code, output)) => {
            if status_code == expected_status_code {
                if output.as_str().is_empty() {
                    Outcome::Success { output: None }
                } else {
                    Outcome::Success { output: Some(render_json(output.as_str(), pretty)) }
                }
            } else if pretty {
                let detail = pretty_json(output.as_str());
                Outcome::Failed { failure: failureln(UNEXPECTED_RESPONSE, detail.as_str()) }
            } else {
                Outcome::Failed { failure: failure(UNEXPECTED_RESPONSE, output.as_str()) }
            }
        },
        Err(err) => Outcome::Failed { failure: err },
    }
}

} // verus!
