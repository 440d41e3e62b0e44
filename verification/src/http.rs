//! The request that a command sends, as plain values.

use crate::fail::Failure;
use crate::fail::failure;
use crate::fail::failure_text;
use crate::json::compact_text;
use crate::json::Json;
use crate::server::Authorization;
use crate::server::ServerInfo;
use vstd::prelude::*;
use vstd::string::StringExecFns;

verus! {

/// What is said where the body of a request cannot be written as JSON.
pub const SERIALIZE_FAILED: &'static str = "Failed to JSON-serialize the request body";

/// The method of a request.
#[derive(Clone, Copy, Debug, PartialEq, Eq)]
pub enum Method {
    Get,
    Post,
    Put,
    Delete,
}

/// A request, ready to be sent.
#[derive(Debug)]
pub struct Request {
    pub method: Method,
    pub url_base: String,
    pub path: String,
    pub bearer_token: Option<String>,
    pub content_type_json: bool,
    pub body: Option<String>,
}

/// The mathematical model of a request.
pub struct RequestValue {
    pub method: Method,
    pub url_base: Seq<char>,
    pub path: Seq<char>,
    pub bearer_token: Option<Seq<char>>,
    pub content_type_json: bool,
    pub body: Option<Seq<char>>,
}

/// The model of a text that may be missing.
pub open spec fn text_option_view(text: Option<String>) -> Option<Seq<char>> {
    match text {
        Some(text) => Some(text@),
        None => None,
    }
}

impl View for Request {
    type V = RequestValue;

    open spec fn view(&self) -> RequestValue {
        RequestValue {
            method: self.method,
            url_base: self.url_base@,
            path: self.path@,
            bearer_token: text_option_view(self.bearer_token),
            content_type_json: self.content_type_json,
            body: text_option_view(self.body),
        }
    }
}

/// The token to send: none where requests are not authorized, the given
/// token, or the one that the credential helper supplied.
pub open spec fn bearer_token_of(
    authorization: Authorization,
    helper_token: Option<Seq<char>>,
) -> Option<Seq<char>> {
    match authorization {
        Authorization::Anonymous => None,
        Authorization::BearerToken(token) => Some(token@),
        Authorization::Zign => helper_token,
    }
}

/// The text of the body to send, where there is a body and it can be
/// written.
pub open spec fn body_text_of(body: Option<&Json>) -> Option<Seq<char>> {
    match body {
        Some(json) => compact_text(json@),
        None => None,
    }
}

/// One header of a request: its name and its value.
#[derive(Debug, PartialEq, Eq)]
pub struct Header {
    pub name: String,
    pub value: String,
}

/// The mathematical model of a header.
pub struct HeaderValue {
    pub name: Seq<char>,
    pub value: Seq<char>,
}

impl View for Header {
    type V = HeaderValue;

    open spec fn view(&self) -> HeaderValue {
        HeaderValue { name: self.name@, value: self.value@ }
    }
}

/// The models of `headers`, in order.
pub open spec fn headers_view(headers: Seq<Header>) -> Seq<HeaderValue> {
    headers.map_values(|header: Header| header@)
}

/// The header that authorizes a request with `token`.
pub open spec fn authorization_header(token: Seq<char>) -> HeaderValue {
    HeaderValue { name: "Authorization"@, value: "Bearer "@ + token }
}

/// The header that marks the body of a request as JSON.
pub open spec fn json_content_header() -> HeaderValue {
    HeaderValue { name: "Content-Type"@, value: "application/json"@ }
}

/// The headers that `request` is sent with: the authorization if it has a
/// token, then the content type if its body is JSON.
pub open spec fn headers_of(request: RequestValue) -> Seq<HeaderValue> {
    let authorization = match request.bearer_token {
        Some(token) => seq![authorization_header(token)],
        None => Seq::empty(),
    };
    if request.content_type_json {
        authorization.push(json_content_header())
    } else {
        authorization
    }
}

impl Request {
    /// The headers that the request is sent with.
    pub fn headers(&self) -> (r: Vec<Header>)
        ensures
            headers_view(r@) == headers_of(self@),
    {
        let mut headers: Vec<Header> = Vec::new();
        if let Some(token) = &self.bearer_token {
            let mut value = String::from_str("Bearer ");
            value.append(token.as_str());
            headers.push(Header { name: String::from_str("Authorization"), value });
        }
        if self.content_type_json {
            headers.push(
                Header {
                    name: String::from_str("Content-Type"),
                    value: String::from_str("application/json"),
                },
            );
        }
        assert(headers_view(headers@) =~= headers_of(self@));
        headers
    }

    /// The path that the request goes to.
    pub fn path(&self) -> (r: &str)
        ensures
            r@ == self.path@,
    {
        self.path.as_str()
    }

    /// The address that the request goes to: the base followed by the path.
    pub fn uri(&self) -> (r: String)
        ensures
            r@ == self.url_base@ + self.path@,
    {
        let mut uri = self.url_base.clone();
        uri.append(self.path.as_str());
        uri
    }
}

/// Whether the token for requests to this broker comes from the credential
/// helper.
pub fn needs_helper_token(server_info: &ServerInfo) -> (r: bool)
    ensures
        r == (server_info.authorization is Zign),
{
    match server_info.authorization {
        Authorization::Zign => true,
        _ => false,
    }
}

/// Builds a request from the given parameters. `helper_token` is what the
/// credential helper supplied, and is looked at only where the server asks
/// for it. If a body is provided, the request is marked as JSON.
pub fn build_request(
    method: Method,
    path: &str,
    server_info: &ServerInfo,
    helper_token: Option<String>,
    body: Option<&Json>,
) -> (r: Result<Request, Failure>)
    ensures
        match r {
            Ok(request) => (body is Some ==> body_text_of(body) is Some) && request@ == (
            RequestValue {
                method,
                url_base: server_info.url_base@,
                path: path@,
                bearer_token: bearer_token_of(
                    server_info.authorization,
                    text_option_view(helper_token),
                ),
                content_type_json: body is Some,
                body: body_text_of(body),
            }),
            Err(failure) => body is Some && body_text_of(body) is None && exists|
                detail: Seq<char>,
            |
                failure@ == #[trigger] failure_text(SERIALIZE_FAILED@, detail),
        },
{
    let bearer_token = match server_info.authorization {
        Authorization::Anonymous => None,
        Authorization::BearerToken(token) => Some(String::from_str(token)),
        Authorization::Zign => helper_token,
    };
    let text_body = match body {
        Some(body_value) => match body_value.to_text() {
            Ok(text) => Some(text),
            Err(error) => {
                return Err(failure(SERIALIZE_FAILED, error.message.as_str()));
            },
        },
        None => None,
    };
    Ok(
        Request {
            method,
            url_base: String::from_str(server_info.url_base),
            path: String::from_str(path),
            bearer_token,
            content_type_json: body.is_some(),
            body: text_body,
        },
    )
}

/// The path under which the events of an event type are published and
/// streamed.
pub fn events_path(event_type: &str) -> (r: String)
    ensures
        r@ == "/event-types/"@ + event_type@ + "/events"@,
{
    let mut path = String::from_str("/event-types/");
    path.append(event_type);
    path.append("/events");
    path
}

/// The path of one event type.
pub fn event_type_path(name: &str) -> (r: String)
    ensures
        r@ == "/event-types/"@ + name@,
{
    let mut path = String::from_str("/event-types/");
    path.append(name);
    path
}

} // verus!
