//! The command that deletes an event type.

use crate::fail::Failure;
use crate::http::bearer_token_of;
use crate::http::build_request;
use crate::http::event_type_path;
use crate::http::Method;
use crate::http::Request;
use crate::http::RequestValue;
use crate::http::text_option_view;
use crate::server::ServerInfo;
use vstd::prelude::*;

verus! {

pub const NAME: &'static str = "delete";

/// The status that says the event type was deleted.
pub const EXPECTED_STATUS: u16 = 200;

/// The request that deletes the event type `name`.
pub fn request(name: &str, server_info: &ServerInfo, helper_token: Option<String>) -> (r: Result<
    Request,
    Failure,
>)
    ensures
        r matches Ok(request) && request@ == (RequestValue {
            method: Method::Delete,
            url_base: server_info.url_base@,
            path: "/event-types/"@ + name@,
            bearer_token: bearer_token_of(
                server_info.authorization,
                text_option_view(helper_token),
            ),
            content_type_json: false,
            body: None,
        }),
{
    let path = event_type_path(name);
    build_request(Method::Delete, path.as_str(), server_info, helper_token, None)
}

} // verus!
