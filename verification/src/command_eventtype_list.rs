//! The command that lists all the event types.

use crate::fail::Failure;
use crate::http::bearer_token_of;
use crate::http::build_request;
use crate::http::Method;
use crate::http::Request;
use crate::http::RequestValue;
use crate::http::text_option_view;
use crate::server::ServerInfo;
use vstd::prelude::*;

verus! {

pub const NAME: &'static str = "list";

/// The path of the event types.
pub const PATH: &'static str = "/event-types";

/// The status that says the list was delivered.
pub const EXPECTED_STATUS: u16 = 200;

/// The request that lists the event types.
pub fn request(server_info: &ServerInfo, helper_token: Option<String>) -> (r: Result<
    Request,
    Failure,
>)
    ensures
        r matches Ok(request) && request@ == (RequestValue {
            method: Method::Get,
            url_base: server_info.url_base@,
            path: PATH@,
            bearer_token: bearer_token_of(
                server_info.authorization,
                text_option_view(helper_token),
            ),
            content_type_json: false,
            body: None,
        }),
{
    build_request(Method::Get, PATH, server_info, helper_token, None)
}

} // verus!
