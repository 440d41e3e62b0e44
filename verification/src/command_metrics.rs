//! The command that fetches the monitoring metrics of the broker.

use crate::fail::Failure;
use crate::http::bearer_token_of;
use crate::http::build_request;
use crate::http::Method;
use crate::http::Request;
use crate::http::RequestValue;
use crate::http::text_option_view;
use crate::server::ServerInfo;
use vstd::prelude::*;

verus! {

pub const NAME: &'static str = "metrics";

/// The path of the metrics.
pub const PATH: &'static str = "/metrics";

/// The status that says the metrics were delivered.
pub const EXPECTED_STATUS: u16 = 200;

/// The request that fetches the metrics.
pub fn request(server_info: &ServerInfo, helper_token: Option<String>) -> (r: Result<
    Request,
    Failure,
>)
    ensures
        r matches Ok(request) && request@ == (RequestValue {
            method: Method::Get,
            url_base: server_info.url_base@,
            path: PATH@,
            bearer_token: bearer_token_of(
                server_info.authorization,
                text_option_view(helper_token),
            ),
            content_type_json: false,
            body: None,
        }),
{
    build_request(Method::Get, PATH, server_info, helper_token, None)
}

} // verus!
