//! Where the broker is and how to authorize against it.

use crate::global::GlobalParams;
use vstd::prelude::*;

verus! {

/// The address used when none is given.
pub const DEFAULT_URL: &'static str = "http://localhost";

/// How requests are authorized.
pub enum Authorization<'a> {
    Anonymous,
    BearerToken(&'a str),
    Zign,
}

/// Information about the broker.
pub struct ServerInfo<'a> {
    pub url_base: &'a str,
    pub authorization: Authorization<'a>,
}

/// The authorization that `params` ask for: the credential helper if it is
/// switched on, else the given token, else none.
pub open spec fn authorization_of<'a>(params: &GlobalParams<'a>) -> Authorization<'a> {
    if params.zign {
        Authorization::Zign
    } else {
        match params.bearer_token {
            Some(token) => Authorization::BearerToken(token),
            None => Authorization::Anonymous,
        }
    }
}

/// The broker address that `params` ask for.
pub open spec fn url_base_of<'a>(params: &GlobalParams<'a>) -> &'a str {
    match params.nakadi_url {
        Some(url) => url,
        None => DEFAULT_URL,
    }
}

impl<'a> ServerInfo<'a> {
    /// The broker that the global settings describe.
    pub fn from_params(global_params: &'a GlobalParams) -> (info: ServerInfo<'a>)
        ensures
            info.authorization == authorization_of(global_params),
            info.url_base == url_base_of(global_params),
    {
        let authorization = if global_params.zign {
            Authorization::Zign
        } else if let Some(bearer_token) = global_params.bearer_token {
            Authorization::BearerToken(bearer_token)
        } else {
            Authorization::Anonymous
        };
        let url_base = match global_params.nakadi_url {
            Some(url) => url,
            None => DEFAULT_URL,
        };
        ServerInfo { url_base, authorization }
    }
}

} // verus!
