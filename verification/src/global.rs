//! Settings that apply to every command.

use std::time::Duration;
use vstd::prelude::*;

verus! {

/// The global settings of one invocation.
pub struct GlobalParams<'a> {
    pub pretty: bool,
    pub zign: bool,
    pub bearer_token: Option<&'a str>,
    pub nakadi_url: Option<&'a str>,
    pub network_timeout: Option<Duration>,
}

} // verus!
