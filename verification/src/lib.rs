//! Core of a command-line client for an event broker: framing of the
//! newline-delimited event stream, bounded consumption of its batches, and
//! shaping of publish requests.

pub mod arg_validators;
pub mod auth;
pub mod command_event_publish;
pub mod command_event_stream;
pub mod command_eventtype_create;
pub mod command_eventtype_delete;
pub mod command_eventtype_list;
pub mod command_metrics;
pub mod decimal;
pub mod fail;
pub mod global;
pub mod http;
pub mod input;
pub mod json;
pub mod lines;
pub mod output;
pub mod server;
