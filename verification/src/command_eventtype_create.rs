//! The command that creates an event type.

use crate::command_event_publish::text_member;
use crate::fail::Failure;
use crate::fail::failure_text;
use crate::http::bearer_token_of;
use crate::http::build_request;
use crate::http::Method;
use crate::http::Request;
use crate::http::RequestValue;
use crate::http::SERIALIZE_FAILED;
use crate::http::text_option_view;
use crate::json::compact_text;
use crate::json::Json;
use crate::json::JsonValue;
use crate::json::lemma_array_view;
use crate::json::lemma_object_view;
use crate::json::Member;
use crate::json::MemberValue;
use crate::json::same_text;
use crate::server::ServerInfo;
use vstd::prelude::*;
use vstd::string::StringExecFns;

verus! {

pub const NAME: &'static str = "create";

/// The path under which event types are created.
pub const PATH: &'static str = "/event-types";

/// The status that says the event type was created.
pub const EXPECTED_STATUS: u16 = 201;

/// The category whose events carry no metadata.
pub const CATEGORY_UNDEFINED: &'static str = "undefined";

/// The strategy by which the broker fills in the metadata of events.
pub const METADATA_ENRICHMENT: &'static str = "metadata_enrichment";

/// What the command line says of the event type to create.
pub struct Params<'a> {
    pub name: &'a str,
    pub owning_application: &'a str,
    pub category: &'a str,
    pub json_schema: String,
    pub compatibility_mode: &'a str,
    pub partition_strategy: &'a str,
    pub partition_key_fields: Option<Vec<&'a str>>,
}

/// An array of the texts `texts`.
pub open spec fn text_array(texts: Seq<&str>) -> JsonValue {
    JsonValue::Array(texts.map_values(|text: &str| JsonValue::Text(text@)))
}

/// The partition key fields as JSON: null where none were given.
pub open spec fn key_fields_value(fields: Option<Vec<&str>>) -> JsonValue {
    match fields {
        Some(fields) => text_array(fields@),
        None => JsonValue::Null,
    }
}

/// The enrichment strategies of a category: events of the undefined
/// category are not enriched, all others with metadata.
pub open spec fn enrichment_strategies(category: Seq<char>) -> JsonValue {
    if category == CATEGORY_UNDEFINED@ {
        JsonValue::Array(Seq::empty())
    } else {
        JsonValue::Array(seq![JsonValue::Text(METADATA_ENRICHMENT@)])
    }
}

/// The description of the event type that is sent to the broker.
pub open spec fn event_type_description(params: Params) -> JsonValue {
    JsonValue::Object(
        seq![
            text_member("name"@, params.name@),
            text_member("owning_application"@, params.owning_application@),
            text_member("category"@, params.category@),
            text_member("partition_strategy"@, params.partition_strategy@),
            text_member("compatibility_mode"@, params.compatibility_mode@),
            MemberValue {
                key: "partition_key_fields"@,
                value: key_fields_value(params.partition_key_fields),
            },
            MemberValue {
                key: "schema"@,
                value: JsonValue::Object(
                    seq![
                        text_member("type"@, "json_schema"@),
                        text_member("schema"@, params.json_schema@),
                    ],
                ),
            },
            MemberValue {
                key: "enrichment_strategies"@,
                value: enrichment_strategies(params.category@),
            },
        ],
    )
}

/// The member `key: text`.
fn member_of_text(key: &str, text: &str) -> (r: Member)
    ensures
        r.key@ == key@,
        r.value@ == JsonValue::Text(text@),
{
    Member { key: String::from_str(key), value: Json::Text(String::from_str(text)) }
}

/// An array of the texts `texts`.
fn array_of_texts(texts: &Vec<&str>) -> (r: Json)
    ensures
        r@ == text_array(texts@),
{
    broadcast use lemma_array_view;

    let mut items: Vec<Json> = Vec::new();
    let mut i: usize = 0;
    while i < texts.len()
        invariant
            i <= texts.len(),
            items.len() == i,
            forall|k: int| 0 <= k < i ==> (#[trigger] items@[k])@ == JsonValue::Text(texts@[k]@),
        decreases texts.len() - i,
    {
        items.push(Json::Text(String::from_str(texts[i])));
        i += 1;
    }
    let r = Json::Array(items);
    assert(r@->Array_0 =~= text_array(texts@)->Array_0);
    r
}

/// The description of the event type that is sent to the broker.
pub fn request_body(params: &Params) -> (r: Json)
    ensures
        r@ == event_type_description(*params),
{
    broadcast use lemma_object_view, lemma_array_view;

    let mut schema: Vec<Member> = Vec::new();
    schema.push(member_of_text("type", "json_schema"));
    schema.push(member_of_text("schema", params.json_schema.as_str()));
    let schema = Json::Object(schema);
    assert(schema@->Object_0 =~= seq![
        text_member("type"@, "json_schema"@),
        text_member("schema"@, params.json_schema@),
    ]);
    let key_fields = match &params.partition_key_fields {
        Some(fields) => array_of_texts(fields),
        None => Json::Null,
    };
    let mut strategies: Vec<Json> = Vec::new();
    if !same_text(params.category, CATEGORY_UNDEFINED) {
        strategies.push(Json::Text(String::from_str(METADATA_ENRICHMENT)));
    }
    let strategies = Json::Array(strategies);
    assert(strategies@->Array_0 =~= enrichment_strategies(params.category@)->Array_0);
    let mut members: Vec<Member> = Vec::new();
    members.push(member_of_text("name", params.name));
    members.push(member_of_text("owning_application", params.owning_application));
    members.push(member_of_text("category", params.category));
    members.push(member_of_text("partition_strategy", params.partition_strategy));
    members.push(member_of_text("compatibility_mode", params.compatibility_mode));
    members.push(Member { key: String::from_str("partition_key_fields"), value: key_fields });
    members.push(Member { key: String::from_str("schema"), value: schema });
    members.push(Member { key: String::from_str("enrichment_strategies"), value: strategies });
    let r = Json::Object(members);
    assert(r@->Object_0 =~= event_type_description(*params)->Object_0);
    r
}

/// The request that creates the event type that `params` describe.
pub fn request(params: &Params, server_info: &ServerInfo, helper_token: Option<String>) -> (r:
    Result<Request, Failure>)
    ensures
        match r {
            Ok(request) => request@ == (RequestValue {
                method: Method::Post,
                url_base: server_info.url_base@,
                path: PATH@,
                bearer_token: bearer_token_of(
                    server_info.authorization,
                    text_option_view(helper_token),
                ),
                content_type_json: true,
                body: compact_text(event_type_description(*params)),
            }) && request@.body is Some,
            Err(failure) => compact_text(event_type_description(*params)) is None
                && exists|detail: Seq<char>|
                failure@ == #[trigger] failure_text(SERIALIZE_FAILED@, detail),
        },
{
    let body = request_body(params);
    build_request(Method::Post, PATH, server_info, helper_token, Some(&body))
}

/// Checks the JSON schema of an event type, given as the long argument that
/// was loaded for it: any schema that could be loaded is accepted.
pub fn validate_json_schema(value: Result<String, String>) -> (r: Result<(), String>)
    ensures
        match (value, r) {
            (Ok(_), Ok(_)) => true,
            (Err(said), Err(message)) => message@ == said@,
            _ => false,
        },
{
    match value {
        Ok(_) => Ok(()),
        Err(said) => Err(said),
    }
}

} // verus!
