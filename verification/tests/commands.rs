use nakacli::command_eventtype_create;
use nakacli::command_eventtype_delete;
use nakacli::command_eventtype_list;
use nakacli::command_metrics;
use nakacli::http::Method;
use nakacli::http::Request;
use nakacli::input::long_argument;
use nakacli::output::final_result;
use nakacli::output::Outcome;
use nakacli::server::Authorization;
use nakacli::server::ServerInfo;

const HOST: &str = "127.0.0.1:8060";

fn server(url: &str) -> ServerInfo<'_> {
    ServerInfo { url_base: url, authorization: Authorization::Anonymous }
}

/// The text that serde_json prints for the JSON that `source` spells.
fn printed(source: &str) -> String {
    let value: serde_json::Value = serde_json::from_str(source).unwrap();
    format!("{}", value)
}

fn schema_text() -> String {
    printed(
        r#"{"type":"object","properties":{"partner_id":{"type":"number"},"quantity":{"type":"number"},"app_domain":{"type":"string"},"article_id":{"type":"string"}}}"#,
    )
}

/// What a command prints when the broker answers with `status` and `body`.
fn stdout_of(status: u16, body: &str, expected: u16, pretty: bool) -> Option<String> {
    match final_result(Ok((status, body.to_string())), expected, pretty) {
        Outcome::Success { output } => output,
        Outcome::Failed { failure } => panic!("the command failed: {}", failure.message()),
    }
}

fn body_of(request: &Request) -> serde_json::Value {
    serde_json::from_str(request.body.as_ref().expect("the request has no body")).unwrap()
}

fn create_request(category: Option<&str>, json_schema: String) -> Request {
    let url = format!("http://{}", HOST);
    let params = command_eventtype_create::Params {
        name: "NEW_EVENT_TYPE",
        owning_application: "testapp",
        category: category.unwrap_or("undefined"),
        json_schema,
        compatibility_mode: "forward",
        partition_strategy: "random",
        partition_key_fields: None,
    };
    command_eventtype_create::request(&params, &server(&url), None).unwrap()
}

fn expected_description(category: &str, enrichment_strategies: &[&str]) -> serde_json::Value {
    let mut schema = serde_json::Map::new();
    schema.insert("type".to_string(), serde_json::Value::from("json_schema"));
    schema.insert("schema".to_string(), serde_json::Value::from(schema_text()));
    let mut expected = serde_json::Map::new();
    expected.insert("name".to_string(), serde_json::Value::from("NEW_EVENT_TYPE"));
    expected.insert("schema".to_string(), serde_json::Value::Object(schema));
    expected.insert("owning_application".to_string(), serde_json::Value::from("testapp"));
    expected.insert("category".to_string(), serde_json::Value::from(category));
    expected.insert("partition_strategy".to_string(), serde_json::Value::from("random"));
    expected.insert("compatibility_mode".to_string(), serde_json::Value::from("forward"));
    expected.insert("partition_key_fields".to_string(), serde_json::Value::Null);
    expected.insert(
        "enrichment_strategies".to_string(),
        serde_json::Value::from(enrichment_strategies.to_vec()),
    );
    serde_json::Value::Object(expected)
}

#[test]
fn commands_metrics_command() {
    let metrics_response = printed(r#"{"metrics": "all is good"}"#);
    let url = format!("http://{}", HOST);
    let request = command_metrics::request(&server(&url), None).unwrap();
    assert_eq!(request.path(), "/metrics");
    assert_eq!(request.method, Method::Get);
    assert!(request.body.is_none());
    assert_eq!(request.uri(), "http://127.0.0.1:8060/metrics");
    assert_eq!(command_metrics::NAME, "metrics");
    assert_eq!(
        stdout_of(200, &metrics_response, command_metrics::EXPECTED_STATUS, false),
        Some(metrics_response)
    );
}

#[test]
fn command_metrics_metrics_command() {
    let host = format!("127.0.0.1:{}", 8080);
    let url = format!("http://{}", host);
    let request = command_metrics::request(&server(&url), None).unwrap();
    assert_eq!(request.uri(), "http://127.0.0.1:8080/metrics");
    assert_eq!(request.method, Method::Get);
    assert_eq!(
        stdout_of(200, "{\"metrics\": \"all is good\"}", command_metrics::EXPECTED_STATUS, false),
        Some("{\"metrics\": \"all is good\"}".to_string())
    );
}

#[test]
fn eventtype_create_command() {
    let request = create_request(None, schema_text());
    assert_eq!(request.path(), "/event-types");
    assert_eq!(request.method, Method::Post);
    assert!(request.content_type_json);
    assert_eq!(body_of(&request), expected_description("undefined", &[]));
    assert_eq!(stdout_of(201, "", command_eventtype_create::EXPECTED_STATUS, false), None);
}

#[test]
fn eventtype_create_command_from_file() {
    let loaded = long_argument("@/tmp/nakacli-test/json-schema", Ok(schema_text()))
        .expect("the schema was loaded");
    assert!(command_eventtype_create::validate_json_schema(Ok(loaded.clone())).is_ok());
    let request = create_request(None, loaded);
    assert_eq!(request.path(), "/event-types");
    assert_eq!(request.method, Method::Post);
    assert_eq!(body_of(&request), expected_description("undefined", &[]));
}

#[test]
fn eventtype_create_command_category_data() {
    let request = create_request(Some("data"), schema_text());
    assert_eq!(request.path(), "/event-types");
    assert_eq!(request.method, Method::Post);
    assert_eq!(body_of(&request), expected_description("data", &["metadata_enrichment"]));
}

#[test]
fn eventtype_create_command_category_business() {
    let request = create_request(Some("business"), schema_text());
    assert_eq!(request.path(), "/event-types");
    assert_eq!(request.method, Method::Post);
    assert_eq!(body_of(&request), expected_description("business", &["metadata_enrichment"]));
}

#[test]
fn eventtype_create_with_partition_key_fields() {
    let params = command_eventtype_create::Params {
        name: "n",
        owning_application: "app",
        category: "data",
        json_schema: "{}".to_string(),
        compatibility_mode: "none",
        partition_strategy: "hash",
        partition_key_fields: Some(vec!["a", "b.c"]),
    };
    assert_eq!(
        command_eventtype_create::request_body(&params).to_text().unwrap(),
        r#"{"category":"data","compatibility_mode":"none","enrichment_strategies":["metadata_enrichment"],"name":"n","owning_application":"app","partition_key_fields":["a","b.c"],"partition_strategy":"hash","schema":{"schema":"{}","type":"json_schema"}}"#
    );
    assert_eq!(command_eventtype_create::NAME, "create");
}

#[test]
fn validate_json_schema_accepts_what_was_loaded() {
    assert_eq!(command_eventtype_create::validate_json_schema(Ok("anything".to_string())), Ok(()));
    assert_eq!(
        command_eventtype_create::validate_json_schema(Err("Could not open file x: gone".to_string())),
        Err("Could not open file x: gone".to_string())
    );
}

#[test]
fn eventtype_delete_command() {
    let eventtype_name = "NEW_EVENT_TYPE";
    let url = format!("http://{}", HOST);
    let request = command_eventtype_delete::request(eventtype_name, &server(&url), None).unwrap();
    assert_eq!(request.path(), format!("/event-types/{}", eventtype_name));
    assert_eq!(request.method, Method::Delete);
    assert!(request.body.is_none());
    assert_eq!(command_eventtype_delete::NAME, "delete");
    assert_eq!(stdout_of(200, "", command_eventtype_delete::EXPECTED_STATUS, false), None);
}

#[test]
fn eventtype_list_command() {
    let list_response = printed(
        r#"[
        {
            "name": "event1",
            "owning_application": "app1",
            "category": "business",
            "enrichment_strategies": [ "metadata_enrichment" ],
            "partition_strategy": "hash",
            "partition_key_fields": [ "field1" ],
            "default_statistic": { "messages_per_minute": 100, "message_size": 100, "read_parallelism": 8, "write_parallelism": 8 },
            "options": { "retention_time": 345600000 },
            "authorization": null,
            "compatibility_mode": "forward",
            "updated_at": "2017-06-19T13:11:24.943Z",
            "created_at": "2017-06-19T13:11:24.943Z"
        },
        {
            "name": "event2",
            "owning_application": "app2",
            "category": "business",
            "enrichment_strategies": [ "metadata_enrichment" ],
            "partition_strategy": "random",
            "partition_key_fields": [],
            "schema": { "type": "json_schema", "schema": "{ \"properties\": { \"json\": { \"type\": \"string\" } }}", "version": "1.0.0", "created_at": "2017-10-16T09:47:42.408Z" },
            "default_statistic": null,
            "options": { "retention_time": 345600000 },
            "authorization": null,
            "compatibility_mode": "forward",
            "updated_at": "2017-10-16T09:47:42.408Z",
            "created_at": "2017-10-16T09:47:42.408Z"
        }]"#,
    );
    let url = format!("http://{}", HOST);
    let request = command_eventtype_list::request(&server(&url), None).unwrap();
    assert_eq!(request.path(), "/event-types");
    assert_eq!(request.method, Method::Get);
    assert!(request.body.is_none());
    assert_eq!(command_eventtype_list::NAME, "list");
    assert_eq!(
        stdout_of(200, &list_response, command_eventtype_list::EXPECTED_STATUS, false),
        Some(list_response)
    );
}
