use nakacli::http::build_request;
use nakacli::http::event_type_path;
use nakacli::http::events_path;
use nakacli::http::needs_helper_token;
use nakacli::http::Header;
use nakacli::http::Method;
use nakacli::json::Json;
use nakacli::server::Authorization;
use nakacli::server::ServerInfo;

#[test]
fn builds_request() {
    // Arbitraries
    let arb_method = Method::Put;
    let arb_path = "/fjwlfkjewg/wgwe";
    let arb_authorization = Authorization::BearerToken("sup");
    let arb_server_info = ServerInfo { url_base: "http://hostname", authorization: arb_authorization };
    let arb_body_text =
        r#"{"name": "John Doe", "age": 43, "phones": [ "+44 1234567", "+44 2345678" ] }"#;
    let arb_body = Json::parse_text(arb_body_text).expect("Failed to JSON-decode body");

    let json_request = build_request(arb_method, arb_path, &arb_server_info, None, Some(&arb_body))
        .ok()
        .expect("Failed to construct request");

    assert_eq!(arb_path, json_request.path());
    assert_eq!(arb_method, json_request.method);
    assert!(json_request.content_type_json);

    match arb_server_info.authorization {
        Authorization::Anonymous => assert!(json_request.bearer_token.is_none()),
        Authorization::BearerToken(token_value) => {
            assert_eq!(Some(token_value.to_string()), json_request.bearer_token)
        }
        _ => assert!(false),
    }

    let request_body = {
        let text: String = json_request.body.clone().expect("Failed to read request body");
        let json: serde_json::Value = serde_json::from_str(&text).expect("Failed to JSON-decode body");
        json
    };
    let expected: serde_json::Value = serde_json::from_str(arb_body_text).unwrap();
    assert_eq!(expected, request_body);
    assert_eq!(json_request.uri(), "http://hostname/fjwlfkjewg/wgwe");
    assert_eq!(
        json_request.headers(),
        vec![
            Header { name: "Authorization".to_string(), value: "Bearer sup".to_string() },
            Header { name: "Content-Type".to_string(), value: "application/json".to_string() },
        ]
    );
}

#[test]
fn request_without_body_is_not_marked_as_json() {
    let server = ServerInfo { url_base: "http://hostname", authorization: Authorization::Anonymous };
    let request = build_request(Method::Get, "/metrics", &server, None, None).unwrap();
    assert!(!request.content_type_json);
    assert!(request.body.is_none());
    assert!(request.bearer_token.is_none());
    assert_eq!(request.url_base, "http://hostname");
    assert_eq!(request.uri(), "http://hostname/metrics");
    assert!(request.headers().is_empty());
}

#[test]
fn helper_token_is_used_only_where_the_server_asks_for_it() {
    let token = || Some("from-helper".to_string());
    let zign = ServerInfo { url_base: "http://h", authorization: Authorization::Zign };
    assert!(needs_helper_token(&zign));
    let request = build_request(Method::Get, "/", &zign, token(), None).unwrap();
    assert_eq!(request.bearer_token, Some("from-helper".to_string()));
    let request = build_request(Method::Get, "/", &zign, None, None).unwrap();
    assert_eq!(request.bearer_token, None);

    let given = ServerInfo { url_base: "http://h", authorization: Authorization::BearerToken("t") };
    assert!(!needs_helper_token(&given));
    let request = build_request(Method::Get, "/", &given, token(), None).unwrap();
    assert_eq!(request.bearer_token, Some("t".to_string()));

    let anonymous = ServerInfo { url_base: "http://h", authorization: Authorization::Anonymous };
    assert!(!needs_helper_token(&anonymous));
    let request = build_request(Method::Get, "/", &anonymous, token(), None).unwrap();
    assert_eq!(request.bearer_token, None);
}

#[test]
fn body_is_sent_as_compact_json() {
    let server = ServerInfo { url_base: "http://h", authorization: Authorization::Anonymous };
    let body = Json::parse_text(r#"[ { "b" : 1 , "a" : [ ] } ]"#).unwrap();
    let request = build_request(Method::Post, "/x", &server, None, Some(&body)).unwrap();
    assert_eq!(request.body, Some(r#"[{"a":[],"b":1}]"#.to_string()));
}

#[test]
fn paths_of_event_types() {
    assert_eq!(events_path("event-type-x"), "/event-types/event-type-x/events");
    assert_eq!(events_path(""), "/event-types//events");
    assert_eq!(event_type_path("NEW_EVENT_TYPE"), "/event-types/NEW_EVENT_TYPE");
}
