use nakacli::arg_validators::json;
use nakacli::arg_validators::take_limit;
use nakacli::arg_validators::unsigned_int;
use nakacli::command_event_publish::decode_params;
use nakacli::command_event_publish::request;
use nakacli::command_event_publish::CategoryFlags;
use nakacli::decimal::parse_u64;
use nakacli::decimal::to_decimal_text;
use nakacli::global::GlobalParams;
use nakacli::http::Method;
use nakacli::input::file_argument;
use nakacli::input::file_path;
use nakacli::input::long_argument;
use nakacli::input::FileFailure;
use nakacli::server::Authorization;
use nakacli::server::ServerInfo;

const POSITIVE: &str = "Value should be a positive integer";

fn params<'a>(zign: bool, bearer_token: Option<&'a str>, url: Option<&'a str>) -> GlobalParams<'a> {
    GlobalParams { pretty: false, zign, bearer_token, nakadi_url: url, network_timeout: None }
}

#[test]
fn unsigned_int_accepts_positive_integers() {
    assert_eq!(unsigned_int("1".to_string()), Ok(()));
    assert_eq!(unsigned_int("42".to_string()), Ok(()));
    assert_eq!(unsigned_int("+7".to_string()), Ok(()));
    assert_eq!(unsigned_int("007".to_string()), Ok(()));
    assert_eq!(unsigned_int("18446744073709551615".to_string()), Ok(()));
}

#[test]
fn unsigned_int_refuses_everything_else() {
    for text in ["0", "", "+", "-1", "-0", "1.5", "1 ", " 1", "abc", "12a", "++1", "00", "+0",
        "18446744073709551616", "99999999999999999999999", "\u{661}"]
    {
        assert_eq!(unsigned_int(text.to_string()), Err(POSITIVE.to_string()), "{:?}", text);
    }
}

#[test]
fn parse_u64_reads_decimal_numbers() {
    assert_eq!(parse_u64("0"), Some(0));
    assert_eq!(parse_u64("+0"), Some(0));
    assert_eq!(parse_u64("00012"), Some(12));
    assert_eq!(parse_u64("434234235"), Some(434234235));
    assert_eq!(parse_u64("18446744073709551615"), Some(u64::MAX));
    assert_eq!(parse_u64("18446744073709551616"), None);
    assert_eq!(parse_u64("184467440737095516150"), None);
    assert_eq!(parse_u64(""), None);
    assert_eq!(parse_u64("+"), None);
    assert_eq!(parse_u64("-3"), None);
    assert_eq!(parse_u64("3x"), None);
    for text in ["0", "+5", "1", "", "+", "-", "a", "١", "077", "18446744073709551615", "1e3"] {
        assert_eq!(parse_u64(text), text.parse::<u64>().ok(), "{:?}", text);
    }
}

#[test]
fn to_decimal_text_writes_numbers() {
    assert_eq!(to_decimal_text(0), "0");
    assert_eq!(to_decimal_text(7), "7");
    assert_eq!(to_decimal_text(10), "10");
    assert_eq!(to_decimal_text(101), "101");
    assert_eq!(to_decimal_text(-1), "-1");
    assert_eq!(to_decimal_text(-120), "-120");
    assert_eq!(to_decimal_text(i32::MAX), "2147483647");
    assert_eq!(to_decimal_text(i32::MIN), "-2147483648");
}

#[test]
fn take_limit_reads_the_number_of_events() {
    assert_eq!(take_limit(None), None);
    assert_eq!(take_limit(Some("3")), Some(3));
    assert_eq!(take_limit(Some("0")), Some(0));
    assert_eq!(take_limit(Some("x")), None);
    assert_eq!(take_limit(Some("")), None);
}

#[test]
fn json_accepts_an_object_or_an_array_of_objects() {
    assert_eq!(json(Ok(r#"{"a":1}"#.to_string())), Ok(()));
    assert_eq!(json(Ok(r#"[{"a":1},{}]"#.to_string())), Ok(()));
    assert_eq!(json(Ok("[]".to_string())), Ok(()));
    assert_eq!(json(Ok(" {} ".to_string())), Ok(()));
}

#[test]
fn json_refuses_other_shapes() {
    assert_eq!(
        json(Ok("[{},1]".to_string())),
        Err("JSON body should be an array of objects if you're trying to publish multiple events"
            .to_string())
    );
    assert_eq!(json(Ok("42".to_string())), Err("JSON body of event needs to be an object".to_string()));
    assert_eq!(
        json(Ok("\"x\"".to_string())),
        Err("JSON body of event needs to be an object".to_string())
    );
}

#[test]
fn json_refuses_what_is_no_json() {
    let by_serde = serde_json::from_str::<serde_json::Value>("{\"a\":").unwrap_err();
    assert_eq!(
        json(Ok("{\"a\":".to_string())),
        Err(format!("JSON body of event is malformed: {}", by_serde))
    );
}

#[test]
fn json_refuses_an_argument_that_was_not_loaded() {
    assert_eq!(
        json(Err("Could not open file e.json: not found".to_string())),
        Err("Could not open file e.json: not found".to_string())
    );
}

#[test]
fn file_path_is_what_follows_the_sign() {
    assert_eq!(file_path("@event.json"), Some("event.json".to_string()));
    assert_eq!(file_path("@"), Some(String::new()));
    assert_eq!(file_path("@@x"), Some("@x".to_string()));
    assert_eq!(file_path("@\u{e9}t\u{e9}"), Some("\u{e9}t\u{e9}".to_string()));
    assert_eq!(file_path("event.json"), None);
    assert_eq!(file_path(""), None);
    assert_eq!(file_path("a@b"), None);
}

#[test]
fn long_argument_is_the_value_or_the_content_of_its_file() {
    assert_eq!(long_argument("{\"a\":1}", Ok(String::new())), Ok("{\"a\":1}".to_string()));
    assert_eq!(
        long_argument("plain", Err(FileFailure::Open("unused".to_string()))),
        Ok("plain".to_string())
    );
    assert_eq!(long_argument("@f", Ok("content".to_string())), Ok("content".to_string()));
    assert_eq!(
        long_argument("@dir/f", Err(FileFailure::Open("No such file".to_string()))),
        Err("Could not open file dir/f: No such file".to_string())
    );
    assert_eq!(
        long_argument("@dir/f", Err(FileFailure::Read("Is a directory".to_string()))),
        Err("Could not read from the file dir/f: Is a directory".to_string())
    );
    assert_eq!(
        file_argument("p", Err(FileFailure::Read("e".to_string()))),
        Err("Could not read from the file p: e".to_string())
    );
    assert_eq!(file_argument("p", Ok("c".to_string())), Ok("c".to_string()));
}

#[test]
fn event_publish_command_from_file() {
    let event_body: serde_json::Value =
        serde_json::from_str(r#"{"field-2": "noooo", "field-1": 434234235}"#).unwrap();
    let path = "/tmp/nakacli-test/event-body";
    let argument = format!("@{}", path);
    assert_eq!(file_path(&argument), Some(path.to_string()));
    let loaded = long_argument(&argument, Ok(format!("{}", event_body)));
    assert_eq!(json(loaded.clone()), Ok(()));

    let flags = CategoryFlags {
        data_update: false,
        data_create: false,
        data_delete: false,
        data_snapshot: false,
        business: false,
    };
    let params = decode_params("event-type-x", &loaded.unwrap(), &flags).unwrap();
    let server =
        ServerInfo { url_base: "http://127.0.0.1:8060", authorization: Authorization::Anonymous };
    let request = request(params, &server, None).unwrap();
    assert_eq!(request.path(), "/event-types/event-type-x/events");
    assert_eq!(request.method, Method::Post);
    let sent: serde_json::Value = serde_json::from_str(&request.body.unwrap()).unwrap();
    assert_eq!(sent, serde_json::Value::Array(vec![event_body]));
}

#[test]
fn server_from_params() {
    let global = params(false, None, None);
    let info = ServerInfo::from_params(&global);
    assert_eq!(info.url_base, "http://localhost");
    assert!(matches!(info.authorization, Authorization::Anonymous));

    let global = params(false, Some("token"), Some("https://broker:8443"));
    let info = ServerInfo::from_params(&global);
    assert_eq!(info.url_base, "https://broker:8443");
    assert!(matches!(info.authorization, Authorization::BearerToken("token")));

    let global = params(true, Some("token"), None);
    let info = ServerInfo::from_params(&global);
    assert!(matches!(info.authorization, Authorization::Zign));

    let global = params(true, None, Some("http://x"));
    let info = ServerInfo::from_params(&global);
    assert_eq!(info.url_base, "http://x");
    assert!(matches!(info.authorization, Authorization::Zign));
}
