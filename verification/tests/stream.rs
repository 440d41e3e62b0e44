use nakacli::command_event_stream::consume;
use nakacli::command_event_stream::end_failure;
use nakacli::command_event_stream::opening_failure;
use nakacli::command_event_stream::request;
use nakacli::command_event_stream::transport_failure;
use nakacli::command_event_stream::unexpected_status;
use nakacli::command_event_stream::BoundedEmitter;
use nakacli::command_event_stream::Cursor;
use nakacli::command_event_stream::DecodeError;
use nakacli::command_event_stream::Event;
use nakacli::command_event_stream::EventBatch;
use nakacli::command_event_stream::Status;
use nakacli::command_event_stream::StreamConsumer;
use nakacli::command_event_stream::StreamEnd;
use nakacli::http::Method;
use nakacli::json::Json;
use nakacli::output::render_json_value;
use nakacli::server::Authorization;
use nakacli::server::ServerInfo;

/// The text that serde_json prints for the JSON that `source` spells.
fn printed(source: &str) -> String {
    let value: serde_json::Value = serde_json::from_str(source).unwrap();
    format!("{}", value)
}

fn three_batches() -> String {
    format!(
        "{}\n{}\n{}\n",
        printed(r#"{"cursor":{"partition":"0","offset":"6"},"events":[{"field-2": "no", "field-1": 434234235}]}"#),
        printed(r#"{"cursor":{"partition":"0","offset":"6"},"events":[{"field-2": "noo", "field-1": 434234235}, {"field-2": "nooo", "field-1": 434234235}]}"#),
        printed(r#"{"cursor":{"partition":"0","offset":"6"},"events":[{"field-2": "noooo", "field-1": 434234235}]}"#),
    )
}

/// What the command prints for `events`, one line each.
fn stdout_of(events: Vec<Event>) -> String {
    let mut stdout = String::new();
    for event in events {
        stdout.push_str(&render_json_value(&event.into_json(), false).unwrap());
        stdout.push('\n');
    }
    stdout
}

fn event(source: &str) -> Event {
    match Json::parse_text(source).unwrap() {
        Json::Object(fields) => Event { fields },
        other => panic!("the test wrote an event that is no object: {:?}", other),
    }
}

fn batch_of(events: &[&str]) -> EventBatch {
    EventBatch {
        cursor: Cursor { partition: "0".to_string(), offset: "1".to_string() },
        events: Some(events.iter().map(|source| event(source)).collect()),
    }
}

fn batch_line(events: &[&str]) -> Vec<u8> {
    format!(
        "{{\"cursor\":{{\"partition\":\"0\",\"offset\":\"1\"}},\"events\":[{}]}}\n",
        events.join(",")
    )
    .into_bytes()
}

#[test]
fn event_stream_command() {
    let response_body = three_batches();
    let expected_stdout = format!(
        "{}\n{}\n{}\n{}\n",
        printed(r#"{"field-1":434234235,"field-2":"no"}"#),
        printed(r#"{"field-1":434234235,"field-2":"noo"}"#),
        printed(r#"{"field-1":434234235,"field-2":"nooo"}"#),
        printed(r#"{"field-1":434234235,"field-2":"noooo"}"#),
    );
    let server =
        ServerInfo { url_base: "http://127.0.0.1:8060", authorization: Authorization::Anonymous };
    let request = request("event-type-x", &server, None).unwrap();
    assert_eq!(request.path(), "/event-types/event-type-x/events");
    assert_eq!(request.method, Method::Get);
    assert!(request.body.is_none());

    let (events, end) = consume(&vec![response_body.into_bytes()], None);
    assert_eq!(stdout_of(events), expected_stdout);
    // Because the stream ends abruptly.
    assert_eq!(end, StreamEnd::EndedAbruptly);
    assert!(end_failure(end, "").is_some());
}

#[test]
fn event_stream_n_command() {
    let response_body = three_batches();
    let expected_stdout = format!(
        "{}\n{}\n{}\n",
        printed(r#"{"field-1":434234235,"field-2":"no"}"#),
        printed(r#"{"field-1":434234235,"field-2":"noo"}"#),
        printed(r#"{"field-1":434234235,"field-2":"nooo"}"#),
    );
    let limit = nakacli::arg_validators::take_limit(Some("3"));
    assert_eq!(limit, Some(3));
    let (events, end) = consume(&vec![response_body.into_bytes()], limit);
    assert_eq!(stdout_of(events), expected_stdout);
    assert_eq!(end, StreamEnd::LimitReached);
    assert!(end_failure(end, "").is_none());
}

#[test]
fn limit_inside_a_batch_cuts_the_batch() {
    let chunks = vec![
        batch_line(&[r#"{"n":1}"#]),
        batch_line(&[r#"{"n":2}"#, r#"{"n":3}"#]),
        batch_line(&[r#"{"n":4}"#]),
    ];
    let (events, end) = consume(&chunks, Some(2));
    assert_eq!(stdout_of(events), "{\"n\":1}\n{\"n\":2}\n");
    assert_eq!(end, StreamEnd::LimitReached);
}

#[test]
fn the_batch_after_the_limit_is_not_looked_at() {
    let chunks = vec![
        batch_line(&[r#"{"n":1}"#]),
        batch_line(&[r#"{"n":2}"#, r#"{"n":3}"#]),
        b"this is no batch\n".to_vec(),
    ];
    let (events, end) = consume(&chunks, Some(2));
    assert_eq!(events.len(), 2);
    assert_eq!(end, StreamEnd::LimitReached);
    let (events, end) = consume(&chunks, Some(3));
    assert_eq!(events.len(), 3);
    assert_eq!(end, StreamEnd::LimitReached);
    let (events, end) = consume(&chunks, Some(4));
    assert_eq!(events.len(), 3);
    assert_eq!(end, StreamEnd::MalformedBatch);
}

#[test]
fn limit_reached_at_the_end_of_a_batch() {
    let chunks = vec![batch_line(&[r#"{"n":1}"#, r#"{"n":2}"#]), batch_line(&[r#"{"n":3}"#])];
    let (events, end) = consume(&chunks, Some(2));
    assert_eq!(stdout_of(events), "{\"n\":1}\n{\"n\":2}\n");
    assert_eq!(end, StreamEnd::LimitReached);
    let (events, end) = consume(&chunks, Some(1));
    assert_eq!(stdout_of(events), "{\"n\":1}\n");
    assert_eq!(end, StreamEnd::LimitReached);
}

#[test]
fn a_limit_of_zero_ends_with_the_first_batch_that_has_events() {
    let heartbeat = b"{\"cursor\":{\"partition\":\"0\",\"offset\":\"1\"}}\n".to_vec();
    let chunks = vec![heartbeat, batch_line(&[r#"{"n":1}"#]), batch_line(&[r#"{"n":2}"#])];
    let (events, end) = consume(&chunks, Some(0));
    assert!(events.is_empty());
    assert_eq!(end, StreamEnd::LimitReached);
    let mut consumer = StreamConsumer::new(Some(0));
    assert!(consumer.on_chunk(&chunks[0]).is_empty());
    assert_eq!(consumer.status(), Status::Streaming);
    assert!(consumer.on_chunk(&chunks[1]).is_empty());
    assert_eq!(consumer.status(), Status::Finished);
}

#[test]
fn chunk_boundaries_do_not_change_the_events() {
    let whole = three_batches().into_bytes();
    let (expected, _) = consume(&vec![whole.clone()], None);
    assert_eq!(expected.len(), 4);
    for size in [1, 2, 7, 64] {
        let chunks: Vec<Vec<u8>> = whole.chunks(size).map(|chunk| chunk.to_vec()).collect();
        let (events, end) = consume(&chunks, None);
        assert_eq!(events, expected);
        assert_eq!(end, StreamEnd::EndedAbruptly);
        let (events, end) = consume(&chunks, Some(3));
        assert_eq!(events.len(), 3);
        assert_eq!(events[..], expected[..3]);
        assert_eq!(end, StreamEnd::LimitReached);
    }
}

#[test]
fn heartbeat_batch_emits_nothing() {
    let heartbeat = b"{\"cursor\":{\"partition\":\"0\",\"offset\":\"1\"},\"events\":null}\n".to_vec();
    let omitted = b"{\"cursor\":{\"partition\":\"0\",\"offset\":\"1\"}}\n".to_vec();
    let mut consumer = StreamConsumer::new(Some(1));
    assert!(consumer.on_chunk(&heartbeat).is_empty());
    assert_eq!(consumer.emitted(), 0);
    assert_eq!(consumer.status(), Status::Streaming);
    assert!(consumer.on_chunk(&omitted).is_empty());
    assert_eq!(consumer.emitted(), 0);
    assert_eq!(consumer.status(), Status::Streaming);
    let events = consumer.on_chunk(&batch_line(&[r#"{"n":1}"#]));
    assert_eq!(events.len(), 1);
    assert_eq!(consumer.emitted(), 1);
    assert_eq!(consumer.status(), Status::Finished);
}

#[test]
fn empty_batch_emits_nothing() {
    let mut consumer = StreamConsumer::new(Some(1));
    assert!(consumer.on_chunk(&batch_line(&[])).is_empty());
    assert_eq!(consumer.emitted(), 0);
    assert_eq!(consumer.status(), Status::Streaming);
}

#[test]
fn decode_reads_cursor_and_events() {
    let batch = EventBatch::decode(
        br#"{"cursor":{"partition":"0","offset":"6"},"events":[{"k":"v"}],"info":{"x":1}}"#,
    )
    .unwrap();
    assert_eq!(batch.cursor, Cursor { partition: "0".to_string(), offset: "6".to_string() });
    assert_eq!(batch.events, Some(vec![event(r#"{"k":"v"}"#)]));
    let batch = EventBatch::decode(br#"{"cursor":{"partition":"1","offset":"2"}}"#).unwrap();
    assert_eq!(batch.events, None);
    let batch =
        EventBatch::decode(br#"{"cursor":{"partition":"1","offset":"2"},"events":null}"#).unwrap();
    assert_eq!(batch.events, None);
    let batch =
        EventBatch::decode(br#"{"cursor":{"partition":"1","offset":"2"},"events":[]}"#).unwrap();
    assert_eq!(batch.events, Some(Vec::new()));
}

#[test]
fn decode_refuses_what_is_no_batch() {
    let not_json = EventBatch::decode(b"{\"cursor\":").unwrap_err();
    assert!(matches!(not_json, DecodeError::NotJson(_)));
    assert!(!not_json.message().is_empty());
    for line in [
        &br#"[]"#[..],
        &br#"{}"#[..],
        &br#"{"events":[]}"#[..],
        &br#"{"cursor":"0","events":[]}"#[..],
        &br#"{"cursor":{"partition":"0"},"events":[]}"#[..],
        &br#"{"cursor":{"partition":0,"offset":"1"},"events":[]}"#[..],
        &br#"{"cursor":{"partition":"0","offset":"1"},"events":[1]}"#[..],
        &br#"{"cursor":{"partition":"0","offset":"1"},"events":{}}"#[..],
    ] {
        let error = EventBatch::decode(line).unwrap_err();
        assert!(matches!(error, DecodeError::NotABatch));
        assert_eq!(error.message(), "the line does not have the shape of a batch of events");
    }
}

#[test]
fn malformed_line_ends_the_consumption() {
    let mut chunk = batch_line(&[r#"{"n":1}"#]);
    chunk.extend_from_slice(b"{\"cursor\"\n");
    chunk.extend(batch_line(&[r#"{"n":2}"#]));
    let mut consumer = StreamConsumer::new(None);
    let events = consumer.on_chunk(&chunk);
    assert_eq!(stdout_of(events), "{\"n\":1}\n");
    assert_eq!(consumer.status(), Status::Failed);
    assert!(consumer.on_chunk(&batch_line(&[r#"{"n":3}"#])).is_empty());
    assert_eq!(consumer.status(), Status::Failed);
    assert_eq!(consumer.on_end(), StreamEnd::MalformedBatch);
    let failure = consumer.failure_at_end().expect("a malformed batch is a failure");
    assert!(failure
        .message()
        .starts_with("\u{1b}[31mFailed to decode an event stream batch\u{1b}[0m, "));
}

#[test]
fn stream_that_ends_inside_a_line_is_incomplete() {
    let mut chunk = batch_line(&[r#"{"n":1}"#]);
    chunk.extend_from_slice(b"{\"cursor\":{\"partition\"");
    let (events, end) = consume(&vec![chunk], None);
    assert_eq!(events.len(), 1);
    assert_eq!(end, StreamEnd::IncompleteRecord);
    let (events, end) = consume(&Vec::new(), Some(1));
    assert!(events.is_empty());
    assert_eq!(end, StreamEnd::EndedAbruptly);
}

#[test]
fn a_finished_consumer_takes_nothing_more() {
    let mut consumer = StreamConsumer::new(Some(1));
    assert_eq!(consumer.on_chunk(&batch_line(&[r#"{"n":1}"#, r#"{"n":2}"#])).len(), 1);
    assert_eq!(consumer.status(), Status::Finished);
    assert!(consumer.on_chunk(&batch_line(&[r#"{"n":3}"#])).is_empty());
    assert_eq!(consumer.emitted(), 1);
    assert_eq!(consumer.on_end(), StreamEnd::LimitReached);
    assert!(consumer.failure_at_end().is_none());
}

#[test]
fn emitter_counts_up_to_the_limit() {
    let mut emitter = BoundedEmitter::new(Some(3));
    let (events, done) = emitter.emit(batch_of(&[r#"{"n":1}"#, r#"{"n":2}"#]));
    assert_eq!(events.len(), 2);
    assert!(!done);
    assert_eq!(emitter.count(), 2);
    let heartbeat = EventBatch {
        cursor: Cursor { partition: "0".to_string(), offset: "1".to_string() },
        events: None,
    };
    let (events, done) = emitter.emit(heartbeat);
    assert!(events.is_empty());
    assert!(!done);
    assert_eq!(emitter.count(), 2);
    let (events, done) = emitter.emit(batch_of(&[r#"{"n":3}"#, r#"{"n":4}"#, r#"{"n":5}"#]));
    assert_eq!(events, vec![event(r#"{"n":3}"#)]);
    assert!(done);
    assert_eq!(emitter.count(), 3);
}

#[test]
fn emitter_without_a_limit_hands_on_everything() {
    let mut emitter = BoundedEmitter::new(None);
    let (events, done) = emitter.emit(batch_of(&[r#"{"n":1}"#, r#"{"n":2}"#]));
    assert_eq!(events.len(), 2);
    assert!(!done);
    assert_eq!(emitter.count(), 0);
}

#[test]
fn failures_of_the_stream() {
    assert_eq!(
        end_failure(StreamEnd::EndedAbruptly, "").unwrap().message(),
        "\u{1b}[31mStream ended abruptly!\u{1b}[0m"
    );
    assert_eq!(
        end_failure(StreamEnd::IncompleteRecord, "").unwrap().message(),
        "\u{1b}[31mStream ended inside a record!\u{1b}[0m"
    );
    assert_eq!(
        end_failure(StreamEnd::MalformedBatch, "EOF").unwrap().message(),
        "\u{1b}[31mFailed to decode an event stream batch\u{1b}[0m, EOF"
    );
    assert!(end_failure(StreamEnd::LimitReached, "x").is_none());
    assert_eq!(
        unexpected_status("404 Not Found").message(),
        "\u{1b}[31mUnexpected status code\u{1b}[0m, 404 Not Found"
    );
    assert!(opening_failure(200, "200 OK").is_none());
    assert_eq!(
        opening_failure(404, "404 Not Found").unwrap().message(),
        "\u{1b}[31mUnexpected status code\u{1b}[0m, 404 Not Found"
    );
    assert_eq!(
        opening_failure(201, "201 Created").unwrap().message(),
        "\u{1b}[31mUnexpected status code\u{1b}[0m, 201 Created"
    );
    assert_eq!(
        transport_failure("broken pipe").message(),
        "\u{1b}[31mFailed to stream HTTP chunks\u{1b}[0m, broken pipe"
    );
}
