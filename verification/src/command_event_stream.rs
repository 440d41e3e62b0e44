//! Consumption of the event stream: each line of the response is one batch
//! of events, and the events are handed on in order until an optional limit
//! is reached.

use crate::fail::failure;
use crate::fail::Failure;
use crate::fail::failure_header;
use crate::fail::failure_text;
use crate::fail::painted_red;
use crate::http::bearer_token_of;
use crate::http::build_request;
use crate::http::events_path;
use crate::http::Method;
use crate::http::Request;
use crate::http::RequestValue;
use crate::http::text_option_view;
use crate::json::all_objects;
use crate::json::items_view;
use crate::json::Json;
use crate::json::json_option_view;
use crate::json::JsonError;
use crate::json::JsonValue;
use crate::json::lemma_array_view;
use crate::json::lemma_object_view;
use crate::json::Member;
use crate::json::member_value;
use crate::json::members_view;
use crate::json::MemberValue;
use crate::json::parsed_document;
use crate::json::take_two_members;
use crate::lines::complete_lines;
use crate::lines::concat_chunks;
use crate::lines::lemma_concat_chunks_split;
use crate::lines::lemma_lines_of_concat;
use crate::lines::line_views;
use crate::lines::LineReconstructor;
use crate::lines::pending_bytes;
use crate::server::ServerInfo;
use vstd::prelude::*;
use vstd::string::StringExecFns;

verus! {

/// One event: a JSON object, held as its members.
#[derive(Debug, PartialEq)]
pub struct Event {
    pub fields: Vec<Member>,
}

impl View for Event {
    type V = Seq<MemberValue>;

    open spec fn view(&self) -> Seq<MemberValue> {
        members_view(self.fields@)
    }
}

/// The position of a batch in its partition. It is read and never
/// interpreted.
#[derive(Debug, PartialEq)]
pub struct Cursor {
    pub partition: String,
    pub offset: String,
}

/// The mathematical model of a cursor.
pub struct CursorValue {
    pub partition: Seq<char>,
    pub offset: Seq<char>,
}

impl View for Cursor {
    type V = CursorValue;

    open spec fn view(&self) -> CursorValue {
        CursorValue { partition: self.partition@, offset: self.offset@ }
    }
}

/// One line of the stream: a cursor and the events that came with it. A
/// batch without events keeps the connection alive.
#[derive(Debug, PartialEq)]
pub struct EventBatch {
    pub cursor: Cursor,
    pub events: Option<Vec<Event>>,
}

/// The mathematical model of a batch.
pub struct EventBatchValue {
    pub cursor: CursorValue,
    pub events: Option<Seq<Seq<MemberValue>>>,
}

/// The models of `events`, in order.
pub open spec fn events_view(events: Seq<Event>) -> Seq<Seq<MemberValue>> {
    events.map_values(|event: Event| event@)
}

impl View for EventBatch {
    type V = EventBatchValue;

    open spec fn view(&self) -> EventBatchValue {
        EventBatchValue {
            cursor: self.cursor@,
            events: match self.events {
                Some(events) => Some(events_view(events@)),
                None => None,
            },
        }
    }
}

/// The text that `value` holds, if it is a text.
pub open spec fn text_of(value: Option<JsonValue>) -> Option<Seq<char>> {
    match value {
        Some(JsonValue::Text(text)) => Some(text),
        _ => None,
    }
}

/// The cursor that `value` spells: an object with a text under `partition`
/// and a text under `offset`.
pub open spec fn cursor_of(value: Option<JsonValue>) -> Option<CursorValue> {
    match value {
        Some(JsonValue::Object(members)) => match (
            text_of(member_value(members, "partition"@)),
            text_of(member_value(members, "offset"@)),
        ) {
            (Some(partition), Some(offset)) => Some(CursorValue { partition, offset }),
            _ => None,
        },
        _ => None,
    }
}

/// The events that `value` spells. Nothing, or null, stands for a batch
/// without events; an array of objects for its events. Anything else spells
/// no events field at all.
pub open spec fn events_of(value: Option<JsonValue>) -> Option<Option<Seq<Seq<MemberValue>>>> {
    match value {
        None => Some(None),
        Some(JsonValue::Null) => Some(None),
        Some(JsonValue::Array(items)) => if all_objects(items) {
            Some(Some(items.map_values(|item: JsonValue| item->Object_0)))
        } else {
            None
        },
        _ => None,
    }
}

/// The batch that `document` spells: an object with a cursor under `cursor`
/// and, if it has any, its events under `events`. Other members are ignored.
pub open spec fn batch_of(document: JsonValue) -> Option<EventBatchValue> {
    match document {
        JsonValue::Object(members) => match (
            cursor_of(member_value(members, "cursor"@)),
            events_of(member_value(members, "events"@)),
        ) {
            (Some(cursor), Some(events)) => Some(EventBatchValue { cursor, events }),
            _ => None,
        },
        _ => None,
    }
}

/// The batch that the line `line` spells, if it spells one.
pub open spec fn decoded_batch(line: Seq<u8>) -> Option<EventBatchValue> {
    match parsed_document(line) {
        Some(document) => batch_of(document),
        None => None,
    }
}

/// Why a line of the stream is no batch.
#[derive(Debug)]
pub enum DecodeError {
    /// The line is not one JSON document.
    NotJson(JsonError),
    /// The line is JSON, but not in the shape of a batch.
    NotABatch,
}

/// Reads a text out of a document.
fn into_text(value: Option<Json>) -> (r: Option<String>)
    ensures
        match r {
            Some(text) => text_of(json_option_view(value)) == Some(text@),
            None => text_of(json_option_view(value)) is None,
        },
{
    match value {
        Some(Json::Text(text)) => Some(text),
        _ => None,
    }
}

impl Cursor {
    /// Reads a cursor out of a document.
    pub fn from_json(value: Option<Json>) -> (r: Option<Cursor>)
        ensures
            match r {
                Some(cursor) => cursor_of(json_option_view(value)) == Some(cursor@),
                None => cursor_of(json_option_view(value)) is None,
            },
    {
        broadcast use lemma_object_view;

        proof {
            reveal_strlit("partition");
            reveal_strlit("offset");
            assert("partition"@ != "offset"@) by {
                assert("partition"@.len() != "offset"@.len());
            }
        }
        match value {
            Some(Json::Object(members)) => {
                let (partition, offset) = take_two_members(members, "partition", "offset");
                match (into_text(partition), into_text(offset)) {
                    (Some(partition), Some(offset)) => Some(Cursor { partition, offset }),
                    _ => None,
                }
            },
            _ => None,
        }
    }
}

/// Reads the events of a batch out of a document.
fn into_events(value: Option<Json>) -> (r: Option<Option<Vec<Event>>>)
    ensures
        match r {
            Some(Some(events)) => events_of(json_option_view(value)) == Some(
                Some(events_view(events@)),
            ),
            Some(None) => events_of(json_option_view(value)) == Some(
                None::<Seq<Seq<MemberValue>>>,
            ),
            None => events_of(json_option_view(value)) is None,
        },
{
    broadcast use lemma_array_view;

    match value {
        None => Some(None),
        Some(Json::Null) => Some(None),
        Some(Json::Array(items)) => {
            let ghost all = items_view(items@);
            let mut events: Vec<Event> = Vec::new();
            for item in it: items.into_iter()
                invariant
                    it.seq() == items@,
                    all == items_view(items@),
                    json_option_view(value) == Some(JsonValue::Array(all)),
                    events.len() == it.index(),
                    forall|k: int| 0 <= k < it.index() ==> (#[trigger] all[k]) is Object,
                    forall|k: int|
                        0 <= k < it.index() ==> (#[trigger] events@[k])@ == all[k]->Object_0,
            {
                proof {
                    assert(item@ == all[it.index() as int]);
                }
                match item {
                    Json::Object(fields) => {
                        proof {
                            lemma_object_view(fields);
                        }
                        events.push(Event { fields });
                    },
                    _ => {
                        assert(!(all[it.index() as int] is Object));
                        return None;
                    },
                }
            }
            proof {
                assert(all_objects(all));
                assert(events_view(events@) =~= all.map_values(|item: JsonValue| item->Object_0));
            }
            Some(Some(events))
        },
        _ => None,
    }
}

impl Event {
    /// The event as a JSON document.
    pub fn into_json(self) -> (r: Json)
        ensures
            r@ == JsonValue::Object(self@),
    {
        broadcast use lemma_object_view;

        Json::Object(self.fields)
    }
}

impl EventBatch {
    /// Reads a batch out of a document.
    pub fn from_json(document: Json) -> (r: Option<EventBatch>)
        ensures
            match r {
                Some(batch) => batch_of(document@) == Some(batch@),
                None => batch_of(document@) is None,
            },
    {
        broadcast use lemma_object_view;

        proof {
            reveal_strlit("cursor");
            reveal_strlit("events");
            assert("cursor"@ != "events"@) by {
                assert("cursor"@[0] != "events"@[0]);
            }
        }
        match document {
            Json::Object(members) => {
                let (cursor, events) = take_two_members(members, "cursor", "events");
                match (Cursor::from_json(cursor), into_events(events)) {
                    (Some(cursor), Some(events)) => Some(EventBatch { cursor, events }),
                    _ => None,
                }
            },
            _ => None,
        }
    }

    /// Reads one line of the stream as a batch.
    pub fn decode(line: &[u8]) -> (r: Result<EventBatch, DecodeError>)
        ensures
            match r {
                Ok(batch) => decoded_batch(line@) == Some(batch@),
                Err(_) => decoded_batch(line@) is None,
            },
    {
        match Json::parse(line) {
            Ok(document) => match EventBatch::from_json(document) {
                Some(batch) => Ok(batch),
                None => Err(DecodeError::NotABatch),
            },
            Err(error) => Err(DecodeError::NotJson(error)),
        }
    }
}

/// Where the consumption of a stream stands.
#[derive(Clone, Copy, Debug, PartialEq, Eq, Structural)]
pub enum Status {
    /// More lines are awaited.
    Streaming,
    /// The limit was reached: the command ends in success.
    Finished,
    /// A line was no batch: the command ends in failure.
    Failed,
}

/// The events of a batch that are handed on when `emitted` events went
/// before: all of them without a limit, else as many of the first as the
/// limit still allows.
pub open spec fn emitted_events(
    events: Option<Seq<Seq<MemberValue>>>,
    limit: Option<usize>,
    emitted: nat,
) -> Seq<Seq<MemberValue>> {
    match (events, limit) {
        (None, _) => Seq::empty(),
        (Some(events), None) => events,
        (Some(events), Some(limit)) => if emitted + events.len() <= limit {
            events
        } else {
            events.take(limit - emitted)
        },
    }
}

/// Whether a batch brings the number of events up to the limit, or beyond
/// it. A batch without events never does.
pub open spec fn reaches_limit(
    events: Option<Seq<Seq<MemberValue>>>,
    limit: Option<usize>,
    emitted: nat,
) -> bool {
    match (events, limit) {
        (Some(events), Some(limit)) => emitted + events.len() >= limit,
        _ => false,
    }
}

/// The running total after `handed_on` more events: it is kept only where
/// there is a limit.
pub open spec fn counted(limit: Option<usize>, emitted: nat, handed_on: nat) -> nat {
    if limit is Some {
        emitted + handed_on
    } else {
        emitted
    }
}

/// Counts the events handed on and cuts them off at the limit.
pub struct BoundedEmitter {
    limit: Option<usize>,
    emitted: usize,
}

impl BoundedEmitter {
    #[verifier::type_invariant]
    spec fn within_limit(self) -> bool {
        self.limit matches Some(limit) ==> self.emitted <= limit
    }

    /// The limit, if there is one.
    pub closed spec fn limit(&self) -> Option<usize> {
        self.limit
    }

    /// The number of events handed on so far, where there is a limit.
    pub closed spec fn emitted(&self) -> nat {
        self.emitted as nat
    }

    /// An emitter that has handed on nothing yet.
    pub fn new(limit: Option<usize>) -> (r: BoundedEmitter)
        ensures
            r.limit() == limit,
            r.emitted() == 0,
    {
        BoundedEmitter { limit, emitted: 0 }
    }

    /// The number of events handed on so far, where there is a limit.
    pub fn count(&self) -> (r: usize)
        ensures
            r == self.emitted(),
            self.limit() matches Some(limit) ==> r <= limit,
    {
        proof {
            use_type_invariant(self);
        }
        self.emitted
    }

    /// Takes the next batch. Returns the events to hand on, in order, and
    /// whether the limit is reached with them.
    pub fn emit(&mut self, batch: EventBatch) -> (r: (Vec<Event>, bool))
        ensures
            events_view(r.0@) == emitted_events(
                batch@.events,
                old(self).limit(),
                old(self).emitted(),
            ),
            r.1 == reaches_limit(batch@.events, old(self).limit(), old(self).emitted()),
            final(self).limit() == old(self).limit(),
            final(self).emitted() == counted(
                old(self).limit(),
                old(self).emitted(),
                r.0@.len(),
            ),
    {
        proof {
            use_type_invariant(&*self);
        }
        match batch.events {
            None => (Vec::new(), false),
            Some(events) => {
                let mut events = events;
                let ghost all = events_view(events@);
                match self.limit {
                    None => (events, false),
                    Some(limit) => {
                        let allowance = limit - self.emitted;
                        let done = events.len() >= allowance;
                        if events.len() > allowance {
                            events.truncate(allowance);
                            assert(events_view(events@) =~= all.take(allowance as int));
                        }
                        self.emitted = self.emitted + events.len();
                        (events, done)
                    },
                }
            },
        }
    }
}

/// What came of a run of lines: the events handed on, the running total
/// after them, and where the consumption stands.
pub struct Run {
    pub events: Seq<Seq<MemberValue>>,
    pub emitted: nat,
    pub status: Status,
}

/// What comes of taking `lines` one after the other when `emitted` events
/// went before. Each line is decoded and its events are handed on in order.
/// The run ends in failure at the first line that is no batch, and in
/// success with the batch that reaches the limit; what follows either is not
/// looked at.
pub open spec fn run_lines(lines: Seq<Seq<u8>>, limit: Option<usize>, emitted: nat) -> Run
    decreases lines.len(),
{
    if lines.len() == 0 {
        Run { events: Seq::empty(), emitted, status: Status::Streaming }
    } else {
        match decoded_batch(lines.first()) {
            None => Run { events: Seq::empty(), emitted, status: Status::Failed },
            Some(batch) => {
                let handed_on = emitted_events(batch.events, limit, emitted);
                let total = counted(limit, emitted, handed_on.len());
                if reaches_limit(batch.events, limit, emitted) {
                    Run { events: handed_on, emitted: total, status: Status::Finished }
                } else {
                    let rest = run_lines(lines.drop_first(), limit, total);
                    Run {
                        events: handed_on + rest.events,
                        emitted: rest.emitted,
                        status: rest.status,
                    }
                }
            },
        }
    }
}

/// A run over `head + tail` is the run over `head`, followed, if that one
/// still awaits lines, by the run over `tail`.
pub proof fn lemma_run_lines_concat(
    head: Seq<Seq<u8>>,
    tail: Seq<Seq<u8>>,
    limit: Option<usize>,
    emitted: nat,
)
    ensures
        run_lines(head + tail, limit, emitted) == (if run_lines(head, limit, emitted).status
            is Streaming {
            let first = run_lines(head, limit, emitted);
            let second = run_lines(tail, limit, first.emitted);
            Run {
                events: first.events + second.events,
                emitted: second.emitted,
                status: second.status,
            }
        } else {
            run_lines(head, limit, emitted)
        }),
    decreases head.len(),
{
    if head.len() == 0 {
        assert(head + tail =~= tail);
        let second = run_lines(tail, limit, emitted);
        assert(Seq::<Seq<MemberValue>>::empty() + second.events =~= second.events);
    } else {
        assert((head + tail).first() == head.first());
        assert((head + tail).drop_first() =~= head.drop_first() + tail);
        match decoded_batch(head.first()) {
            None => {},
            Some(batch) => {
                let handed_on = emitted_events(batch.events, limit, emitted);
                let total = counted(limit, emitted, handed_on.len());
                if !reaches_limit(batch.events, limit, emitted) {
                    lemma_run_lines_concat(head.drop_first(), tail, limit, total);
                    let rest = run_lines(head.drop_first(), limit, total);
                    if rest.status is Streaming {
                        let second = run_lines(tail, limit, rest.emitted);
                        assert(handed_on + (rest.events + second.events) =~= (handed_on
                            + rest.events) + second.events);
                    }
                }
            },
        }
    }
}

/// A batch without events changes nothing: the run goes on with the next
/// line as if the batch had not come.
pub proof fn lemma_heartbeat_changes_nothing(
    line: Seq<u8>,
    rest: Seq<Seq<u8>>,
    limit: Option<usize>,
    emitted: nat,
)
    requires
        decoded_batch(line) matches Some(batch) && batch.events is None,
    ensures
        run_lines(seq![line] + rest, limit, emitted) == run_lines(rest, limit, emitted),
{
    let lines = seq![line] + rest;
    assert(lines.first() == line);
    assert(lines.drop_first() =~= rest);
    let tail = run_lines(rest, limit, emitted);
    assert(Seq::<Seq<MemberValue>>::empty() + tail.events =~= tail.events);
}

/// The events of a batch; a batch without events has none.
pub open spec fn batch_events(events: Option<Seq<Seq<MemberValue>>>) -> Seq<Seq<MemberValue>> {
    match events {
        Some(events) => events,
        None => Seq::empty(),
    }
}

/// All the events that `lines` bring, in order, up to the first line that is
/// no batch.
pub open spec fn all_events(lines: Seq<Seq<u8>>) -> Seq<Seq<MemberValue>>
    decreases lines.len(),
{
    if lines.len() == 0 {
        Seq::empty()
    } else {
        match decoded_batch(lines.first()) {
            None => Seq::empty(),
            Some(batch) => batch_events(batch.events) + all_events(lines.drop_first()),
        }
    }
}

/// Without a limit a run hands on every event that the lines bring, in the
/// order in which they come.
pub proof fn lemma_run_hands_on_all_events(lines: Seq<Seq<u8>>, emitted: nat)
    ensures
        run_lines(lines, None, emitted).events == all_events(lines),
    decreases lines.len(),
{
    if lines.len() > 0 && decoded_batch(lines.first()) is Some {
        lemma_run_hands_on_all_events(lines.drop_first(), emitted);
    }
}

/// With a limit a run hands on the first events that the lines bring, in
/// the order in which they come: as many as the limit still allows, or all
/// of them where they are fewer.
pub proof fn lemma_run_hands_on_first_events(lines: Seq<Seq<u8>>, limit: usize, emitted: nat)
    requires
        emitted <= limit,
    ensures
        run_lines(lines, Some(limit), emitted).events == (if all_events(lines).len() <= limit
            - emitted {
            all_events(lines)
        } else {
            all_events(lines).take(limit - emitted)
        }),
    decreases lines.len(),
{
    if lines.len() > 0 {
        match decoded_batch(lines.first()) {
            None => {},
            Some(batch) => {
                let brought = batch_events(batch.events);
                let later = all_events(lines.drop_first());
                let handed_on = emitted_events(batch.events, Some(limit), emitted);
                let total = counted(Some(limit), emitted, handed_on.len());
                if reaches_limit(batch.events, Some(limit), emitted) {
                    assert((brought + later).take(limit - emitted) =~= brought.take(
                        limit - emitted,
                    ));
                    assert(brought.take(brought.len() as int) =~= brought);
                    if later.len() == 0 {
                        assert(brought + later =~= brought);
                    }
                } else {
                    lemma_run_hands_on_first_events(lines.drop_first(), limit, total);
                    let rest = run_lines(lines.drop_first(), Some(limit), total);
                    if later.len() > limit - total {
                        assert((brought + later).take(limit - emitted) =~= brought + later.take(
                            limit - total,
                        ));
                    }
                    assert(handed_on =~= brought);
                }
            },
        }
    }
}

/// Without a limit a run never ends in success.
pub proof fn lemma_run_lines_unbounded(lines: Seq<Seq<u8>>, emitted: nat)
    ensures
        !(run_lines(lines, None, emitted).status is Finished),
    decreases lines.len(),
{
    if lines.len() > 0 {
        lemma_run_lines_unbounded(lines.drop_first(), emitted);
    }
}

/// With a limit, a run never takes the running total beyond it, and hands
/// on exactly as many events as the total grows by.
pub proof fn lemma_run_lines_bounded(lines: Seq<Seq<u8>>, limit: usize, emitted: nat)
    requires
        emitted <= limit,
    ensures
        run_lines(lines, Some(limit), emitted).emitted <= limit,
        run_lines(lines, Some(limit), emitted).emitted == emitted + run_lines(
            lines,
            Some(limit),
            emitted,
        ).events.len(),
        run_lines(lines, Some(limit), emitted).status is Finished ==> run_lines(
            lines,
            Some(limit),
            emitted,
        ).emitted == limit,
    decreases lines.len(),
{
    if lines.len() > 0 {
        match decoded_batch(lines.first()) {
            None => {},
            Some(batch) => {
                let handed_on = emitted_events(batch.events, Some(limit), emitted);
                let total = counted(Some(limit), emitted, handed_on.len());
                if !reaches_limit(batch.events, Some(limit), emitted) {
                    lemma_run_lines_bounded(lines.drop_first(), limit, total);
                }
            },
        }
    }
}

/// How a stream that was consumed came to its end.
#[derive(Clone, Copy, Debug, PartialEq, Eq)]
pub enum StreamEnd {
    /// The limit was reached. This is the one successful end.
    LimitReached,
    /// A line was no batch.
    MalformedBatch,
    /// The stream ended inside a line.
    IncompleteRecord,
    /// The stream ended on a line boundary, which a subscription never
    /// does of itself.
    EndedAbruptly,
}

/// How a stream ends that left `pending` bytes behind with the consumption
/// at `status`.
pub open spec fn stream_end(status: Status, pending: Seq<u8>) -> StreamEnd {
    match status {
        Status::Finished => StreamEnd::LimitReached,
        Status::Failed => StreamEnd::MalformedBatch,
        Status::Streaming => if pending.len() > 0 {
            StreamEnd::IncompleteRecord
        } else {
            StreamEnd::EndedAbruptly
        },
    }
}

/// The mathematical model of a consumer.
pub struct ConsumerValue {
    pub pending: Seq<u8>,
    pub limit: Option<usize>,
    pub emitted: nat,
    pub status: Status,
}

/// Consumes a stream chunk by chunk.
pub struct StreamConsumer {
    lines: LineReconstructor,
    emitter: BoundedEmitter,
    status: Status,
    fault: Option<DecodeError>,
}

impl View for StreamConsumer {
    type V = ConsumerValue;

    closed spec fn view(&self) -> ConsumerValue {
        ConsumerValue {
            pending: self.lines@,
            limit: self.emitter.limit(),
            emitted: self.emitter.emitted(),
            status: self.status,
        }
    }
}

/// What a consumer is after the chunk `chunk`: unchanged once it has ended,
/// else what the run over the lines that the chunk completes leaves. A
/// consumer that ends keeps no pending bytes.
pub open spec fn after_chunk(before: ConsumerValue, chunk: Seq<u8>) -> ConsumerValue {
    if before.status is Streaming {
        let run = run_lines(complete_lines(before.pending + chunk), before.limit, before.emitted);
        ConsumerValue {
            pending: if run.status is Streaming {
                pending_bytes(before.pending + chunk)
            } else {
                Seq::empty()
            },
            limit: before.limit,
            emitted: run.emitted,
            status: run.status,
        }
    } else {
        before
    }
}

/// The events that a consumer hands on for the chunk `chunk`.
pub open spec fn events_of_chunk(before: ConsumerValue, chunk: Seq<u8>) -> Seq<Seq<MemberValue>> {
    if before.status is Streaming {
        run_lines(complete_lines(before.pending + chunk), before.limit, before.emitted).events
    } else {
        Seq::empty()
    }
}

/// Chunk boundaries do not matter to a consumer: taking two chunks one
/// after the other leaves it as taking their bytes at once does, and hands
/// on the same events in the same order.
pub proof fn lemma_chunks_compose(before: ConsumerValue, first: Seq<u8>, second: Seq<u8>)
    ensures
        after_chunk(after_chunk(before, first), second) == after_chunk(before, first + second),
        events_of_chunk(before, first) + events_of_chunk(after_chunk(before, first), second)
            == events_of_chunk(before, first + second),
{
    if before.status is Streaming {
        let head = before.pending + first;
        lemma_lines_of_concat(head, second);
        assert(head + second =~= before.pending + (first + second));
        lemma_run_lines_concat(
            complete_lines(head),
            complete_lines(pending_bytes(head) + second),
            before.limit,
            before.emitted,
        );
        let run = run_lines(complete_lines(head), before.limit, before.emitted);
        if !(run.status is Streaming) {
            assert(run.events + Seq::<Seq<MemberValue>>::empty() =~= run.events);
        }
    } else {
        assert(Seq::<Seq<MemberValue>>::empty() + Seq::<Seq<MemberValue>>::empty()
            =~= Seq::<Seq<MemberValue>>::empty());
    }
}

impl StreamConsumer {
    /// A consumer at the start of a stream.
    pub fn new(limit: Option<usize>) -> (r: StreamConsumer)
        ensures
            r@ == (ConsumerValue {
                pending: Seq::empty(),
                limit,
                emitted: 0,
                status: Status::Streaming,
            }),
    {
        StreamConsumer {
            lines: LineReconstructor::new(),
            emitter: BoundedEmitter::new(limit),
            status: Status::Streaming,
            fault: None,
        }
    }

    /// Where the consumption stands.
    pub fn status(&self) -> (r: Status)
        ensures
            r == self@.status,
    {
        self.status
    }

    /// The number of events handed on so far, where there is a limit.
    pub fn emitted(&self) -> (r: usize)
        ensures
            r == self@.emitted,
            self@.limit matches Some(limit) ==> r <= limit,
    {
        self.emitter.count()
    }

    /// Takes the next chunk of the stream and returns the events to hand
    /// on, in order. A consumer that has ended takes nothing more.
    pub fn on_chunk(&mut self, chunk: &[u8]) -> (events: Vec<Event>)
        ensures
            final(self)@ == after_chunk(old(self)@, chunk@),
            events_view(events@) == events_of_chunk(old(self)@, chunk@),
    {
        let mut events: Vec<Event> = Vec::new();
        if self.status != Status::Streaming {
            assert(events_view(events@) =~= Seq::<Seq<MemberValue>>::empty());
            return events;
        }
        let ghost before = self@;
        let lines = self.lines.feed(chunk);
        let ghost all = line_views(lines@);
        assert(all.skip(0) =~= all);
        assert(events_view(events@) =~= Seq::<Seq<MemberValue>>::empty());
        let mut i: usize = 0;
        while i < lines.len() && self.status == Status::Streaming
            invariant
                i <= lines.len(),
                all == line_views(lines@),
                self.emitter.limit() == before.limit,
                self.lines@ == pending_bytes(before.pending + chunk@),
                before.status is Streaming,
                self.status is Streaming ==> run_lines(all, before.limit, before.emitted) == (Run {
                    events: events_view(events@) + run_lines(
                        all.skip(i as int),
                        before.limit,
                        self.emitter.emitted(),
                    ).events,
                    emitted: run_lines(
                        all.skip(i as int),
                        before.limit,
                        self.emitter.emitted(),
                    ).emitted,
                    status: run_lines(
                        all.skip(i as int),
                        before.limit,
                        self.emitter.emitted(),
                    ).status,
                }),
                !(self.status is Streaming) ==> run_lines(all, before.limit, before.emitted) == (
                Run {
                    events: events_view(events@),
                    emitted: self.emitter.emitted(),
                    status: self.status,
                }),
            decreases lines.len() - i,
        {
            let ghost so_far = events_view(events@);
            let ghost rest = all.skip(i as int);
            proof {
                assert(rest.first() == lines@[i as int]@);
                assert(rest.drop_first() =~= all.skip(i + 1));
            }
            match EventBatch::decode(lines[i].as_slice()) {
                Err(error) => {
                    self.status = Status::Failed;
                    self.fault = Some(error);
                    assert(so_far + Seq::<Seq<MemberValue>>::empty() =~= so_far);
                },
                Ok(batch) => {
                    let (mut handed_on, done) = self.emitter.emit(batch);
                    let ghost added = events_view(handed_on@);
                    events.append(&mut handed_on);
                    assert(events_view(events@) =~= so_far + added);
                    if done {
                        self.status = Status::Finished;
                    } else {
                        let ghost after = run_lines(
                            all.skip(i + 1),
                            before.limit,
                            self.emitter.emitted(),
                        );
                        assert(so_far + (added + after.events) =~= (so_far + added)
                            + after.events);
                    }
                },
            }
            i += 1;
        }
        proof {
            if self.status is Streaming {
                assert(all.skip(i as int).len() == 0);
                assert(events_view(events@) + Seq::<Seq<MemberValue>>::empty() =~= events_view(
                    events@,
                ));
            }
        }
        if self.status != Status::Streaming {
            self.lines = LineReconstructor::new();
        }
        events
    }

    /// How the stream ends if it ends now.
    pub fn on_end(&self) -> (r: StreamEnd)
        ensures
            r == stream_end(self@.status, self@.pending),
    {
        match self.status {
            Status::Finished => StreamEnd::LimitReached,
            Status::Failed => StreamEnd::MalformedBatch,
            Status::Streaming => if self.lines.pending_len() > 0 {
                StreamEnd::IncompleteRecord
            } else {
                StreamEnd::EndedAbruptly
            },
        }
    }
}

pub const NAME: &'static str = "stream";

/// The status that says the stream was opened.
pub const EXPECTED_STATUS: u16 = 200;

/// What is said of a line that is JSON but no batch.
pub const NOT_A_BATCH: &'static str = "the line does not have the shape of a batch of events";

/// The header of the failure for a line that is no batch.
pub const DECODE_FAILED: &'static str = "Failed to decode an event stream batch";

/// The header of the failure for a stream that ended inside a line.
pub const INCOMPLETE_RECORD: &'static str = "Stream ended inside a record!";

/// The header of the failure for a stream that ended of itself.
pub const ENDED_ABRUPTLY: &'static str = "Stream ended abruptly!";

/// The header of the failure for a stream that was not opened.
pub const UNEXPECTED_STATUS: &'static str = "Unexpected status code";

/// The header of the failure for a stream that broke.
pub const TRANSPORT_FAILED: &'static str = "Failed to stream HTTP chunks";

impl DecodeError {
    /// What is said of the error.
    pub fn message(&self) -> (r: String)
        ensures
            self matches DecodeError::NotJson(error) ==> r@ == error.message@,
            self is NotABatch ==> r@ == NOT_A_BATCH@,
    {
        match self {
            DecodeError::NotJson(error) => error.message.clone(),
            DecodeError::NotABatch => String::from_str(NOT_A_BATCH),
        }
    }
}

/// The failure to report for a stream that ended in `end`, where `detail`
/// is what was said of the line that was no batch: none for the one
/// successful end.
pub open spec fn end_failure_text(end: StreamEnd, detail: Seq<char>) -> Option<Seq<char>> {
    match end {
        StreamEnd::LimitReached => None,
        StreamEnd::MalformedBatch => Some(failure_text(DECODE_FAILED@, detail)),
        StreamEnd::IncompleteRecord => Some(painted_red(INCOMPLETE_RECORD@)),
        StreamEnd::EndedAbruptly => Some(painted_red(ENDED_ABRUPTLY@)),
    }
}

/// The model of a failure that may be missing.
pub open spec fn failure_option_view(failure: Option<Failure>) -> Option<Seq<char>> {
    match failure {
        Some(failure) => Some(failure@),
        None => None,
    }
}

/// The failure to report for a stream that ended in `end`, where `detail`
/// is what was said of the line that was no batch. Every end but the
/// reaching of the limit is a failure.
pub fn end_failure(end: StreamEnd, detail: &str) -> (r: Option<Failure>)
    ensures
        failure_option_view(r) == end_failure_text(end, detail@),
{
    match end {
        StreamEnd::LimitReached => None,
        StreamEnd::MalformedBatch => Some(failure(DECODE_FAILED, detail)),
        StreamEnd::IncompleteRecord => Some(failure_header(INCOMPLETE_RECORD)),
        StreamEnd::EndedAbruptly => Some(failure_header(ENDED_ABRUPTLY)),
    }
}

/// The failure to report for a response that did not open the stream;
/// `status` is the status as the transport displays it.
pub fn unexpected_status(status: &str) -> (r: Failure)
    ensures
        r@ == failure_text(UNEXPECTED_STATUS@, status@),
{
    failure(UNEXPECTED_STATUS, status)
}

/// The failure to report for the response that answers the request for the
/// stream, if it did not open the stream; `shown` is the status as the
/// transport displays it.
pub fn opening_failure(status: u16, shown: &str) -> (r: Option<Failure>)
    ensures
        failure_option_view(r) == (if status == EXPECTED_STATUS {
            None
        } else {
            Some(failure_text(UNEXPECTED_STATUS@, shown@))
        }),
{
    if status == EXPECTED_STATUS {
        None
    } else {
        Some(unexpected_status(shown))
    }
}

/// The failure to report for a stream that broke; `detail` is what the
/// transport said.
pub fn transport_failure(detail: &str) -> (r: Failure)
    ensures
        r@ == failure_text(TRANSPORT_FAILED@, detail@),
{
    failure(TRANSPORT_FAILED, detail)
}

/// The request that opens the stream of the events of `event_type`.
pub fn request(event_type: &str, server_info: &ServerInfo, helper_token: Option<String>) -> (r:
    Result<Request, Failure>)
    ensures
        r matches Ok(request) && request@ == (RequestValue {
            method: Method::Get,
            url_base: server_info.url_base@,
            path: "/event-types/"@ + event_type@ + "/events"@,
            bearer_token: bearer_token_of(
                server_info.authorization,
                text_option_view(helper_token),
            ),
            content_type_json: false,
            body: None,
        }),
{
    let path = events_path(event_type);
    build_request(Method::Get, path.as_str(), server_info, helper_token, None)
}

impl StreamConsumer {
    /// The failure to report if the stream ends now: none where the limit
    /// was reached.
    pub fn failure_at_end(&self) -> (r: Option<Failure>)
        ensures
            exists|detail: Seq<char>|
                failure_option_view(r) == #[trigger] end_failure_text(
                    stream_end(self@.status, self@.pending),
                    detail,
                ),
    {
        let end = self.on_end();
        let detail = match &self.fault {
            Some(error) => error.message(),
            None => String::new(),
        };
        let r = end_failure(end, detail.as_str());
        assert(failure_option_view(r) == end_failure_text(
            stream_end(self@.status, self@.pending),
            detail@,
        ));
        r
    }
}

/// What comes of consuming the bytes `bytes` from the start of a stream to
/// its end: the events handed on, and how the stream ended.
pub open spec fn consumed(bytes: Seq<u8>, limit: Option<usize>) -> (
    Seq<Seq<MemberValue>>,
    StreamEnd,
) {
    let run = run_lines(complete_lines(bytes), limit, 0);
    (run.events, stream_end(run.status, pending_bytes(bytes)))
}

/// Consumes a whole stream that arrived as `chunks`. Returns the events to
/// hand on, in order, and how the stream ended. Chunks that follow the end
/// of the consumption are not looked at; how the bytes were cut into chunks
/// makes no difference.
pub fn consume(chunks: &Vec<Vec<u8>>, limit: Option<usize>) -> (r: (Vec<Event>, StreamEnd))
    ensures
        (events_view(r.0@), r.1) == consumed(concat_chunks(line_views(chunks@)), limit),
        limit matches Some(most) ==> r.0@.len() <= most,
        r.1 is LimitReached ==> (limit matches Some(most) && r.0@.len() == most),
{
    let ghost all = line_views(chunks@);
    let mut consumer = StreamConsumer::new(limit);
    let mut events: Vec<Event> = Vec::new();
    let mut i: usize = 0;
    proof {
        assert(all.take(0) =~= Seq::<Seq<u8>>::empty());
        assert(events_view(events@) =~= Seq::<Seq<MemberValue>>::empty());
    }
    while i < chunks.len() && consumer.status() == Status::Streaming
        invariant
            i <= chunks.len(),
            all == line_views(chunks@),
            consumer@.limit == limit,
            consumer@.status is Streaming ==> consumer@.pending == pending_bytes(
                concat_chunks(all.take(i as int)),
            ),
            run_lines(complete_lines(concat_chunks(all.take(i as int))), limit, 0) == (Run {
                events: events_view(events@),
                emitted: consumer@.emitted,
                status: consumer@.status,
            }),
        decreases chunks.len() - i,
    {
        let ghost fed = concat_chunks(all.take(i as int));
        let ghost so_far = events_view(events@);
        let ghost before = consumer@;
        let mut handed_on = consumer.on_chunk(chunks[i].as_slice());
        let ghost added = events_view(handed_on@);
        events.append(&mut handed_on);
        proof {
            assert(events_view(events@) =~= so_far + added);
            assert(all.take(i + 1).drop_last() =~= all.take(i as int));
            assert(all.take(i + 1).last() == chunks@[i as int]@);
            lemma_lines_of_concat(fed, chunks@[i as int]@);
            lemma_run_lines_concat(
                complete_lines(fed),
                complete_lines(before.pending + chunks@[i as int]@),
                limit,
                0,
            );
        }
        i += 1;
    }
    let end = consumer.on_end();
    proof {
        let fed = concat_chunks(all.take(i as int));
        let rest = concat_chunks(all.skip(i as int));
        lemma_concat_chunks_split(all, i as int);
        lemma_lines_of_concat(fed, rest);
        lemma_run_lines_concat(
            complete_lines(fed),
            complete_lines(pending_bytes(fed) + rest),
            limit,
            0,
        );
        if consumer@.status is Streaming {
            assert(all.take(i as int) =~= all);
        }
        match limit {
            Some(most) => lemma_run_lines_bounded(complete_lines(concat_chunks(all)), most, 0),
            None => lemma_run_lines_unbounded(complete_lines(concat_chunks(all)), 0),
        }
        assert(events_view(events@).len() == events@.len());
    }
    (events, end)
}

} // verus!
