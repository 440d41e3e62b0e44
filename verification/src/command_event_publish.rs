//! Shaping of a publish request: from what the user supplied, one JSON
//! array of events in the form that the event category asks for.

use chrono::Local;
use crate::fail::Failure;
use crate::fail::failure_header;
use crate::fail::failure_text;
use crate::fail::painted_red;
use crate::http::bearer_token_of;
use crate::http::build_request;
use crate::http::events_path;
use crate::http::Method;
use crate::http::Request;
use crate::http::SERIALIZE_FAILED;
use crate::http::text_option_view;
use crate::decimal::is_digit;
use crate::json::compact_text;
use crate::json::find_member;
use crate::json::items_view;
use crate::json::Json;
use crate::json::JsonError;
use crate::json::JsonValue;
use crate::json::key_index;
use crate::json::lemma_array_view;
use crate::json::lemma_key_index;
use crate::json::lemma_object_view;
use crate::json::Member;
use crate::json::members_view;
use crate::json::MemberValue;
use crate::json::parsed_text;
use crate::server::ServerInfo;
use uuid::Uuid;
use vstd::prelude::*;
use vstd::string::StringExecFns;

verus! {

/// What happened to the data that a data event reports.
#[derive(Clone, Copy, Debug, PartialEq, Eq)]
pub enum DataOp {
    Create,
    Update,
    Deletion,
    Snapshot,
}

/// The category of the events to publish.
#[derive(Clone, Copy, Debug, PartialEq, Eq)]
pub enum Category {
    Undefined,
    Data { op: DataOp },
    Business,
}

/// Why the supplied JSON cannot be published.
#[derive(Clone, Copy, Debug, PartialEq, Eq)]
pub enum ValidationError {
    /// The input is neither an object nor an array.
    NotObjectOrArray,
    /// An event is not an object.
    ArrayElementNotObject,
    /// A business event holds something under `metadata` that is no object.
    MetadataNotObject,
}

/// The name of the event type that events are published to.
pub struct EventType(pub String);

/// The metadata generated for one event.
pub struct Metadata {
    pub eid: String,
    pub occurred_at: String,
}

/// The mathematical model of the metadata generated for one event.
pub struct MetadataValue {
    pub eid: Seq<char>,
    pub occurred_at: Seq<char>,
}

impl View for Metadata {
    type V = MetadataValue;

    open spec fn view(&self) -> MetadataValue {
        MetadataValue { eid: self.eid@, occurred_at: self.occurred_at@ }
    }
}

/// The one-letter code by which the broker knows `op`.
pub open spec fn data_op_code(op: DataOp) -> Seq<char> {
    match op {
        DataOp::Create => "C"@,
        DataOp::Update => "U"@,
        DataOp::Deletion => "D"@,
        DataOp::Snapshot => "S"@,
    }
}

/// The member `key: text`.
pub open spec fn text_member(key: Seq<char>, text: Seq<char>) -> MemberValue {
    MemberValue { key, value: JsonValue::Text(text) }
}

/// A metadata object that holds `stamp` and nothing else.
pub open spec fn fresh_metadata(stamp: MetadataValue) -> JsonValue {
    JsonValue::Object(
        seq![text_member("eid"@, stamp.eid), text_member("occurred_at"@, stamp.occurred_at)],
    )
}

/// The members of a metadata object after the fields of `stamp` that it
/// lacked were added: what the user supplied stays.
pub open spec fn completed_metadata(
    supplied: Seq<MemberValue>,
    stamp: MetadataValue,
) -> Seq<MemberValue> {
    let with_eid = if key_index(supplied, "eid"@) >= 0 {
        supplied
    } else {
        supplied.push(text_member("eid"@, stamp.eid))
    };
    if key_index(with_eid, "occurred_at"@) >= 0 {
        with_eid
    } else {
        with_eid.push(text_member("occurred_at"@, stamp.occurred_at))
    }
}

/// The envelope of a data event: the event under `data`, the code of `op`,
/// the event type, and fresh metadata.
pub open spec fn data_envelope(
    event: JsonValue,
    op: DataOp,
    event_type: Seq<char>,
    stamp: MetadataValue,
) -> JsonValue {
    JsonValue::Object(
        seq![
            MemberValue { key: "data"@, value: event },
            text_member("data_op"@, data_op_code(op)),
            text_member("data_type"@, event_type),
            MemberValue { key: "metadata"@, value: fresh_metadata(stamp) },
        ],
    )
}

/// The envelope of a business event with the members `members`: the same
/// members, with metadata added, or completed where the event brought some.
pub open spec fn business_envelope(members: Seq<MemberValue>, stamp: MetadataValue) -> JsonValue {
    let at = key_index(members, "metadata"@);
    if at < 0 {
        JsonValue::Object(
            members.push(MemberValue { key: "metadata"@, value: fresh_metadata(stamp) }),
        )
    } else {
        JsonValue::Object(
            members.update(
                at,
                MemberValue {
                    key: "metadata"@,
                    value: JsonValue::Object(
                        completed_metadata(members[at].value->Object_0, stamp),
                    ),
                },
            ),
        )
    }
}

/// What is wrong with one event of the given category, if anything.
pub open spec fn element_error(element: JsonValue, category: Category) -> Option<ValidationError> {
    match element {
        JsonValue::Object(members) => {
            let at = key_index(members, "metadata"@);
            if category is Business && at >= 0 && !(members[at].value is Object) {
                Some(ValidationError::MetadataNotObject)
            } else {
                None
            }
        },
        _ => Some(ValidationError::ArrayElementNotObject),
    }
}

/// The form in which one valid event of the given category is published.
pub open spec fn envelope(
    element: JsonValue,
    category: Category,
    event_type: Seq<char>,
    stamp: MetadataValue,
) -> JsonValue {
    match category {
        Category::Undefined => element,
        Category::Data { op } => data_envelope(element, op, event_type, stamp),
        Category::Business => business_envelope(element->Object_0, stamp),
    }
}

/// The events that `input` holds: itself if it is an object, its items if it
/// is an array.
pub open spec fn elements(input: JsonValue) -> Option<Seq<JsonValue>> {
    match input {
        JsonValue::Object(_) => Some(seq![input]),
        JsonValue::Array(items) => Some(items),
        _ => None,
    }
}

/// What is wrong with the first of `events` that is not in order, if any.
pub open spec fn first_error(events: Seq<JsonValue>, category: Category) -> Option<ValidationError>
    decreases events.len(),
{
    if events.len() == 0 {
        None
    } else {
        match first_error(events.drop_last(), category) {
            Some(error) => Some(error),
            None => element_error(events.last(), category),
        }
    }
}

/// Why `input` cannot be published in the given category, if it cannot.
pub open spec fn validation_error(input: JsonValue, category: Category) -> Option<ValidationError> {
    match elements(input) {
        None => Some(ValidationError::NotObjectOrArray),
        Some(events) => first_error(events, category),
    }
}

/// The request body for `events`, the i-th of them with the i-th of
/// `stamps`: an array of their envelopes, in the same order.
pub open spec fn request_body(
    events: Seq<JsonValue>,
    category: Category,
    event_type: Seq<char>,
    stamps: Seq<MetadataValue>,
) -> JsonValue {
    JsonValue::Array(
        Seq::new(events.len(), |i: int| envelope(events[i], category, event_type, stamps[i])),
    )
}

/// `c` is a decimal digit or one of the letters `a` to `f`.
pub open spec fn is_lower_hex(c: char) -> bool {
    ('0' <= c && c <= '9') || ('a' <= c && c <= 'f')
}

/// `c` is what stands at the place `at` of an identifier in hyphenated form:
/// a hyphen after the groups of 8, 4, 4 and 4 digits, else a digit.
pub open spec fn fits_identifier(at: int, c: char) -> bool {
    if at == 8 || at == 13 || at == 18 || at == 23 {
        c == '-'
    } else {
        is_lower_hex(c)
    }
}

/// `text` has the form of a random identifier: 36 characters, lower-case
/// hexadecimal digits in groups of 8, 4, 4, 4 and 12 with hyphens between
/// them, the third group starting with the version, 4.
pub open spec fn is_random_identifier(text: Seq<char>) -> bool {
    &&& text.len() == 36
    &&& forall|at: int| 0 <= at < 36 ==> fits_identifier(at, #[trigger] text[at])
    &&& text[14] == '4'
}

/// `text` has the form of a date and time with its offset: at least 25
/// characters, a `T` between date and time, and at the end the offset as a
/// sign, two digits of hours, a colon and two digits of minutes.
pub open spec fn is_offset_date_time(text: Seq<char>) -> bool {
    let end = text.len() as int;
    &&& end >= 25
    &&& text.contains('T')
    &&& (text[end - 6] == '+' || text[end - 6] == '-')
    &&& is_digit(text[end - 5])
    &&& is_digit(text[end - 4])
    &&& text[end - 3] == ':'
    &&& is_digit(text[end - 2])
    &&& is_digit(text[end - 1])
}

/// `stamp` has the form of generated metadata: a random identifier and a
/// date and time with its offset.
pub open spec fn is_generated(stamp: MetadataValue) -> bool {
    is_random_identifier(stamp.eid) && is_offset_date_time(stamp.occurred_at)
}

/// Every one of `stamps` has the form of generated metadata.
pub open spec fn all_generated(stamps: Seq<MetadataValue>) -> bool {
    forall|i: int| 0 <= i < stamps.len() ==> is_generated(#[trigger] stamps[i])
}

/// `body` is a request body for the valid events `events`: the events
/// themselves in the undefined category, and in the others their envelopes
/// with metadata that has the generated form, one for each event.
pub open spec fn is_published_body(
    body: JsonValue,
    events: Seq<JsonValue>,
    category: Category,
    event_type: Seq<char>,
) -> bool {
    if category is Undefined {
        body == JsonValue::Array(events)
    } else {
        exists|stamps: Seq<MetadataValue>|
            stamps.len() == events.len() && all_generated(stamps) && body == #[trigger] request_body(
                events,
                category,
                event_type,
                stamps,
            )
    }
}

/// No event before the first faulty one is faulty.
pub proof fn lemma_first_error_none(events: Seq<JsonValue>, category: Category, i: int)
    requires
        first_error(events, category) is None,
        0 <= i < events.len(),
    ensures
        element_error(events[i], category) is None,
    decreases events.len(),
{
    if i < events.len() - 1 {
        lemma_first_error_none(events.drop_last(), category, i);
    }
}

/// A fault among the first `n` events is the first fault of all of them.
pub proof fn lemma_first_error_prefix(events: Seq<JsonValue>, category: Category, n: int)
    requires
        0 <= n <= events.len(),
        first_error(events.take(n), category) is Some,
    ensures
        first_error(events, category) == first_error(events.take(n), category),
    decreases events.len() - n,
{
    if n == events.len() {
        assert(events.take(n) =~= events);
    } else {
        assert(events.take(n + 1).drop_last() =~= events.take(n));
        lemma_first_error_prefix(events, category, n + 1);
    }
}

/// Input that is neither an object nor an array is rejected, whatever the
/// category.
pub proof fn lemma_rejects_other_than_object_or_array(input: JsonValue, category: Category)
    requires
        !(input is Object),
        !(input is Array),
    ensures
        validation_error(input, category) == Some(ValidationError::NotObjectOrArray),
{
}

/// An array that holds something else than an object is rejected, whatever
/// the category.
pub proof fn lemma_rejects_array_with_non_object(items: Seq<JsonValue>, at: int, category: Category)
    requires
        0 <= at < items.len(),
        !(items[at] is Object),
    ensures
        validation_error(JsonValue::Array(items), category) is Some,
{
    if first_error(items, category) is None {
        lemma_first_error_none(items, category, at);
    }
}

/// The body of a request is an array with one object for each event.
pub proof fn lemma_request_body_holds_objects(
    events: Seq<JsonValue>,
    category: Category,
    event_type: Seq<char>,
    stamps: Seq<MetadataValue>,
)
    requires
        first_error(events, category) is None,
    ensures
        request_body(events, category, event_type, stamps) is Array,
        request_body(events, category, event_type, stamps)->Array_0.len() == events.len(),
        forall|i: int|
            0 <= i < events.len() ==> (#[trigger] request_body(
                events,
                category,
                event_type,
                stamps,
            )->Array_0[i]) is Object,
{
    let body = request_body(events, category, event_type, stamps)->Array_0;
    assert forall|i: int| 0 <= i < events.len() implies (#[trigger] body[i]) is Object by {
        lemma_first_error_none(events, category, i);
    }
}

/// `uuid::Uuid::new_v4`, displayed: a random identifier of version 4 in
/// lower-case hyphenated form. Which identifier it is depends on chance.
#[verifier::external_body]
fn fresh_eid() -> (r: String)
    ensures
        is_random_identifier(r@),
{
    Uuid::new_v4().to_string()
}

/// `chrono::Local::now` as `to_rfc3339` writes it: the local date and time
/// of the call, then the offset from UTC as a sign, hours, a colon and
/// minutes. The year takes four digits, or a sign and more where it lies
/// outside 0 to 9999, so only the end of the text has fixed places.
#[verifier::external_body]
fn local_time_now() -> (r: String)
    ensures
        is_offset_date_time(r@),
{
    Local::now().to_rfc3339()
}

impl DataOp {
    /// The one-letter code by which the broker knows the operation.
    pub fn code(&self) -> (r: &'static str)
        ensures
            r@ == data_op_code(*self),
    {
        match self {
            DataOp::Create => "C",
            DataOp::Update => "U",
            DataOp::Deletion => "D",
            DataOp::Snapshot => "S",
        }
    }
}

impl Metadata {
    /// Metadata for one event: an identifier of its own and the time now.
    pub fn generate() -> (r: Metadata)
        ensures
            is_generated(r@),
    {
        let occurred_at = local_time_now();
        Metadata { eid: fresh_eid(), occurred_at }
    }

    /// The metadata as a JSON object.
    pub fn into_json(self) -> (r: Json)
        ensures
            r@ == fresh_metadata(self@),
    {
        broadcast use lemma_object_view;

        let mut members: Vec<Member> = Vec::new();
        members.push(Member { key: String::from_str("eid"), value: Json::Text(self.eid) });
        members.push(
            Member { key: String::from_str("occurred_at"), value: Json::Text(self.occurred_at) },
        );
        let r = Json::Object(members);
        assert(r@->Object_0 =~= fresh_metadata(self@)->Object_0);
        r
    }
}

/// Puts one event into the envelope of a data event.
pub fn data_event(event_type: &str, event: Json, op: DataOp, stamp: Metadata) -> (r: Result<
    Json,
    ValidationError,
>)
    ensures
        match r {
            Ok(shaped) => event@ is Object && shaped@ == data_envelope(
                event@,
                op,
                event_type@,
                stamp@,
            ),
            Err(error) => !(event@ is Object) && error == ValidationError::ArrayElementNotObject,
        },
{
    broadcast use lemma_object_view;

    if !event.is_object() {
        return Err(ValidationError::ArrayElementNotObject);
    }
    let ghost event_view = event@;
    let ghost stamp_view = stamp@;
    let mut members: Vec<Member> = Vec::new();
    members.push(Member { key: String::from_str("data"), value: event });
    members.push(
        Member { key: String::from_str("data_op"), value: Json::Text(String::from_str(op.code())) },
    );
    members.push(
        Member {
            key: String::from_str("data_type"),
            value: Json::Text(String::from_str(event_type)),
        },
    );
    members.push(Member { key: String::from_str("metadata"), value: stamp.into_json() });
    let shaped = Json::Object(members);
    assert(shaped@->Object_0 =~= data_envelope(
        event_view,
        op,
        event_type@,
        stamp_view,
    )->Object_0);
    Ok(shaped)
}

/// Adds to the members of a metadata object the fields of `stamp` that it
/// lacks.
fn complete_metadata(supplied: Vec<Member>, stamp: Metadata) -> (r: Vec<Member>)
    ensures
        members_view(r@) == completed_metadata(
            members_view(supplied@),
            stamp@,
        ),
{
    let mut members = supplied;
    if find_member(&members, "eid").is_none() {
        members.push(Member { key: String::from_str("eid"), value: Json::Text(stamp.eid) });
        assert(members_view(members@) =~= members_view(supplied@).push(
            text_member("eid"@, stamp.eid@),
        ));
    }
    let ghost with_eid = members_view(members@);
    if find_member(&members, "occurred_at").is_none() {
        members.push(
            Member { key: String::from_str("occurred_at"), value: Json::Text(stamp.occurred_at) },
        );
        assert(members_view(members@) =~= with_eid.push(
            text_member("occurred_at"@, stamp.occurred_at@),
        ));
    }
    members
}

/// Puts one event into the form of a business event: its own members, with
/// the metadata added or completed.
pub fn business_event(event: Json, stamp: Metadata) -> (r: Result<Json, ValidationError>)
    ensures
        match r {
            Ok(shaped) => element_error(event@, Category::Business) is None && shaped@
                == business_envelope(event@->Object_0, stamp@),
            Err(error) => element_error(event@, Category::Business) == Some(error),
        },
{
    broadcast use lemma_object_view;

    match event {
        Json::Object(members) => {
            let mut members = members;
            let ghost brought = members_view(members@);
            proof {
                lemma_key_index(brought, "metadata"@);
            }
            match find_member(&members, "metadata") {
                None => {
                    members.push(
                        Member { key: String::from_str("metadata"), value: stamp.into_json() },
                    );
                    assert(members_view(members@) =~= brought.push(
                        MemberValue { key: "metadata"@, value: fresh_metadata(stamp@) },
                    ));
                    Ok(Json::Object(members))
                },
                Some(at) => {
                    let supplied = members.remove(at);
                    assert(supplied.key@ == brought[at as int].key);
                    assert(supplied.value@ == brought[at as int].value);
                    match supplied.value {
                        Json::Object(fields) => {
                            let completed = complete_metadata(fields, stamp);
                            members.insert(
                                at,
                                Member { key: supplied.key, value: Json::Object(completed) },
                            );
                            assert(members_view(members@) =~= brought.update(
                                at as int,
                                MemberValue {
                                    key: "metadata"@,
                                    value: JsonValue::Object(
                                        completed_metadata(
                                            brought[at as int].value->Object_0,
                                            stamp@,
                                        ),
                                    ),
                                },
                            ));
                            Ok(Json::Object(members))
                        },
                        _ => Err(ValidationError::MetadataNotObject),
                    }
                },
            }
        },
        _ => Err(ValidationError::ArrayElementNotObject),
    }
}

/// Puts one event into the form that `category` asks for, with metadata
/// generated for it where the category has any.
fn shape_event(event: Json, category: Category, event_type: &str) -> (r: Result<
    (Json, Ghost<MetadataValue>),
    ValidationError,
>)
    ensures
        match r {
            Ok((shaped, stamp)) => element_error(event@, category) is None && shaped@ == envelope(
                event@,
                category,
                event_type@,
                stamp@,
            ) && (category !is Undefined ==> is_generated(stamp@)),
            Err(error) => element_error(event@, category) == Some(error),
        },
{
    match category {
        Category::Undefined => {
            if event.is_object() {
                let ghost unused = MetadataValue { eid: Seq::empty(), occurred_at: Seq::empty() };
                Ok((event, Ghost(unused)))
            } else {
                Err(ValidationError::ArrayElementNotObject)
            }
        },
        Category::Data { op } => {
            let stamp = Metadata::generate();
            let ghost stamp_view = stamp@;
            match data_event(event_type, event, op, stamp) {
                Ok(shaped) => Ok((shaped, Ghost(stamp_view))),
                Err(error) => Err(error),
            }
        },
        Category::Business => {
            let stamp = Metadata::generate();
            let ghost stamp_view = stamp@;
            match business_event(event, stamp) {
                Ok(shaped) => Ok((shaped, Ghost(stamp_view))),
                Err(error) => Err(error),
            }
        },
    }
}

/// Turns what the user supplied into the body of a publish request: one
/// array that holds every event, in order, in the form that `category` asks
/// for. Each event of a data or business category gets metadata of its own.
pub fn build(input: Json, category: Category, event_type: &EventType) -> (r: Result<
    Json,
    ValidationError,
>)
    ensures
        match r {
            Ok(body) => validation_error(input@, category) is None && is_published_body(
                body@,
                elements(input@)->Some_0,
                category,
                event_type.0@,
            ),
            Err(error) => validation_error(input@, category) == Some(error),
        },
        r matches Ok(body) ==> body@ is Array && body@->Array_0.len() == elements(
            input@,
        )->Some_0.len() && forall|i: int|
            0 <= i < body@->Array_0.len() ==> (#[trigger] body@->Array_0[i]) is Object,
{
    broadcast use lemma_array_view;

    let ghost input_view = input@;
    let events: Vec<Json> = match input {
        Json::Array(items) => items,
        Json::Object(members) => {
            let mut one: Vec<Json> = Vec::new();
            one.push(Json::Object(members));
            assert(items_view(one@) =~= seq![input_view]);
            one
        },
        _ => {
            return Err(ValidationError::NotObjectOrArray);
        },
    };
    let ghost all = items_view(events@);
    assert(elements(input@) == Some(all));
    let mut shaped_events: Vec<Json> = Vec::new();
    let ghost mut stamps: Seq<MetadataValue> = Seq::empty();
    assert(all.take(0) =~= Seq::<JsonValue>::empty());
    for event in it: events.into_iter()
        invariant
            it.seq() == events@,
            all == items_view(events@),
            elements(input@) == Some(all),
            shaped_events.len() == it.index(),
            stamps.len() == it.index(),
            category !is Undefined ==> all_generated(stamps),
            first_error(all.take(it.index() as int), category) is None,
            forall|k: int|
                0 <= k < it.index() ==> (#[trigger] shaped_events@[k])@ == envelope(
                    all[k],
                    category,
                    event_type.0@,
                    stamps[k],
                ),
    {
        let ghost seen = it.index() as int;
        proof {
            assert(all.take(seen + 1).drop_last() =~= all.take(seen));
            assert(all.take(seen + 1).last() == all[seen]);
            assert(event@ == all[seen]);
        }
        match shape_event(event, category, event_type.0.as_str()) {
            Ok((shaped, stamp)) => {
                shaped_events.push(shaped);
                proof {
                    stamps = stamps.push(stamp@);
                }
            },
            Err(error) => {
                proof {
                    lemma_first_error_prefix(all, category, seen + 1);
                }
                return Err(error);
            },
        }
    }
    proof {
        assert(all.take(all.len() as int) =~= all);
    }
    let body = Json::Array(shaped_events);
    proof {
        assert(body@->Array_0 =~= request_body(all, category, event_type.0@, stamps)->Array_0);
        if category is Undefined {
            assert(body@->Array_0 =~= all);
        }
        lemma_request_body_holds_objects(all, category, event_type.0@, stamps);
    }
    Ok(body)
}

/// The request body for events of no particular category: the events as
/// they are, a single one wrapped into an array.
pub fn request_for_undefined(json_body: Json) -> (r: Result<Json, ValidationError>)
    ensures
        match r {
            Ok(body) => validation_error(json_body@, Category::Undefined) is None && body@
                == JsonValue::Array(elements(json_body@)->Some_0),
            Err(error) => validation_error(json_body@, Category::Undefined) == Some(error),
        },
        json_body@ is Array ==> (r matches Ok(body) ==> body@ == json_body@),
{
    let no_type = EventType(String::new());
    build(json_body, Category::Undefined, &no_type)
}

/// The request body for data events: each event in the envelope of a data
/// event, with metadata of its own.
pub fn request_for_data(event_type: &EventType, json_body: Json, op: DataOp) -> (r: Result<
    Json,
    ValidationError,
>)
    ensures
        match r {
            Ok(body) => validation_error(json_body@, Category::Data { op }) is None
                && is_published_body(
                body@,
                elements(json_body@)->Some_0,
                Category::Data { op },
                event_type.0@,
            ),
            Err(error) => validation_error(json_body@, Category::Data { op }) == Some(error),
        },
{
    build(json_body, Category::Data { op }, event_type)
}

/// The request body for business events: each event with metadata of its
/// own added to it, or completed where it brought some.
pub fn request_for_business(json_body: Json) -> (r: Result<Json, ValidationError>)
    ensures
        match r {
            Ok(body) => validation_error(json_body@, Category::Business) is None
                && is_published_body(
                body@,
                elements(json_body@)->Some_0,
                Category::Business,
                Seq::empty(),
            ),
            Err(error) => validation_error(json_body@, Category::Business) == Some(error),
        },
{
    let no_type = EventType(String::new());
    build(json_body, Category::Business, &no_type)
}

pub const NAME: &'static str = "publish";

/// The status that says the events were accepted.
pub const EXPECTED_STATUS: u16 = 200;

/// What is said of input that is neither an object nor an array.
pub const NOT_OBJECT_OR_ARRAY: &'static str =
    "Event must be either a JSON object or an array of JSON objects.";

/// What is said of an event that is no object.
pub const ELEMENT_NOT_OBJECT: &'static str = "Provided JSON must be an array of objects";

/// What is said of a business event whose metadata is no object.
pub const METADATA_NOT_OBJECT: &'static str =
    "The metadata of an event must be a JSON object if it is provided";

/// What is said of `error`.
pub open spec fn validation_message(error: ValidationError) -> Seq<char> {
    match error {
        ValidationError::NotObjectOrArray => NOT_OBJECT_OR_ARRAY@,
        ValidationError::ArrayElementNotObject => ELEMENT_NOT_OBJECT@,
        ValidationError::MetadataNotObject => METADATA_NOT_OBJECT@,
    }
}

impl ValidationError {
    /// What is said of the error.
    pub fn message(&self) -> (r: &'static str)
        ensures
            r@ == validation_message(*self),
    {
        match self {
            ValidationError::NotObjectOrArray => NOT_OBJECT_OR_ARRAY,
            ValidationError::ArrayElementNotObject => ELEMENT_NOT_OBJECT,
            ValidationError::MetadataNotObject => METADATA_NOT_OBJECT,
        }
    }

    /// The failure to report for the error.
    pub fn into_failure(self) -> (r: Failure)
        ensures
            r@ == painted_red(validation_message(self)),
    {
        failure_header(self.message())
    }
}

/// Which of the flags that choose a category were given.
#[derive(Clone, Copy, Debug)]
pub struct CategoryFlags {
    pub data_update: bool,
    pub data_create: bool,
    pub data_delete: bool,
    pub data_snapshot: bool,
    pub business: bool,
}

/// The category that `flags` choose: the first that is given of update,
/// create, delete, snapshot and business, and undefined where none is.
pub open spec fn category_of(flags: CategoryFlags) -> Category {
    if flags.data_update {
        Category::Data { op: DataOp::Update }
    } else if flags.data_create {
        Category::Data { op: DataOp::Create }
    } else if flags.data_delete {
        Category::Data { op: DataOp::Deletion }
    } else if flags.data_snapshot {
        Category::Data { op: DataOp::Snapshot }
    } else if flags.business {
        Category::Business
    } else {
        Category::Undefined
    }
}

/// What the command line says of the events to publish.
pub struct Params {
    pub event_type: EventType,
    pub json_body: Json,
    pub category: Category,
}

/// Reads what the command line says: the category from the flags, the
/// events from the text of the body.
pub fn decode_params(event_type: &str, json_body: &str, flags: &CategoryFlags) -> (r: Result<
    Params,
    JsonError,
>)
    ensures
        match r {
            Ok(params) => params.event_type.0@ == event_type@ && params.category == category_of(
                *flags,
            ) && parsed_text(json_body@) == Some(params.json_body@),
            Err(_) => parsed_text(json_body@) is None,
        },
{
    let category = if flags.data_update {
        Category::Data { op: DataOp::Update }
    } else if flags.data_create {
        Category::Data { op: DataOp::Create }
    } else if flags.data_delete {
        Category::Data { op: DataOp::Deletion }
    } else if flags.data_snapshot {
        Category::Data { op: DataOp::Snapshot }
    } else if flags.business {
        Category::Business
    } else {
        Category::Undefined
    };
    match Json::parse_text(json_body) {
        Ok(json_body) => Ok(
            Params { event_type: EventType(String::from_str(event_type)), json_body, category },
        ),
        Err(error) => Err(error),
    }
}

/// The request that publishes the events of `params`: their envelopes as
/// one JSON array, posted under the event type. Events that are not in
/// order are reported and no request is made.
pub fn request(params: Params, server_info: &ServerInfo, helper_token: Option<String>) -> (r:
    Result<Request, Failure>)
    ensures
        match r {
            Ok(request) => validation_error(params.json_body@, params.category) is None
                && request@.method == Method::Post && request@.url_base == server_info.url_base@
                && request@.path == "/event-types/"@ + params.event_type.0@ + "/events"@
                && request@.bearer_token == bearer_token_of(
                server_info.authorization,
                text_option_view(helper_token),
            ) && request@.content_type_json && request@.body is Some && exists|body: JsonValue|
                #[trigger] is_published_body(
                    body,
                    elements(params.json_body@)->Some_0,
                    params.category,
                    params.event_type.0@,
                ) && request@.body == compact_text(body),
            Err(failure) => match validation_error(params.json_body@, params.category) {
                Some(error) => failure@ == painted_red(validation_message(error)),
                None => (exists|body: JsonValue|
                    #[trigger] is_published_body(
                        body,
                        elements(params.json_body@)->Some_0,
                        params.category,
                        params.event_type.0@,
                    ) && compact_text(body) is None) && exists|detail: Seq<char>|
                    failure@ == #[trigger] failure_text(SERIALIZE_FAILED@, detail),
            },
        },
{
    let path = events_path(params.event_type.0.as_str());
    let body = match build(params.json_body, params.category, &params.event_type) {
        Ok(body) => body,
        Err(error) => {
            return Err(error.into_failure());
        },
    };
    build_request(Method::Post, path.as_str(), server_info, helper_token, Some(&body))
}

} // verus!
