//! JSON documents: the tree that the rest of the library works on, and its
//! mathematical model.

use serde_json::Value;
use vstd::prelude::*;
use vstd::utf8::encode_utf8;

verus! {

/// A JSON document. A number is held as its JSON text; an object as its
/// members in order. A document with a number whose text is no JSON number
/// can be held but not printed.
#[derive(Debug, PartialEq)]
pub enum Json {
    Null,
    Boolean(bool),
    Number(String),
    Text(String),
    Array(Vec<Json>),
    Object(Vec<Member>),
}

/// One member of a JSON object: a key and the value under it.
#[derive(Debug, PartialEq)]
pub struct Member {
    pub key: String,
    pub value: Json,
}

/// The mathematical model of a JSON document.
pub enum JsonValue {
    Null,
    Boolean(bool),
    Number(Seq<char>),
    Text(Seq<char>),
    Array(Seq<JsonValue>),
    Object(Seq<MemberValue>),
}

/// The mathematical model of one member of a JSON object.
pub struct MemberValue {
    pub key: Seq<char>,
    pub value: JsonValue,
}

impl View for Json {
    type V = JsonValue;

    open spec fn view(&self) -> JsonValue
        decreases self,
    {
        match self {
            Json::Null => JsonValue::Null,
            Json::Boolean(b) => JsonValue::Boolean(*b),
            Json::Number(text) => JsonValue::Number(text@),
            Json::Text(text) => JsonValue::Text(text@),
            Json::Array(items) => JsonValue::Array(
                Seq::new(
                    items.len() as nat,
                    |i: int|
                        if 0 <= i < items.len() {
                            items[i].view()
                        } else {
                            JsonValue::Null
                        },
                ),
            ),
            Json::Object(members) => JsonValue::Object(
                Seq::new(
                    members.len() as nat,
                    |i: int|
                        if 0 <= i < members.len() {
                            MemberValue { key: members[i].key@, value: members[i].value.view() }
                        } else {
                            MemberValue { key: Seq::empty(), value: JsonValue::Null }
                        },
                ),
            ),
        }
    }
}

/// The models of `items`, in order.
pub open spec fn items_view(items: Seq<Json>) -> Seq<JsonValue> {
    items.map_values(|item: Json| item@)
}

/// The models of `members`, in order: each key with the model of its value.
pub open spec fn members_view(members: Seq<Member>) -> Seq<MemberValue> {
    members.map_values(|member: Member| MemberValue { key: member.key@, value: member.value@ })
}

/// The model of an array is the array of the models of its items.
pub broadcast proof fn lemma_array_view(items: Vec<Json>)
    ensures
        #[trigger] Json::Array(items)@ == JsonValue::Array(items_view(items@)),
{
    assert(Json::Array(items)@->Array_0 =~= items_view(items@));
}

/// The model of an object is the object of the models of its members.
pub broadcast proof fn lemma_object_view(members: Vec<Member>)
    ensures
        #[trigger] Json::Object(members)@ == JsonValue::Object(members_view(members@)),
{
    assert(Json::Object(members)@->Object_0 =~= members_view(members@));
}

impl Clone for Json {
    /// A copy of the document.
    #[verifier::loop_isolation(false)]
    fn clone(&self) -> (r: Json)
        ensures
            r@ == self@,
        decreases self,
    {
        match self {
            Json::Null => Json::Null,
            Json::Boolean(b) => Json::Boolean(*b),
            Json::Number(text) => Json::Number(text.clone()),
            Json::Text(text) => Json::Text(text.clone()),
            Json::Array(items) => {
                let mut copies: Vec<Json> = Vec::new();
                let mut i: usize = 0;
                while i < items.len()
                    invariant
                        i <= items.len(),
                        copies.len() == i,
                        forall|k: int| 0 <= k < i ==> (#[trigger] copies@[k])@ == items@[k]@,
                    decreases items.len() - i,
                {
                    copies.push(items[i].clone());
                    i += 1;
                }
                let r = Json::Array(copies);
                proof {
                    lemma_array_view(copies);
                    lemma_array_view(*items);
                    assert(items_view(copies@) =~= items_view(items@));
                }
                r
            },
            Json::Object(members) => {
                let mut copies: Vec<Member> = Vec::new();
                let mut i: usize = 0;
                while i < members.len()
                    invariant
                        i <= members.len(),
                        copies.len() == i,
                        forall|k: int|
                            0 <= k < i ==> (#[trigger] copies@[k]).key@ == members@[k].key@
                                && copies@[k].value@ == members@[k].value@,
                    decreases members.len() - i,
                {
                    copies.push(
                        Member { key: members[i].key.clone(), value: members[i].value.clone() },
                    );
                    i += 1;
                }
                let r = Json::Object(copies);
                proof {
                    lemma_object_view(copies);
                    lemma_object_view(*members);
                    assert(members_view(copies@) =~= members_view(members@));
                }
                r
            },
        }
    }
}

impl Clone for Member {
    /// A copy of the member.
    fn clone(&self) -> (r: Member)
        ensures
            r.key@ == self.key@,
            r.value@ == self.value@,
    {
        Member { key: self.key.clone(), value: self.value.clone() }
    }
}

/// Every one of `items` is an object.
pub open spec fn all_objects(items: Seq<JsonValue>) -> bool {
    forall|i: int| 0 <= i < items.len() ==> (#[trigger] items[i]) is Object
}

/// Whether every one of `items` is an object.
pub fn are_all_objects(items: &Vec<Json>) -> (r: bool)
    ensures
        r == all_objects(items_view(items@)),
{
    let mut i: usize = 0;
    while i < items.len()
        invariant
            i <= items.len(),
            forall|k: int| 0 <= k < i ==> (#[trigger] items_view(items@)[k]) is Object,
        decreases items.len() - i,
    {
        if !items[i].is_object() {
            assert(!(items_view(items@)[i as int] is Object));
            return false;
        }
        i += 1;
    }
    true
}

/// The place of the last member of `members` whose key is `key`, or -1 where
/// no member has that key. Where a key occurs twice the later member counts,
/// as it does when the document is printed.
pub open spec fn key_index(members: Seq<MemberValue>, key: Seq<char>) -> int
    decreases members.len(),
{
    if members.len() == 0 {
        -1
    } else if members.last().key == key {
        members.len() - 1
    } else {
        key_index(members.drop_last(), key)
    }
}

/// `key_index` finds a member with the key, and none with it comes later; it
/// is -1 exactly where no member has the key.
pub proof fn lemma_key_index(members: Seq<MemberValue>, key: Seq<char>)
    ensures
        -1 <= key_index(members, key) < members.len(),
        key_index(members, key) >= 0 ==> members[key_index(members, key)].key == key,
        forall|i: int|
            key_index(members, key) < i < members.len() ==> (#[trigger] members[i]).key != key,
    decreases members.len(),
{
    if members.len() > 0 && members.last().key != key {
        lemma_key_index(members.drop_last(), key);
        assert forall|i: int| key_index(members, key) < i < members.len() implies (
        #[trigger] members[i]).key != key by {
            if i < members.len() - 1 {
                assert(members.drop_last()[i] == members[i]);
            }
        }
    }
}

/// The value under `key` among `members`, if there is one.
pub open spec fn member_value(members: Seq<MemberValue>, key: Seq<char>) -> Option<JsonValue> {
    let at = key_index(members, key);
    if at >= 0 {
        Some(members[at].value)
    } else {
        None
    }
}

/// Whether two texts are the same.
pub fn same_text(a: &str, b: &str) -> (r: bool)
    ensures
        r == (a@ == b@),
{
    a.to_owned() == b.to_owned()
}

/// Finds the member of `members` that `key` names: the last one with that
/// key.
pub fn find_member(members: &Vec<Member>, key: &str) -> (r: Option<usize>)
    ensures
        match r {
            Some(i) => key_index(members_view(members@), key@) == i,
            None => key_index(members_view(members@), key@) == -1,
        },
{
    let ghost all = members_view(members@);
    let mut i: usize = members.len();
    assert(all.take(i as int) =~= all);
    while i > 0
        invariant
            i <= members.len(),
            all == members_view(members@),
            key_index(all, key@) == key_index(all.take(i as int), key@),
        decreases i,
    {
        proof {
            assert(all.take(i as int).drop_last() =~= all.take(i - 1));
            assert(all.take(i as int).last() == all[i - 1]);
        }
        if same_text(members[i - 1].key.as_str(), key) {
            return Some(i - 1);
        }
        i -= 1;
    }
    assert(all.take(0).len() == 0);
    None
}

/// Takes the values under two different keys out of `members`, and drops
/// the other members.
pub(crate) fn take_two_members(members: Vec<Member>, first: &str, second: &str) -> (r: (
    Option<Json>,
    Option<Json>,
))
    requires
        first@ != second@,
    ensures
        json_option_view(r.0) == member_value(members_view(members@), first@),
        json_option_view(r.1) == member_value(members_view(members@), second@),
{
    let ghost all = members_view(members@);
    let mut under_first: Option<Json> = None;
    let mut under_second: Option<Json> = None;
    assert(all.take(0) =~= Seq::<MemberValue>::empty());
    for member in it: members.into_iter()
        invariant
            it.seq() == members@,
            all == members_view(members@),
            first@ != second@,
            json_option_view(under_first) == member_value(all.take(it.index() as int), first@),
            json_option_view(under_second) == member_value(all.take(it.index() as int), second@),
    {
        let ghost seen = it.index() as int;
        proof {
            assert(all.take(seen + 1).drop_last() =~= all.take(seen));
            assert(all.take(seen + 1).last() == all[seen]);
            lemma_key_index(all.take(seen), first@);
            lemma_key_index(all.take(seen), second@);
        }
        if same_text(member.key.as_str(), first) {
            under_first = Some(member.value);
        } else if same_text(member.key.as_str(), second) {
            under_second = Some(member.value);
        }
    }
    proof {
        assert(all.take(all.len() as int) =~= all);
    }
    (under_first, under_second)
}

/// The model of a document that may be missing.
pub open spec fn json_option_view(json: Option<Json>) -> Option<JsonValue> {
    match json {
        Some(json) => Some(json@),
        None => None,
    }
}

/// `serde_json::Value`, the tree that serde_json parses into and prints from.
#[verifier::external_type_specification]
#[verifier::external_body]
pub struct ExValue(serde_json::Value);

/// `serde_json::Error`, what serde_json reports when it cannot parse or print.
#[verifier::external_type_specification]
#[verifier::external_body]
pub struct ExError(serde_json::Error);

/// What `serde_json::from_slice` makes of `bytes`: the document they spell,
/// or nothing where they are not one JSON document.
pub uninterp spec fn parsed_document(bytes: Seq<u8>) -> Option<JsonValue>;

/// The document that the text `text` spells, read from its UTF-8 bytes.
pub open spec fn parsed_text(text: Seq<char>) -> Option<JsonValue> {
    parsed_document(encode_utf8(text))
}

/// What `serde_json::to_string` prints for `document`: its compact JSON
/// text, or nothing where serde_json reports an error, as it does for a
/// number whose text it does not read.
pub uninterp spec fn compact_text(document: JsonValue) -> Option<Seq<char>>;

/// What `serde_json::to_string_pretty` prints for `document`: its indented
/// JSON text, or nothing where serde_json reports an error, as it does for
/// a number whose text it does not read.
pub uninterp spec fn pretty_text(document: JsonValue) -> Option<Seq<char>>;

/// Copies a `serde_json::Value` into a `Json`, variant by variant: a number
/// as the text that `serde_json::Number` displays, the members of an object
/// in the order in which `serde_json::Map` iterates.
#[verifier::external_body]
fn json_of(value: &Value) -> Json {
    match value {
        Value::Null => Json::Null,
        Value::Bool(b) => Json::Boolean(*b),
        Value::Number(n) => Json::Number(n.to_string()),
        Value::String(s) => Json::Text(s.clone()),
        Value::Array(a) => Json::Array(a.iter().map(json_of).collect()),
        Value::Object(o) => Json::Object(
            o.iter().map(|(k, x)| Member { key: k.clone(), value: json_of(x) }).collect(),
        ),
    }
}

/// Copies a `Json` into a `serde_json::Value`, variant by variant. The text
/// of a number is read by serde_json, whose error is handed on where it
/// refuses the text; of two members with one key `serde_json::Map` keeps the
/// later.
#[verifier::external_body]
fn value_of(json: &Json) -> Result<Value, serde_json::Error> {
    Ok(match json {
        Json::Null => Value::Null,
        Json::Boolean(b) => Value::Bool(*b),
        Json::Number(t) => Value::Number(serde_json::from_str(t)?),
        Json::Text(s) => Value::String(s.clone()),
        Json::Array(a) => Value::Array(a.iter().map(value_of).collect::<Result<_, _>>()?),
        Json::Object(o) => Value::Object(
            o.iter()
                .map(|m| value_of(&m.value).map(|v| (m.key.clone(), v)))
                .collect::<Result<_, _>>()?,
        ),
    })
}

/// `serde_json::from_slice`, read as a `Json`. It returns the document that
/// `bytes` spell, and an error exactly where they spell none.
#[verifier::external_body]
fn read_document(bytes: &[u8]) -> (r: Result<Json, serde_json::Error>)
    ensures
        r matches Ok(json) ==> parsed_document(bytes@) == Some(json@),
        r is Err ==> parsed_document(bytes@) is None,
{
    match serde_json::from_slice::<Value>(bytes) {
        Ok(value) => Ok(json_of(&value)),
        Err(error) => Err(error),
    }
}

/// `serde_json::to_string` on the `serde_json::Value` that holds `json`.
/// Whether it prints, and what, depends on the document alone; a document
/// with a number that serde_json does not read is an error.
#[verifier::external_body]
fn write_compact(json: &Json) -> (r: Result<String, serde_json::Error>)
    ensures
        r matches Ok(text) ==> compact_text(json@) == Some(text@),
        r is Err ==> compact_text(json@) is None,
{
    serde_json::to_string(&value_of(json)?)
}

/// `serde_json::to_string_pretty` on the `serde_json::Value` that holds
/// `json`. Whether it prints, and what, depends on the document alone; a
/// document with a number that serde_json does not read is an error.
#[verifier::external_body]
fn write_pretty(json: &Json) -> (r: Result<String, serde_json::Error>)
    ensures
        r matches Ok(text) ==> pretty_text(json@) == Some(text@),
        r is Err ==> pretty_text(json@) is None,
{
    serde_json::to_string_pretty(&value_of(json)?)
}

/// The `Display` text of a `serde_json::Error`: what went wrong, and where.
#[verifier::external_body]
fn error_text(error: &serde_json::Error) -> String {
    error.to_string()
}

/// Why bytes could not be read, or a document not be written, as JSON.
#[derive(Debug)]
pub struct JsonError {
    pub message: String,
}

impl Json {
    /// Whether the document is an object.
    pub fn is_object(&self) -> (r: bool)
        ensures
            r == (self@ is Object),
    {
        match self {
            Json::Object(_) => true,
            _ => false,
        }
    }

    /// Whether the document is an array.
    pub fn is_array(&self) -> (r: bool)
        ensures
            r == (self@ is Array),
    {
        match self {
            Json::Array(_) => true,
            _ => false,
        }
    }

    /// Reads `bytes` as one JSON document.
    pub fn parse(bytes: &[u8]) -> (r: Result<Json, JsonError>)
        ensures
            r matches Ok(json) ==> parsed_document(bytes@) == Some(json@),
            r is Err <==> parsed_document(bytes@) is None,
    {
        match read_document(bytes) {
            Ok(json) => Ok(json),
            Err(error) => Err(JsonError { message: error_text(&error) }),
        }
    }

    /// Reads `text` as one JSON document.
    pub fn parse_text(text: &str) -> (r: Result<Json, JsonError>)
        ensures
            r matches Ok(json) ==> parsed_text(text@) == Some(json@),
            r is Err <==> parsed_text(text@) is None,
    {
        Json::parse(text.as_bytes())
    }

    /// The document as compact JSON text.
    pub fn to_text(&self) -> (r: Result<String, JsonError>)
        ensures
            r matches Ok(text) ==> compact_text(self@) == Some(text@),
            r is Err <==> compact_text(self@) is None,
    {
        match write_compact(self) {
            Ok(text) => Ok(text),
            Err(error) => Err(JsonError { message: error_text(&error) }),
        }
    }

    /// The document as indented JSON text.
    pub fn to_pretty_text(&self) -> (r: Result<String, JsonError>)
        ensures
            r matches Ok(text) ==> pretty_text(self@) == Some(text@),
            r is Err <==> pretty_text(self@) is None,
    {
        match write_pretty(self) {
            Ok(text) => Ok(text),
            Err(error) => Err(JsonError { message: error_text(&error) }),
        }
    }
}

} // verus!
