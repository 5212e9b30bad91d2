//! How messages are written as JSON documents and read back.

use vstd::prelude::*;
use vstd::string::StringExecFns;
use crate::json::{
    json_of, json_parse, json_text, object_insert, object_new, object_of, parse_value,
    value_as_object, value_from_object, value_from_string, value_from_u64, value_get, value_text,
    Json,
};
use crate::members::{
    id_member, lemma_member_names_differ, members_of, read_id, read_text, text_member, with_id,
};
use crate::message::{Message, MessageBody, MessageBodyView, MessageView};

verus! {

/// A text that is no message.
#[derive(Debug, Clone, Copy, PartialEq, Eq, Structural)]
pub struct MalformedInput;

/// A payload that can be written into the body of a message and read back.
pub trait Wire: View + Sized {
    /// The members that a payload puts into the body, its `type` among them.
    spec fn members(payload: Self::V) -> Map<Seq<char>, Json>;

    /// The payload that the members of a body hold, where they hold one.
    spec fn payload_of(members: Map<Seq<char>, Json>) -> Option<Self::V>;

    /// Reads the payload from the body of a message.
    fn read(body: &serde_json::Value) -> (r: Option<Self>)
        ensures
            match Self::payload_of(members_of(json_of(*body))) {
                Some(payload) => r is Some && r->0@ == payload,
                None => r is None,
            },
    ;

    /// Writes the members of the payload.
    fn write(&self) -> (r: serde_json::Map<String, serde_json::Value>)
        ensures
            object_of(r) == Self::members(self@),
    ;

    /// A payload is read back from any body that holds its members, whatever
    /// else the body holds.
    proof fn lemma_read_back(payload: Self::V, body: Map<Seq<char>, Json>)
        requires
            Self::members(payload).submap_of(body),
        ensures
            Self::payload_of(body) == Some(payload),
    ;

    /// No payload puts a message identifier into the body.
    proof fn lemma_members_hold_no_id(payload: Self::V)
        ensures
            !Self::members(payload).contains_key("msg_id"@),
            !Self::members(payload).contains_key("in_reply_to"@),
    ;
}

/// The members of the body of a message: those of the payload, and each
/// identifier that the message has.
pub open spec fn body_members<P: Wire>(body: MessageBodyView<P::V>) -> Map<Seq<char>, Json> {
    with_id(
        with_id(P::members(body.payload), "msg_id"@, body.msg_id),
        "in_reply_to"@,
        body.in_reply_to,
    )
}

/// A message as a document.
pub open spec fn envelope_json<P: Wire>(message: MessageView<P::V>) -> Json {
    Json::Object(
        Map::<Seq<char>, Json>::empty().insert("src"@, Json::Str(message.src)).insert(
            "dest"@,
            Json::Str(message.dest),
        ).insert("body"@, Json::Object(body_members::<P>(message.body))),
    )
}

/// The message that a document holds, where it holds one: an object with the
/// texts `src` and `dest` and an object `body` that holds a payload and
/// well-formed identifiers.
pub open spec fn json_envelope<P: Wire>(j: Json) -> Option<MessageView<P::V>> {
    let top = members_of(j);
    let body = members_of(top["body"@]);
    if !(j is Object) || !top.contains_key("body"@) || !(top["body"@] is Object) {
        None
    } else {
        match (
            text_member(top, "src"@),
            text_member(top, "dest"@),
            id_member(body, "msg_id"@),
            id_member(body, "in_reply_to"@),
            P::payload_of(body),
        ) {
            (Some(src), Some(dest), Some(msg_id), Some(in_reply_to), Some(payload)) => Some(
                MessageView { src, dest, body: MessageBodyView { msg_id, in_reply_to, payload } },
            ),
            _ => None,
        }
    }
}

/// The message that a text holds, where it holds one.
pub open spec fn text_envelope<P: Wire>(text: Seq<char>) -> Option<MessageView<P::V>> {
    match json_parse(text) {
        Some(j) => json_envelope::<P>(j),
        None => None,
    }
}

/// Reads a message from a document. It fails exactly where the document holds
/// no message.
pub fn decode_value<P: Wire>(v: &serde_json::Value) -> (r: Result<Message<P>, MalformedInput>)
    ensures
        match json_envelope::<P>(json_of(*v)) {
            Some(message) => r is Ok && r->Ok_0@ == message,
            None => r is Err,
        },
{
    let body = match value_get(v, "body") {
        Some(body) => body,
        None => {
            return Err(MalformedInput);
        },
    };
    if value_as_object(body).is_none() {
        return Err(MalformedInput);
    }
    let src = match read_text(v, "src") {
        Some(src) => src,
        None => {
            return Err(MalformedInput);
        },
    };
    let dest = match read_text(v, "dest") {
        Some(dest) => dest,
        None => {
            return Err(MalformedInput);
        },
    };
    let msg_id = match read_id(body, "msg_id") {
        Some(msg_id) => msg_id,
        None => {
            return Err(MalformedInput);
        },
    };
    let in_reply_to = match read_id(body, "in_reply_to") {
        Some(in_reply_to) => in_reply_to,
        None => {
            return Err(MalformedInput);
        },
    };
    let payload = match P::read(body) {
        Some(payload) => payload,
        None => {
            return Err(MalformedInput);
        },
    };
    Ok(Message { src, dest, body: MessageBody { msg_id, in_reply_to, payload } })
}

/// Reads a message from a text. It fails exactly where the text holds no
/// message.
pub fn decode<P: Wire>(text: &str) -> (r: Result<Message<P>, MalformedInput>)
    ensures
        match text_envelope::<P>(text@) {
            Some(message) => r is Ok && r->Ok_0@ == message,
            None => r is Err,
        },
{
    match parse_value(text) {
        Ok(v) => decode_value(&v),
        Err(_) => Err(MalformedInput),
    }
}

/// Writes a message as a document.
pub fn encode_value<P: Wire>(message: &Message<P>) -> (r: serde_json::Value)
    ensures
        json_of(r) == envelope_json::<P>(message@),
{
    let mut body = message.body.payload.write();
    match message.body.msg_id {
        Some(id) => {
            object_insert(&mut body, String::from_str("msg_id"), value_from_u64(id as u64));
        },
        None => {},
    }
    match message.body.in_reply_to {
        Some(id) => {
            object_insert(&mut body, String::from_str("in_reply_to"), value_from_u64(id as u64));
        },
        None => {},
    }
    let mut top = object_new();
    object_insert(&mut top, String::from_str("src"), value_from_string(message.src.clone()));
    object_insert(&mut top, String::from_str("dest"), value_from_string(message.dest.clone()));
    object_insert(&mut top, String::from_str("body"), value_from_object(body));
    value_from_object(top)
}

/// Writes a message as text on one line.
pub fn encode<P: Wire>(message: &Message<P>) -> (r: String)
    ensures
        r@ == json_text(envelope_json::<P>(message@)),
{
    let v = encode_value(message);
    value_text(&v)
}

/// Reading what was written gives the message back: the document of a message
/// holds that message.
pub proof fn lemma_round_trip<P: Wire>(message: Message<P>)
    ensures
        json_envelope::<P>(envelope_json::<P>(message@)) == Some(message@),
{
    let view = message@;
    let payload = P::members(view.body.payload);
    let with_msg_id = with_id(payload, "msg_id"@, view.body.msg_id);
    let body = body_members::<P>(view.body);
    lemma_member_names_differ();
    lemma_envelope_names_differ();
    P::lemma_members_hold_no_id(view.body.payload);
    P::lemma_read_back(view.body.payload, body);
    assert(id_member(body, "msg_id"@) == Some(view.body.msg_id));
    assert(id_member(body, "in_reply_to"@) == Some(view.body.in_reply_to));
}

/// The names of the members of an envelope are different texts.
pub proof fn lemma_envelope_names_differ()
    ensures
        "src"@ != "dest"@,
        "src"@ != "body"@,
        "dest"@ != "body"@,
{
    reveal_strlit("src");
    reveal_strlit("dest");
    reveal_strlit("body");
    assert("src"@.len() != "dest"@.len());
    assert("src"@.len() != "body"@.len());
    assert("dest"@[0] != "body"@[0]);
}

} // verus!
