//! What clients are answered.

use vstd::prelude::*;

use crate::json::{
    empty_object, number_value, object_of_one, render, rendered, set_member, text_value, Json,
    JsonNumber,
};

verus! {

/// A reply in plain text.
#[derive(Debug)]
pub struct TextReply {
    pub status: u16,
    pub text: String,
}

/// What a `TextReply` says.
pub struct TextView {
    pub status: u16,
    pub text: Seq<char>,
}

impl View for TextReply {
    type V = TextView;

    open spec fn view(&self) -> TextView {
        TextView { status: self.status, text: self.text@ }
    }
}

/// A reply whose body is a JSON document, with the content type
/// `application/json`.
#[derive(Debug)]
pub struct JsonReply {
    pub status: u16,
    pub body: Vec<u8>,
}

/// What a `JsonReply` says.
pub struct JsonView {
    pub status: u16,
    pub body: Seq<u8>,
}

impl View for JsonReply {
    type V = JsonView;

    open spec fn view(&self) -> JsonView {
        JsonView { status: self.status, body: self.body@ }
    }
}

/// The document that tells a client of an error.
pub open spec fn error_document(status: u16, kind: Seq<char>, message: Seq<char>) -> Json {
    object_of_one(
        "error"@,
        Json::Object(
            Map::empty().insert("message"@, Json::Text(message)).insert("type"@, Json::Text(kind)).insert(
                "code"@,
                Json::Number(JsonNumber::Natural(status as u64)),
            ),
        ),
    )
}

/// The reply that tells a client of an error.
pub open spec fn error_view(status: u16, kind: Seq<char>, message: Seq<char>) -> JsonView {
    JsonView { status, body: rendered(error_document(status, kind, message)) }
}

/// The reply that tells a client that something was done.
pub open spec fn message_view(status: u16, message: Seq<char>) -> JsonView {
    JsonView { status, body: rendered(object_of_one("message"@, Json::Text(message))) }
}

/// Tells a client of an error.
pub fn error_reply(status: u16, kind: &str, message: String) -> (r: JsonReply)
    ensures
        r@ == error_view(status, kind@, message@),
{
    let mut error = empty_object();
    set_member(&mut error, "message", text_value(message));
    set_member(&mut error, "type", text_value(kind.to_owned()));
    set_member(&mut error, "code", number_value(status as u64));
    let mut body = empty_object();
    set_member(&mut body, "error", error);
    JsonReply { status, body: render(&body) }
}

/// Tells a client that something was done.
pub fn message_reply(status: u16, message: &str) -> (r: JsonReply)
    ensures
        r@ == message_view(status, message@),
{
    let mut body = empty_object();
    set_member(&mut body, "message", text_value(message.to_owned()));
    JsonReply { status, body: render(&body) }
}

/// The document that tells of an error has one member, and that has the message,
/// the kind of the error and the status, and nothing else.
pub proof fn law_error_document(status: u16, kind: Seq<char>, message: Seq<char>)
    ensures
        ({
            let doc = error_document(status, kind, message);
            let error = doc.members()["error"@];
            &&& doc is Object
            &&& doc.members().dom() =~= set!["error"@]
            &&& error is Object
            &&& error.members().dom() =~= set!["message"@, "type"@, "code"@]
            &&& error.members()["message"@] == Json::Text(message)
            &&& error.members()["type"@] == Json::Text(kind)
            &&& error.members()["code"@] == Json::Number(JsonNumber::Natural(status as u64))
            &&& error_view(status, kind, message).status == status
            &&& error_view(status, kind, message).body == rendered(doc)
        }),
{
    reveal_strlit("message");
    reveal_strlit("type");
    reveal_strlit("code");
    assert("message"@.len() == 7 && "type"@.len() == 4 && "code"@.len() == 4);
    assert("type"@[0] == 't' && "code"@[0] == 'c');
}

/// The document that tells that something was done has the message, and nothing
/// else.
pub proof fn law_message_document(status: u16, message: Seq<char>)
    ensures
        message_view(status, message).status == status,
        message_view(status, message).body == rendered(
            Json::Object(map!["message"@ => Json::Text(message)]),
        ),
{
}

} // verus!
