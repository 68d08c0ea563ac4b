//! The wire format: how a message stands in a JSON document, and the
//! functions that read a message from a line and write one.
//!
//! An envelope is an object with the members `src`, `dest` and `body`. The
//! body is an object that holds the ids `msg_id` and `in_reply_to`, each of
//! them optional, and beside them the members of the payload, among which is
//! a string `type`.

use crate::error::NodeError;
use crate::json::{
    distinct_keys, lemma_lookup_none, lookup, Json, JsonNumber, Members,
};
use crate::protocol::{Body, Header, Message, Payload};
use crate::value::{
    as_count, as_text, count_value, is_null, json_model, json_parse, json_text, member,
    member_models, object_value, parse, render, shape_error, text_value,
};
use vstd::prelude::*;

verus! {

/// The id that stands in a slot of a body: none where the member is missing
/// or `null`, the number where it is one that fits, and no reading at all
/// (the outer `None`) for anything else.
pub open spec fn id_of(slot: Option<Json>) -> Option<Option<usize>> {
    match slot {
        None => Some(None),
        Some(Json::Null) => Some(None),
        Some(Json::Number(JsonNumber::Unsigned(n))) => if n <= usize::MAX {
            Some(Some(n as usize))
        } else {
            None
        },
        Some(_) => None,
    }
}

/// The body of an envelope; `null` where the document has none.
pub open spec fn body_of(doc: Json) -> Json {
    match doc.member("body"@) {
        Some(body) => body,
        None => Json::Null,
    }
}

/// The header that a document spells, or `None` where the document is no
/// envelope: where `src` or `dest` is missing or no string, where there is no
/// `body`, where the body has no string `type`, or where one of its ids is
/// neither missing, `null` nor a number that fits.
pub open spec fn header_of(doc: Json) -> Option<Header> {
    match (doc.member("src"@), doc.member("dest"@), doc.member("body"@)) {
        (Some(Json::Text(src)), Some(Json::Text(dst)), Some(body)) => match (
            body.member("type"@),
            id_of(body.member("msg_id"@)),
            id_of(body.member("in_reply_to"@)),
        ) {
            (Some(Json::Text(_)), Some(id), Some(in_reply_to)) => Some(
                Header { src, dst, id, in_reply_to },
            ),
            _ => None,
        },
        _ => None,
    }
}

/// The header of the message that a line spells, if it spells one: the line
/// must be a JSON document, and the document an envelope.
pub open spec fn request_of(line: Seq<char>) -> Option<Header> {
    match json_parse(line) {
        Some(doc) => header_of(doc),
        None => None,
    }
}

/// The body of the message that a line spells; `null` where it spells none.
pub open spec fn body_in(line: Seq<char>) -> Json {
    match json_parse(line) {
        Some(doc) => body_of(doc),
        None => Json::Null,
    }
}

/// Reads the id in the slot `key` of a body.
fn read_id(body: &serde_json::Value, key: &str) -> (r: Option<Option<usize>>)
    ensures
        r == id_of(json_model(*body).member(key@)),
{
    match member(body, key) {
        None => Some(None),
        Some(slot) => {
            if is_null(slot) {
                Some(None)
            } else {
                match as_count(slot) {
                    Some(n) => {
                        if n <= usize::MAX as u64 {
                            Some(Some(n as usize))
                        } else {
                            None
                        }
                    },
                    None => None,
                }
            }
        },
    }
}

/// Reads the string in the member `key` of an object.
pub fn read_text(doc: &serde_json::Value, key: &str) -> (r: Option<String>)
    ensures
        match r {
            Some(s) => json_model(*doc).member(key@) == Some(Json::Text(s@)),
            None => !(json_model(*doc).member(key@) matches Some(Json::Text(_))),
        },
{
    match member(doc, key) {
        None => None,
        Some(slot) => match as_text(slot) {
            Some(s) => Some(s.to_owned()),
            None => None,
        },
    }
}

/// Reads the envelope of a document: all of the message but its payload,
/// and the body, in which the payload is still to be read.
pub fn read_envelope<'a>(doc: &'a serde_json::Value) -> (r: Option<
    (Message<()>, &'a serde_json::Value),
>)
    ensures
        match r {
            Some((envelope, body)) => {
                &&& header_of(json_model(*doc)) == Some(envelope.header())
                &&& json_model(*body) == body_of(json_model(*doc))
            },
            None => header_of(json_model(*doc)) is None,
        },
{
    let src = match read_text(doc, "src") {
        Some(s) => s,
        None => { return None; },
    };
    let dst = match read_text(doc, "dest") {
        Some(s) => s,
        None => { return None; },
    };
    let body = match member(doc, "body") {
        Some(b) => b,
        None => { return None; },
    };
    if read_text(body, "type").is_none() {
        return None;
    }
    let id = match read_id(body, "msg_id") {
        Some(id) => id,
        None => { return None; },
    };
    let in_reply_to = match read_id(body, "in_reply_to") {
        Some(id) => id,
        None => { return None; },
    };
    Some((Message { src, dst, body: Body { id, in_reply_to, payload: () } }, body))
}

/// Whether a member of that name is one of the two ids of a body.
pub open spec fn reserved(key: Seq<char>) -> bool {
    key == "msg_id"@ || key == "in_reply_to"@
}

/// The members that stand for the ids of a body: each id that is there, and
/// nothing for one that is not.
pub open spec fn id_members(id: Option<usize>, in_reply_to: Option<usize>) -> Members {
    let first: Members = match id {
        Some(n) => seq![("msg_id"@, Json::count(n as u64))],
        None => seq![],
    };
    match in_reply_to {
        Some(n) => first.push(("in_reply_to"@, Json::count(n as u64))),
        None => first,
    }
}

/// `members` with one more member at its end, unless the name is that of an
/// id or is taken already: then `members` stays as it is.
pub open spec fn add_member(members: Members, key: Seq<char>, value: Json) -> Members {
    if reserved(key) || lookup(members, key) is Some {
        members
    } else {
        members.push((key, value))
    }
}

/// `members` with each of `more` added in turn.
pub open spec fn add_members(members: Members, more: Members) -> Members
    decreases more.len(),
{
    if more.len() == 0 {
        members
    } else {
        let last = more.last();
        add_member(add_members(members, more.drop_last()), last.0, last.1)
    }
}

/// The body that carries the ids of `header` and a payload: first the ids,
/// then the payload's members. A member of the payload that is named like an
/// id, or like a member before it, is left out.
pub open spec fn body_json(header: Header, payload: Members) -> Json {
    Json::Object(add_members(id_members(header.id, header.in_reply_to), payload))
}

/// The document that stands for a message with this header and this payload.
pub open spec fn envelope_json(header: Header, payload: Members) -> Json {
    Json::Object(
        seq![
            ("src"@, Json::Text(header.src)),
            ("dest"@, Json::Text(header.dst)),
            ("body"@, body_json(header, payload)),
        ],
    )
}

/// Names of the wire format that stand side by side in one object differ.
pub proof fn lemma_names_differ()
    ensures
        "src"@ != "dest"@,
        "src"@ != "body"@,
        "dest"@ != "body"@,
        "msg_id"@ != "in_reply_to"@,
        "type"@ != "msg_id"@,
        "type"@ != "in_reply_to"@,
{
    reveal_strlit("src");
    reveal_strlit("dest");
    reveal_strlit("body");
    reveal_strlit("msg_id");
    reveal_strlit("in_reply_to");
    reveal_strlit("type");
    assert("src"@.len() == 3);
    assert("dest"@.len() == 4);
    assert("dest"@[0] == 'd');
    assert("body"@[0] == 'b');
    assert("body"@.len() == 4);
    assert("msg_id"@.len() == 6);
    assert("in_reply_to"@.len() == 11);
    assert("type"@.len() == 4);
}

/// Whether a member named `key` is among `members`.
fn has_key(members: &Vec<(String, serde_json::Value)>, key: &String) -> (r: bool)
    ensures
        r <==> lookup(member_models(members@), key@) is Some,
{
    let ghost models = member_models(members@);
    let mut i: usize = 0;
    while i < members.len()
        invariant
            i <= members.len(),
            models == member_models(members@),
            forall|j: int| 0 <= j < i ==> (#[trigger] models[j]).0 != key@,
        decreases members.len() - i,
    {
        if members[i].0 == *key {
            proof {
                assert(models[i as int].0 == key@);
                lemma_lookup_none(models, key@);
            }
            return true;
        }
        i += 1;
    }
    proof {
        lemma_lookup_none(models, key@);
    }
    false
}

/// Whether `key` names one of the two ids of a body.
fn is_reserved(key: &String) -> (r: bool)
    ensures
        r <==> reserved(key@),
{
    *key == "msg_id".to_owned() || *key == "in_reply_to".to_owned()
}

/// The members of the body that carries the ids `id` and `in_reply_to` and
/// the payload `payload`.
fn body_members(
    id: Option<usize>,
    in_reply_to: Option<usize>,
    payload: Vec<(String, serde_json::Value)>,
) -> (r: Vec<(String, serde_json::Value)>)
    ensures
        member_models(r@) == add_members(id_members(id, in_reply_to), member_models(payload@)),
        distinct_keys(member_models(r@)),
{
    let mut members: Vec<(String, serde_json::Value)> = Vec::new();
    if let Some(n) = id {
        members.push(("msg_id".to_owned(), count_value(n as u64)));
    }
    if let Some(n) = in_reply_to {
        members.push(("in_reply_to".to_owned(), count_value(n as u64)));
    }
    let ghost wanted = member_models(payload@);
    let ghost start = id_members(id, in_reply_to);
    proof {
        lemma_names_differ();
        assert(member_models(members@) =~= start);
        assert(wanted.take(0) =~= Seq::empty());
    }
    for entry in it: payload
        invariant
            it.seq() == payload@,
            wanted == member_models(payload@),
            member_models(members@) == add_members(start, wanted.take(it.index() as int)),
            distinct_keys(member_models(members@)),
    {
        let ghost before = member_models(members@);
        let ghost k = it.index() as int;
        proof {
            assert(wanted.take(k + 1).drop_last() =~= wanted.take(k));
            assert(wanted.take(k + 1).last() == wanted[k]);
            assert(wanted[k] == (entry.0@, json_model(entry.1)));
        }
        if !is_reserved(&entry.0) && !has_key(&members, &entry.0) {
            members.push(entry);
            proof {
                assert(member_models(members@) =~= before.push(wanted[k]));
                lemma_lookup_none(before, wanted[k].0);
            }
        }
    }
    proof {
        assert(wanted.take(wanted.len() as int) =~= wanted);
    }
    members
}

/// Writes the line that stands for an envelope with the payload whose
/// members are `payload`. Writing does not fail.
pub fn frame(envelope: Message<()>, payload: Vec<(String, serde_json::Value)>) -> (r: Result<
    String,
    NodeError,
>)
    ensures
        match r {
            Ok(line) => line@ == json_text(
                envelope_json(envelope.header(), member_models(payload@)),
            ),
            Err(_) => false,
        },
{
    let Message { src, dst, body } = envelope;
    let inner = object_value(body_members(body.id, body.in_reply_to, payload));
    let mut members: Vec<(String, serde_json::Value)> = Vec::new();
    members.push(("src".to_owned(), text_value(src)));
    members.push(("dest".to_owned(), text_value(dst)));
    members.push(("body".to_owned(), inner));
    proof {
        lemma_names_differ();
        assert(member_models(members@) =~= seq![
            ("src"@, Json::Text(envelope.header().src)),
            ("dest"@, Json::Text(envelope.header().dst)),
            ("body"@, body_json(envelope.header(), member_models(payload@))),
        ]);
    }
    let doc = object_value(members);
    match render(&doc) {
        Ok(line) => Ok(line),
        Err(e) => Err(NodeError::Json(e)),
    }
}

impl Message<()> {
    /// Puts into the envelope the payload that was read from its body, or
    /// fails where none was read.
    pub fn with_payload<P>(self, payload: Option<P>) -> (r: Result<Message<P>, NodeError>)
        ensures
            match r {
                Ok(message) => payload == Some(message.body.payload) && message.header()
                    == self.header(),
                Err(e) => payload is None && e is Json,
            },
    {
        match payload {
            Some(payload) => Ok(
                Message {
                    src: self.src,
                    dst: self.dst,
                    body: Body { id: self.body.id, in_reply_to: self.body.in_reply_to, payload },
                },
            ),
            None => Err(NodeError::Json(shape_error("the body holds no payload of the expected type"))),
        }
    }
}

impl<P: Payload> Message<P> {
    /// Reads a message from a line. There is a message exactly when the line
    /// spells an envelope and `P::decode` finds a payload in its body; the
    /// message has the header that the line spells and the payload that was
    /// found. Every other line is an error.
    pub fn decode(line: &str) -> (r: Result<Self, NodeError>)
        ensures
            match r {
                Ok(message) => {
                    &&& request_of(line@) == Some(message.header())
                    &&& P::decodes(body_in(line@), Some(message.body.payload))
                },
                Err(e) => {
                    &&& e is Json
                    &&& request_of(line@) is None || P::decodes(body_in(line@), None)
                },
            },
    {
        let doc = match parse(line) {
            Ok(doc) => doc,
            Err(e) => { return Err(NodeError::Json(e)); },
        };
        match read_envelope(&doc) {
            Some((envelope, body)) => envelope.with_payload(P::decode(body)),
            None => Err(NodeError::Json(shape_error("the line holds no message"))),
        }
    }

    /// Writes the message on one line: the envelope with the members that
    /// `P::encode` writes for the payload. Writing does not fail.
    pub fn encode(self) -> (r: Result<String, NodeError>)
        ensures
            match r {
                Ok(line) => exists|members: Members| #[trigger]
                    self.body.payload.encodes(members) && line@ == json_text(
                        envelope_json(self.header(), members),
                    ),
                Err(_) => false,
            },
    {
        let (envelope, payload) = self.split();
        let members = payload.encode();
        assert(self.body.payload.encodes(member_models(members@)));
        frame(envelope, members)
    }
}

} // verus!
