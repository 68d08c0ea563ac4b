//! The shapes of the messages that a node exchanges: the envelope, its body,
//! and the two payloads of the handshake.

use crate::json::{Json, Members};
use crate::value::{
    as_list, as_text, json_model, json_models, list_value, member, member_models, text_value,
};
use vstd::prelude::*;

verus! {

/// A message on the transport: who sent it, whom it is for, and its body.
#[derive(Debug)]
pub struct Message<Payload> {
    pub src: String,
    pub dst: String,
    pub body: Body<Payload>,
}

/// The body of a message: the two ids that tie a reply to its request, and
/// the payload.
#[derive(Debug)]
pub struct Body<Payload> {
    /// The sender's own number for this message.
    pub id: Option<usize>,
    /// The `id` of the message that this one answers.
    pub in_reply_to: Option<usize>,
    pub payload: Payload,
}

/// The payload that opens the handshake: the name of the node that receives
/// it, and the names of all nodes of the cluster.
#[derive(Debug)]
pub struct Init {
    pub node_id: String,
    pub node_ids: Vec<String>,
}

/// The payload that closes the handshake. It holds nothing.
#[derive(Debug)]
pub struct InitOk {}

/// All of a message but its payload, as a mathematical value.
pub struct Header {
    pub src: Seq<char>,
    pub dst: Seq<char>,
    pub id: Option<usize>,
    pub in_reply_to: Option<usize>,
}

impl Header {
    /// The header of the reply that the receiver numbers `id`: it goes back
    /// to the sender, under the name that the request was addressed to, and
    /// points at the request's id.
    pub open spec fn reply(self, id: usize) -> Header {
        Header { src: self.dst, dst: self.src, id: Some(id), in_reply_to: self.id }
    }
}

/// Whether an object `body` holds each of `members` under its name.
///
/// Members of `body` that are not among `members` do not count: a reader
/// ignores what it does not know.
pub open spec fn spelled_in(members: Members, body: Json) -> bool {
    forall|i: int|
        0 <= i < members.len() ==> body.member(#[trigger] members[i].0) == Some(members[i].1)
}

/// A payload: what a message carries besides its ids. On the wire its members
/// stand in the body of the message, beside the ids, and one of them is the
/// `type` that names the kind of payload.
///
/// An implementation says with `decodes` which bodies it reads and what it
/// reads from them, and with `encodes` which members it writes. What the
/// library states of a message, it states through these two. An
/// implementation that leaves them as they are says nothing of itself.
pub trait Payload: Sized {
    /// Whether `r` is what `decode` makes of `body`.
    open spec fn decodes(body: Json, r: Option<Self>) -> bool {
        true
    }

    /// Whether `members` are what `encode` writes for this payload.
    open spec fn encodes(&self, members: Members) -> bool {
        true
    }

    /// Reads a payload from the body of a message, or finds that the body
    /// holds none of this type.
    fn decode(body: &serde_json::Value) -> (r: Option<Self>)
        ensures
            Self::decodes(json_model(*body), r),
    ;

    /// The members that stand for this payload on the wire, in order.
    fn encode(&self) -> (r: Vec<(String, serde_json::Value)>)
        ensures
            self.encodes(member_models(r@)),
    ;
}

impl InitOk {
    /// The members that stand for this payload on the wire.
    pub open spec fn members(self) -> Members {
        seq![("type"@, Json::Text("init_ok"@))]
    }
}

impl Payload for InitOk {
    /// There is a result exactly when `body` is an object of type `init_ok`.
    open spec fn decodes(body: Json, r: Option<Self>) -> bool {
        r is Some <==> body.member("type"@) == Some(Json::Text("init_ok"@))
    }

    /// An `InitOk` is written as its type and nothing else.
    open spec fn encodes(&self, members: Members) -> bool {
        members == self.members()
    }

    fn decode(body: &serde_json::Value) -> (r: Option<Self>) {
        if has_type(body, "init_ok") {
            Some(InitOk {  })
        } else {
            None
        }
    }

    fn encode(&self) -> (r: Vec<(String, serde_json::Value)>) {
        let mut out = Vec::new();
        out.push(("type".to_owned(), text_value("init_ok".to_owned())));
        assert(member_models(out@) =~= self.members());
        out
    }
}

/// The JSON strings of a list of names.
pub open spec fn names(items: Seq<String>) -> Seq<Json> {
    items.map_values(|name: String| Json::Text(name@))
}

impl Init {
    /// The members that stand for this payload on the wire.
    pub open spec fn members(self) -> Members {
        seq![
            ("type"@, Json::Text("init"@)),
            ("node_id"@, Json::Text(self.node_id@)),
            ("node_ids"@, Json::List(names(self.node_ids@))),
        ]
    }

    /// Whether `body` spells a payload of this type: an object of type
    /// `init` with a string `node_id` and a list of strings `node_ids`.
    pub open spec fn spelled(body: Json) -> bool {
        &&& body.member("type"@) == Some(Json::Text("init"@))
        &&& body.member("node_id"@) matches Some(Json::Text(_))
        &&& body.member("node_ids"@) matches Some(Json::List(items)) && forall|i: int|
            0 <= i < items.len() ==> #[trigger] items[i] is Text
    }

    /// A body that holds the members of an `Init` spells one.
    pub proof fn lemma_members_spell(self, body: Json)
        requires
            spelled_in(self.members(), body),
        ensures
            Init::spelled(body),
    {
        let members = self.members();
        assert(members[0].0 == "type"@);
        assert(members[1].0 == "node_id"@);
        assert(members[2].0 == "node_ids"@);
        assert(body.member(members[0].0) == Some(members[0].1));
        assert(body.member(members[1].0) == Some(members[1].1));
        assert(body.member(members[2].0) == Some(members[2].1));
    }
}

impl Payload for Init {
    /// There is a result exactly when `body` spells an `Init`, and the
    /// result is the one that it spells.
    open spec fn decodes(body: Json, r: Option<Self>) -> bool {
        match r {
            Some(init) => spelled_in(init.members(), body),
            None => !Init::spelled(body),
        }
    }

    /// An `Init` is written as its type, the name of the node and the names
    /// of all nodes.
    open spec fn encodes(&self, members: Members) -> bool {
        members == self.members()
    }

    fn decode(body: &serde_json::Value) -> (r: Option<Self>) {
        if !has_type(body, "init") {
            return None;
        }
        let node_id = match member(body, "node_id") {
            Some(v) => match as_text(v) {
                Some(s) => s.to_owned(),
                None => { return None; },
            },
            None => { return None; },
        };
        let items = match member(body, "node_ids") {
            Some(v) => match as_list(v) {
                Some(items) => items,
                None => { return None; },
            },
            None => { return None; },
        };
        let mut node_ids: Vec<String> = Vec::new();
        let mut i: usize = 0;
        while i < items.len()
            invariant
                i <= items.len(),
                node_ids.len() == i,
                json_model(*body).member("node_ids"@) == Some(Json::List(json_models(items@))),
                forall|j: int| 0 <= j < i ==> json_model(items[j]) == Json::Text(node_ids[j]@),
            decreases items.len() - i,
        {
            match as_text(&items[i]) {
                Some(s) => {
                    node_ids.push(s.to_owned());
                },
                None => {
                    assert(json_models(items@)[i as int] == json_model(items[i as int]));
                    return None;
                },
            }
            i += 1;
        }
        let init = Init { node_id, node_ids };
        proof {
            assert(json_models(items@) =~= names(init.node_ids@));
        }
        Some(init)
    }

    fn encode(&self) -> (r: Vec<(String, serde_json::Value)>) {
        let mut items: Vec<serde_json::Value> = Vec::new();
        let mut i: usize = 0;
        while i < self.node_ids.len()
            invariant
                i <= self.node_ids.len(),
                items.len() == i,
                forall|j: int| 0 <= j < i ==> json_model(items[j]) == Json::Text(self.node_ids[j]@),
            decreases self.node_ids.len() - i,
        {
            items.push(text_value(self.node_ids[i].clone()));
            i += 1;
        }
        proof {
            assert(json_models(items@) =~= names(self.node_ids@));
        }
        let mut out = Vec::new();
        out.push(("type".to_owned(), text_value("init".to_owned())));
        out.push(("node_id".to_owned(), text_value(self.node_id.clone())));
        out.push(("node_ids".to_owned(), list_value(items)));
        assert(member_models(out@) =~= self.members());
        out
    }
}

/// Whether `body` is an object whose member `type` is the string `kind`.
pub fn has_type(body: &serde_json::Value, kind: &str) -> (r: bool)
    ensures
        r <==> json_model(*body).member("type"@) == Some(Json::Text(kind@)),
{
    match member(body, "type") {
        Some(v) => match as_text(v) {
            Some(s) => same_text(s, kind),
            None => false,
        },
        None => false,
    }
}

/// Whether two strings hold the same text.
fn same_text(a: &str, b: &str) -> (r: bool)
    ensures
        r <==> a@ == b@,
{
    a.to_owned() == b.to_owned()
}

impl<P> Message<P> {
    /// All of this message but its payload.
    pub open spec fn header(self) -> Header {
        Header {
            src: self.src@,
            dst: self.dst@,
            id: self.body.id,
            in_reply_to: self.body.in_reply_to,
        }
    }

    /// Takes the payload out of the message and leaves the envelope.
    pub fn split(self) -> (r: (Message<()>, P))
        ensures
            r.0.header() == self.header(),
            r.1 == self.body.payload,
    {
        let Message { src, dst, body } = self;
        let Body { id, in_reply_to, payload } = body;
        (Message { src, dst, body: Body { id, in_reply_to, payload: () } }, payload)
    }

    /// The reply to this message that carries `payload` and that its sender
    /// numbers `id`. It is addressed to the sender of the request, comes from
    /// the name that the request was addressed to, and points at the
    /// request's id.
    pub fn reply<Q>(self, id: usize, payload: Q) -> (r: Message<Q>)
        ensures
            r.header() == self.header().reply(id),
            r.body.payload == payload,
    {
        Message {
            src: self.dst,
            dst: self.src,
            body: Body { id: Some(id), in_reply_to: self.body.id, payload },
        }
    }
}

} // verus!
