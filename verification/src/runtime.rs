//! The runtime of a node: how it is put together, and what it answers to
//! each line that it receives.

use crate::error::NodeError;
use crate::json::{Json, Members};
use crate::protocol::{Header, Init, InitOk, Message, Payload};
use crate::value::{json_model, json_parse, json_text, parse, shape_error};
use crate::wire::{body_in, body_of, envelope_json, frame, header_of, read_envelope, request_of};
use vstd::pervasive::unreached;
use vstd::prelude::*;

verus! {

/// What a node does with the requests that it receives. The runtime hands
/// each payload to `reply` and sends back what it returns.
///
/// An implementation says with `replies` what it answers and how it changes.
/// What the library states of a reply's payload, it states through that. An
/// implementation that leaves `replies` as it is says nothing of itself.
pub trait Node: Sized {
    type PayloadIn;

    type PayloadOut;

    /// Whether a handler that stands as `self` and is asked `msg` under the
    /// name `node_id` may answer `answer` and stand as `after` from then on.
    open spec fn replies(
        &self,
        node_id: Seq<char>,
        msg: Self::PayloadIn,
        after: Self,
        answer: Self::PayloadOut,
    ) -> bool {
        true
    }

    /// The answer to one request. `node_id` is the name that this node was
    /// given in the handshake.
    fn reply(&mut self, node_id: &str, msg: Self::PayloadIn) -> (r: Self::PayloadOut)
        ensures
            old(self).replies(node_id@, msg, *final(self), r),
    ;
}

/// A node that takes its input line by line. It waits for the handshake
/// until it has a name, and serves requests from then on.
pub struct Runtime<N> {
    progress: Progress,
    handler: Box<N>,
}

/// What a runtime remembers from one line to the next: the number of the
/// last reply, and the name of the node once it has one.
struct Progress {
    id: usize,
    node_id: Option<String>,
}

impl Progress {
    /// A node without a name has numbered no reply.
    #[verifier::type_invariant]
    spec fn fresh_until_named(self) -> bool {
        self.node_id is None ==> self.id == 0
    }
}

/// Builds a `Runtime`. `H` is what is known of the handler, `S` whether a
/// runtime can be built yet.
pub struct RuntimeBuilder<H, S> {
    handler: H,
    state: std::marker::PhantomData<S>,
}

/// A builder's handler.
pub struct Handler<N>(Box<N>);

/// The place of a handler in a builder that has none yet.
pub struct NoHandler;

/// Marks a builder that cannot build yet.
pub struct NotRunnable;

/// Marks a builder that can build.
pub struct Runnable;

impl RuntimeBuilder<NoHandler, NotRunnable> {
    /// The builder without a handler.
    pub closed spec fn empty() -> Self {
        RuntimeBuilder { handler: NoHandler, state: std::marker::PhantomData }
    }

    /// A builder without a handler.
    pub fn new() -> (r: Self)
        ensures
            r == Self::empty(),
    {
        RuntimeBuilder { handler: NoHandler, state: std::marker::PhantomData }
    }

    /// Gives the builder its handler. Only a builder with a handler can
    /// build.
    pub fn with_handler<N: Node>(self, handler: Box<N>) -> (r: RuntimeBuilder<Handler<N>, Runnable>)
        ensures
            r.handler() == *handler,
    {
        RuntimeBuilder { handler: Handler(handler), state: std::marker::PhantomData }
    }
}

impl Default for RuntimeBuilder<NoHandler, NotRunnable> {
    /// The same as `new`.
    fn default() -> (r: Self)
        ensures
            r == Self::empty(),
    {
        Self::new()
    }
}

impl<N: Node> RuntimeBuilder<Handler<N>, Runnable> {
    /// The handler that the builder was given.
    pub closed spec fn handler(self) -> N {
        *self.handler.0
    }

    /// The runtime around the builder's handler. It has numbered no reply
    /// yet and waits for its name.
    pub fn build(self) -> (r: Runtime<N>)
        ensures
            r.counter() == 0,
            r.name() is None,
            r.handler() == self.handler(),
    {
        Runtime { progress: Progress { id: 0, node_id: None }, handler: self.handler.0 }
    }
}

/// What serving one request does: the node keeps its name, the counter goes
/// up by one, the reply carries the new count and answers the request, and
/// its payload is what the handler answers to the payload of the request.
pub open spec fn serves<N: Node>(
    before: Runtime<N>,
    request: Message<N::PayloadIn>,
    after: Runtime<N>,
    reply: Message<N::PayloadOut>,
) -> bool {
    &&& before.name() matches Some(name) && before.handler().replies(
        name,
        request.body.payload,
        after.handler(),
        reply.body.payload,
    )
    &&& after.name() == before.name()
    &&& after.counter() == before.counter() + 1
    &&& reply.header() == request.header().reply(after.counter())
}

/// What a node with a name does with a line that it serves: it reads the
/// request from the line, serves it, and writes the reply.
pub open spec fn serves_line<N: Node>(
    before: Runtime<N>,
    line: Seq<char>,
    after: Runtime<N>,
    reply: Seq<char>,
    request: Message<N::PayloadIn>,
    answer: Message<N::PayloadOut>,
    members: Members,
) -> bool where N::PayloadIn: Payload, N::PayloadOut: Payload {
    &&& request_of(line) == Some(request.header())
    &&& <N::PayloadIn as Payload>::decodes(body_in(line), Some(request.body.payload))
    &&& serves(before, request, after, answer)
    &&& answer.body.payload.encodes(members)
    &&& reply == json_text(envelope_json(answer.header(), members))
}

/// The header of the handshake that a line spells and the name that it
/// gives to the node, if the line spells a handshake.
pub open spec fn init_of(line: Seq<char>) -> Option<(Header, Seq<char>)> {
    match json_parse(line) {
        Some(doc) => match (header_of(doc), body_of(doc).member("node_id"@)) {
            (Some(header), Some(Json::Text(name))) => if Init::spelled(body_of(doc)) {
                Some((header, name))
            } else {
                None
            },
            _ => None,
        },
        None => None,
    }
}

impl<N: Node> Runtime<N> {
    /// The number of the last reply that was numbered; zero before the first.
    pub closed spec fn counter(self) -> usize {
        self.progress.id
    }

    /// The name that the node was given in the handshake, if that has taken
    /// place.
    pub closed spec fn name(self) -> Option<Seq<char>> {
        match self.progress.node_id {
            Some(name) => Some(name@),
            None => None,
        }
    }

    /// The handler that answers the requests.
    pub closed spec fn handler(self) -> N {
        *self.handler
    }

    /// The number of the last reply that was numbered.
    pub fn id(&self) -> (r: usize)
        ensures
            r == self.counter(),
            self.name() is None ==> r == 0,
    {
        proof {
            use_type_invariant(&self.progress);
        }
        self.progress.id
    }

    /// The name of the node, once the handshake has taken place.
    pub fn node_id(&self) -> (r: Option<&String>)
        ensures
            match r {
                Some(name) => self.name() == Some(name@),
                None => self.name() is None,
            },
    {
        self.progress.node_id.as_ref()
    }

    /// Takes the handshake: the node takes the name that `init` gives it and
    /// answers with an `InitOk` under the number zero. The counter stays at
    /// zero, so the first request is answered under the number one.
    pub fn accept(&mut self, init: Message<Init>) -> (r: Message<InitOk>)
        requires
            old(self).name() is None,
        ensures
            r.header() == init.header().reply(0),
            final(self).name() == Some(init.body.payload.node_id@),
            final(self).counter() == 0,
            final(self).handler() == old(self).handler(),
    {
        proof {
            use_type_invariant(&self.progress);
        }
        let (envelope, payload) = init.split();
        self.progress.node_id = Some(payload.node_id);
        envelope.reply(self.progress.id, InitOk {  })
    }

    /// Serves one request: hands its payload to the handler and sends what
    /// the handler returns back to the sender, under the next number.
    pub fn answer(&mut self, request: Message<N::PayloadIn>) -> (r: Message<N::PayloadOut>)
        requires
            old(self).name() is Some,
            old(self).counter() < usize::MAX,
        ensures
            serves(*old(self), request, *final(self), r),
    {
        let (envelope, payload) = request.split();
        self.progress.id = self.progress.id + 1;
        let answer = match &self.progress.node_id {
            Some(name) => self.handler.reply(name.as_str(), payload),
            None => unreached(),
        };
        envelope.reply(self.progress.id, answer)
    }
}

impl<N: Node> Runtime<N> where N::PayloadIn: Payload, N::PayloadOut: Payload {
    /// Takes one line of input and gives the line to send back.
    ///
    /// A node without a name expects the handshake: it takes its name from
    /// the line and answers with an `InitOk` under the number zero. A line
    /// that spells no handshake is an error.
    ///
    /// A node with a name expects a request: it answers under the next
    /// number with what the handler returns. A line that spells no envelope
    /// is an error, and so is one in whose body the handler's payload is not
    /// found.
    ///
    /// An error leaves the node as it was.
    pub fn step(&mut self, line: &str) -> (r: Result<String, NodeError>)
        requires
            old(self).counter() < usize::MAX,
        ensures
            match (old(self).name(), r) {
                (None, Ok(reply)) => {
                    &&& init_of(line@) matches Some((header, name))
                    &&& reply@ == json_text(
                        envelope_json(header.reply(0), (InitOk {  }).members()),
                    )
                    &&& final(self).name() == Some(name)
                    &&& final(self).counter() == 0
                    &&& final(self).handler() == old(self).handler()
                },
                (None, Err(e)) => {
                    &&& init_of(line@) is None
                    &&& e is Json
                    &&& *final(self) == *old(self)
                },
                (Some(_), Ok(reply)) => exists|
                    request: Message<N::PayloadIn>,
                    answer: Message<N::PayloadOut>,
                    members: Members,
                | #[trigger]
                    serves_line(
                        *old(self),
                        line@,
                        *final(self),
                        reply@,
                        request,
                        answer,
                        members,
                    ),
                (Some(_), Err(e)) => {
                    &&& e is Json
                    &&& *final(self) == *old(self)
                    &&& request_of(line@) is None || <N::PayloadIn as Payload>::decodes(
                        body_in(line@),
                        None,
                    )
                },
            },
    {
        let doc = match parse(line) {
            Ok(doc) => doc,
            Err(e) => { return Err(NodeError::Json(e)); },
        };
        let (envelope, body) = match read_envelope(&doc) {
            Some(read) => read,
            None => { return Err(NodeError::Json(shape_error("the line holds no message"))); },
        };
        if self.progress.node_id.is_none() {
            let decoded = Init::decode(body);
            proof {
                if decoded is Some {
                    let init = decoded->Some_0;
                    init.lemma_members_spell(json_model(*body));
                    let named = init.members()[1];
                    assert(json_model(*body).member(named.0) == Some(named.1));
                }
            }
            let init = match envelope.with_payload(decoded) {
                Ok(init) => init,
                Err(e) => { return Err(e); },
            };
            let (envelope, ok) = self.accept(init).split();
            frame(envelope, ok.encode())
        } else {
            let request = match envelope.with_payload(<N::PayloadIn as Payload>::decode(body)) {
                Ok(request) => request,
                Err(e) => { return Err(e); },
            };
            let ghost asked = request;
            let answer = self.answer(request);
            let ghost answered = answer;
            let reply = answer.encode();
            proof {
                if reply is Ok {
                    let text = reply->Ok_0;
                    let members = choose|members: Members| #[trigger]
                        answered.body.payload.encodes(members) && text@ == json_text(
                            envelope_json(answered.header(), members),
                        );
                    assert(serves_line(
                        *old(self),
                        line@,
                        *self,
                        text@,
                        asked,
                        answered,
                        members,
                    ));
                }
            }
            reply
        }
    }
}

/// A run of a node that has its name: the requests that it served one after
/// the other, the replies that it gave, and how the node stood before the
/// first request and after each.
pub open spec fn is_run<N: Node>(
    states: Seq<Runtime<N>>,
    requests: Seq<Message<N::PayloadIn>>,
    replies: Seq<Message<N::PayloadOut>>,
) -> bool {
    &&& states.len() == requests.len() + 1
    &&& replies.len() == requests.len()
    &&& forall|k: int|
        0 <= k < requests.len() ==> serves(
            #[trigger] states[k],
            requests[k],
            states[k + 1],
            replies[k],
        )
}

/// Every reply goes back to where its request came from, under the name
/// that the request was addressed to; it carries the number that it was
/// given and points at the id of its request. This holds of the reply to
/// the handshake as of every other.
pub proof fn lemma_reply_goes_back(request: Header, id: usize)
    ensures
        request.reply(id).src == request.dst,
        request.reply(id).dst == request.src,
        request.reply(id).id == Some(id),
        request.reply(id).in_reply_to == request.id,
{
}

/// In a run the counter goes up by one with each request, and the node keeps
/// its name.
pub proof fn lemma_counter_counts<N: Node>(
    states: Seq<Runtime<N>>,
    requests: Seq<Message<N::PayloadIn>>,
    replies: Seq<Message<N::PayloadOut>>,
    k: int,
)
    requires
        is_run(states, requests, replies),
        0 <= k <= requests.len(),
    ensures
        states[k].counter() == states[0].counter() + k,
        states[k].name() == states[0].name(),
    decreases k,
{
    if k > 0 {
        lemma_counter_counts(states, requests, replies, k - 1);
        assert(serves(states[k - 1], requests[k - 1], states[k], replies[k - 1]));
    }
}

/// After the handshake, which leaves the counter at zero, the reply to the
/// k-th request carries the number k, counted from one, and points at the
/// id of the k-th request.
pub proof fn lemma_replies_are_numbered<N: Node>(
    states: Seq<Runtime<N>>,
    requests: Seq<Message<N::PayloadIn>>,
    replies: Seq<Message<N::PayloadOut>>,
)
    requires
        is_run(states, requests, replies),
        states[0].counter() == 0,
    ensures
        forall|k: int|
            0 <= k < requests.len() ==> (#[trigger] replies[k]).body.id == Some((k + 1) as usize)
                && replies[k].body.in_reply_to == requests[k].body.id,
{
    assert forall|k: int| 0 <= k < requests.len() implies (#[trigger] replies[k]).body.id == Some(
        (k + 1) as usize,
    ) && replies[k].body.in_reply_to == requests[k].body.id by {
        lemma_counter_counts(states, requests, replies, k + 1);
        assert(serves(states[k], requests[k], states[k + 1], replies[k]));
    }
}

/// In a run every reply is addressed to the sender of the request at the
/// same place, and comes from the name that that request was addressed to.
pub proof fn lemma_replies_go_back<N: Node>(
    states: Seq<Runtime<N>>,
    requests: Seq<Message<N::PayloadIn>>,
    replies: Seq<Message<N::PayloadOut>>,
)
    requires
        is_run(states, requests, replies),
    ensures
        forall|k: int|
            0 <= k < requests.len() ==> (#[trigger] replies[k]).src@ == requests[k].dst@
                && replies[k].dst@ == requests[k].src@,
{
    assert forall|k: int| 0 <= k < requests.len() implies (#[trigger] replies[k]).src@
        == requests[k].dst@ && replies[k].dst@ == requests[k].src@ by {
        assert(serves(states[k], requests[k], states[k + 1], replies[k]));
    }
}

/// In a run the replies stand in the order of their requests: a later reply
/// carries a higher number, and each reply carries what the handler, as it
/// stood after the requests before, answers to the request at the same
/// place.
pub proof fn lemma_replies_keep_order<N: Node>(
    states: Seq<Runtime<N>>,
    requests: Seq<Message<N::PayloadIn>>,
    replies: Seq<Message<N::PayloadOut>>,
)
    requires
        is_run(states, requests, replies),
    ensures
        forall|j: int, k: int|
            0 <= j < k < requests.len() ==> (#[trigger] replies[j]).body.id is Some
                && (#[trigger] replies[k]).body.id is Some && replies[j].body.id->Some_0
                < replies[k].body.id->Some_0,
        forall|k: int|
            0 <= k < requests.len() ==> states[0].name() is Some && states[k].handler().replies(
                states[0].name()->Some_0,
                requests[k].body.payload,
                states[k + 1].handler(),
                (#[trigger] replies[k]).body.payload,
            ),
{
    assert forall|j: int, k: int| 0 <= j < k < requests.len() implies (#[trigger] replies[j]).body.id
        is Some && (#[trigger] replies[k]).body.id is Some && replies[j].body.id->Some_0
        < replies[k].body.id->Some_0 by {
        lemma_counter_counts(states, requests, replies, j + 1);
        lemma_counter_counts(states, requests, replies, k + 1);
        assert(serves(states[j], requests[j], states[j + 1], replies[j]));
        assert(serves(states[k], requests[k], states[k + 1], replies[k]));
    }
    assert forall|k: int| 0 <= k < requests.len() implies states[0].name() is Some
        && states[k].handler().replies(
        states[0].name()->Some_0,
        requests[k].body.payload,
        states[k + 1].handler(),
        (#[trigger] replies[k]).body.payload,
    ) by {
        lemma_counter_counts(states, requests, replies, k);
        assert(serves(states[k], requests[k], states[k + 1], replies[k]));
    }
}

} // verus!
