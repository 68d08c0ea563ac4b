//! The two handlers that come with the runtime, with their payloads: one
//! that echoes, and one that hands out ids of which no two are alike.

use crate::json::{Json, Members};
use crate::protocol::{has_type, Message, Payload};
use crate::runtime::{is_run, lemma_counter_counts, serves, serves_line, Node, Runtime};
use crate::value::{json_model, json_text, member_models, text_value};
use crate::wire::{body_in, envelope_json, read_text, request_of};
use vstd::prelude::*;
use vstd::string::StringExecFns;

verus! {

/// A request to send a text back.
#[derive(Debug)]
pub struct Echo {
    pub echo: String,
}

/// The answer to an `Echo`: the text that was sent.
#[derive(Debug)]
pub struct EchoOk {
    pub echo: String,
}

/// A request for an id.
#[derive(Debug)]
pub struct Generate {}

/// The answer to a `Generate`: an id.
#[derive(Debug)]
pub struct GenerateOk {
    pub id: String,
}

/// Whether `body` is an object of the type `kind` that holds a string under
/// `key`.
pub open spec fn spells_text(body: Json, kind: Seq<char>, key: Seq<char>) -> bool {
    &&& body.member("type"@) == Some(Json::Text(kind))
    &&& body.member(key) matches Some(Json::Text(_))
}

/// What is read from a body that is to hold the type `kind` and a string
/// under `key`: the string, where the body holds both, and nothing where it
/// does not.
pub open spec fn reads_text(body: Json, kind: Seq<char>, key: Seq<char>, r: Option<Seq<char>>) -> bool {
    match r {
        Some(text) => body.member("type"@) == Some(Json::Text(kind)) && body.member(key) == Some(
            Json::Text(text),
        ),
        None => !spells_text(body, kind, key),
    }
}

/// The members of a payload of the type `kind` that holds `text` under
/// `key`: the type first.
pub open spec fn text_members(kind: Seq<char>, key: Seq<char>, text: Seq<char>) -> Members {
    seq![("type"@, Json::Text(kind)), (key, Json::Text(text))]
}

/// Reads the string under `key` from a body of the type `kind`.
fn decode_text(body: &serde_json::Value, kind: &str, key: &str) -> (r: Option<String>)
    ensures
        reads_text(
            json_model(*body),
            kind@,
            key@,
            match r {
                Some(text) => Some(text@),
                None => None,
            },
        ),
{
    if has_type(body, kind) {
        read_text(body, key)
    } else {
        None
    }
}

/// The members of a payload of the type `kind` that holds `text` under
/// `key`.
fn encode_text(kind: &str, key: &str, text: &String) -> (r: Vec<(String, serde_json::Value)>)
    ensures
        member_models(r@) == text_members(kind@, key@, text@),
{
    let mut out = Vec::new();
    out.push(("type".to_owned(), text_value(kind.to_owned())));
    out.push((key.to_owned(), text_value(text.clone())));
    assert(member_models(out@) =~= text_members(kind@, key@, text@));
    out
}

impl Payload for Echo {
    /// An `Echo` is read from an object of type `echo` that holds a string
    /// `echo`, and from nothing else.
    open spec fn decodes(body: Json, r: Option<Self>) -> bool {
        reads_text(
            body,
            "echo"@,
            "echo"@,
            match r {
                Some(e) => Some(e.echo@),
                None => None,
            },
        )
    }

    /// An `Echo` is written as its type and its text.
    open spec fn encodes(&self, members: Members) -> bool {
        members == text_members("echo"@, "echo"@, self.echo@)
    }

    fn decode(body: &serde_json::Value) -> (r: Option<Self>) {
        match decode_text(body, "echo", "echo") {
            Some(echo) => Some(Echo { echo }),
            None => None,
        }
    }

    fn encode(&self) -> (r: Vec<(String, serde_json::Value)>) {
        encode_text("echo", "echo", &self.echo)
    }
}

impl Payload for EchoOk {
    /// An `EchoOk` is read from an object of type `echo_ok` that holds a
    /// string `echo`, and from nothing else.
    open spec fn decodes(body: Json, r: Option<Self>) -> bool {
        reads_text(
            body,
            "echo_ok"@,
            "echo"@,
            match r {
                Some(e) => Some(e.echo@),
                None => None,
            },
        )
    }

    /// An `EchoOk` is written as its type and its text.
    open spec fn encodes(&self, members: Members) -> bool {
        members == text_members("echo_ok"@, "echo"@, self.echo@)
    }

    fn decode(body: &serde_json::Value) -> (r: Option<Self>) {
        match decode_text(body, "echo_ok", "echo") {
            Some(echo) => Some(EchoOk { echo }),
            None => None,
        }
    }

    fn encode(&self) -> (r: Vec<(String, serde_json::Value)>) {
        encode_text("echo_ok", "echo", &self.echo)
    }
}

impl Payload for Generate {
    /// A `Generate` is read from an object of type `generate`, and from
    /// nothing else.
    open spec fn decodes(body: Json, r: Option<Self>) -> bool {
        r is Some <==> body.member("type"@) == Some(Json::Text("generate"@))
    }

    /// A `Generate` is written as its type.
    open spec fn encodes(&self, members: Members) -> bool {
        members == seq![("type"@, Json::Text("generate"@))]
    }

    fn decode(body: &serde_json::Value) -> (r: Option<Self>) {
        if has_type(body, "generate") {
            Some(Generate {  })
        } else {
            None
        }
    }

    fn encode(&self) -> (r: Vec<(String, serde_json::Value)>) {
        let mut out = Vec::new();
        out.push(("type".to_owned(), text_value("generate".to_owned())));
        assert(member_models(out@) =~= seq![("type"@, Json::Text("generate"@))]);
        out
    }
}

impl Payload for GenerateOk {
    /// A `GenerateOk` is read from an object of type `generate_ok` that
    /// holds a string `id`, and from nothing else.
    open spec fn decodes(body: Json, r: Option<Self>) -> bool {
        reads_text(
            body,
            "generate_ok"@,
            "id"@,
            match r {
                Some(ok) => Some(ok.id@),
                None => None,
            },
        )
    }

    /// A `GenerateOk` is written as its type and its id.
    open spec fn encodes(&self, members: Members) -> bool {
        members == text_members("generate_ok"@, "id"@, self.id@)
    }

    fn decode(body: &serde_json::Value) -> (r: Option<Self>) {
        match decode_text(body, "generate_ok", "id") {
            Some(id) => Some(GenerateOk { id }),
            None => None,
        }
    }

    fn encode(&self) -> (r: Vec<(String, serde_json::Value)>) {
        encode_text("generate_ok", "id", &self.id)
    }
}

/// The handler that sends every text back.
pub struct EchoNode;

impl Node for EchoNode {
    type PayloadIn = Echo;

    type PayloadOut = EchoOk;

    /// The answer holds the text of the request, and the handler stays as
    /// it is.
    open spec fn replies(&self, node_id: Seq<char>, msg: Echo, after: Self, answer: EchoOk) -> bool {
        answer.echo@ == msg.echo@ && after == *self
    }

    fn reply(&mut self, node_id: &str, msg: Echo) -> (r: EchoOk) {
        EchoOk { echo: msg.echo }
    }
}

/// What is answered to an echo: where a node with the echoing handler
/// serves a line, the line spells an `echo` with a text, and the reply is
/// the envelope that answers it under the next number, with an `echo_ok`
/// that holds the same text. The handler stays as it is.
pub proof fn lemma_echo_is_answered(
    before: Runtime<EchoNode>,
    line: Seq<char>,
    after: Runtime<EchoNode>,
    reply: Seq<char>,
    request: Message<Echo>,
    answer: Message<EchoOk>,
    members: Members,
)
    requires
        serves_line(before, line, after, reply, request, answer, members),
    ensures
        request_of(line) matches Some(header) && body_in(line).member("echo"@) matches Some(
            Json::Text(text),
        ) && reply == json_text(
            envelope_json(
                header.reply((before.counter() + 1) as usize),
                text_members("echo_ok"@, "echo"@, text),
            ),
        ),
        body_in(line).member("type"@) == Some(Json::Text("echo"@)),
        after.handler() == before.handler(),
{
}

/// The decimal digit that stands for a number below ten.
pub open spec fn digit(d: nat) -> char {
    if d == 0 {
        '0'
    } else if d == 1 {
        '1'
    } else if d == 2 {
        '2'
    } else if d == 3 {
        '3'
    } else if d == 4 {
        '4'
    } else if d == 5 {
        '5'
    } else if d == 6 {
        '6'
    } else if d == 7 {
        '7'
    } else if d == 8 {
        '8'
    } else {
        '9'
    }
}

/// A number in decimal digits, without leading zeros.
pub open spec fn decimal(n: nat) -> Seq<char>
    decreases n,
{
    if n < 10 {
        seq![digit(n)]
    } else {
        decimal(n / 10).push(digit(n % 10))
    }
}

/// Two different numbers are written differently.
pub proof fn lemma_decimal_differs(a: nat, b: nat)
    requires
        a != b,
    ensures
        decimal(a) != decimal(b),
    decreases a,
{
    lemma_decimal_is_long(a);
    lemma_decimal_is_long(b);
    if a < 10 && b < 10 {
        assert(decimal(a)[0] == digit(a));
        assert(decimal(b)[0] == digit(b));
    } else if a >= 10 && b >= 10 {
        let x = decimal(a / 10);
        let y = decimal(b / 10);
        if a % 10 != b % 10 {
            assert(decimal(a).last() == digit(a % 10));
            assert(decimal(b).last() == digit(b % 10));
        } else {
            assert(a / 10 != b / 10);
            lemma_decimal_differs(a / 10, b / 10);
            assert(decimal(a).drop_last() =~= x);
            assert(decimal(b).drop_last() =~= y);
        }
    }
}

/// A number is written with at least one digit, and one from ten on with
/// at least two.
pub proof fn lemma_decimal_is_long(n: nat)
    ensures
        decimal(n).len() >= 1,
        n >= 10 ==> decimal(n).len() >= 2,
    decreases n,
{
    if n >= 10 {
        lemma_decimal_is_long(n / 10);
    }
}

/// The digit of a number below ten, as a string.
fn digit_text(d: usize) -> (r: &'static str)
    requires
        d < 10,
    ensures
        r@ == seq![digit(d as nat)],
{
    proof {
        reveal_strlit("0");
        reveal_strlit("1");
        reveal_strlit("2");
        reveal_strlit("3");
        reveal_strlit("4");
        reveal_strlit("5");
        reveal_strlit("6");
        reveal_strlit("7");
        reveal_strlit("8");
        reveal_strlit("9");
    }
    let r = if d == 0 {
        "0"
    } else if d == 1 {
        "1"
    } else if d == 2 {
        "2"
    } else if d == 3 {
        "3"
    } else if d == 4 {
        "4"
    } else if d == 5 {
        "5"
    } else if d == 6 {
        "6"
    } else if d == 7 {
        "7"
    } else if d == 8 {
        "8"
    } else {
        "9"
    };
    assert(r@ =~= seq![digit(d as nat)]);
    r
}

/// Writes a number in decimal digits.
pub fn decimal_text(n: usize) -> (r: String)
    ensures
        r@ == decimal(n as nat),
    decreases n,
{
    if n < 10 {
        digit_text(n).to_owned()
    } else {
        let mut text = decimal_text(n / 10);
        text.append(digit_text(n % 10));
        assert(text@ =~= decimal(n as nat));
        text
    }
}

/// The handler that hands out ids: the name of the node with a count behind
/// it that goes up with every request.
pub struct UniqueIdsNode {
    id: usize,
}

impl UniqueIdsNode {
    /// The count of the ids that were handed out.
    pub closed spec fn count(self) -> usize {
        self.id
    }

    /// A handler that has handed out nothing yet.
    pub fn new() -> (r: Self)
        ensures
            r.count() == 0,
    {
        UniqueIdsNode { id: 0 }
    }
}

impl Node for UniqueIdsNode {
    type PayloadIn = Generate;

    type PayloadOut = GenerateOk;

    /// The count goes up by one, unless it has reached the largest number
    /// and stays there; the id is the name of the node with the new count
    /// behind it.
    open spec fn replies(
        &self,
        node_id: Seq<char>,
        msg: Generate,
        after: Self,
        answer: GenerateOk,
    ) -> bool {
        &&& after.count() == (if self.count() < usize::MAX {
            self.count() + 1
        } else {
            usize::MAX as int
        })
        &&& answer.id@ == node_id + decimal(after.count() as nat)
    }

    fn reply(&mut self, node_id: &str, msg: Generate) -> (r: GenerateOk) {
        if self.id < usize::MAX {
            self.id = self.id + 1;
        }
        let mut id = node_id.to_owned();
        id.append(decimal_text(self.id).as_str());
        GenerateOk { id }
    }
}

/// In a run of the handler that hands out ids, before its count has reached
/// the largest number, the count goes up by one with each request.
pub proof fn lemma_count_counts(
    states: Seq<Runtime<UniqueIdsNode>>,
    requests: Seq<Message<Generate>>,
    replies: Seq<Message<GenerateOk>>,
    k: int,
)
    requires
        is_run(states, requests, replies),
        states.last().handler().count() < usize::MAX,
        0 <= k <= requests.len(),
    ensures
        states[k].handler().count() + (requests.len() - k) == states.last().handler().count(),
    decreases requests.len() - k,
{
    if k < requests.len() {
        lemma_count_counts(states, requests, replies, k + 1);
        assert(serves(states[k], requests[k], states[k + 1], replies[k]));
    }
}

/// No two requests for an id get the same id: in a run of the handler that
/// hands out ids, before its count has reached the largest number, the ids
/// in any two replies differ.
pub proof fn lemma_generated_ids_differ(
    states: Seq<Runtime<UniqueIdsNode>>,
    requests: Seq<Message<Generate>>,
    replies: Seq<Message<GenerateOk>>,
)
    requires
        is_run(states, requests, replies),
        states.last().handler().count() < usize::MAX,
    ensures
        forall|j: int, k: int|
            0 <= j < k < requests.len() ==> (#[trigger] replies[j]).body.payload.id@
                != (#[trigger] replies[k]).body.payload.id@,
{
    assert forall|j: int, k: int| 0 <= j < k < requests.len() implies (#[trigger] replies[j]).body.payload.id@
        != (#[trigger] replies[k]).body.payload.id@ by {
        lemma_counter_counts(states, requests, replies, j);
        lemma_counter_counts(states, requests, replies, k);
        lemma_count_counts(states, requests, replies, j + 1);
        lemma_count_counts(states, requests, replies, k + 1);
        assert(serves(states[j], requests[j], states[j + 1], replies[j]));
        assert(serves(states[k], requests[k], states[k + 1], replies[k]));
        let name = states[0].name()->Some_0;
        let a = states[j + 1].handler().count() as nat;
        let b = states[k + 1].handler().count() as nat;
        lemma_decimal_differs(a, b);
        let x = name + decimal(a);
        let y = name + decimal(b);
        assert(x.subrange(name.len() as int, x.len() as int) =~= decimal(a));
        assert(y.subrange(name.len() as int, y.len() as int) =~= decimal(b));
    }
}

} // verus!
