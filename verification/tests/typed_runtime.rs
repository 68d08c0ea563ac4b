use gossip_glomers::{Body, Init, Message, Node, Runtime, RuntimeBuilder};

struct Doubler {
    seen: Vec<String>,
}

impl Node for Doubler {
    type PayloadIn = u32;
    type PayloadOut = u64;

    fn reply(&mut self, node_id: &str, msg: u32) -> u64 {
        self.seen.push(node_id.to_owned());
        2 * msg as u64
    }
}

fn init(src: &str, dst: &str, id: Option<usize>, node_id: &str) -> Message<Init> {
    Message {
        src: src.to_owned(),
        dst: dst.to_owned(),
        body: Body {
            id,
            in_reply_to: None,
            payload: Init { node_id: node_id.to_owned(), node_ids: vec![node_id.to_owned()] },
        },
    }
}

fn request(src: &str, dst: &str, id: Option<usize>, payload: u32) -> Message<u32> {
    Message { src: src.to_owned(), dst: dst.to_owned(), body: Body { id, in_reply_to: None, payload } }
}

fn fresh() -> Runtime<Doubler> {
    RuntimeBuilder::new().with_handler(Box::new(Doubler { seen: vec![] })).build()
}

#[test]
fn fresh_runtime_has_no_name_and_has_numbered_nothing() {
    let runtime = fresh();
    assert_eq!(runtime.id(), 0);
    assert!(runtime.node_id().is_none());
}

#[test]
fn accept_names_the_node_and_answers_under_zero() {
    let mut runtime = fresh();
    let reply = runtime.accept(init("c1", "n1", Some(1), "n1"));
    assert_eq!(reply.src, "n1");
    assert_eq!(reply.dst, "c1");
    assert_eq!(reply.body.id, Some(0));
    assert_eq!(reply.body.in_reply_to, Some(1));
    assert_eq!(runtime.node_id().map(|s| s.as_str()), Some("n1"));
    assert_eq!(runtime.id(), 0);
}

#[test]
fn answer_numbers_the_replies_from_one() {
    let mut runtime = fresh();
    runtime.accept(init("c1", "n1", Some(1), "n1"));
    let ids = [Some(10), None, Some(3), Some(3), Some(0)];
    for (k, id) in ids.into_iter().enumerate() {
        let reply = runtime.answer(request("client", "node", id, k as u32 + 5));
        assert_eq!(reply.src, "node");
        assert_eq!(reply.dst, "client");
        assert_eq!(reply.body.id, Some(k + 1));
        assert_eq!(reply.body.in_reply_to, id);
        assert_eq!(reply.body.payload, 2 * (k as u64 + 5));
        assert_eq!(runtime.id(), k + 1);
        assert_eq!(runtime.node_id().map(|s| s.as_str()), Some("n1"));
    }
}

#[test]
fn answer_hands_the_name_to_the_handler() {
    struct Namer;
    impl Node for Namer {
        type PayloadIn = ();
        type PayloadOut = String;

        fn reply(&mut self, node_id: &str, _msg: ()) -> String {
            node_id.to_owned()
        }
    }
    let mut runtime = RuntimeBuilder::new().with_handler(Box::new(Namer)).build();
    runtime.accept(init("c1", "n1", None, "the-node"));
    let reply = runtime.answer(Message {
        src: "c".to_owned(),
        dst: "n".to_owned(),
        body: Body { id: None, in_reply_to: None, payload: () },
    });
    assert_eq!(reply.body.payload, "the-node");
    assert_eq!(reply.body.id, Some(1));
    assert_eq!(reply.body.in_reply_to, None);
}

#[test]
fn handler_keeps_its_state_between_requests() {
    struct Counter {
        calls: u32,
    }
    impl Node for Counter {
        type PayloadIn = ();
        type PayloadOut = u32;

        fn reply(&mut self, _node_id: &str, _msg: ()) -> u32 {
            self.calls += 1;
            self.calls
        }
    }
    let mut runtime = RuntimeBuilder::new().with_handler(Box::new(Counter { calls: 0 })).build();
    runtime.accept(init("c1", "n1", None, "n1"));
    for k in 1..=4 {
        let reply = runtime.answer(Message {
            src: "c".to_owned(),
            dst: "n".to_owned(),
            body: Body { id: Some(k), in_reply_to: None, payload: () },
        });
        assert_eq!(reply.body.payload, k as u32);
    }
}
