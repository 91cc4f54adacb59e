//! The node itself: one mutable field (its own identifier) and one
//! operation, `handle`, which turns an inbound message into at most one
//! reply. Two spec functions pin the behaviour down: `step_id` says how the
//! identifier changes and `reply_to` says which reply, if any, is produced.

use vstd::prelude::*;

use crate::protocol::{Body, BodyView, Message, MessageView, Payload, PayloadView};

verus! {

/// The single stateful entity of the process, identified by a string that an
/// `Init` payload assigns.
pub struct EchoNode {
    pub id: String,
}

impl View for EchoNode {
    type V = Seq<char>;

    open spec fn view(&self) -> Seq<char> {
        self.id@
    }
}

/// The node's identifier after it handles `m`: an `Init` payload assigns the
/// identifier it carries, every other payload leaves it unchanged.
pub open spec fn step_id(id: Seq<char>, m: MessageView) -> Seq<char> {
    match m.body.payload {
        PayloadView::Init { node_id, node_ids } => node_id,
        _ => id,
    }
}

/// The reply a node with identifier `id` produces for `m`: requests are
/// answered, acknowledgments are terminal. A reply goes back to the sender,
/// comes from the node's identifier as it stands after the message, carries
/// no `msg_id` of its own, and its `in_reply_to` is the request's `msg_id`.
pub open spec fn reply_to(id: Seq<char>, m: MessageView) -> Option<MessageView> {
    match m.body.payload {
        PayloadView::Echo { echo } => Some(
            MessageView {
                src: id,
                dest: m.src,
                body: BodyView {
                    msg_id: None,
                    in_reply_to: m.body.msg_id,
                    payload: PayloadView::EchoOk { echo },
                },
            },
        ),
        PayloadView::Init { node_id, node_ids } => Some(
            MessageView {
                src: node_id,
                dest: m.src,
                body: BodyView {
                    msg_id: None,
                    in_reply_to: m.body.msg_id,
                    payload: PayloadView::InitOk,
                },
            },
        ),
        _ => None,
    }
}

/// The view of an optional reply, so that `handle` can be stated exactly.
pub open spec fn reply_view(r: Option<Message>) -> Option<MessageView> {
    match r {
        Some(m) => Some(m@),
        None => None,
    }
}

impl EchoNode {
    /// A fresh node: its identifier is empty until an `Init` assigns one.
    pub fn new() -> (node: EchoNode)
        ensures
            node@ == Seq::<char>::empty(),
    {
        EchoNode { id: String::new() }
    }

    /// Dispatch one inbound message: update the identifier as `step_id` says
    /// and return exactly the reply that `reply_to` says.
    pub fn handle(&mut self, msg: Message) -> (reply: Option<Message>)
        ensures
            final(self)@ == step_id(old(self)@, msg@),
            reply_view(reply) == reply_to(old(self)@, msg@),
    {
        match msg.body.payload {
            Payload::Echo { echo } => {
                let reply = Message {
                    src: self.id.clone(),
                    dest: msg.src,
                    body: Body {
                        msg_id: None,
                        in_reply_to: msg.body.msg_id,
                        payload: Payload::EchoOk { echo },
                    },
                };
                Some(reply)
            },
            Payload::Init { node_id, node_ids: _ } => {
                self.id = node_id;
                let reply = Message {
                    src: self.id.clone(),
                    dest: msg.src,
                    body: Body {
                        msg_id: None,
                        in_reply_to: msg.body.msg_id,
                        payload: Payload::InitOk,
                    },
                };
                Some(reply)
            },
            Payload::EchoOk { echo: _ } => None,
            Payload::InitOk => None,
        }
    }
}

/// The node's identifier after it handles every message of `msgs` in order.
pub open spec fn run_id(id: Seq<char>, msgs: Seq<MessageView>) -> Seq<char>
    decreases msgs.len(),
{
    if msgs.len() == 0 {
        id
    } else {
        run_id(step_id(id, msgs[0]), msgs.drop_first())
    }
}

/// Law: an echo request is answered, and the reply echoes exactly the
/// request's text.
pub proof fn lemma_echo_round_trip(id: Seq<char>, m: MessageView, text: Seq<char>)
    requires
        m.body.payload == (PayloadView::Echo { echo: text }),
    ensures
        reply_to(id, m) is Some,
        reply_to(id, m).unwrap().body.payload == (PayloadView::EchoOk { echo: text }),
{
}

/// Law: whenever a request with a `msg_id` is answered, the reply's
/// `in_reply_to` is that `msg_id`, and the reply carries no `msg_id` of its
/// own.
pub proof fn lemma_reply_correlation(id: Seq<char>, m: MessageView, n: i32)
    requires
        m.body.msg_id == Some(n),
        reply_to(id, m) is Some,
    ensures
        reply_to(id, m).unwrap().body.in_reply_to == Some(n),
        reply_to(id, m).unwrap().body.msg_id is None,
{
}

/// Law: addressing is swapped symmetrically. A reply goes back to the
/// request's source, and comes from the node's identifier as it stands once
/// the message is handled.
pub proof fn lemma_addressing_swap(id: Seq<char>, m: MessageView)
    requires
        reply_to(id, m) is Some,
    ensures
        reply_to(id, m).unwrap().dest == m.src,
        reply_to(id, m).unwrap().src == step_id(id, m),
{
}

/// Law: an `Init` payload assigns exactly the identifier it carries,
/// whatever the node's identifier was before.
pub proof fn lemma_init_assigns_id(
    id: Seq<char>,
    m: MessageView,
    node_id: Seq<char>,
    node_ids: Seq<Seq<char>>,
)
    requires
        m.body.payload == (PayloadView::Init { node_id, node_ids }),
    ensures
        step_id(id, m) == node_id,
{
}

/// Law: the identifier survives any run of messages that contains no
/// `Init`; in particular it stays as the one `Init` of a run set it,
/// whatever echo traffic follows.
pub proof fn lemma_id_stable(id: Seq<char>, msgs: Seq<MessageView>)
    requires
        forall|i: int| 0 <= i < msgs.len() ==> !(msgs[i].body.payload is Init),
    ensures
        run_id(id, msgs) == id,
    decreases msgs.len(),
{
    if msgs.len() > 0 {
        lemma_id_stable(id, msgs.drop_first());
    }
}

/// Law: acknowledgments are terminal. An `EchoOk` or `InitOk` payload
/// produces no outbound message and leaves the identifier unchanged.
pub proof fn lemma_ack_is_terminal(id: Seq<char>, m: MessageView)
    requires
        m.body.payload is EchoOk || m.body.payload is InitOk,
    ensures
        reply_to(id, m) is None,
        step_id(id, m) == id,
{
}

} // verus!
