//! The message envelope: source, destination and a body whose payload is a
//! tagged union. Each type has a ghost view over sequences of characters,
//! which the contracts speak about.

use vstd::prelude::*;

verus! {

/// The semantic content of a message body. Exactly one variant is active.
pub enum Payload {
    /// A request to echo `echo` back to the sender.
    Echo { echo: String },
    /// The response carrying the echoed text.
    EchoOk { echo: String },
    /// One-time setup: assigns this node's identifier and names all peers.
    Init { node_id: String, node_ids: Vec<String> },
    /// Acknowledgment that initialization succeeded.
    InitOk,
}

/// Correlation ids and the payload of one message.
pub struct Body {
    /// The sender's id for this message, used for correlation; may be absent.
    pub msg_id: Option<i32>,
    /// Echoes the `msg_id` of the message being answered; may be absent.
    pub in_reply_to: Option<i32>,
    pub payload: Payload,
}

/// The envelope: who sent it, whom it is for, and what it says.
pub struct Message {
    pub src: String,
    pub dest: String,
    pub body: Body,
}

/// Ghost mirror of `Payload` over sequences of characters.
pub enum PayloadView {
    Echo { echo: Seq<char> },
    EchoOk { echo: Seq<char> },
    Init { node_id: Seq<char>, node_ids: Seq<Seq<char>> },
    InitOk,
}

/// Ghost mirror of `Body`.
pub struct BodyView {
    pub msg_id: Option<i32>,
    pub in_reply_to: Option<i32>,
    pub payload: PayloadView,
}

/// Ghost mirror of `Message`.
pub struct MessageView {
    pub src: Seq<char>,
    pub dest: Seq<char>,
    pub body: BodyView,
}

impl View for Payload {
    type V = PayloadView;

    open spec fn view(&self) -> PayloadView {
        match self {
            Payload::Echo { echo } => PayloadView::Echo { echo: echo@ },
            Payload::EchoOk { echo } => PayloadView::EchoOk { echo: echo@ },
            Payload::Init { node_id, node_ids } => PayloadView::Init {
                node_id: node_id@,
                node_ids: node_ids.deep_view(),
            },
            Payload::InitOk => PayloadView::InitOk,
        }
    }
}

impl View for Body {
    type V = BodyView;

    open spec fn view(&self) -> BodyView {
        BodyView { msg_id: self.msg_id, in_reply_to: self.in_reply_to, payload: self.payload@ }
    }
}

impl View for Message {
    type V = MessageView;

    open spec fn view(&self) -> MessageView {
        MessageView { src: self.src@, dest: self.dest@, body: self.body@ }
    }
}

} // verus!
