//! A single node of a line-oriented message-passing protocol.
//!
//! The node reads envelopes (source, destination, body), answers echo
//! requests and a one-time initialization message, and frames every reply
//! as one JSON line. The dispatch logic and the wire encoding are verified;
//! reading and writing the actual byte streams is left to the surrounding
//! program.

pub mod node;
pub mod protocol;
pub mod wire;
