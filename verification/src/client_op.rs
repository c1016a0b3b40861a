//! Operations that the client sends.

use vstd::prelude::*;

verus! {

/// An operation sent by the client.
#[derive(Clone, Copy, Debug)]
pub enum ClientOp<'a> {
    /// Publishes a payload to a subject.
    Pub { subject: &'a str, reply_to: Option<&'a str>, payload: &'a [u8] },
    /// Subscribes to a subject.
    Sub { subject: &'a str, queue_group: Option<&'a str>, sid: u64 },
    /// Ends a subscription, at once or after a number of messages.
    Unsub { sid: u64, max_msgs: Option<u64> },
    /// Asks the server for a sign of life.
    Ping,
}

/// An operation with its text and bytes spelled out.
#[verifier::ext_equal]
pub enum ClientOpView {
    Pub { subject: Seq<char>, reply_to: Option<Seq<char>>, payload: Seq<u8> },
    Sub { subject: Seq<char>, queue_group: Option<Seq<char>>, sid: u64 },
    Unsub { sid: u64, max_msgs: Option<u64> },
    Ping,
}

/// The text of an optional string slice.
pub open spec fn optional_text(text: Option<&str>) -> Option<Seq<char>> {
    match text {
        Some(text) => Some(text@),
        None => None,
    }
}

impl<'a> View for ClientOp<'a> {
    type V = ClientOpView;

    open spec fn view(&self) -> ClientOpView {
        match *self {
            ClientOp::Pub { subject, reply_to, payload } => ClientOpView::Pub {
                subject: subject@,
                reply_to: optional_text(reply_to),
                payload: payload@,
            },
            ClientOp::Sub { subject, queue_group, sid } => ClientOpView::Sub {
                subject: subject@,
                queue_group: optional_text(queue_group),
                sid,
            },
            ClientOp::Unsub { sid, max_msgs } => ClientOpView::Unsub { sid, max_msgs },
            ClientOp::Ping => ClientOpView::Ping,
        }
    }
}

} // verus!
