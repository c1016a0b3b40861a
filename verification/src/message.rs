//! Messages received from the server.

use crate::client_op::{ClientOp, ClientOpView};
use crate::error::Error;
use vstd::prelude::*;

verus! {

/// A message that has been published to a subject.
pub struct Message {
    /// The subject that this message has been published to.
    pub subject: String,
    /// The optional reply subject that may be used for sending responses when
    /// using the request/reply pattern.
    pub reply: Option<String>,
    /// The message contents.
    pub data: Vec<u8>,
    /// Whether the message is held together with a writer to respond through.
    pub has_writer: bool,
}

/// A message with its text and bytes spelled out.
#[verifier::ext_equal]
pub struct MessageView {
    pub subject: Seq<char>,
    pub reply: Option<Seq<char>>,
    pub data: Seq<u8>,
    pub has_writer: bool,
}

impl View for Message {
    type V = MessageView;

    open spec fn view(&self) -> MessageView {
        MessageView {
            subject: self.subject@,
            reply: match self.reply {
                Some(reply) => Some(reply@),
                None => None,
            },
            data: self.data@,
            has_writer: self.has_writer,
        }
    }
}

impl Message {
    /// Responds to a request message: returns the operation that is to be
    /// published through the writer of the message, which goes to the reply subject.
    /// There is nowhere to respond to without a reply subject, and no way to do so
    /// without a writer.
    pub fn respond<'a>(&'a self, msg: &'a [u8]) -> (op: Result<ClientOp<'a>, Error>)
        ensures
            match op {
                Ok(op) => self.has_writer && self@.reply is Some && op@ == (ClientOpView::Pub {
                    subject: self@.reply->0,
                    reply_to: None,
                    payload: msg@,
                }),
                Err(error) => (!self.has_writer || self@.reply is None) && error
                    == Error::NoReplySubject,
            },
            op is Ok <==> self.has_writer && self.reply is Some,
            op matches Ok(op) ==> {
                &&& op matches ClientOp::Pub { subject, reply_to, payload }
                &&& subject@ == self.reply->0@
                &&& reply_to is None
                &&& payload@ == msg@
            },
            op matches Err(error) ==> error is NoReplySubject,
    {
        if !self.has_writer {
            return Err(Error::NoReplySubject);
        }
        match &self.reply {
            Some(reply) => Ok(
                ClientOp::Pub { subject: reply.as_str(), reply_to: None, payload: msg },
            ),
            None => Err(Error::NoReplySubject),
        }
    }
}

} // verus!
