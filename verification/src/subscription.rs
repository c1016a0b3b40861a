//! Subscriptions held by the user of the client.

use crate::client_op::{ClientOp, ClientOpView};
use crate::error::Error;
use crate::message::Message;
use crate::writer::{optional_op, Writer};
use futures::channel::mpsc;
use vstd::prelude::*;

verus! {

/// A subscription to a subject.
pub struct Subscription {
    /// The number of the subscription.
    pub sid: u64,
    /// Where the messages arrive that the server sends for it.
    pub messages: mpsc::UnboundedReceiver<Message>,
}

/// How waiting for a message ended.
pub enum Waited {
    /// The channel gave a message, or reported that none will follow.
    Received(Option<Message>),
    /// The time was up.
    Elapsed,
}

/// What asking for the next message gives, from what the channel had to say.
pub open spec fn next_result(received: Option<Message>) -> Result<Message, Error> {
    match received {
        Some(message) => Ok(message),
        None => Err(Error::ConnectionReset),
    }
}

/// A message that the channel gives is handed on as it is. There is no next message
/// exactly where the channel has none, and the error is then that of a lost connection.
pub proof fn law_next(received: Option<Message>)
    ensures
        next_result(received) is Ok <==> received is Some,
        received is Some ==> next_result(received)->Ok_0 == received->0,
        received is None ==> next_result(received)->Err_0 == Error::ConnectionReset,
{
}

impl Subscription {
    /// Creates a subscription.
    pub fn new(sid: u64, messages: mpsc::UnboundedReceiver<Message>) -> (subscription: Subscription)
        ensures
            subscription.sid == sid,
            subscription.messages == messages,
    {
        Subscription { sid, messages }
    }

    /// Returns the next message, given what the channel had to say when asked for
    /// it. The channel has no more messages if the connection is closed.
    pub fn next(&self, received: Option<Message>) -> (message: Result<Message, Error>)
        ensures
            message == next_result(received),
            message == match received {
                Some(message) => Ok::<Message, Error>(message),
                None => Err::<Message, Error>(Error::ConnectionReset),
            },
    {
        match received {
            Some(message) => Ok(message),
            None => Err(Error::ConnectionReset),
        }
    }

    /// Returns the next message, or a timeout error if no messages were available
    /// in time, given how waiting for it ended.
    pub fn next_timeout(&self, waited: Waited) -> (message: Result<Option<Message>, Error>)
        ensures
            message == match waited {
                Waited::Received(Some(message)) => Ok::<Option<Message>, Error>(Some(message)),
                Waited::Received(None) => Err::<Option<Message>, Error>(Error::ConnectionReset),
                Waited::Elapsed => Err::<Option<Message>, Error>(Error::TimedOut),
            },
    {
        match waited {
            Waited::Received(Some(message)) => Ok(Some(message)),
            Waited::Received(None) => Err(Error::ConnectionReset),
            Waited::Elapsed => Err(Error::TimedOut),
        }
    }

    /// Ends the subscription when it is no longer held: returns the operation to be
    /// sent straight to the stream of the writer, if there is a connection.
    pub fn close(&self, writer: &Writer) -> (op: Option<ClientOp<'static>>)
        ensures
            optional_op(op) == writer@.send(ClientOpView::Unsub { sid: self.sid, max_msgs: None }),
            writer@.connected ==> op == Some(ClientOp::Unsub { sid: self.sid, max_msgs: None }),
            !writer@.connected ==> op is None,
    {
        writer.unsubscribe(self.sid)
    }
}

} // verus!
