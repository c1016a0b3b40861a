//! Channels between the connection and those who wait for it.
//!
//! The channels are those of the `futures` crate. What stands here is all that
//! is taken on trust of them.

use crate::message::Message;
use futures::channel::{mpsc, oneshot};
use vstd::prelude::*;

verus! {

/// The sending end of an unbounded channel.
#[verifier::external_type_specification]
#[verifier::external_body]
#[verifier::reject_recursive_types(T)]
pub struct ExUnboundedSender<T>(futures::channel::mpsc::UnboundedSender<T>);

/// The receiving end of an unbounded channel.
#[verifier::external_type_specification]
#[verifier::external_body]
#[verifier::reject_recursive_types(T)]
pub struct ExUnboundedReceiver<T>(futures::channel::mpsc::UnboundedReceiver<T>);

/// The sending end of a channel for a single value.
#[verifier::external_type_specification]
#[verifier::external_body]
#[verifier::reject_recursive_types(T)]
pub struct ExOneshotSender<T>(futures::channel::oneshot::Sender<T>);

/// The receiving end of a channel for a single value.
#[verifier::external_type_specification]
#[verifier::external_body]
#[verifier::reject_recursive_types(T)]
pub struct ExOneshotReceiver<T>(futures::channel::oneshot::Receiver<T>);

/// What a receiving end reports if no value will come.
#[verifier::external_type_specification]
#[verifier::external_body]
pub struct ExCanceled(futures::channel::oneshot::Canceled);

/// Whether what is sent into `to` comes out of `from`: the answer that
/// `UnboundedSender::is_connected_to` gives of a channel's two ends.
pub uninterp spec fn leads_to(
    to: mpsc::UnboundedSender<Message>,
    from: mpsc::UnboundedReceiver<Message>,
) -> bool;

/// Whether completing `to` is noticed at `from`: the answer that
/// `oneshot::Sender::is_connected_to` gives of a channel's two ends.
pub uninterp spec fn notifies(to: oneshot::Sender<()>, from: oneshot::Receiver<()>) -> bool;

/// The sending end of a channel for messages, with a record of all that was handed
/// to it.
pub struct Mailbox {
    to: mpsc::UnboundedSender<Message>,
    sent: Ghost<Seq<Message>>,
}

impl Mailbox {
    /// The sending end of the channel.
    pub closed spec fn to(&self) -> mpsc::UnboundedSender<Message> {
        self.to
    }

    /// What was handed to the channel, in that order.
    pub closed spec fn sent(&self) -> Seq<Message> {
        self.sent@
    }

    /// Opens a channel for messages with `mpsc::unbounded`.
    ///
    /// Trusted: the two ends that come back share one channel, so that what is sent
    /// into the first comes out of the second. Nothing was sent yet.
    #[verifier::external_body]
    pub(crate) fn unbounded() -> (ends: (Mailbox, mpsc::UnboundedReceiver<Message>))
        ensures
            leads_to(ends.0.to(), ends.1),
            ends.0.sent() == Seq::<Message>::empty(),
    {
        let (to, from) = mpsc::unbounded();
        (Mailbox { to, sent: Ghost(Seq::empty()) }, from)
    }

    /// Hands a message to the channel with `UnboundedSender::unbounded_send`, and
    /// returns whether the channel took it.
    ///
    /// Trusted: the message is handed to this channel, once and behind all that was
    /// handed to it before. Whether the channel takes it depends on the receiving
    /// end, so nothing is claimed of the answer. The call panics on a channel in
    /// which half of `usize::MAX` messages wait, which is more than fit into memory.
    #[verifier::external_body]
    pub(crate) fn send(&mut self, message: Message) -> (accepted: bool)
        ensures
            final(self).to() == old(self).to(),
            final(self).sent() == old(self).sent().push(message),
    {
        self.sent = Ghost(self.sent@.push(message));
        self.to.unbounded_send(message).is_ok()
    }
}

/// Opens a channel for one notification with `oneshot::channel`.
///
/// Trusted: the two ends that come back share one channel, so that completing the
/// first is noticed at the second.
#[verifier::external_body]
fn oneshot_channel() -> (ends: (oneshot::Sender<()>, oneshot::Receiver<()>))
    ensures
        notifies(ends.0, ends.1),
{
    oneshot::channel()
}

/// Someone who waits to be notified.
pub struct Waiter {
    to: oneshot::Sender<()>,
    bell: Ghost<int>,
}

impl Waiter {
    /// The channel that the waiter is notified through.
    pub closed spec fn to(&self) -> oneshot::Sender<()> {
        self.to
    }

    /// The notifier that alone can notify the waiter.
    pub closed spec fn bell(&self) -> int {
        self.bell@
    }
}

/// Notifies its waiters, with a record of whom it notified.
pub struct Notifier {
    bell: Ghost<int>,
    notified: Ghost<Seq<oneshot::Sender<()>>>,
}

impl Notifier {
    /// What ties waiters to this notifier.
    pub closed spec fn bell(&self) -> int {
        self.bell@
    }

    /// Who was notified, in that order.
    pub closed spec fn notified(&self) -> Seq<oneshot::Sender<()>> {
        self.notified@
    }

    /// Creates a notifier that has notified nobody.
    pub(crate) fn new() -> (notifier: Notifier)
        ensures
            notifier.notified() == Seq::<oneshot::Sender<()>>::empty(),
    {
        Notifier { bell: Ghost(arbitrary()), notified: Ghost(Seq::empty()) }
    }

    /// Adds a waiter: returns it, and where it will notice its notification.
    pub(crate) fn waiter(&self) -> (ends: (Waiter, oneshot::Receiver<()>))
        ensures
            ends.0.bell() == self.bell(),
            notifies(ends.0.to(), ends.1),
    {
        let (to, from) = oneshot_channel();
        (Waiter { to, bell: Ghost(self.bell@) }, from)
    }

    /// Notifies a waiter with `oneshot::Sender::send`, and returns whether it was
    /// still waiting.
    ///
    /// Trusted: the waiter's channel is completed, and no other. Whether someone was
    /// still waiting depends on the receiving end, so nothing is claimed of the
    /// answer.
    #[verifier::external_body]
    pub(crate) fn notify(&mut self, waiter: Waiter) -> (accepted: bool)
        requires
            waiter.bell() == old(self).bell(),
        ensures
            final(self).bell() == old(self).bell(),
            final(self).notified() == old(self).notified().push(waiter.to()),
    {
        self.notified = Ghost(self.notified@.push(waiter.to));
        waiter.to.send(()).is_ok()
    }
}

} // verus!
