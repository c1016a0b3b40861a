//! The writing side of a connection.
//!
//! A writer knows whether there is a connection, keeps what is written while
//! there is none, and remembers the subscriptions and the pings of the client.
//! The stream itself belongs to the program around it, which tells the writer
//! how each attempt on the stream ended.

use crate::channel::{leads_to, notifies, Mailbox, Notifier, Waiter};
use crate::client_op::{optional_text, ClientOp, ClientOpView};
use crate::error::Error;
use crate::message::Message;
use futures::channel::{mpsc, oneshot};
use std::collections::VecDeque;
use vstd::prelude::*;
use vstd::slice::slice_subrange;

verus! {

/// The state of an attempt that may have to be made again.
#[derive(Debug)]
pub enum Poll<T> {
    Ready(T),
    Pending,
}

/// A subscription, with the channel that its messages go to.
struct Entry {
    subject: String,
    sid: u64,
    messages: Mailbox,
}

/// The writing side of a connection.
pub struct Writer {
    connected: bool,
    bytes: Vec<u8>,
    written: usize,
    committed: usize,
    next_sid: u64,
    subscriptions: Vec<Entry>,
    pongs: VecDeque<Waiter>,
    notifier: Notifier,
}

// ---------------------------------------------------------------------------
// Model
// ---------------------------------------------------------------------------

/// A subscription, with the channel that its messages go to.
#[verifier::ext_equal]
pub struct EntryView {
    pub subject: Seq<char>,
    pub sid: u64,
    pub messages: mpsc::UnboundedSender<Message>,
    /// What was handed to that channel, in that order.
    pub sent: Seq<Message>,
}

/// What a writer holds.
#[verifier::ext_equal]
pub struct WriterView {
    /// Whether there is a connection.
    pub connected: bool,
    /// The memory of the buffer that stands in for a connection.
    pub bytes: Seq<u8>,
    /// How much of the buffer has been written.
    pub written: nat,
    /// How much of the buffer a new connection is to receive.
    pub committed: nat,
    /// The number of the next subscription.
    pub next_sid: u64,
    /// The subscriptions, oldest first.
    pub subscriptions: Seq<EntryView>,
    /// Those who wait for a pong, longest waiting first.
    pub pongs: Seq<Waiter>,
    /// What ties those who wait to the writer.
    pub bell: int,
    /// Those who were notified of a pong, in that order.
    pub notified: Seq<oneshot::Sender<()>>,
}

impl WriterView {
    /// The invariant of a writer: the committed part of the buffer lies within the
    /// written part, subscriptions are numbered in the order they were made, and only
    /// the writer can notify those who wait for its pongs.
    pub open spec fn inv(self) -> bool {
        &&& self.committed <= self.written <= self.bytes.len() <= usize::MAX
        &&& self.subscriptions.len() <= usize::MAX
        &&& 1 <= self.next_sid
        &&& forall|i: int|
            0 <= i < self.subscriptions.len() ==> 1 <= (#[trigger] self.subscriptions[i]).sid
                < self.next_sid
        &&& forall|i: int, j: int|
            0 <= i < j < self.subscriptions.len() ==> (#[trigger] self.subscriptions[i]).sid < (
            #[trigger] self.subscriptions[j]).sid
        &&& forall|i: int|
            0 <= i < self.pongs.len() ==> (#[trigger] self.pongs[i]).bell() == self.bell
    }

    /// What was written while there was no connection.
    pub open spec fn buffered(self) -> Seq<u8> {
        self.bytes.take(self.written as int)
    }

    /// What a new connection is to receive of that.
    pub open spec fn pending(self) -> Seq<u8> {
        self.bytes.take(self.committed as int)
    }

    /// The writer after its connection failed: there is no connection, and nobody
    /// waits for a pong any longer.
    pub open spec fn failed(self) -> WriterView {
        WriterView { connected: false, pongs: Seq::empty(), ..self }
    }

    /// Whether `len` more bytes fit into the buffer.
    pub open spec fn fits(self, len: nat) -> bool {
        self.written + len <= self.bytes.len()
    }

    /// The writer after bytes were put into the buffer.
    pub open spec fn buffer(self, buf: Seq<u8>) -> WriterView {
        WriterView {
            bytes: self.buffered() + buf + self.bytes.skip((self.written + buf.len()) as int),
            written: self.written + buf.len(),
            ..self
        }
    }

    /// The writer after all of the buffer was released for a new connection.
    pub open spec fn commit(self) -> WriterView {
        WriterView { committed: self.written, ..self }
    }

    /// The position of the oldest subscription with a number.
    pub open spec fn find(self, sid: u64) -> Option<int> {
        find_sid(self.subscriptions, sid)
    }

    /// The channel that messages for a subscription go to.
    pub open spec fn route(self, sid: u64) -> Option<mpsc::UnboundedSender<Message>> {
        match self.find(sid) {
            Some(i) => Some(self.subscriptions[i].messages),
            None => None,
        }
    }

    /// The writer after a message for a number arrived: it was handed to the
    /// subscription with that number, and to nobody if there is none.
    pub open spec fn message(self, sid: u64, message: Message) -> WriterView {
        match self.find(sid) {
            Some(i) => WriterView {
                subscriptions: self.subscriptions.update(i, self.subscriptions[i].receive(message)),
                ..self
            },
            None => self,
        }
    }
}

impl EntryView {
    /// The subscription after a message was handed to its channel.
    pub open spec fn receive(self, message: Message) -> EntryView {
        EntryView { sent: self.sent.push(message), ..self }
    }
}

/// The position of the oldest subscription with a number.
pub open spec fn find_sid(subscriptions: Seq<EntryView>, sid: u64) -> Option<int> {
    if exists|i: int| 0 <= i < subscriptions.len() && (#[trigger] subscriptions[i]).sid == sid {
        Some(
            choose|i: int|
                0 <= i < subscriptions.len() && (#[trigger] subscriptions[i]).sid == sid
                    && forall|k: int| 0 <= k < i ==> (#[trigger] subscriptions[k]).sid != sid,
        )
    } else {
        None
    }
}

impl View for Entry {
    type V = EntryView;

    closed spec fn view(&self) -> EntryView {
        EntryView {
            subject: self.subject@,
            sid: self.sid,
            messages: self.messages.to(),
            sent: self.messages.sent(),
        }
    }
}

impl View for Writer {
    type V = WriterView;

    closed spec fn view(&self) -> WriterView {
        WriterView {
            connected: self.connected,
            bytes: self.bytes@,
            written: self.written as nat,
            committed: self.committed as nat,
            next_sid: self.next_sid,
            subscriptions: self.subscriptions@.map_values(|entry: Entry| entry@),
            pongs: self.pongs@,
            bell: self.notifier.bell(),
            notified: self.notifier.notified(),
        }
    }
}

// ---------------------------------------------------------------------------
// Writing
// ---------------------------------------------------------------------------

impl Writer {
    /// Creates a writer without a connection that can buffer `buf_size` bytes.
    pub fn new(buf_size: usize) -> (writer: Writer)
        requires
            buf_size <= isize::MAX,
        ensures
            writer@ == (WriterView {
                connected: false,
                bytes: Seq::new(buf_size as nat, |i: int| 0u8),
                written: 0,
                committed: 0,
                next_sid: 1,
                subscriptions: Seq::empty(),
                pongs: Seq::empty(),
                bell: writer@.bell,
                notified: Seq::empty(),
            }),
            writer@.inv(),
    {
        let writer = Writer {
            connected: false,
            bytes: vec![0u8; buf_size],
            written: 0,
            committed: 0,
            next_sid: 1,
            subscriptions: Vec::new(),
            pongs: VecDeque::new(),
            notifier: Notifier::new(),
        };
        assert(writer@.bytes == Seq::new(buf_size as nat, |i: int| 0u8));
        assert(writer@.subscriptions == Seq::<EntryView>::empty());
        writer
    }

    /// Returns whether there is a connection.
    pub fn is_connected(&self) -> (connected: bool)
        ensures
            connected == self@.connected,
    {
        self.connected
    }

    /// Returns whether someone waits for a pong.
    pub fn expects_pong(&self) -> (expects: bool)
        ensures
            expects == (self@.pongs.len() > 0),
    {
        self.pongs.len() > 0
    }

    /// Returns whether there is a number left for another subscription.
    pub fn can_subscribe(&self) -> (can: bool)
        ensures
            can == (self@.next_sid < u64::MAX),
    {
        self.next_sid < u64::MAX
    }

    /// Drops the connection, and with it all hope of the pongs it owes.
    fn fail(&mut self)
        ensures
            final(self)@ == old(self)@.failed(),
    {
        self.connected = false;
        self.pongs.clear();
    }

    /// Writes bytes: to the stream if there is a connection, and into the buffer
    /// if there is none. With a connection, `stream` is what the stream made of
    /// the bytes. An error drops the connection.
    pub fn poll_write(
        &mut self,
        buf: &[u8],
        stream: Option<Poll<Result<usize, Error>>>,
    ) -> (polled: Poll<Result<usize, Error>>)
        requires
            old(self)@.inv(),
            stream is Some == old(self)@.connected,
        ensures
            final(self)@.inv(),
            match stream {
                Some(Poll::Pending) => polled is Pending && final(self)@ == old(self)@,
                Some(Poll::Ready(Ok(n))) => polled == Poll::Ready(Ok::<usize, Error>(n))
                    && final(self)@ == old(self)@,
                Some(Poll::Ready(Err(error))) => polled == Poll::Ready(Err::<usize, Error>(error))
                    && final(self)@ == old(self)@.failed(),
                None => if old(self)@.fits(buf@.len()) {
                    polled == Poll::Ready(Ok::<usize, Error>(buf.len())) && final(self)@
                        == old(self)@.buffer(buf@)
                } else {
                    polled == Poll::Ready(Err::<usize, Error>(Error::BufferFull)) && final(self)@
                        == old(self)@.failed()
                },
            },
            polled matches Poll::Ready(Err(_)) ==> final(self)@ == (WriterView {
                connected: false,
                pongs: Seq::empty(),
                ..old(self)@
            }),
            stream is None ==> (polled matches Poll::Ready(Ok(_)) <==> buf.len()
                <= old(self)@.bytes.len() - old(self)@.written),
            stream is None && buf.len() <= old(self)@.bytes.len() - old(self)@.written ==> {
                let from = old(self)@.written as int;
                let to = from + buf.len();
                &&& polled == Poll::Ready(Ok::<usize, Error>(buf.len()))
                &&& final(self)@ == (WriterView {
                    bytes: final(self)@.bytes,
                    written: old(self)@.written + buf@.len(),
                    ..old(self)@
                })
                &&& final(self)@.bytes.len() == old(self)@.bytes.len()
                &&& final(self)@.bytes.take(from) == old(self)@.bytes.take(from)
                &&& final(self)@.bytes.subrange(from, to) == buf@
                &&& final(self)@.bytes.skip(to) == old(self)@.bytes.skip(to)
            },
    {
        match stream {
            Some(Poll::Pending) => Poll::Pending,
            Some(Poll::Ready(Ok(n))) => Poll::Ready(Ok(n)),
            Some(Poll::Ready(Err(error))) => {
                self.fail();
                Poll::Ready(Err(error))
            },
            None => {
                if self.bytes.len() - self.written < buf.len() {
                    self.fail();
                    return Poll::Ready(Err(Error::BufferFull));
                }
                let ghost before = self@;
                let mut i: usize = 0;
                while i < buf.len()
                    invariant
                        i <= buf.len(),
                        before.inv(),
                        before.fits(buf@.len()),
                        self@.bytes.len() == before.bytes.len(),
                        self@ == (WriterView { bytes: self@.bytes, ..before }),
                        forall|k: int|
                            0 <= k < before.bytes.len() ==> #[trigger] self@.bytes[k] == (
                            if before.written <= k < before.written + i {
                                buf@[k - before.written]
                            } else {
                                before.bytes[k]
                            }),
                    decreases buf.len() - i,
                {
                    assert(self.bytes.len() == before.bytes.len());
                    let at: usize = self.written + i;
                    self.bytes.set(at, buf[i]);
                    i += 1;
                }
                self.written = self.written + buf.len();
                assert(self@.bytes == before.buffer(buf@).bytes);
                Poll::Ready(Ok(buf.len()))
            },
        }
    }

    /// Flushes the stream if there is a connection; `stream` is then what the
    /// stream made of that. An error drops the connection.
    pub fn poll_flush(&mut self, stream: Option<Poll<Result<(), Error>>>) -> (polled: Poll<
        Result<(), Error>,
    >)
        requires
            old(self)@.inv(),
            stream is Some == old(self)@.connected,
        ensures
            final(self)@.inv(),
            match stream {
                Some(Poll::Pending) => polled is Pending && final(self)@ == old(self)@,
                Some(Poll::Ready(Err(error))) => polled == Poll::Ready(Err::<(), Error>(error))
                    && final(self)@ == old(self)@.failed(),
                _ => polled == Poll::Ready(Ok::<(), Error>(())) && final(self)@ == old(self)@,
            },
            polled matches Poll::Ready(Err(_)) ==> final(self)@ == (WriterView {
                connected: false,
                pongs: Seq::empty(),
                ..old(self)@
            }),
    {
        match stream {
            Some(Poll::Pending) => Poll::Pending,
            Some(Poll::Ready(Err(error))) => {
                self.fail();
                Poll::Ready(Err(error))
            },
            _ => Poll::Ready(Ok(())),
        }
    }

    /// Closes the writer, which is to flush it.
    pub fn poll_close(&mut self, stream: Option<Poll<Result<(), Error>>>) -> (polled: Poll<
        Result<(), Error>,
    >)
        requires
            old(self)@.inv(),
            stream is Some == old(self)@.connected,
        ensures
            final(self)@.inv(),
            match stream {
                Some(Poll::Pending) => polled is Pending && final(self)@ == old(self)@,
                Some(Poll::Ready(Err(error))) => polled == Poll::Ready(Err::<(), Error>(error))
                    && final(self)@ == old(self)@.failed(),
                _ => polled == Poll::Ready(Ok::<(), Error>(())) && final(self)@ == old(self)@,
            },
            polled matches Poll::Ready(Err(_)) ==> final(self)@ == (WriterView {
                connected: false,
                pongs: Seq::empty(),
                ..old(self)@
            }),
    {
        self.poll_flush(stream)
    }

    /// Releases all of the buffer for a new connection.
    pub fn commit(&mut self)
        requires
            old(self)@.inv(),
        ensures
            final(self)@ == old(self)@.commit(),
            final(self)@ == (WriterView { committed: old(self)@.written, ..old(self)@ }),
            final(self)@.inv(),
    {
        self.committed = self.written;
        assert(self@ == old(self)@.commit());
    }
}

// ---------------------------------------------------------------------------
// Operations
// ---------------------------------------------------------------------------

impl WriterView {
    /// The operation that goes straight to the stream: there is one only if there
    /// is a stream.
    pub open spec fn send(self, op: ClientOpView) -> Option<ClientOpView> {
        if self.connected {
            Some(op)
        } else {
            None
        }
    }

    /// The writer after a subscription was added.
    pub open spec fn subscribe(
        self,
        subject: Seq<char>,
        messages: mpsc::UnboundedSender<Message>,
    ) -> WriterView {
        WriterView {
            next_sid: (self.next_sid + 1) as u64,
            subscriptions: self.subscriptions.push(
                EntryView { subject, sid: self.next_sid, messages, sent: Seq::empty() },
            ),
            ..self
        }
    }

    /// The writer after someone began to wait for a pong.
    pub open spec fn expect_pong(self, pong: Waiter) -> WriterView {
        WriterView { pongs: self.pongs.push(pong), ..self }
    }

    /// The writer after a pong arrived: the one who waits longest was notified.
    pub open spec fn pong(self) -> WriterView {
        if self.connected {
            WriterView {
                pongs: self.pongs.drop_first(),
                notified: self.notified.push(self.pongs[0].to()),
                ..self
            }
        } else {
            self
        }
    }
}

/// What an operation that may not be sent says.
pub open spec fn optional_op(op: Option<ClientOp>) -> Option<ClientOpView> {
    match op {
        Some(op) => Some(op@),
        None => None,
    }
}

impl Writer {
    /// Decides whether an operation is sent straight to the stream, past the
    /// buffer: returns it if there is a connection. What becomes of it is of no
    /// further interest.
    pub fn send<'a>(&self, op: ClientOp<'a>) -> (sent: Option<ClientOp<'a>>)
        ensures
            sent == if self@.connected {
                Some(op)
            } else {
                None
            },
    {
        if self.connected {
            Some(op)
        } else {
            None
        }
    }

    /// Sends a PING to the server: returns the operation to be written through
    /// the writer. [`Writer::ping_encoded`] takes over when it has been.
    pub fn ping(&self) -> (op: ClientOp<'static>)
        ensures
            op@ == ClientOpView::Ping,
            op == ClientOp::Ping,
    {
        ClientOp::Ping
    }

    /// Goes on with a ping that has been written, or not. The writer is to be
    /// flushed next, to make sure the PING goes through, and then
    /// [`Writer::ping_flushed`] takes over.
    pub fn ping_encoded(&mut self, encoded: Result<(), Error>) -> (result: Result<(), Error>)
        requires
            old(self)@.inv(),
        ensures
            final(self)@.inv(),
            result == encoded,
            final(self)@ == if encoded is Ok {
                old(self)@.commit()
            } else {
                old(self)@
            },
            encoded is Ok ==> final(self)@ == (WriterView {
                committed: old(self)@.written,
                ..old(self)@
            }),
    {
        if encoded.is_ok() {
            self.commit();
        }
        encoded
    }

    /// Ends a ping whose bytes have been flushed, or not: returns where the pong
    /// will be noticed.
    pub fn ping_flushed(&mut self, flushed: Result<(), Error>) -> (result: Result<
        oneshot::Receiver<()>,
        Error,
    >)
        requires
            old(self)@.inv(),
        ensures
            final(self)@.inv(),
            match flushed {
                Ok(_) => result matches Ok(receiver) && final(self)@.pongs.len()
                    == old(self)@.pongs.len() + 1 && final(self)@ == old(self)@.expect_pong(
                    final(self)@.pongs.last(),
                ) && notifies(final(self)@.pongs.last().to(), receiver),
                Err(error) => result == Err::<oneshot::Receiver<()>, Error>(error) && final(self)@
                    == old(self)@,
            },
            flushed is Ok ==> final(self)@ == (WriterView {
                pongs: old(self)@.pongs.push(final(self)@.pongs.last()),
                ..old(self)@
            }),
    {
        match flushed {
            Ok(_) => {
                let (waiter, receiver) = self.notifier.waiter();
                self.pongs.push_back(waiter);
                assert(self@ == old(self)@.expect_pong(waiter));
                Ok(receiver)
            },
            Err(error) => Err(error),
        }
    }

    /// Subscribes to a subject: returns the number of the subscription, where its
    /// messages will arrive, and the operation to be sent straight to the stream,
    /// if there is a connection.
    pub fn subscribe<'a>(&mut self, subject: &'a str, queue_group: Option<&'a str>) -> (subscribed: (
        u64,
        mpsc::UnboundedReceiver<Message>,
        Option<ClientOp<'a>>,
    ))
        requires
            old(self)@.inv(),
            old(self)@.next_sid < u64::MAX,
        ensures
            final(self)@.inv(),
            subscribed.0 == old(self)@.next_sid,
            final(self)@.subscriptions.len() == old(self)@.subscriptions.len() + 1,
            final(self)@ == old(self)@.subscribe(
                subject@,
                final(self)@.subscriptions.last().messages,
            ),
            leads_to(final(self)@.subscriptions.last().messages, subscribed.1),
            optional_op(subscribed.2) == old(self)@.send(
                ClientOpView::Sub {
                    subject: subject@,
                    queue_group: optional_text(queue_group),
                    sid: old(self)@.next_sid,
                },
            ),
            old(self)@.connected ==> subscribed.2 == Some(
                ClientOp::Sub { subject, queue_group, sid: subscribed.0 },
            ),
            !old(self)@.connected ==> subscribed.2 is None,
            final(self)@.subscriptions == old(self)@.subscriptions.push(
                EntryView {
                    subject: subject@,
                    sid: subscribed.0,
                    messages: final(self)@.subscriptions.last().messages,
                    sent: Seq::empty(),
                },
            ),
            final(self)@.next_sid == old(self)@.next_sid + 1,
            final(self)@ == (WriterView {
                next_sid: final(self)@.next_sid,
                subscriptions: final(self)@.subscriptions,
                ..old(self)@
            }),
    {
        let sid: u64 = self.next_sid;
        self.next_sid = self.next_sid + 1;
        let op = self.send(ClientOp::Sub { subject, queue_group, sid });
        let (messages, receiver) = Mailbox::unbounded();
        let ghost to = messages.to();
        self.subscriptions.push(Entry { subject: subject.to_owned(), sid, messages });
        assert(self@.subscriptions == old(self)@.subscriptions.push(
            EntryView { subject: subject@, sid, messages: to, sent: Seq::empty() },
        ));
        assert(self@ == old(self)@.subscribe(subject@, to));
        assert(self.subscriptions.len() == self@.subscriptions.len());
        (sid, receiver, op)
    }

    /// Ends a subscription: returns the operation to be sent straight to the
    /// stream, if there is a connection.
    pub fn unsubscribe(&self, sid: u64) -> (op: Option<ClientOp<'static>>)
        ensures
            optional_op(op) == self@.send(ClientOpView::Unsub { sid, max_msgs: None }),
            self@.connected ==> op == Some(ClientOp::Unsub { sid, max_msgs: None }),
            !self@.connected ==> op is None,
    {
        self.send(ClientOp::Unsub { sid, max_msgs: None })
    }

    /// Publishes a message: returns the operation to be written through the
    /// writer. [`Writer::publish_encoded`] takes over when it has been.
    pub fn publish<'a>(
        &self,
        subject: &'a str,
        reply_to: Option<&'a str>,
        msg: &'a [u8],
    ) -> (op: ClientOp<'a>)
        ensures
            op@ == (ClientOpView::Pub {
                subject: subject@,
                reply_to: optional_text(reply_to),
                payload: msg@,
            }),
            op == (ClientOp::Pub { subject, reply_to, payload: msg }),
    {
        ClientOp::Pub { subject, reply_to, payload: msg }
    }

    /// Ends the publication of a message that has been written, or not.
    pub fn publish_encoded(&mut self, encoded: Result<(), Error>) -> (result: Result<(), Error>)
        requires
            old(self)@.inv(),
        ensures
            final(self)@.inv(),
            result == encoded,
            final(self)@ == if encoded is Ok {
                old(self)@.commit()
            } else {
                old(self)@
            },
            encoded is Ok ==> final(self)@ == (WriterView {
                committed: old(self)@.written,
                ..old(self)@
            }),
    {
        if encoded.is_ok() {
            self.commit();
        }
        encoded
    }

    /// Processes a PONG received from the server: notifies the one who waits
    /// longest. A pong that is received while disconnected came from a connection
    /// that is not alive anymore, and does not correspond to the next expected one.
    /// Returns whether that one was still waiting, where there was one to notify.
    pub fn pong(&mut self) -> (accepted: Option<bool>)
        requires
            old(self)@.inv(),
            old(self)@.connected ==> old(self)@.pongs.len() > 0,
        ensures
            final(self)@.inv(),
            final(self)@ == old(self)@.pong(),
            accepted is Some == old(self)@.connected,
            old(self)@.connected ==> final(self)@ == (WriterView {
                pongs: old(self)@.pongs.skip(1),
                notified: old(self)@.notified.push(old(self)@.pongs[0].to()),
                ..old(self)@
            }),
            !old(self)@.connected ==> final(self)@ == old(self)@,
    {
        if self.connected {
            match self.pongs.pop_front() {
                Some(pong) => {
                    assert(pong == old(self)@.pongs[0]);
                    let accepted = self.notifier.notify(pong);
                    assert(self@ == old(self)@.pong());
                    Some(accepted)
                },
                None => None,
            }
        } else {
            None
        }
    }

    /// Passes a message received from the server on to its subscription, and to no
    /// other. There is nothing to be done if there is no such subscription. Returns
    /// whether the subscription took the message, where there is one; it does not if
    /// its receiving end is gone.
    pub fn message(
        &mut self,
        subject: String,
        sid: u64,
        reply_to: Option<String>,
        payload: Vec<u8>,
    ) -> (accepted: Option<bool>)
        requires
            old(self)@.inv(),
        ensures
            final(self)@.inv(),
            final(self)@ == old(self)@.message(
                sid,
                Message { subject, reply: reply_to, data: payload, has_writer: false },
            ),
            accepted is Some == old(self)@.find(sid) is Some,
            accepted is Some <==> exists|i: int|
                0 <= i < old(self)@.subscriptions.len() && (
                #[trigger] old(self)@.subscriptions[i]).sid == sid,
            final(self)@ == (WriterView {
                subscriptions: final(self)@.subscriptions,
                ..old(self)@
            }),
            final(self)@.subscriptions.len() == old(self)@.subscriptions.len(),
            forall|i: int|
                0 <= i < old(self)@.subscriptions.len() ==> (
                #[trigger] final(self)@.subscriptions[i]) == (EntryView {
                    sent: if old(self)@.subscriptions[i].sid == sid {
                        old(self)@.subscriptions[i].sent.push(
                            Message { subject, reply: reply_to, data: payload, has_writer: false },
                        )
                    } else {
                        old(self)@.subscriptions[i].sent
                    },
                    ..old(self)@.subscriptions[i]
                }),
    {
        let mut i: usize = 0;
        while i < self.subscriptions.len()
            invariant
                i <= self.subscriptions.len(),
                self@ == old(self)@,
                self@.inv(),
                forall|k: int| 0 <= k < i ==> (#[trigger] self@.subscriptions[k]).sid != sid,
            decreases self.subscriptions.len() - i,
        {
            assert(self@.subscriptions[i as int] == self.subscriptions[i as int]@);
            if self.subscriptions[i].sid == sid {
                assert(self@.find(sid) == Some(i as int));
                let message = Message { subject, reply: reply_to, data: payload, has_writer: false };
                let accepted = self.subscriptions[i].messages.send(message);
                assert(self@.subscriptions == old(self)@.message(sid, message).subscriptions);
                assert(self@ == old(self)@.message(sid, message));
                return Some(accepted);
            }
            i += 1;
        }
        None
    }
}

// ---------------------------------------------------------------------------
// Reconnecting
// ---------------------------------------------------------------------------

/// How far the client has come with a new stream.
#[derive(Clone, Copy, Debug, PartialEq, Eq, Structural)]
pub enum Reconnect {
    /// The subscription at a position is to be made again.
    Subscribing(usize),
    /// This many bytes of the buffer are to be written.
    Replaying(usize),
    /// The stream is to be flushed.
    Flushing,
}

/// What is to be done to a new stream.
#[derive(Debug)]
pub enum ReconnectAction<'a> {
    Send(ClientOp<'a>),
    Write(&'a [u8]),
    Flush,
}

/// What is to be done to a new stream, with text and bytes spelled out.
#[verifier::ext_equal]
pub enum ReconnectActionView {
    Send(ClientOpView),
    Write(Seq<u8>),
    Flush,
}

impl<'a> View for ReconnectAction<'a> {
    type V = ReconnectActionView;

    open spec fn view(&self) -> ReconnectActionView {
        match *self {
            ReconnectAction::Send(op) => ReconnectActionView::Send(op@),
            ReconnectAction::Write(bytes) => ReconnectActionView::Write(bytes@),
            ReconnectAction::Flush => ReconnectActionView::Flush,
        }
    }
}

impl EntryView {
    /// The operation that makes a subscription again.
    pub open spec fn sub_op(self) -> ClientOpView {
        ClientOpView::Sub { subject: self.subject, queue_group: None, sid: self.sid }
    }
}

impl WriterView {
    /// The writer without its connection.
    pub open spec fn disconnected(self) -> WriterView {
        WriterView { connected: false, ..self }
    }

    /// The writer after its buffer was taken out.
    pub open spec fn emptied(self) -> WriterView {
        WriterView { written: 0, committed: 0, ..self }
    }

    /// Goes on with the subscription at a position, or with the buffer when all
    /// subscriptions have been made again.
    pub open spec fn resume(self, i: nat) -> (WriterView, Reconnect) {
        if i < self.subscriptions.len() {
            (self, Reconnect::Subscribing(i as usize))
        } else {
            (self.emptied(), Reconnect::Replaying(self.committed as usize))
        }
    }

    /// Starts over with a new stream.
    pub open spec fn reconnect(self) -> (WriterView, Reconnect) {
        self.disconnected().resume(0)
    }

    /// Whether there is something to be done at a point of reconnecting.
    pub open spec fn reconnecting(self, at: Reconnect) -> bool {
        match at {
            Reconnect::Subscribing(i) => i < self.subscriptions.len(),
            Reconnect::Replaying(len) => len <= self.bytes.len(),
            Reconnect::Flushing => true,
        }
    }

    /// What is to be done to the new stream at a point of reconnecting.
    pub open spec fn reconnect_action(self, at: Reconnect) -> ReconnectActionView {
        match at {
            Reconnect::Subscribing(i) => ReconnectActionView::Send(
                self.subscriptions[i as int].sub_op(),
            ),
            Reconnect::Replaying(len) => ReconnectActionView::Write(self.bytes.take(len as int)),
            Reconnect::Flushing => ReconnectActionView::Flush,
        }
    }

    /// Goes on after what was to be done has been done. Nothing is left to be done
    /// once there is a connection.
    pub open spec fn reconnect_step(self, at: Reconnect) -> (WriterView, Option<Reconnect>) {
        match at {
            Reconnect::Subscribing(i) => (
                self.resume(i as nat + 1).0,
                Some(self.resume(i as nat + 1).1),
            ),
            Reconnect::Replaying(_) => (self, Some(Reconnect::Flushing)),
            Reconnect::Flushing => (WriterView { connected: true, ..self }, None),
        }
    }
}

impl Writer {
    /// Goes on with the subscription at a position, or takes out what is buffered
    /// if there is none.
    fn resume(&mut self, i: usize) -> (at: Reconnect)
        requires
            old(self)@.inv(),
        ensures
            final(self)@.inv(),
            (final(self)@, at) == old(self)@.resume(i as nat),
            final(self)@.reconnecting(at),
    {
        assert(self.subscriptions.len() == self@.subscriptions.len());
        if i < self.subscriptions.len() {
            Reconnect::Subscribing(i)
        } else {
            let len: usize = self.committed;
            self.written = 0;
            self.committed = 0;
            assert(self@ == old(self)@.emptied());
            Reconnect::Replaying(len)
        }
    }

    /// Begins to replace the stream: drops the current one, if there is any. Until
    /// there is a connection again, [`Writer::reconnect_action`] says what is to be
    /// done to the new stream, and [`Writer::reconnect_step`] takes note of how it
    /// went.
    pub fn reconnect(&mut self) -> (at: Reconnect)
        requires
            old(self)@.inv(),
        ensures
            final(self)@.inv(),
            (final(self)@, at) == old(self)@.reconnect(),
            final(self)@.reconnecting(at),
            old(self)@.subscriptions.len() > 0 ==> at == Reconnect::Subscribing(0) && final(self)@
                == (WriterView { connected: false, ..old(self)@ }),
            old(self)@.subscriptions.len() == 0 ==> at == Reconnect::Replaying(
                old(self)@.committed as usize,
            ) && final(self)@ == (WriterView {
                connected: false,
                written: 0,
                committed: 0,
                ..old(self)@
            }),
    {
        self.connected = false;
        assert(self@ == old(self)@.disconnected());
        self.resume(0)
    }

    /// Returns what is to be done to the new stream: subscriptions that existed
    /// before are made again, then what is buffered is written, and then the stream
    /// is flushed.
    pub fn reconnect_action(&self, at: &Reconnect) -> (action: ReconnectAction<'_>)
        requires
            self@.inv(),
            self@.reconnecting(*at),
        ensures
            action@ == self@.reconnect_action(*at),
            match *at {
                Reconnect::Subscribing(i) => {
                    &&& action matches ReconnectAction::Send(
                        ClientOp::Sub { subject, queue_group, sid },
                    )
                    &&& subject@ == self@.subscriptions[i as int].subject
                    &&& queue_group is None
                    &&& sid == self@.subscriptions[i as int].sid
                },
                Reconnect::Replaying(len) => {
                    &&& action matches ReconnectAction::Write(bytes)
                    &&& bytes@ == self@.bytes.take(len as int)
                },
                Reconnect::Flushing => action is Flush,
            },
    {
        match *at {
            Reconnect::Subscribing(i) => {
                assert(self@.subscriptions[i as int] == self.subscriptions[i as int]@);
                let entry = &self.subscriptions[i];
                ReconnectAction::Send(
                    ClientOp::Sub {
                        subject: entry.subject.as_str(),
                        queue_group: None,
                        sid: entry.sid,
                    },
                )
            },
            Reconnect::Replaying(len) => {
                let bytes = slice_subrange(self.bytes.as_slice(), 0, len);
                assert(bytes@ == self@.bytes.take(len as int));
                ReconnectAction::Write(bytes)
            },
            Reconnect::Flushing => ReconnectAction::Flush,
        }
    }

    /// Takes note of how an attempt on the new stream ended. After an error the
    /// writer stays without a connection. Otherwise there is more to be done, or
    /// the new stream is in use.
    pub fn reconnect_step(&mut self, at: Reconnect, outcome: Result<(), Error>) -> (next: Result<
        Option<Reconnect>,
        Error,
    >)
        requires
            old(self)@.inv(),
            old(self)@.reconnecting(at),
        ensures
            final(self)@.inv(),
            match outcome {
                Ok(_) => next matches Ok(next) && (final(self)@, next)
                    == old(self)@.reconnect_step(at),
                Err(error) => next == Err::<Option<Reconnect>, Error>(error) && final(self)@
                    == old(self)@,
            },
            next matches Ok(Some(at)) ==> final(self)@.reconnecting(at),
            next is Ok <==> outcome is Ok,
            next matches Ok(next) ==> match at {
                Reconnect::Subscribing(i) => if i + 1 < old(self)@.subscriptions.len() {
                    next == Some(Reconnect::Subscribing((i + 1) as usize)) && final(self)@
                        == old(self)@
                } else {
                    next == Some(Reconnect::Replaying(old(self)@.committed as usize))
                        && final(self)@ == (WriterView { written: 0, committed: 0, ..old(self)@ })
                },
                Reconnect::Replaying(_) => next == Some(Reconnect::Flushing) && final(self)@
                    == old(self)@,
                Reconnect::Flushing => next is None && final(self)@ == (WriterView {
                    connected: true,
                    ..old(self)@
                }),
            },
    {
        if let Err(error) = outcome {
            return Err(error);
        }
        match at {
            Reconnect::Subscribing(i) => {
                assert(self.subscriptions.len() == self@.subscriptions.len());
                Ok(Some(self.resume(i + 1)))
            },
            Reconnect::Replaying(_) => Ok(Some(Reconnect::Flushing)),
            Reconnect::Flushing => {
                self.connected = true;
                assert(self@ == (WriterView { connected: true, ..old(self)@ }));
                Ok(None)
            },
        }
    }
}

} // verus!
