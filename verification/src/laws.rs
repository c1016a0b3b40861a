//! What holds of a writer over several of its steps.

use crate::channel::Waiter;
use crate::error::Error;
use crate::message::Message;
use crate::subscription::next_result;
use crate::writer::{EntryView, Reconnect, ReconnectActionView, WriterView};
use futures::channel::{mpsc, oneshot};
use vstd::prelude::*;

verus! {

// ---------------------------------------------------------------------------
// Buffering
// ---------------------------------------------------------------------------

/// A writer without a connection, after the pieces of an operation were written
/// to it one after the other, and whether all of them could be. Writing ends with
/// the first piece that does not fit.
pub open spec fn buffer_all(v: WriterView, pieces: Seq<Seq<u8>>) -> (WriterView, bool)
    decreases pieces.len(),
{
    if pieces.len() == 0 {
        (v, true)
    } else if v.fits(pieces[0].len()) {
        buffer_all(v.buffer(pieces[0]), pieces.drop_first())
    } else {
        (v.failed(), false)
    }
}

/// Bytes that are put into the buffer follow those that are there, and what a new
/// connection is to receive stays as it is until they are committed.
pub proof fn law_buffer(v: WriterView, buf: Seq<u8>)
    requires
        v.inv(),
        v.fits(buf.len()),
    ensures
        v.buffer(buf).inv(),
        v.buffer(buf).buffered() == v.buffered() + buf,
        v.buffer(buf).pending() == v.pending(),
        v.buffer(buf).commit().pending() == v.buffered() + buf,
{
    let w = v.buffer(buf);
    assert(w.bytes.len() == v.bytes.len());
    assert(w.buffered() == v.buffered() + buf);
    assert(w.pending() == v.pending());
}

/// An operation that is written without a connection is kept as a whole if it
/// fits, however it is cut into pieces. If it does not fit, then nothing that a new
/// connection is to receive has changed.
pub proof fn law_buffer_all(v: WriterView, pieces: Seq<Seq<u8>>)
    requires
        v.inv(),
        !v.connected,
    ensures
        ({
            let (w, complete) = buffer_all(v, pieces);
            let op = pieces.flatten();
            &&& w.inv()
            &&& !w.connected
            &&& w.subscriptions == v.subscriptions
            &&& w.next_sid == v.next_sid
            &&& w.pending() == v.pending()
            &&& complete == v.fits(op.len())
            &&& complete ==> w.pongs == v.pongs && w.buffered() == v.buffered() + op
                && w.commit().pending() == v.buffered() + op
            &&& !complete ==> w.pongs.len() == 0
        }),
    decreases pieces.len(),
{
    if pieces.len() == 0 {
        assert(pieces.flatten() == Seq::<u8>::empty());
        assert(v.buffered() + Seq::<u8>::empty() == v.buffered());
    } else {
        assert(pieces.flatten() == pieces.first() + pieces.drop_first().flatten());
        if v.fits(pieces[0].len()) {
            law_buffer(v, pieces[0]);
            law_buffer_all(v.buffer(pieces[0]), pieces.drop_first());
            assert(v.buffered() + pieces[0] + pieces.drop_first().flatten() == v.buffered() + (
            pieces[0] + pieces.drop_first().flatten()));
        }
    }
}

/// A failure costs a writer its connection and those who wait for pongs, and
/// nothing else. They are not notified, and a pong that arrives afterwards is
/// ignored.
pub proof fn law_failure(v: WriterView)
    requires
        v.inv(),
    ensures
        v.failed().inv(),
        !v.failed().connected,
        v.failed().pongs.len() == 0,
        v.failed().buffered() == v.buffered(),
        v.failed().pending() == v.pending(),
        v.failed().subscriptions == v.subscriptions,
        v.failed().next_sid == v.next_sid,
        v.failed().notified == v.notified,
        v.failed().pong() == v.failed(),
{
}

// ---------------------------------------------------------------------------
// Reconnecting
// ---------------------------------------------------------------------------

/// The writer and what is next after a number of successful attempts on a new
/// stream.
pub open spec fn reconnect_after(v: WriterView, attempts: nat) -> (WriterView, Option<Reconnect>)
    decreases attempts,
{
    if attempts == 0 {
        (v.reconnect().0, Some(v.reconnect().1))
    } else {
        let (w, at) = reconnect_after(v, (attempts - 1) as nat);
        match at {
            Some(at) => w.reconnect_step(at),
            None => (w, None),
        }
    }
}

/// All that a new stream receives: the subscriptions from the oldest to the
/// newest, then what is buffered, and then it is flushed.
pub open spec fn reconnect_plan(v: WriterView) -> Seq<ReconnectActionView> {
    v.subscriptions.map_values(|entry: EntryView| ReconnectActionView::Send(entry.sub_op()))
        + seq![ReconnectActionView::Write(v.pending()), ReconnectActionView::Flush]
}

/// Until a new stream is in use, what is done to it follows the plan. The writer
/// has no connection meanwhile, so that is what it is left with after an error; the
/// buffer is kept if the error comes before its turn, and is lost otherwise.
pub proof fn law_reconnect_progress(v: WriterView, attempts: nat)
    requires
        v.inv(),
        attempts < reconnect_plan(v).len(),
    ensures
        ({
            let (w, at) = reconnect_after(v, attempts);
            &&& w.inv()
            &&& at matches Some(at) && w.reconnecting(at) && w.reconnect_action(at)
                == reconnect_plan(v)[attempts as int]
            &&& w == if attempts < v.subscriptions.len() {
                v.disconnected()
            } else {
                v.disconnected().emptied()
            }
        }),
    decreases attempts,
{
    let n = v.subscriptions.len();
    assert(reconnect_plan(v).len() == n + 2);
    if attempts > 0 {
        law_reconnect_progress(v, (attempts - 1) as nat);
        lemma_reconnect_at(v, (attempts - 1) as nat);
    }
    lemma_reconnect_at(v, attempts);
    if attempts < n {
        assert(reconnect_plan(v)[attempts as int] == ReconnectActionView::Send(
            v.subscriptions[attempts as int].sub_op(),
        ));
    }
}

/// The point of reconnecting that a number of successful attempts leads to.
proof fn lemma_reconnect_at(v: WriterView, attempts: nat)
    requires
        v.inv(),
        attempts <= v.subscriptions.len() + 1,
    ensures
        ({
            let n = v.subscriptions.len();
            reconnect_after(v, attempts) == if attempts < n {
                (v.disconnected(), Some(Reconnect::Subscribing(attempts as usize)))
            } else if attempts == n {
                (v.disconnected().emptied(), Some(Reconnect::Replaying(v.committed as usize)))
            } else {
                (v.disconnected().emptied(), Some(Reconnect::Flushing))
            }
        }),
    decreases attempts,
{
    if attempts > 0 {
        lemma_reconnect_at(v, (attempts - 1) as nat);
    }
}

/// Once the whole plan has been carried out, the new stream is in use and the
/// buffer is empty. Subscriptions and those who wait for pongs stay.
pub proof fn law_reconnect(v: WriterView)
    requires
        v.inv(),
    ensures
        reconnect_after(v, reconnect_plan(v).len()) == (
            WriterView { connected: true, written: 0, committed: 0, ..v },
            None::<Reconnect>,
        ),
{
    let n = v.subscriptions.len();
    assert(reconnect_plan(v).len() == n + 2);
    lemma_reconnect_at(v, n + 1);
    assert(reconnect_after(v, n + 2) == v.disconnected().emptied().reconnect_step(
        Reconnect::Flushing,
    ));
}

/// An operation that is published without a connection, and fits, reaches the next
/// one behind what was buffered before.
pub proof fn law_published_reaches_next_connection(v: WriterView, pieces: Seq<Seq<u8>>)
    requires
        v.inv(),
        !v.connected,
        v.fits(pieces.flatten().len()),
    ensures
        ({
            let w = buffer_all(v, pieces).0.commit();
            &&& w.inv()
            &&& reconnect_plan(w)[v.subscriptions.len() as int] == ReconnectActionView::Write(
                v.buffered() + pieces.flatten(),
            )
        }),
{
    law_buffer_all(v, pieces);
}

/// The bytes of operations that are each given in pieces.
pub open spec fn all_bytes(ops: Seq<Seq<Seq<u8>>>) -> Seq<u8>
    decreases ops.len(),
{
    if ops.len() == 0 {
        Seq::empty()
    } else {
        ops[0].flatten() + all_bytes(ops.drop_first())
    }
}

/// A writer without a connection, after operations that fit were published one
/// after the other.
pub open spec fn publish_all(v: WriterView, ops: Seq<Seq<Seq<u8>>>) -> WriterView
    decreases ops.len(),
{
    if ops.len() == 0 {
        v
    } else {
        publish_all(buffer_all(v, ops[0]).0.commit(), ops.drop_first())
    }
}

/// Everything that is published without a connection reaches the next one, complete
/// and in order, behind what was to reach it already. This holds as long as all of
/// it fits and no operation that was refused before has left pieces in the buffer.
pub proof fn law_publish_all(v: WriterView, ops: Seq<Seq<Seq<u8>>>)
    requires
        v.inv(),
        !v.connected,
        v.committed == v.written,
        v.fits(all_bytes(ops).len()),
    ensures
        publish_all(v, ops).inv(),
        publish_all(v, ops).committed == publish_all(v, ops).written,
        publish_all(v, ops).pending() == v.pending() + all_bytes(ops),
        publish_all(v, ops).subscriptions == v.subscriptions,
        reconnect_plan(publish_all(v, ops))[v.subscriptions.len() as int]
            == ReconnectActionView::Write(v.pending() + all_bytes(ops)),
    decreases ops.len(),
{
    if ops.len() == 0 {
        assert(v.pending() + all_bytes(ops) == v.pending());
    } else {
        let op = ops[0].flatten();
        let rest = all_bytes(ops.drop_first());
        law_buffer_all(v, ops[0]);
        let w = buffer_all(v, ops[0]).0.commit();
        assert(w.written == v.written + op.len()) by {
            assert(w.pending().len() == v.buffered().len() + op.len());
        }
        lemma_buffer_all_size(v, ops[0]);
        law_publish_all(w, ops.drop_first());
        assert(v.pending() + op + rest == v.pending() + (op + rest));
    }
}

/// The buffer keeps its size.
proof fn lemma_buffer_all_size(v: WriterView, pieces: Seq<Seq<u8>>)
    requires
        v.inv(),
    ensures
        buffer_all(v, pieces).0.bytes.len() == v.bytes.len(),
    decreases pieces.len(),
{
    if pieces.len() > 0 && v.fits(pieces[0].len()) {
        law_buffer(v, pieces[0]);
        lemma_buffer_all_size(v.buffer(pieces[0]), pieces.drop_first());
    }
}

// ---------------------------------------------------------------------------
// Subscriptions
// ---------------------------------------------------------------------------

/// The subscription with a number is found, and it is the only one.
pub proof fn law_find(v: WriterView, i: int)
    requires
        v.inv(),
        0 <= i < v.subscriptions.len(),
    ensures
        v.find(v.subscriptions[i].sid) == Some(i),
{
    let sid = v.subscriptions[i].sid;
    assert forall|k: int| 0 <= k < i implies (#[trigger] v.subscriptions[k]).sid != sid by {
        assert(v.subscriptions[k].sid < v.subscriptions[i].sid);
    }
    assert(v.subscriptions[i].sid == sid);
}

/// Messages for a new subscription go to its own channel, and those for any other
/// number go where they went before. A number that was not given out yet leads
/// nowhere.
pub proof fn law_subscribe_then_message(
    v: WriterView,
    subject: Seq<char>,
    messages: mpsc::UnboundedSender<Message>,
    sid: u64,
)
    requires
        v.inv(),
        v.next_sid < u64::MAX,
        v.subscriptions.len() < usize::MAX,
    ensures
        v.subscribe(subject, messages).inv(),
        v.subscribe(subject, messages).route(v.next_sid) == Some(messages),
        sid != v.next_sid ==> v.subscribe(subject, messages).route(sid) == v.route(sid),
        sid >= v.next_sid ==> v.route(sid) is None,
{
    let w = v.subscribe(subject, messages);
    let n = v.subscriptions.len() as int;
    assert forall|i: int| 0 <= i < n implies #[trigger] w.subscriptions[i] == v.subscriptions[i] by {
    }
    assert(w.subscriptions[n].sid == v.next_sid);
    assert(w.inv());
    law_find(w, n);
    if exists|i: int| 0 <= i < n && (#[trigger] v.subscriptions[i]).sid == sid {
        let i = choose|i: int| 0 <= i < n && (#[trigger] v.subscriptions[i]).sid == sid;
        law_find(v, i);
        law_find(w, i);
        assert(w.subscriptions[i] == v.subscriptions[i]);
    } else if sid != v.next_sid {
        if exists|i: int|
            0 <= i < w.subscriptions.len() && (#[trigger] w.subscriptions[i]).sid == sid {
            let i = choose|i: int|
                0 <= i < w.subscriptions.len() && (#[trigger] w.subscriptions[i]).sid == sid;
            assert(v.subscriptions[i].sid == sid);
        }
    }
}

/// Neither a failure nor a new connection changes the subscriptions: where messages
/// go, and what was handed over.
pub proof fn law_subscriptions_survive(v: WriterView, sid: u64)
    requires
        v.inv(),
    ensures
        v.failed().subscriptions == v.subscriptions,
        v.failed().route(sid) == v.route(sid),
        reconnect_after(v, reconnect_plan(v).len()).0.subscriptions == v.subscriptions,
        reconnect_after(v, reconnect_plan(v).len()).0.route(sid) == v.route(sid),
{
    law_reconnect(v);
}

// ---------------------------------------------------------------------------
// Messages
// ---------------------------------------------------------------------------

/// A message that arrived from the server, and the number it is for.
pub struct Arrival {
    pub sid: u64,
    pub message: Message,
}

/// A writer after messages arrived one after the other.
pub open spec fn deliver_all(v: WriterView, arrivals: Seq<Arrival>) -> WriterView
    decreases arrivals.len(),
{
    if arrivals.len() == 0 {
        v
    } else {
        deliver_all(v, arrivals.drop_last()).message(arrivals.last().sid, arrivals.last().message)
    }
}

/// The messages among those that arrived that are for a number, in order of arrival.
pub open spec fn messages_for(arrivals: Seq<Arrival>, sid: u64) -> Seq<Message>
    decreases arrivals.len(),
{
    if arrivals.len() == 0 {
        Seq::empty()
    } else if arrivals.last().sid == sid {
        messages_for(arrivals.drop_last(), sid).push(arrivals.last().message)
    } else {
        messages_for(arrivals.drop_last(), sid)
    }
}

/// An arrival changes what was handed to the subscription with its number, and
/// nothing else.
proof fn lemma_message(v: WriterView, sid: u64, message: Message)
    requires
        v.inv(),
    ensures
        v.message(sid, message).inv(),
        v.message(sid, message) == (WriterView {
            subscriptions: v.message(sid, message).subscriptions,
            ..v
        }),
        v.message(sid, message).subscriptions.len() == v.subscriptions.len(),
        forall|i: int|
            0 <= i < v.subscriptions.len() ==> #[trigger] v.message(sid, message).subscriptions[i]
                == if v.subscriptions[i].sid == sid {
                v.subscriptions[i].receive(message)
            } else {
                v.subscriptions[i]
            },
{
    let w = v.message(sid, message);
    if exists|i: int|
        0 <= i < v.subscriptions.len() && (#[trigger] v.subscriptions[i]).sid == sid {
        let at = choose|i: int|
            0 <= i < v.subscriptions.len() && (#[trigger] v.subscriptions[i]).sid == sid;
        law_find(v, at);
        assert forall|i: int| 0 <= i < v.subscriptions.len() implies #[trigger] w.subscriptions[i]
            == if v.subscriptions[i].sid == sid {
            v.subscriptions[i].receive(message)
        } else {
            v.subscriptions[i]
        } by {
            if v.subscriptions[i].sid == sid {
                law_find(v, i);
            }
        }
    } else {
        assert(v.find(sid) is None);
    }
    assert forall|i: int| 0 <= i < w.subscriptions.len() implies (#[trigger] w.subscriptions[i]).sid
        == v.subscriptions[i].sid by {}
    assert forall|i: int, j: int| 0 <= i < j < w.subscriptions.len() implies (
    #[trigger] w.subscriptions[i]).sid < (#[trigger] w.subscriptions[j]).sid by {
        assert(v.subscriptions[i].sid < v.subscriptions[j].sid);
    }
}

/// Whatever messages arrive, each subscription is handed exactly those with its
/// number, each once and in order of arrival, behind what it was handed before. No
/// message reaches another subscription, and nothing else about the writer changes.
pub proof fn law_deliveries(v: WriterView, arrivals: Seq<Arrival>)
    requires
        v.inv(),
    ensures
        deliver_all(v, arrivals).inv(),
        deliver_all(v, arrivals) == (WriterView {
            subscriptions: deliver_all(v, arrivals).subscriptions,
            ..v
        }),
        deliver_all(v, arrivals).subscriptions.len() == v.subscriptions.len(),
        forall|i: int|
            0 <= i < v.subscriptions.len() ==> #[trigger] deliver_all(v, arrivals).subscriptions[i]
                == (EntryView {
                sent: v.subscriptions[i].sent + messages_for(arrivals, v.subscriptions[i].sid),
                ..v.subscriptions[i]
            }),
    decreases arrivals.len(),
{
    if arrivals.len() == 0 {
        assert forall|i: int| 0 <= i < v.subscriptions.len() implies #[trigger] deliver_all(
            v,
            arrivals,
        ).subscriptions[i] == (EntryView {
            sent: v.subscriptions[i].sent + messages_for(arrivals, v.subscriptions[i].sid),
            ..v.subscriptions[i]
        }) by {
            assert(v.subscriptions[i].sent + Seq::<Message>::empty() == v.subscriptions[i].sent);
        }
    } else {
        let before = arrivals.drop_last();
        let u = deliver_all(v, before);
        let w = deliver_all(v, arrivals);
        law_deliveries(v, before);
        lemma_message(u, arrivals.last().sid, arrivals.last().message);
        assert forall|i: int| 0 <= i < v.subscriptions.len() implies #[trigger] w.subscriptions[i]
            == (EntryView {
            sent: v.subscriptions[i].sent + messages_for(arrivals, v.subscriptions[i].sid),
            ..v.subscriptions[i]
        }) by {
            let sid = v.subscriptions[i].sid;
            assert(u.subscriptions[i].sid == sid);
            if sid == arrivals.last().sid {
                assert(w.subscriptions[i].sent == v.subscriptions[i].sent + messages_for(
                    arrivals,
                    sid,
                ));
            }
        }
    }
}

/// Whoever makes a subscription gets its messages in order of arrival, each once and
/// unaltered, and none that is for another number. What was taken from the channel
/// so far is `taken`: a channel gives out what was handed to it, in that order.
pub proof fn law_next_in_order(
    v: WriterView,
    subject: Seq<char>,
    messages: mpsc::UnboundedSender<Message>,
    arrivals: Seq<Arrival>,
    taken: Seq<Message>,
)
    requires
        v.inv(),
        v.next_sid < u64::MAX,
        v.subscriptions.len() < usize::MAX,
        taken.is_prefix_of(
            deliver_all(v.subscribe(subject, messages), arrivals).subscriptions.last().sent,
        ),
    ensures
        ({
            let entry = deliver_all(v.subscribe(subject, messages), arrivals).subscriptions.last();
            &&& entry.sid == v.next_sid
            &&& entry.messages == messages
            &&& entry.sent == messages_for(arrivals, v.next_sid)
        }),
        taken.len() <= messages_for(arrivals, v.next_sid).len(),
        forall|k: int|
            0 <= k < taken.len() ==> next_result(Some(#[trigger] taken[k])) == Ok::<Message, Error>(
                messages_for(arrivals, v.next_sid)[k],
            ),
{
    let w = v.subscribe(subject, messages);
    let n = v.subscriptions.len() as int;
    law_subscribe_then_message(v, subject, messages, 0);
    law_deliveries(w, arrivals);
    let entry = deliver_all(w, arrivals).subscriptions[n];
    assert(Seq::<Message>::empty() + messages_for(arrivals, v.next_sid) == messages_for(
        arrivals,
        v.next_sid,
    ));
    assert(entry == deliver_all(w, arrivals).subscriptions.last());
    assert forall|k: int| 0 <= k < taken.len() implies next_result(Some(#[trigger] taken[k])) == Ok::<
        Message,
        Error,
    >(messages_for(arrivals, v.next_sid)[k]) by {
        assert(taken[k] == entry.sent[k]);
    }
}

// ---------------------------------------------------------------------------
// Pings
// ---------------------------------------------------------------------------

/// A writer after a number of pongs arrived.
pub open spec fn pongs_received(v: WriterView, n: nat) -> WriterView
    decreases n,
{
    if n == 0 {
        v
    } else {
        pongs_received(v, (n - 1) as nat).pong()
    }
}

/// The channels of those who wait.
pub open spec fn channels(waiters: Seq<Waiter>) -> Seq<oneshot::Sender<()>> {
    waiters.map_values(|waiter: Waiter| waiter.to())
}

/// Each pong notifies one of those who wait, the longest waiting first, and nobody
/// else.
pub proof fn law_pongs_in_order(v: WriterView, n: nat)
    requires
        v.inv(),
        v.connected,
        n <= v.pongs.len(),
    ensures
        pongs_received(v, n).inv(),
        pongs_received(v, n).connected,
        pongs_received(v, n).pongs == v.pongs.skip(n as int),
        pongs_received(v, n).notified == v.notified + channels(v.pongs.take(n as int)),
    decreases n,
{
    let w = pongs_received(v, n);
    if n == 0 {
        assert(v.pongs.skip(0) == v.pongs);
        assert(v.notified + channels(v.pongs.take(0)) == v.notified);
    } else {
        let u = pongs_received(v, (n - 1) as nat);
        law_pongs_in_order(v, (n - 1) as nat);
        assert(u.pongs[0] == v.pongs[n - 1]);
        assert(u.pongs.drop_first() == v.pongs.skip(n as int));
        assert(channels(v.pongs.take(n as int)) == channels(v.pongs.take(n - 1)).push(
            v.pongs[n - 1].to(),
        ));
        assert(w.notified == v.notified + channels(v.pongs.take(n as int)));
        assert forall|i: int| 0 <= i < w.pongs.len() implies (#[trigger] w.pongs[i]).bell()
            == w.bell by {
            assert(w.pongs[i] == u.pongs[i + 1]);
        }
    }
}

/// Whoever pings is notified by the pong that follows those for everyone who was
/// waiting already.
pub proof fn law_ping_waits_its_turn(v: WriterView, pong: Waiter)
    requires
        v.inv(),
        v.connected,
        pong.bell() == v.bell,
    ensures
        pongs_received(v.expect_pong(pong), v.pongs.len() + 1).notified == (v.notified + channels(
            v.pongs,
        )).push(pong.to()),
        pongs_received(v.expect_pong(pong), v.pongs.len() + 1).pongs.len() == 0,
{
    let w = v.expect_pong(pong);
    let n = v.pongs.len() + 1;
    assert(w.inv());
    law_pongs_in_order(w, n);
    assert(w.pongs.take(n as int) == v.pongs.push(pong));
    assert(channels(v.pongs.push(pong)) == channels(v.pongs).push(pong.to()));
    assert(v.notified + channels(v.pongs).push(pong.to()) == (v.notified + channels(v.pongs)).push(
        pong.to(),
    ));
}

} // verus!
