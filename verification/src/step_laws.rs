//! What each step of a writer does, told by what the writer holds.

use crate::channel::Waiter;
use crate::client_op::{optional_text, ClientOp, ClientOpView};
use crate::laws::{
    buffer_all, channels, law_buffer_all, law_find, law_reconnect, law_reconnect_progress,
    messages_for, reconnect_after, reconnect_plan, Arrival,
};
use crate::message::Message;
use crate::writer::{
    optional_op, EntryView, Reconnect, ReconnectAction, ReconnectActionView, WriterView,
};
use futures::channel::mpsc;
use vstd::prelude::*;

verus! {

// ---------------------------------------------------------------------------
// Values and what they say
// ---------------------------------------------------------------------------

/// An operation says exactly what its parts say: no text is cut short, no number is
/// altered, and an absent part is not made up.
pub proof fn law_client_op(op: ClientOp)
    ensures
        match op {
            ClientOp::Pub { subject, reply_to, payload } => {
                &&& op@ matches ClientOpView::Pub { subject: s, reply_to: r, payload: p }
                &&& s == subject@
                &&& r is Some <==> reply_to is Some
                &&& reply_to is Some ==> r->0 == reply_to->0@
                &&& p == payload@
            },
            ClientOp::Sub { subject, queue_group, sid } => {
                &&& op@ matches ClientOpView::Sub { subject: s, queue_group: q, sid: n }
                &&& s == subject@
                &&& q is Some <==> queue_group is Some
                &&& queue_group is Some ==> q->0 == queue_group->0@
                &&& n == sid
            },
            ClientOp::Unsub { sid, max_msgs } => op@ == (ClientOpView::Unsub { sid, max_msgs }),
            ClientOp::Ping => op@ is Ping,
        },
        optional_op(Some(op)) == Some(op@),
        optional_op(None) is None,
{
}

/// Different operations say different things: an operation can be told from what it
/// says, up to the texts and bytes in it.
pub proof fn law_client_op_distinct(a: ClientOp, b: ClientOp)
    requires
        a@ == b@,
    ensures
        match (a, b) {
            (
                ClientOp::Pub { subject: s, reply_to: r, payload: p },
                ClientOp::Pub { subject: t, reply_to: q, payload: o },
            ) => s@ == t@ && (r is Some <==> q is Some) && (r is Some ==> r->0@ == q->0@) && p@
                == o@,
            (
                ClientOp::Sub { subject: s, queue_group: r, sid: i },
                ClientOp::Sub { subject: t, queue_group: q, sid: j },
            ) => s@ == t@ && (r is Some <==> q is Some) && (r is Some ==> r->0@ == q->0@) && i == j,
            (
                ClientOp::Unsub { sid: i, max_msgs: m },
                ClientOp::Unsub { sid: j, max_msgs: n },
            ) => i == j && m == n,
            (ClientOp::Ping, ClientOp::Ping) => true,
            _ => false,
        },
{
}

/// An optional text is there if and only if the string is, and is all of it.
pub proof fn law_optional_text(text: Option<&str>)
    ensures
        optional_text(text) is Some <==> text is Some,
        text is Some ==> optional_text(text)->0 == text->0@,
{
}

/// A message says exactly what its parts say.
pub proof fn law_message_view(message: Message)
    ensures
        message@.subject == message.subject@,
        message@.reply is Some <==> message.reply is Some,
        message.reply is Some ==> message@.reply->0 == message.reply->0@,
        message@.data == message.data@,
        message@.has_writer == message.has_writer,
{
}

/// What is done to a new stream carries its operation or its bytes unaltered.
pub proof fn law_action_view(op: ClientOp, bytes: &[u8])
    ensures
        ReconnectAction::Send(op)@ == ReconnectActionView::Send(op@),
        ReconnectAction::Write(bytes)@ == ReconnectActionView::Write(bytes@),
        ReconnectAction::Flush@ == ReconnectActionView::Flush,
{
}

/// What a writer has to keep in order, and nothing beyond: there is no bound on its
/// buffer, its subscriptions or its pings but the memory of the machine.
pub proof fn law_invariant(v: WriterView)
    ensures
        v.inv() <==> {
            &&& v.committed <= v.written
            &&& v.written <= v.bytes.len()
            &&& v.bytes.len() <= usize::MAX
            &&& v.subscriptions.len() <= usize::MAX
            &&& v.next_sid > 0
            &&& forall|i: int|
                0 <= i < v.subscriptions.len() ==> 0 < (#[trigger] v.subscriptions[i]).sid
                    < v.next_sid
            &&& forall|i: int, j: int|
                0 <= i < j < v.subscriptions.len() ==> (#[trigger] v.subscriptions[i]).sid < (
                #[trigger] v.subscriptions[j]).sid
            &&& forall|i: int|
                0 <= i < v.pongs.len() ==> (#[trigger] v.pongs[i]).bell() == v.bell
        },
{
}

// ---------------------------------------------------------------------------
// Buffering
// ---------------------------------------------------------------------------

/// Bytes fit into the buffer if and only if there is that much space behind what
/// was written.
pub proof fn law_space(v: WriterView, len: nat)
    requires
        v.inv(),
    ensures
        v.fits(len) <==> len <= v.bytes.len() - v.written,
{
}

/// An empty buffer takes any operation up to its size, and none that is larger.
pub proof fn law_empty_buffer_takes_its_size(v: WriterView, len: nat)
    requires
        v.written == 0,
    ensures
        v.fits(len) <==> len <= v.bytes.len(),
{
}

/// A writer whose buffer is empty keeps an operation if and only if it is no larger
/// than the buffer, however it is cut into pieces, and a new connection is then to
/// receive all of its bytes.
pub proof fn law_empty_buffer_keeps_operation(v: WriterView, pieces: Seq<Seq<u8>>)
    requires
        v.inv(),
        !v.connected,
        v.written == 0,
    ensures
        buffer_all(v, pieces).1 <==> pieces.flatten().len() <= v.bytes.len(),
        buffer_all(v, pieces).1 ==> {
            let w = buffer_all(v, pieces).0.commit();
            &&& w.committed == pieces.flatten().len()
            &&& w.bytes.take(w.committed as int) == pieces.flatten()
        },
{
    law_buffer_all(v, pieces);
    if buffer_all(v, pieces).1 {
        let w = buffer_all(v, pieces).0.commit();
        assert(v.buffered() + pieces.flatten() == pieces.flatten());
        assert(w.pending().len() == w.committed);
    }
}

/// Each byte that is buffered takes one byte of the space, and no more.
pub proof fn law_space_after(v: WriterView, buf: Seq<u8>, len: nat)
    requires
        v.inv(),
        buf.len() <= v.bytes.len() - v.written,
    ensures
        v.buffer(buf).fits(len) <==> v.fits(buf.len() + len),
        v.buffer(buf).fits(len) <==> len <= v.bytes.len() - v.written - buf.len(),
{
    assert(v.buffer(buf).bytes.len() == v.bytes.len());
}

/// Bytes are buffered right behind what was written, all of them and in their
/// order. Every other byte of the buffer, and all else about the writer, stays.
pub proof fn law_buffered_bytes(v: WriterView, buf: Seq<u8>, k: int)
    requires
        v.inv(),
        buf.len() <= v.bytes.len() - v.written,
        0 <= k < v.bytes.len(),
    ensures
        ({
            let w = v.buffer(buf);
            &&& w.bytes.len() == v.bytes.len()
            &&& w.written == v.written + buf.len()
            &&& v.written <= k < v.written + buf.len() ==> w.bytes[k] == buf[k - v.written]
            &&& k < v.written || k >= v.written + buf.len() ==> w.bytes[k] == v.bytes[k]
            &&& w == (WriterView { bytes: w.bytes, written: w.written, ..v })
        }),
{
}

/// What is buffered are the bytes that were written, and what a new connection is to
/// receive are those of them that were committed.
pub proof fn law_buffer_parts(v: WriterView)
    requires
        v.inv(),
    ensures
        v.buffered().len() == v.written,
        forall|k: int| 0 <= k < v.written ==> #[trigger] v.buffered()[k] == v.bytes[k],
        v.pending().len() == v.committed,
        forall|k: int| 0 <= k < v.committed ==> #[trigger] v.pending()[k] == v.bytes[k],
{
}

/// A commit releases all that was written, and changes nothing else.
pub proof fn law_commit(v: WriterView)
    ensures
        v.commit().pending() == v.buffered(),
        v.commit().committed == v.written,
        v.commit() == (WriterView { committed: v.commit().committed, ..v }),
{
}

/// A failure ends the connection and all waiting for pongs, and changes nothing else.
pub proof fn law_failed(v: WriterView)
    ensures
        !v.failed().connected,
        v.failed().pongs.len() == 0,
        v.failed() == (WriterView { connected: false, pongs: v.failed().pongs, ..v }),
{
}

// ---------------------------------------------------------------------------
// Operations
// ---------------------------------------------------------------------------

/// With a connection, every operation goes to the stream as it is; without one, none
/// does.
pub proof fn law_send(v: WriterView, op: ClientOpView)
    ensures
        v.connected ==> v.send(op) == Some(op),
        !v.connected ==> v.send(op) is None,
{
}

/// With a connection, the end of any subscription is sent to the server, for every
/// number there is; without one, nothing is sent.
pub proof fn law_unsubscribe(v: WriterView, op: Option<ClientOp>, sid: u64)
    requires
        optional_op(op) == v.send(ClientOpView::Unsub { sid, max_msgs: None }),
    ensures
        v.connected ==> op == Some(ClientOp::Unsub { sid, max_msgs: None }),
        !v.connected ==> op is None,
{
}

/// With a connection, a new subscription is sent to the server with exactly its
/// subject, its queue group and its number; without one, nothing is sent.
pub proof fn law_subscribe_sends(
    v: WriterView,
    op: Option<ClientOp>,
    subject: &str,
    queue_group: Option<&str>,
)
    requires
        optional_op(op) == v.send(
            ClientOpView::Sub {
                subject: subject@,
                queue_group: optional_text(queue_group),
                sid: v.next_sid,
            },
        ),
    ensures
        v.connected ==> {
            &&& op matches Some(ClientOp::Sub { subject: s, queue_group: q, sid })
            &&& s@ == subject@
            &&& q is Some <==> queue_group is Some
            &&& q is Some ==> q->0@ == queue_group->0@
            &&& sid == v.next_sid
        },
        !v.connected ==> op is None,
{
}

/// A new subscription stands behind all others, with its subject, the next number and
/// its channel, and nothing was handed to it yet. The others stay as they are, and so
/// does the rest of the writer but for the number of the subscription after it.
pub proof fn law_subscribe(
    v: WriterView,
    subject: Seq<char>,
    messages: mpsc::UnboundedSender<Message>,
)
    requires
        v.next_sid < u64::MAX,
    ensures
        ({
            let w = v.subscribe(subject, messages);
            let n = v.subscriptions.len() as int;
            &&& w.subscriptions.len() == n + 1
            &&& w.subscriptions[n].subject == subject
            &&& w.subscriptions[n].sid == v.next_sid
            &&& w.subscriptions[n].messages == messages
            &&& w.subscriptions[n].sent.len() == 0
            &&& forall|i: int| 0 <= i < n ==> #[trigger] w.subscriptions[i] == v.subscriptions[i]
            &&& w.next_sid == v.next_sid + 1
            &&& w == (WriterView { subscriptions: w.subscriptions, next_sid: w.next_sid, ..v })
        }),
{
}

/// Whoever waits for a pong stands behind all others who do.
pub proof fn law_expect_pong(v: WriterView, pong: Waiter)
    ensures
        ({
            let w = v.expect_pong(pong);
            let n = v.pongs.len() as int;
            &&& w.pongs.len() == n + 1
            &&& w.pongs[n] == pong
            &&& forall|i: int| 0 <= i < n ==> #[trigger] w.pongs[i] == v.pongs[i]
            &&& w == (WriterView { pongs: w.pongs, ..v })
        }),
{
}

/// A pong notifies the first of those who wait and leaves the others in their order.
/// Without a connection it changes nothing.
pub proof fn law_pong(v: WriterView)
    requires
        v.connected ==> v.pongs.len() > 0,
    ensures
        !v.connected ==> v.pong() == v,
        v.connected ==> {
            let w = v.pong();
            &&& w.pongs.len() == v.pongs.len() - 1
            &&& forall|i: int| 0 <= i < w.pongs.len() ==> #[trigger] w.pongs[i] == v.pongs[i + 1]
            &&& w.notified.len() == v.notified.len() + 1
            &&& w.notified.last() == v.pongs[0].to()
            &&& forall|i: int|
                0 <= i < v.notified.len() ==> #[trigger] w.notified[i] == v.notified[i]
            &&& w == (WriterView { pongs: w.pongs, notified: w.notified, ..v })
        },
{
}

/// A number is found if and only if a subscription has it, and messages for it go to
/// the channel of that subscription.
pub proof fn law_route(v: WriterView, sid: u64)
    requires
        v.inv(),
    ensures
        v.find(sid) is Some <==> exists|i: int|
            0 <= i < v.subscriptions.len() && (#[trigger] v.subscriptions[i]).sid == sid,
        v.route(sid) is Some <==> v.find(sid) is Some,
        forall|i: int|
            0 <= i < v.subscriptions.len() && (#[trigger] v.subscriptions[i]).sid == sid ==> v.find(
                sid,
            ) == Some(i) && v.route(sid) == Some(v.subscriptions[i].messages),
{
    assert forall|i: int|
        0 <= i < v.subscriptions.len() && (#[trigger] v.subscriptions[i]).sid == sid implies v.find(
        sid,
    ) == Some(i) && v.route(sid) == Some(v.subscriptions[i].messages) by {
        law_find(v, i);
    }
}

/// A message is handed, behind all that came before and as it is, to the
/// subscription with its number. Nothing is handed to any other, and all else about
/// the writer stays.
pub proof fn law_message(v: WriterView, sid: u64, message: Message)
    requires
        v.inv(),
    ensures
        ({
            let w = v.message(sid, message);
            &&& w == (WriterView { subscriptions: w.subscriptions, ..v })
            &&& w.subscriptions.len() == v.subscriptions.len()
            &&& forall|i: int|
                0 <= i < v.subscriptions.len() ==> (#[trigger] w.subscriptions[i]) == (EntryView {
                    sent: if v.subscriptions[i].sid == sid {
                        v.subscriptions[i].sent.push(message)
                    } else {
                        v.subscriptions[i].sent
                    },
                    ..v.subscriptions[i]
                })
        }),
{
    let w = v.message(sid, message);
    law_route(v, sid);
    assert forall|i: int| 0 <= i < v.subscriptions.len() implies (#[trigger] w.subscriptions[i])
        == (EntryView {
        sent: if v.subscriptions[i].sid == sid {
            v.subscriptions[i].sent.push(message)
        } else {
            v.subscriptions[i].sent
        },
        ..v.subscriptions[i]
    }) by {
        if v.subscriptions[i].sid == sid {
            assert(v.find(sid) == Some(i));
        } else if v.find(sid) is Some {
            let at = choose|k: int|
                0 <= k < v.subscriptions.len() && (#[trigger] v.subscriptions[k]).sid == sid;
            assert(v.find(sid) == Some(at));
        }
    }
}

/// What was handed to a subscription grows by the message, at its end.
pub proof fn law_receive(entry: EntryView, message: Message)
    ensures
        entry.receive(message) == (EntryView { sent: entry.sent + seq![message], ..entry }),
{
    assert(entry.sent.push(message) == entry.sent + seq![message]);
}

/// The messages for a number are taken from the arrivals one by one: one that is for
/// the number comes last, and one that is not leaves them as they are.
pub proof fn law_messages_for(arrivals: Seq<Arrival>, arrival: Arrival, sid: u64)
    ensures
        messages_for(Seq::empty(), sid).len() == 0,
        arrival.sid == sid ==> messages_for(arrivals.push(arrival), sid) == messages_for(
            arrivals,
            sid,
        ).push(arrival.message),
        arrival.sid != sid ==> messages_for(arrivals.push(arrival), sid) == messages_for(
            arrivals,
            sid,
        ),
{
    assert(arrivals.push(arrival).drop_last() == arrivals);
}

/// The channels of those who wait are theirs, one each and in their order.
pub proof fn law_channels(waiters: Seq<Waiter>)
    ensures
        channels(waiters).len() == waiters.len(),
        forall|i: int|
            0 <= i < waiters.len() ==> #[trigger] channels(waiters)[i] == waiters[i].to(),
{
}

// ---------------------------------------------------------------------------
// Reconnecting
// ---------------------------------------------------------------------------

/// A subscription is made again with its whole subject and its number, and without a
/// queue group.
pub proof fn law_sub_op(entry: EntryView)
    ensures
        entry.sub_op() == (ClientOpView::Sub {
            subject: entry.subject,
            queue_group: None,
            sid: entry.sid,
        }),
{
}

/// A new stream receives one SUB for each subscription, oldest first, each with the
/// subject and the number that the subscription was made with; then what is pending of
/// the buffer; and then it is flushed. It receives nothing else.
pub proof fn law_reconnect_plan(v: WriterView)
    requires
        v.inv(),
    ensures
        ({
            let n = v.subscriptions.len() as int;
            let plan = reconnect_plan(v);
            &&& plan.len() == n + 2
            &&& forall|i: int|
                0 <= i < n ==> #[trigger] plan[i] == ReconnectActionView::Send(
                    ClientOpView::Sub {
                        subject: v.subscriptions[i].subject,
                        queue_group: None,
                        sid: v.subscriptions[i].sid,
                    },
                )
            &&& plan[n] == ReconnectActionView::Write(v.bytes.take(v.committed as int))
            &&& plan[n + 1] == ReconnectActionView::Flush
        }),
{
}

/// A subscription that was just made is the last one that a new stream receives, with
/// its subject and its number. What the stream receives before and after that is what
/// it would have received without it.
pub proof fn law_subscribe_then_reconnect(
    v: WriterView,
    subject: Seq<char>,
    messages: mpsc::UnboundedSender<Message>,
)
    requires
        v.inv(),
        v.next_sid < u64::MAX,
    ensures
        ({
            let n = v.subscriptions.len() as int;
            let before = reconnect_plan(v);
            let after = reconnect_plan(v.subscribe(subject, messages));
            &&& after.len() == before.len() + 1
            &&& after.take(n) == before.take(n)
            &&& after[n] == ReconnectActionView::Send(
                ClientOpView::Sub { subject, queue_group: None, sid: v.next_sid },
            )
            &&& after.skip(n + 1) == before.skip(n)
        }),
{
    let n = v.subscriptions.len() as int;
    let w = v.subscribe(subject, messages);
    assert(w.subscriptions[n].subject == subject);
    assert(reconnect_plan(w).take(n) == reconnect_plan(v).take(n)) by {
        assert forall|i: int| 0 <= i < n implies #[trigger] reconnect_plan(w)[i] == reconnect_plan(
            v,
        )[i] by {
            assert(w.subscriptions[i] == v.subscriptions[i]);
        }
    }
    assert(reconnect_plan(w).skip(n + 1) == reconnect_plan(v).skip(n));
}

/// What is done to the new stream at each point of reconnecting, told by what the
/// writer held when that began: first the SUB of each subscription, then the bytes
/// that were committed, then a flush.
pub proof fn law_reconnect_actions(v: WriterView, attempts: nat)
    requires
        v.inv(),
        attempts < v.subscriptions.len() + 2,
    ensures
        ({
            let n = v.subscriptions.len();
            let (w, at) = reconnect_after(v, attempts);
            &&& at is Some
            &&& !w.connected
            &&& attempts < n ==> w.reconnect_action(at->0) == ReconnectActionView::Send(
                ClientOpView::Sub {
                    subject: v.subscriptions[attempts as int].subject,
                    queue_group: None,
                    sid: v.subscriptions[attempts as int].sid,
                },
            )
            &&& attempts == n ==> w.reconnect_action(at->0) == ReconnectActionView::Write(
                v.bytes.take(v.committed as int),
            )
            &&& attempts == n + 1 ==> w.reconnect_action(at->0) is Flush
            &&& w.subscriptions == v.subscriptions
            &&& w.bytes == v.bytes
            &&& w.pongs == v.pongs
            &&& w.notified == v.notified
            &&& attempts < n ==> w.written == v.written && w.committed == v.committed
            &&& attempts >= n ==> w.written == 0 && w.committed == 0
        }),
{
    law_reconnect_plan(v);
    law_reconnect_progress(v, attempts);
}

/// One attempt for each subscription and two more put the new stream into use, and
/// none of them can be left out.
pub proof fn law_reconnect_takes(v: WriterView, attempts: nat)
    requires
        v.inv(),
        attempts <= v.subscriptions.len() + 2,
    ensures
        reconnect_after(v, attempts).1 is None <==> attempts == v.subscriptions.len() + 2,
        reconnect_after(v, attempts).0.connected <==> attempts == v.subscriptions.len() + 2,
{
    law_reconnect_plan(v);
    if attempts < v.subscriptions.len() + 2 {
        law_reconnect_actions(v, attempts);
    } else {
        law_reconnect(v);
    }
}

/// A new stream begins with the oldest subscription, or with the buffer if there are
/// none. The connection is gone from then on, and the buffer is given up when its turn
/// comes.
pub proof fn law_reconnect_begins(v: WriterView)
    ensures
        ({
            let (w, at) = v.reconnect();
            &&& v.subscriptions.len() > 0 ==> at == Reconnect::Subscribing(0) && w == (WriterView {
                connected: false,
                ..v
            })
            &&& v.subscriptions.len() == 0 ==> at == Reconnect::Replaying(v.committed as usize) && w
                == (WriterView { connected: false, written: 0, committed: 0, ..v })
        }),
        v.disconnected() == (WriterView { connected: false, ..v }),
        v.emptied() == (WriterView { written: 0, committed: 0, ..v }),
{
}

/// How reconnecting goes on: subscription by subscription, then the buffer, then the
/// flush, and then the stream is in use.
pub proof fn law_reconnect_goes_on(v: WriterView, i: usize)
    requires
        v.inv(),
        i < v.subscriptions.len(),
    ensures
        i + 1 < v.subscriptions.len() ==> v.reconnect_step(Reconnect::Subscribing(i)) == (
            v,
            Some(Reconnect::Subscribing((i + 1) as usize)),
        ),
        i + 1 == v.subscriptions.len() ==> v.reconnect_step(Reconnect::Subscribing(i)) == (
            WriterView { written: 0, committed: 0, ..v },
            Some(Reconnect::Replaying(v.committed as usize)),
        ),
        v.resume((i + 1) as nat) == (
            v.reconnect_step(Reconnect::Subscribing(i)).0,
            v.reconnect_step(Reconnect::Subscribing(i)).1->0,
        ),
{
}

/// Behind the buffer comes the flush, and behind the flush there is nothing left to
/// be done and a connection again.
pub proof fn law_reconnect_ends(v: WriterView, len: usize)
    ensures
        v.reconnect_step(Reconnect::Replaying(len)) == (v, Some(Reconnect::Flushing)),
        v.reconnect_step(Reconnect::Flushing) == (
            WriterView { connected: true, ..v },
            None::<Reconnect>,
        ),
        v.reconnect_action(Reconnect::Replaying(len)) == ReconnectActionView::Write(
            v.bytes.take(len as int),
        ),
        v.reconnect_action(Reconnect::Flushing) == ReconnectActionView::Flush,
{
}

/// There is something to be done for each subscription, for any part of the buffer,
/// and for the flush.
pub proof fn law_reconnecting(v: WriterView, k: usize)
    ensures
        v.reconnecting(Reconnect::Subscribing(k)) <==> k < v.subscriptions.len(),
        v.reconnecting(Reconnect::Replaying(k)) <==> k <= v.bytes.len(),
        v.reconnecting(Reconnect::Flushing),
{
}

} // verus!
