use nats_client::client_op::ClientOp;
use nats_client::error::Error;
use nats_client::message::Message;
use nats_client::subscription::{Subscription, Waited};
use nats_client::writer::{Poll, Reconnect, ReconnectAction, Writer};
use std::io;

fn io_error() -> Error {
    Error::Io(io::ErrorKind::BrokenPipe.into())
}

fn is_broken_pipe(error: &Error) -> bool {
    match error {
        Error::Io(error) => error.kind() == io::ErrorKind::BrokenPipe,
        _ => false,
    }
}

/// Writes bytes without a connection.
fn buffer(writer: &mut Writer, bytes: &[u8]) -> Result<usize, Error> {
    match writer.poll_write(bytes, None) {
        Poll::Ready(result) => result,
        Poll::Pending => panic!("the buffer is always ready"),
    }
}

/// Brings up a stream that takes everything, and returns what it received: each
/// operation by its debug text, and the buffered bytes.
fn reconnect(writer: &mut Writer) -> (Vec<String>, Vec<u8>) {
    let mut ops = Vec::new();
    let mut bytes = Vec::new();
    let mut flushed = false;
    let mut at = writer.reconnect();
    loop {
        assert!(!writer.is_connected());
        assert!(!flushed);
        match writer.reconnect_action(&at) {
            ReconnectAction::Send(op) => {
                assert!(bytes.is_empty());
                ops.push(format!("{:?}", op));
            }
            ReconnectAction::Write(buffered) => bytes.extend_from_slice(buffered),
            ReconnectAction::Flush => flushed = true,
        }
        match writer.reconnect_step(at, Ok(())) {
            Ok(Some(next)) => at = next,
            Ok(None) => break,
            Err(error) => panic!("{:?}", error),
        }
    }
    assert!(flushed);
    assert!(writer.is_connected());
    (ops, bytes)
}

#[test]
fn a_new_writer_has_nothing() {
    let mut writer = Writer::new(16);
    assert!(!writer.is_connected());
    assert!(!writer.expects_pong());
    assert!(writer.can_subscribe());
    assert_eq!(reconnect(&mut writer), (Vec::new(), Vec::new()));
}

#[test]
fn committed_bytes_reach_the_next_connection() {
    let mut writer = Writer::new(16);
    assert!(matches!(buffer(&mut writer, b"PUB a"), Ok(5)));
    assert!(matches!(buffer(&mut writer, b" 0\r\n"), Ok(4)));
    assert!(writer.publish_encoded(Ok(())).is_ok());
    assert!(matches!(buffer(&mut writer, b"half"), Ok(4)));
    assert_eq!(reconnect(&mut writer).1, b"PUB a 0\r\n");
    // The buffer is empty afterwards, and what was not committed is gone.
    assert_eq!(reconnect(&mut writer).1, b"");
}

#[test]
fn a_full_buffer_refuses_bytes() {
    let mut writer = Writer::new(8);
    assert!(matches!(buffer(&mut writer, b"12345678"), Ok(8)));
    writer.commit();
    assert!(matches!(buffer(&mut writer, b""), Ok(0)));
    let refused = buffer(&mut writer, b"9");
    assert!(matches!(refused, Err(Error::BufferFull)));
    assert!(matches!(writer.publish_encoded(refused.map(|_| ())), Err(Error::BufferFull)));
    assert_eq!(reconnect(&mut writer).1, b"12345678");
}

#[test]
fn a_refused_operation_leaves_committed_bytes_alone() {
    let mut writer = Writer::new(8);
    assert!(buffer(&mut writer, b"1234").is_ok());
    assert!(writer.publish_encoded(Ok(())).is_ok());
    assert!(buffer(&mut writer, b"56").is_ok());
    let refused = buffer(&mut writer, b"789");
    assert!(writer.publish_encoded(refused.map(|_| ())).is_err());
    assert_eq!(reconnect(&mut writer).1, b"1234");
}

#[test]
fn published_operations_are_replayed_in_order() {
    let mut writer = Writer::new(12);
    for op in [&[&b"ab"[..], b"c"][..], &[], &[b"defg", b"h", b"ij"], &[b"kl"]] {
        for piece in op {
            assert!(buffer(&mut writer, piece).is_ok());
        }
        assert!(writer.publish_encoded(Ok(())).is_ok());
    }
    assert_eq!(reconnect(&mut writer).1, b"abcdefghijkl");
}

#[test]
fn pieces_of_a_refused_operation_precede_the_next_one() {
    let mut writer = Writer::new(8);
    assert!(buffer(&mut writer, b"1234").is_ok());
    assert!(writer.publish_encoded(Ok(())).is_ok());
    assert!(buffer(&mut writer, b"56").is_ok());
    let refused = buffer(&mut writer, b"abc");
    assert!(writer.publish_encoded(refused.map(|_| ())).is_err());
    assert!(buffer(&mut writer, b"7").is_ok());
    assert!(writer.publish_encoded(Ok(())).is_ok());
    assert_eq!(reconnect(&mut writer).1, b"1234567");
}

#[test]
fn a_full_buffer_ends_waiting_for_pongs() {
    let mut writer = Writer::new(4);
    let mut receiver = writer.ping_flushed(Ok(())).unwrap();
    assert!(writer.expects_pong());
    assert!(buffer(&mut writer, b"12345").is_err());
    assert!(!writer.expects_pong());
    assert!(receiver.try_recv().is_err());
}

#[test]
fn streams_take_bytes_when_there_is_one() {
    let mut writer = Writer::new(4);
    reconnect(&mut writer);
    assert!(matches!(writer.poll_write(b"123456", Some(Poll::Pending)), Poll::Pending));
    assert!(matches!(
        writer.poll_write(b"123456", Some(Poll::Ready(Ok(3)))),
        Poll::Ready(Ok(3))
    ));
    assert!(matches!(writer.poll_flush(Some(Poll::Pending)), Poll::Pending));
    assert!(matches!(writer.poll_flush(Some(Poll::Ready(Ok(())))), Poll::Ready(Ok(()))));
    assert!(writer.is_connected());
    assert_eq!(reconnect(&mut writer).1, b"");
}

#[test]
fn stream_errors_drop_the_connection() {
    for attempt in 0..3 {
        let mut writer = Writer::new(4);
        reconnect(&mut writer);
        let mut receiver = writer.ping_flushed(Ok(())).unwrap();
        let error = match attempt {
            0 => match writer.poll_write(b"1", Some(Poll::Ready(Err(io_error())))) {
                Poll::Ready(Err(error)) => error,
                other => panic!("{:?}", other),
            },
            1 => match writer.poll_flush(Some(Poll::Ready(Err(io_error())))) {
                Poll::Ready(Err(error)) => error,
                other => panic!("{:?}", other),
            },
            _ => match writer.poll_close(Some(Poll::Ready(Err(io_error())))) {
                Poll::Ready(Err(error)) => error,
                other => panic!("{:?}", other),
            },
        };
        assert!(is_broken_pipe(&error));
        assert!(!writer.is_connected());
        assert!(!writer.expects_pong());
        assert!(receiver.try_recv().is_err());
        // A late pong is ignored.
        assert!(writer.pong().is_none());
    }
}

#[test]
fn flushing_without_a_connection_is_nothing() {
    let mut writer = Writer::new(4);
    assert!(matches!(writer.poll_flush(None), Poll::Ready(Ok(()))));
    assert!(matches!(writer.poll_close(None), Poll::Ready(Ok(()))));
}

#[test]
fn pongs_are_passed_on_in_order() {
    let mut writer = Writer::new(16);
    assert!(matches!(writer.ping(), ClientOp::Ping));
    let mut first = writer.ping_flushed(Ok(())).unwrap();
    let mut second = writer.ping_flushed(Ok(())).unwrap();
    // Without a connection nobody is notified.
    assert!(writer.pong().is_none());
    assert_eq!(first.try_recv(), Ok(None));
    reconnect(&mut writer);
    assert_eq!(writer.pong(), Some(true));
    assert_eq!(first.try_recv(), Ok(Some(())));
    assert_eq!(second.try_recv(), Ok(None));
    drop(second);
    assert_eq!(writer.pong(), Some(false));
    assert!(!writer.expects_pong());
}

#[test]
fn pings_that_fail_are_not_waited_for() {
    let mut writer = Writer::new(16);
    assert!(buffer(&mut writer, b"PING\r\n").is_ok());
    match writer.ping_encoded(Err(io_error())) {
        Err(error) => assert!(is_broken_pipe(&error)),
        Ok(()) => panic!("the error is lost"),
    }
    match writer.ping_flushed(Err(io_error())) {
        Err(error) => assert!(is_broken_pipe(&error)),
        Ok(_) => panic!("the error is lost"),
    }
    assert!(!writer.expects_pong());
    assert_eq!(reconnect(&mut writer).1, b"");
}

#[test]
fn pings_are_committed() {
    let mut writer = Writer::new(16);
    assert!(buffer(&mut writer, b"PING\r\n").is_ok());
    assert!(writer.ping_encoded(Ok(())).is_ok());
    assert!(writer.ping_flushed(Ok(())).is_ok());
    assert!(writer.expects_pong());
    assert_eq!(reconnect(&mut writer).1, b"PING\r\n");
}

#[test]
fn subscriptions_are_numbered_and_announced() {
    let mut writer = Writer::new(16);
    let (sid, _messages, op) = writer.subscribe("a", Some("q"));
    assert_eq!(sid, 1);
    assert!(op.is_none());
    reconnect(&mut writer);
    let (sid, _messages, op) = writer.subscribe("b", Some("q"));
    assert_eq!(sid, 2);
    match op {
        Some(ClientOp::Sub { subject, queue_group, sid }) => {
            assert_eq!(subject, "b");
            assert_eq!(queue_group, Some("q"));
            assert_eq!(sid, 2);
        }
        other => panic!("{:?}", other),
    }
    let (_, _, op) = writer.subscribe("c", None);
    assert!(matches!(op, Some(ClientOp::Sub { subject: "c", queue_group: None, sid: 3 })));
}

#[test]
fn unsubscribing_needs_a_connection() {
    let mut writer = Writer::new(16);
    assert!(writer.unsubscribe(5).is_none());
    assert!(writer.send(ClientOp::Ping).is_none());
    reconnect(&mut writer);
    assert!(matches!(
        writer.unsubscribe(5),
        Some(ClientOp::Unsub { sid: 5, max_msgs: None })
    ));
    assert!(matches!(writer.send(ClientOp::Ping), Some(ClientOp::Ping)));
}

#[test]
fn reconnecting_restores_subscriptions_then_replays() {
    let mut writer = Writer::new(16);
    let _a = writer.subscribe("a", Some("q"));
    let _b = writer.subscribe("b", None);
    assert!(buffer(&mut writer, b"xyz").is_ok());
    writer.commit();
    let (ops, bytes) = reconnect(&mut writer);
    assert_eq!(
        ops,
        vec![
            format!("{:?}", ClientOp::Sub { subject: "a", queue_group: None, sid: 1 }),
            format!("{:?}", ClientOp::Sub { subject: "b", queue_group: None, sid: 2 }),
        ]
    );
    assert_eq!(bytes, b"xyz");
}

#[test]
fn reconnecting_can_fail_at_each_step() {
    // The steps: a subscription, the buffer, the flush.
    for failing in 0..3 {
        let mut writer = Writer::new(16);
        let _a = writer.subscribe("a", None);
        assert!(buffer(&mut writer, b"xyz").is_ok());
        writer.commit();
        reconnect_partly(&mut writer, failing);
        assert!(!writer.is_connected());
        let (ops, bytes) = reconnect(&mut writer);
        assert_eq!(ops.len(), 1);
        // The buffer is lost once its turn has come.
        assert_eq!(bytes, if failing == 0 { b"xyz".to_vec() } else { Vec::new() });
    }
}

fn reconnect_partly(writer: &mut Writer, failing: usize) {
    let mut at = writer.reconnect();
    let points = [Reconnect::Subscribing(0), Reconnect::Replaying(3), Reconnect::Flushing];
    for step in 0..failing {
        assert_eq!(at, points[step]);
        at = writer.reconnect_step(at, Ok(())).unwrap().unwrap();
    }
    assert_eq!(at, points[failing]);
    match writer.reconnect_step(at, Err(io_error())) {
        Err(error) => assert!(is_broken_pipe(&error)),
        Ok(_) => panic!("the error is lost"),
    }
}

#[test]
fn a_connection_is_dropped_when_it_is_replaced() {
    let mut writer = Writer::new(16);
    reconnect(&mut writer);
    assert!(writer.is_connected());
    assert_eq!(writer.reconnect(), Reconnect::Replaying(0));
    assert!(!writer.is_connected());
}

#[test]
fn messages_go_to_their_subscription() {
    let mut writer = Writer::new(16);
    let (first, mut first_messages, _) = writer.subscribe("a", None);
    let (second, mut second_messages, _) = writer.subscribe("a", None);
    reconnect(&mut writer);
    let accepted = writer.message("a".to_string(), second, Some("r".to_string()), b"hi".to_vec());
    assert_eq!(accepted, Some(true));
    assert!(first_messages.try_recv().is_err());
    let message = second_messages.try_recv().unwrap();
    assert_eq!(message.subject, "a");
    assert_eq!(message.reply.as_deref(), Some("r"));
    assert_eq!(message.data, b"hi");
    assert!(!message.has_writer);
    assert!(second_messages.try_recv().is_err());
    assert!(writer.message("a".to_string(), 0, None, Vec::new()).is_none());
    assert!(writer.message("a".to_string(), 3, None, Vec::new()).is_none());
    // A failure and a new connection leave the routes alone.
    assert!(matches!(
        writer.poll_flush(Some(Poll::Ready(Err(io_error())))),
        Poll::Ready(Err(_))
    ));
    assert!(writer.message("a".to_string(), second, None, b"1".to_vec()).is_some());
    reconnect(&mut writer);
    assert!(writer.message("a".to_string(), second, None, b"2".to_vec()).is_some());
    assert_eq!(second_messages.try_recv().unwrap().data, b"1");
    assert_eq!(second_messages.try_recv().unwrap().data, b"2");
    drop(first_messages);
    assert_eq!(writer.message("a".to_string(), first, None, Vec::new()), Some(false));
}

#[test]
fn messages_arrive_once_and_in_order() {
    let mut writer = Writer::new(16);
    let (first, first_messages, _) = writer.subscribe("a", None);
    let (second, mut second_messages, _) = writer.subscribe("b", None);
    let arrivals = [(first, "1"), (second, "2"), (9, "3"), (first, "4"), (first, "4"), (0, "5")];
    for (sid, data) in arrivals {
        writer.message("s".to_string(), sid, None, data.as_bytes().to_vec());
    }
    let mut subscription = Subscription::new(first, first_messages);
    for expected in ["1", "4", "4"] {
        let received = subscription.messages.try_recv().ok();
        match subscription.next(received) {
            Ok(message) => assert_eq!(message.data, expected.as_bytes()),
            Err(error) => panic!("{:?}", error),
        }
    }
    assert!(subscription.messages.try_recv().is_err());
    assert_eq!(second_messages.try_recv().unwrap().data, b"2");
    assert!(second_messages.try_recv().is_err());
}

#[test]
fn ended_subscriptions_stay_on_record() {
    let mut writer = Writer::new(16);
    let (sid, messages, _) = writer.subscribe("a", None);
    reconnect(&mut writer);
    let subscription = Subscription::new(sid, messages);
    assert!(matches!(
        subscription.close(&writer),
        Some(ClientOp::Unsub { sid: 1, max_msgs: None })
    ));
    assert_eq!(reconnect(&mut writer).0.len(), 1);
}

fn some_message(has_writer: bool) -> Message {
    Message {
        subject: "request".to_string(),
        reply: Some("inbox".to_string()),
        data: b"data".to_vec(),
        has_writer,
    }
}

#[test]
fn publishing() {
    let writer = Writer::new(16);
    match writer.publish("s", Some("r"), b"payload") {
        ClientOp::Pub { subject, reply_to, payload } => {
            assert_eq!(subject, "s");
            assert_eq!(reply_to, Some("r"));
            assert_eq!(payload, b"payload");
        }
        other => panic!("{:?}", other),
    }
}

#[test]
fn responding() {
    match some_message(true).respond(b"answer") {
        Ok(ClientOp::Pub { subject, reply_to, payload }) => {
            assert_eq!(subject, "inbox");
            assert_eq!(reply_to, None);
            assert_eq!(payload, b"answer");
        }
        other => panic!("{:?}", other),
    }
    assert!(matches!(some_message(false).respond(b"answer"), Err(Error::NoReplySubject)));
    let mut message = some_message(true);
    message.reply = None;
    assert!(matches!(message.respond(b"answer"), Err(Error::NoReplySubject)));
}

#[test]
fn waiting_for_messages() {
    let mut writer = Writer::new(16);
    let (sid, messages, _) = writer.subscribe("a", None);
    let subscription = Subscription::new(sid, messages);
    assert_eq!(subscription.sid, 1);
    match subscription.next(Some(some_message(false))) {
        Ok(message) => assert_eq!(message.data, b"data"),
        Err(error) => panic!("{:?}", error),
    }
    assert!(matches!(subscription.next(None), Err(Error::ConnectionReset)));
    match subscription.next_timeout(Waited::Received(Some(some_message(false)))) {
        Ok(Some(message)) => assert_eq!(message.data, b"data"),
        Ok(None) => panic!("the message is lost"),
        Err(error) => panic!("{:?}", error),
    }
    assert!(matches!(
        subscription.next_timeout(Waited::Received(None)),
        Err(Error::ConnectionReset)
    ));
    assert!(matches!(subscription.next_timeout(Waited::Elapsed), Err(Error::TimedOut)));
}
