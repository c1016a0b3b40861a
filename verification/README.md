# nats_client

The protocol core of a NATS client, verified with Verus.

- `src/frame.rs` finds the lines that operations of the server are sent in.
- `src/parser.rs` reads those operations: MSG, INFO, PING, PONG, -ERR and others.
- `src/text.rs` holds what that takes: fields, quotes and decimal numbers.
- `src/writer.rs` keeps the state of a connection: what is buffered while there is
  none, the subscriptions, the pings that wait for an answer, and the steps that
  bring a new stream up to date.
- `src/message.rs` and `src/subscription.rs` hold what the user of the client sees.
- `src/client_op.rs` names the operations that the client sends.
- `src/channel.rs` holds the channels of the `futures` crate, with what is taken on
  trust of them.
- `src/laws.rs` states what holds of a writer over several of its steps.

The library opens no socket and waits for nothing. `app/` does: it drives the library
with streams, locks, timers and JSON. The byte format of outgoing operations is given
to it by the program that uses it.
