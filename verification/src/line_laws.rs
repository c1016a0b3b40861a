//! What the lines of the server are read as, told by their bytes.

use crate::error::Error;
use crate::frame::{frame, law_operation_is_framed, line_of, Framed};
use crate::parser::{
    control_op, line_result, read_result, spec_msg_args, ControlOp, ControlOpView, MsgArgs,
};
use crate::text::{
    ascii_text, decimal, law_ascii_text, law_split_fields, law_text_of_encoded, law_trim_around,
    lossy_utf8, split,
};
use vstd::prelude::*;
use vstd::utf8::{encode_utf8, valid_utf8};

verus! {

// ---------------------------------------------------------------------------
// Values and what they say
// ---------------------------------------------------------------------------

/// The arguments of a MSG operation say exactly what their parts say.
pub proof fn law_msg_args_view(args: MsgArgs)
    ensures
        args@.subject == args.subject@,
        args@.reply is Some <==> args.reply is Some,
        args.reply is Some ==> args@.reply->0 == args.reply->0@,
        args@.mlen == args.mlen,
        args@.sid == args.sid,
{
}

/// An operation of the server says exactly what its parts say, and operations of
/// different kinds say different things.
pub proof fn law_control_op_view(op: ControlOp<Vec<u8>>)
    ensures
        match op {
            ControlOp::Msg(args) => op@ == ControlOpView::Msg(args@),
            ControlOp::Info(json) => op@ == ControlOpView::Info(json@),
            ControlOp::Ping => op@ == ControlOpView::Ping,
            ControlOp::Pong => op@ == ControlOpView::Pong,
            ControlOp::ServerError(text) => op@ == ControlOpView::ServerError(text@),
            ControlOp::Unknown(name) => op@ == ControlOpView::Unknown(name@),
        },
{
}

// ---------------------------------------------------------------------------
// Lines
// ---------------------------------------------------------------------------

/// A line is read as the operation that its name and its arguments make, whatever
/// follows, and reading it uses up that line and no more.
pub proof fn law_line(op: Seq<u8>, blanks: Seq<u8>, args: Seq<u8>, rest: Seq<u8>, buffered: int)
    requires
        op.len() > 0,
        forall|i: int|
            0 <= i < op.len() ==> (0x41 <= #[trigger] op[i] <= 0x5A) || op[i] == 0x2D || op[i]
                == 0x2B,
        forall|i: int|
            0 <= i < blanks.len() ==> #[trigger] blanks[i] == 0x20 || blanks[i] == 0x09,
        args.len() > 0 ==> args[0] != 0x20 && args[0] != 0x09,
        blanks.len() == 0 && args.len() > 0 ==> !(0x41 <= args[0] <= 0x5A) && args[0] != 0x2D
            && args[0] != 0x2B,
        forall|i: int|
            0 <= i < args.len() - 1 && #[trigger] args[i] == 0x0D ==> args[i + 1] != 0x0A,
        op.len() + blanks.len() + args.len() + 2 <= buffered,
        buffered <= op.len() + blanks.len() + args.len() + 2 + rest.len(),
    ensures
        ({
            let line = op + blanks + args + seq![0x0Du8, 0x0A];
            match control_op(op, args) {
                Some(expected) => {
                    &&& line_result(line + rest) == Ok::<ControlOpView, Error>(expected)
                    &&& read_result(line + rest, buffered) == (
                        Ok::<ControlOpView, Error>(expected),
                        line.len() as int,
                    )
                },
                None => {
                    &&& line_result(line + rest) == Err::<ControlOpView, Error>(Error::Parse)
                    &&& read_result(line + rest, buffered).0 == Err::<ControlOpView, Error>(
                        Error::Parse,
                    )
                },
            }
        }),
{
    let line = op + blanks + args + seq![0x0Du8, 0x0A];
    let more = rest.take(buffered - line.len());
    law_operation_is_framed(op, blanks, args, rest);
    law_operation_is_framed(op, blanks, args, more);
    assert((line + rest).take(buffered) == line + more);
}

/// An INFO line is read as an INFO with all the bytes that stand between the blanks
/// and the line end, however many there are, and whatever follows the line.
pub proof fn law_info_line(blanks: Seq<u8>, json: Seq<u8>, rest: Seq<u8>)
    requires
        blanks.len() > 0,
        forall|i: int|
            0 <= i < blanks.len() ==> #[trigger] blanks[i] == 0x20 || blanks[i] == 0x09,
        json.len() > 0 ==> json[0] != 0x20 && json[0] != 0x09,
        forall|i: int|
            0 <= i < json.len() - 1 && #[trigger] json[i] == 0x0D ==> json[i + 1] != 0x0A,
    ensures
        ({
            let op = seq!['I' as u8, 'N' as u8, 'F' as u8, 'O' as u8];
            let line = op + blanks + json + seq![0x0Du8, 0x0A];
            &&& frame(line + rest) == Framed::Line { op, args: json, end: line.len() as int }
            &&& control_op(op, json) == Some(ControlOpView::Info(json))
            &&& line_result(line + rest) == Ok::<ControlOpView, Error>(ControlOpView::Info(json))
            &&& read_result(line + rest, (line + rest).len() as int) == (
                Ok::<ControlOpView, Error>(ControlOpView::Info(json)),
                line.len() as int,
            )
        }),
{
    let op = seq!['I' as u8, 'N' as u8, 'F' as u8, 'O' as u8];
    let line = op + blanks + json + seq![0x0Du8, 0x0A];
    law_info(json);
    law_operation_is_framed(op, blanks, json, rest);
    law_line(op, blanks, json, rest, (line + rest).len() as int);
}

/// An INFO carries its arguments as they are.
pub proof fn law_info(json: Seq<u8>)
    ensures
        control_op(seq!['I' as u8, 'N' as u8, 'F' as u8, 'O' as u8], json) == Some(
            ControlOpView::Info(json),
        ),
{
    let op = seq!['I' as u8, 'N' as u8, 'F' as u8, 'O' as u8];
    assert(op == seq![0x49u8, 0x4E, 0x46, 0x4F]);
    assert(op.len() == 4);
}

/// An -ERR line is read as an error with the text between the quotes, however many
/// quotes and however long the text, and whatever follows the line. The text itself
/// neither starts nor ends with a quote.
pub proof fn law_err_line(
    blanks: Seq<u8>,
    before: Seq<char>,
    text: Seq<char>,
    behind: Seq<char>,
    rest: Seq<u8>,
)
    requires
        blanks.len() > 0,
        forall|i: int|
            0 <= i < blanks.len() ==> #[trigger] blanks[i] == 0x20 || blanks[i] == 0x09,
        forall|i: int| 0 <= i < before.len() ==> #[trigger] before[i] == '\'',
        forall|i: int| 0 <= i < behind.len() ==> #[trigger] behind[i] == '\'',
        text.len() > 0 ==> text[0] != '\'' && text[text.len() - 1] != '\'',
        ({
            let args = encode_utf8(before + text + behind);
            &&& args.len() > 0 ==> args[0] != 0x20 && args[0] != 0x09
            &&& forall|i: int|
                0 <= i < args.len() - 1 && #[trigger] args[i] == 0x0D ==> args[i + 1] != 0x0A
        }),
    ensures
        ({
            let op = seq!['-' as u8, 'E' as u8, 'R' as u8, 'R' as u8];
            let args = encode_utf8(before + text + behind);
            let line = op + blanks + args + seq![0x0Du8, 0x0A];
            &&& frame(line + rest) == Framed::Line { op, args, end: line.len() as int }
            &&& control_op(op, args) == Some(ControlOpView::ServerError(text))
            &&& line_result(line + rest) == Ok::<ControlOpView, Error>(
                ControlOpView::ServerError(text),
            )
            &&& read_result(line + rest, (line + rest).len() as int) == (
                Ok::<ControlOpView, Error>(ControlOpView::ServerError(text)),
                line.len() as int,
            )
        }),
{
    let op = seq!['-' as u8, 'E' as u8, 'R' as u8, 'R' as u8];
    let args = encode_utf8(before + text + behind);
    let line = op + blanks + args + seq![0x0Du8, 0x0A];
    law_err(before, text, behind);
    law_operation_is_framed(op, blanks, args, rest);
    law_line(op, blanks, args, rest, (line + rest).len() as int);
}

/// The description of an -ERR is all of the text between its quotes.
pub proof fn law_err(before: Seq<char>, text: Seq<char>, behind: Seq<char>)
    requires
        forall|i: int| 0 <= i < before.len() ==> #[trigger] before[i] == '\'',
        forall|i: int| 0 <= i < behind.len() ==> #[trigger] behind[i] == '\'',
        text.len() > 0 ==> text[0] != '\'' && text[text.len() - 1] != '\'',
    ensures
        control_op(
            seq!['-' as u8, 'E' as u8, 'R' as u8, 'R' as u8],
            encode_utf8(before + text + behind),
        ) == Some(ControlOpView::ServerError(text)),
{
    let op = seq!['-' as u8, 'E' as u8, 'R' as u8, 'R' as u8];
    assert(op == seq![0x2Du8, 0x45, 0x52, 0x52]);
    assert(op.len() == 4 && op[0] == 0x2D);
    law_text_of_encoded(before + text + behind);
    law_trim_around(before, text, behind, '\'');
}

/// The description of an -ERR that is not valid UTF-8 is what is left of its decoded
/// text when the quotes around it are dropped.
pub proof fn law_err_lossy(args: Seq<u8>, before: Seq<char>, text: Seq<char>, behind: Seq<char>)
    requires
        !valid_utf8(args),
        lossy_utf8(args) == before + text + behind,
        forall|i: int| 0 <= i < before.len() ==> #[trigger] before[i] == '\'',
        forall|i: int| 0 <= i < behind.len() ==> #[trigger] behind[i] == '\'',
        text.len() > 0 ==> text[0] != '\'' && text[text.len() - 1] != '\'',
    ensures
        control_op(seq!['-' as u8, 'E' as u8, 'R' as u8, 'R' as u8], args) == Some(
            ControlOpView::ServerError(text),
        ),
{
    let op = seq!['-' as u8, 'E' as u8, 'R' as u8, 'R' as u8];
    assert(op == seq![0x2Du8, 0x45, 0x52, 0x52]);
    assert(op.len() == 4 && op[0] == 0x2D);
    law_trim_around(before, text, behind, '\'');
}

/// A PING is a PING and a PONG is a PONG, whatever arguments they come with.
pub proof fn law_ping_pong(args: Seq<u8>)
    ensures
        control_op(seq!['P' as u8, 'I' as u8, 'N' as u8, 'G' as u8], args) == Some(
            ControlOpView::Ping,
        ),
        control_op(seq!['P' as u8, 'O' as u8, 'N' as u8, 'G' as u8], args) == Some(
            ControlOpView::Pong,
        ),
{
    let ping = seq!['P' as u8, 'I' as u8, 'N' as u8, 'G' as u8];
    let pong = seq!['P' as u8, 'O' as u8, 'N' as u8, 'G' as u8];
    assert(ping == seq![0x50u8, 0x49, 0x4E, 0x47]);
    assert(pong == seq![0x50u8, 0x4F, 0x4E, 0x47]);
    assert(ping.len() == 4 && ping[0] == 0x50 && ping[1] == 0x49);
    assert(pong.len() == 4 && pong[0] == 0x50 && pong[1] == 0x4F);
}

/// An operation with any other name is unknown, and is known by all of that name.
pub proof fn law_unknown(op: Seq<u8>, args: Seq<u8>)
    requires
        op != seq!['M' as u8, 'S' as u8, 'G' as u8],
        op != seq!['I' as u8, 'N' as u8, 'F' as u8, 'O' as u8],
        op != seq!['P' as u8, 'I' as u8, 'N' as u8, 'G' as u8],
        op != seq!['P' as u8, 'O' as u8, 'N' as u8, 'G' as u8],
        op != seq!['-' as u8, 'E' as u8, 'R' as u8, 'R' as u8],
    ensures
        control_op(op, args) matches Some(ControlOpView::Unknown(name)) && name.len() == op.len()
            && (forall|i: int|
            0 <= i < op.len() ==> (#[trigger] name[i]) as int == op[i] as int),
{
    assert(seq!['M' as u8, 'S' as u8, 'G' as u8] == seq![0x4Du8, 0x53, 0x47]);
    assert(seq!['I' as u8, 'N' as u8, 'F' as u8, 'O' as u8] == seq![0x49u8, 0x4E, 0x46, 0x4F]);
    assert(seq!['P' as u8, 'I' as u8, 'N' as u8, 'G' as u8] == seq![0x50u8, 0x49, 0x4E, 0x47]);
    assert(seq!['P' as u8, 'O' as u8, 'N' as u8, 'G' as u8] == seq![0x50u8, 0x4F, 0x4E, 0x47]);
    assert(seq!['-' as u8, 'E' as u8, 'R' as u8, 'R' as u8] == seq![0x2Du8, 0x45, 0x52, 0x52]);
    law_ascii_text(op);
    assert(control_op(op, args) == Some(ControlOpView::Unknown(ascii_text(op))));
}

// ---------------------------------------------------------------------------
// Messages
// ---------------------------------------------------------------------------

/// The arguments of a MSG are a subject, a number, perhaps a subject for an answer, and
/// a length. They are read if and only if both numbers are ones that fit, and each
/// of them is read as it stands there.
pub proof fn law_msg_args(subject: Seq<char>, sid: Seq<char>, reply: Seq<char>, mlen: Seq<char>)
    requires
        forall|i: int| 0 <= i < subject.len() ==> #[trigger] subject[i] != ' ',
        forall|i: int| 0 <= i < sid.len() ==> #[trigger] sid[i] != ' ',
        forall|i: int| 0 <= i < reply.len() ==> #[trigger] reply[i] != ' ',
        forall|i: int| 0 <= i < mlen.len() ==> #[trigger] mlen[i] != ' ',
    ensures
        ({
            let short = spec_msg_args(subject + seq![' '] + sid + seq![' '] + mlen);
            let long = spec_msg_args(
                subject + seq![' '] + sid + seq![' '] + reply + seq![' '] + mlen,
            );
            let readable = decimal(sid, usize::MAX as nat) is Some && decimal(
                mlen,
                u32::MAX as nat,
            ) is Some;
            &&& short is Some <==> readable
            &&& long is Some <==> readable
            &&& readable ==> {
                &&& short->0.subject == subject && long->0.subject == subject
                &&& short->0.reply is None
                &&& long->0.reply == Some(reply)
                &&& short->0.sid as nat == decimal(sid, usize::MAX as nat)->0
                &&& long->0.sid as nat == decimal(sid, usize::MAX as nat)->0
                &&& short->0.mlen as nat == decimal(mlen, u32::MAX as nat)->0
                &&& long->0.mlen as nat == decimal(mlen, u32::MAX as nat)->0
            }
        }),
{
    law_split_fields(subject, sid, mlen, mlen, ' ');
    law_split_fields(subject, sid, reply, mlen, ' ');
}

/// Arguments with fewer fields or more are no MSG.
pub proof fn law_msg_args_fields(text: Seq<char>)
    ensures
        spec_msg_args(text) is Some ==> split(text, ' ').len() == 3 || split(text, ' ').len() == 4,
{
}

/// A MSG is read from the text of its arguments.
pub proof fn law_msg(text: Seq<char>)
    ensures
        ({
            let op = seq!['M' as u8, 'S' as u8, 'G' as u8];
            let read = control_op(op, encode_utf8(text));
            &&& spec_msg_args(text) is None ==> read is None
            &&& spec_msg_args(text) is Some ==> read == Some(
                ControlOpView::Msg(spec_msg_args(text)->0),
            )
        }),
{
    let op = seq!['M' as u8, 'S' as u8, 'G' as u8];
    assert(op == seq![0x4Du8, 0x53, 0x47]);
    law_text_of_encoded(text);
}

/// A MSG whose arguments are not valid UTF-8 is read from their decoded text.
pub proof fn law_msg_lossy(args: Seq<u8>)
    requires
        !valid_utf8(args),
    ensures
        ({
            let op = seq!['M' as u8, 'S' as u8, 'G' as u8];
            let expected = spec_msg_args(lossy_utf8(args));
            &&& expected is None ==> control_op(op, args) is None
            &&& expected is Some ==> control_op(op, args) == Some(ControlOpView::Msg(expected->0))
        }),
{
    let op = seq!['M' as u8, 'S' as u8, 'G' as u8];
    assert(op == seq![0x4Du8, 0x53, 0x47]);
}

/// A MSG line announces exactly the subjects, the number and the length that stand in
/// its arguments, whatever follows the line.
pub proof fn law_msg_line(
    blanks: Seq<u8>,
    subject: Seq<char>,
    sid: Seq<char>,
    reply: Option<Seq<char>>,
    mlen: Seq<char>,
    args: Seq<u8>,
    rest: Seq<u8>,
)
    requires
        blanks.len() > 0,
        forall|i: int|
            0 <= i < blanks.len() ==> #[trigger] blanks[i] == 0x20 || blanks[i] == 0x09,
        forall|i: int| 0 <= i < subject.len() ==> #[trigger] subject[i] != ' ',
        forall|i: int| 0 <= i < sid.len() ==> #[trigger] sid[i] != ' ',
        reply matches Some(r) ==> forall|i: int| 0 <= i < r.len() ==> #[trigger] r[i] != ' ',
        forall|i: int| 0 <= i < mlen.len() ==> #[trigger] mlen[i] != ' ',
        decimal(sid, usize::MAX as nat) is Some,
        decimal(mlen, u32::MAX as nat) is Some,
        reply is Some ==> args == encode_utf8(
            subject + seq![' '] + sid + seq![' '] + reply->0 + seq![' '] + mlen,
        ),
        reply is None ==> args == encode_utf8(subject + seq![' '] + sid + seq![' '] + mlen),
        args.len() > 0 ==> args[0] != 0x20 && args[0] != 0x09,
        forall|i: int|
            0 <= i < args.len() - 1 && #[trigger] args[i] == 0x0D ==> args[i + 1] != 0x0A,
    ensures
        ({
            let op = seq!['M' as u8, 'S' as u8, 'G' as u8];
            let line = op + blanks + args + seq![0x0Du8, 0x0A];
            &&& line_result(line + rest) matches Ok(ControlOpView::Msg(msg))
            &&& msg.subject == subject
            &&& msg.reply == reply
            &&& msg.sid as nat == decimal(sid, usize::MAX as nat)->0
            &&& msg.mlen as nat == decimal(mlen, u32::MAX as nat)->0
            &&& read_result(line + rest, (line + rest).len() as int) == (
                line_result(line + rest),
                line.len() as int,
            )
        }),
{
    let op = seq!['M' as u8, 'S' as u8, 'G' as u8];
    let text = match reply {
        Some(r) => subject + seq![' '] + sid + seq![' '] + r + seq![' '] + mlen,
        None => subject + seq![' '] + sid + seq![' '] + mlen,
    };
    let line = op + blanks + args + seq![0x0Du8, 0x0A];
    match reply {
        Some(r) => law_msg_args(subject, sid, r, mlen),
        None => law_msg_args(subject, sid, mlen, mlen),
    }
    law_msg(text);
    law_line(op, blanks, args, rest, (line + rest).len() as int);
}

// ---------------------------------------------------------------------------
// Lines that are no operation
// ---------------------------------------------------------------------------

/// A line without an operation is an error: that the connection was closed if it is
/// empty, and that it is malformed otherwise. A line with an operation says that
/// operation.
pub proof fn law_line_result(line: Seq<u8>)
    ensures
        line.len() == 0 ==> line_result(line) == Err::<ControlOpView, Error>(Error::SocketClosed),
        line.len() > 0 && !(frame(line) is Line) ==> line_result(line) == Err::<
            ControlOpView,
            Error,
        >(Error::Parse),
        frame(line) matches Framed::Line { op, args, .. } ==> {
            &&& control_op(op, args) is Some ==> line_result(line) == Ok::<ControlOpView, Error>(
                control_op(op, args)->0,
            )
            &&& control_op(op, args) is None ==> line_result(line) == Err::<ControlOpView, Error>(
                Error::Parse,
            )
        },
{
    if line.len() == 0 {
        assert(frame(line) is Incomplete);
    }
}

/// Reading waits for a line only where the buffer ends within an operation, and then
/// says what that line says. Otherwise it goes by the buffer alone.
pub proof fn law_read_result(s: Seq<u8>, buffered: int)
    requires
        0 <= buffered <= s.len(),
    ensures
        frame(s.take(buffered)) is Incomplete ==> read_result(s, buffered) == (
            line_result(line_of(s)),
            line_of(s).len() as int,
        ),
        !(frame(s.take(buffered)) is Incomplete) ==> read_result(s, buffered).0 == line_result(
            s.take(buffered),
        ),
        frame(s.take(buffered)) is Line && read_result(s, buffered).0 is Ok ==> read_result(
            s,
            buffered,
        ).1 == frame(s.take(buffered))->end,
{
    law_line_result(s.take(buffered));
}

} // verus!
