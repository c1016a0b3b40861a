//! Operations that the server sends.

use crate::error::Error;
use crate::frame::{
    crlf_at, frame, law_frame_extend, law_frame_line, law_frame_parts, law_frame_prefix,
    law_line_is_operation, law_line_of, line_of, one_line, scan, spec_is_space,
    spec_is_valid_op_char, Framed, Scan,
};
use crate::text::{
    ascii_text, chars_of, decimal, decimal_text, from_utf8_lossy, join, law_decimal_round_trip,
    law_split_join, lemma_ascii_is_utf8, parse_decimal, split, split_bounds, text_of, trim,
    trim_matches,
};
use vstd::prelude::*;
use vstd::slice::slice_to_vec;
use vstd::string::StrSliceExecFns;
use vstd::utf8::{decode_utf8, valid_utf8};

verus! {

// ---------------------------------------------------------------------------
// Operations
// ---------------------------------------------------------------------------

/// The arguments of a MSG operation.
#[derive(Debug)]
pub struct MsgArgs {
    /// The subject the message was published to.
    pub subject: String,
    /// The subject for an answer, where the publisher gave one.
    pub reply: Option<String>,
    /// The length of the payload that follows the line.
    pub mlen: u32,
    /// The subscription that the message is for.
    pub sid: usize,
}

/// An operation sent by the server. The JSON document of an INFO is of type `I`:
/// its bytes as they were received, or what they were decoded to.
#[derive(Debug)]
pub enum ControlOp<I> {
    Msg(MsgArgs),
    Info(I),
    Ping,
    Pong,
    ServerError(String),
    Unknown(String),
}

/// The arguments of a MSG operation, as plain text and numbers.
#[verifier::ext_equal]
pub struct MsgArgsView {
    pub subject: Seq<char>,
    pub reply: Option<Seq<char>>,
    pub mlen: u32,
    pub sid: usize,
}

/// An operation with its text and bytes spelled out.
#[verifier::ext_equal]
pub enum ControlOpView {
    Msg(MsgArgsView),
    Info(Seq<u8>),
    Ping,
    Pong,
    ServerError(Seq<char>),
    Unknown(Seq<char>),
}

impl View for MsgArgs {
    type V = MsgArgsView;

    open spec fn view(&self) -> MsgArgsView {
        MsgArgsView {
            subject: self.subject@,
            reply: match self.reply {
                Some(reply) => Some(reply@),
                None => None,
            },
            mlen: self.mlen,
            sid: self.sid,
        }
    }
}

impl View for ControlOp<Vec<u8>> {
    type V = ControlOpView;

    open spec fn view(&self) -> ControlOpView {
        match self {
            ControlOp::Msg(args) => ControlOpView::Msg(args@),
            ControlOp::Info(json) => ControlOpView::Info(json@),
            ControlOp::Ping => ControlOpView::Ping,
            ControlOp::Pong => ControlOpView::Pong,
            ControlOp::ServerError(text) => ControlOpView::ServerError(text@),
            ControlOp::Unknown(name) => ControlOpView::Unknown(name@),
        }
    }
}

/// What the arguments of a MSG say: `subject sid [reply] length`, with one space
/// between each two. Nothing, where they are not of that form.
pub open spec fn spec_msg_args(text: Seq<char>) -> Option<MsgArgsView> {
    let fields = split(text, ' ');
    if fields.len() != 3 && fields.len() != 4 {
        None
    } else {
        match (decimal(fields[1], usize::MAX as nat), decimal(fields.last(), u32::MAX as nat)) {
            (Some(sid), Some(mlen)) => Some(
                MsgArgsView {
                    subject: fields[0],
                    reply: if fields.len() == 4 {
                        Some(fields[2])
                    } else {
                        None
                    },
                    mlen: mlen as u32,
                    sid: sid as usize,
                },
            ),
            _ => None,
        }
    }
}

/// The operation with a given name and arguments. Nothing, where it is a MSG
/// whose arguments are not well-formed.
pub open spec fn control_op(op: Seq<u8>, args: Seq<u8>) -> Option<ControlOpView> {
    if op == seq![0x4Du8, 0x53, 0x47] {
        // MSG
        match spec_msg_args(text_of(args)) {
            Some(args) => Some(ControlOpView::Msg(args)),
            None => None,
        }
    } else if op == seq![0x49u8, 0x4E, 0x46, 0x4F] {
        // INFO
        Some(ControlOpView::Info(args))
    } else if op == seq![0x50u8, 0x49, 0x4E, 0x47] {
        // PING
        Some(ControlOpView::Ping)
    } else if op == seq![0x50u8, 0x4F, 0x4E, 0x47] {
        // PONG
        Some(ControlOpView::Pong)
    } else if op == seq![0x2Du8, 0x45, 0x52, 0x52] {
        // -ERR
        Some(ControlOpView::ServerError(trim(text_of(args), '\'')))
    } else {
        Some(ControlOpView::Unknown(ascii_text(op)))
    }
}

/// The error for bytes that are not a well-formed operation.
pub fn parse_error() -> (error: Error)
    ensures
        error == Error::Parse,
{
    Error::Parse
}

/// Reads the arguments of a MSG operation from their text.
pub fn read_msg_args(text: &str) -> (args: Result<MsgArgs, Error>)
    ensures
        match spec_msg_args(text@) {
            Some(expected) => args matches Ok(args) && args@ == expected,
            None => args == Err::<MsgArgs, Error>(Error::Parse),
        },
        args is Ok <==> {
            let fields = split(text@, ' ');
            &&& fields.len() == 3 || fields.len() == 4
            &&& decimal(fields[1], usize::MAX as nat) is Some
            &&& decimal(fields[fields.len() - 1], u32::MAX as nat) is Some
        },
        args matches Ok(args) ==> {
            let fields = split(text@, ' ');
            &&& args.subject@ == fields[0]
            &&& decimal(fields[1], usize::MAX as nat) == Some(args.sid as nat)
            &&& decimal(fields[fields.len() - 1], u32::MAX as nat) == Some(args.mlen as nat)
            &&& args.reply is Some <==> fields.len() == 4
            &&& args.reply matches Some(reply) ==> reply@ == fields[2]
        },
{
    let chars = chars_of(text);
    let bounds = split_bounds(&chars, ' ');
    if bounds.len() != 3 && bounds.len() != 4 {
        return Err(parse_error());
    }
    let (subject_from, subject_to) = bounds[0];
    let (sid_from, sid_to) = bounds[1];
    let (len_from, len_to) = bounds[bounds.len() - 1];
    let sid = match parse_decimal(&chars, sid_from, sid_to, usize::MAX as u64) {
        Some(sid) => sid as usize,
        None => return Err(parse_error()),
    };
    let mlen = match parse_decimal(&chars, len_from, len_to, u32::MAX as u64) {
        Some(mlen) => mlen as u32,
        None => return Err(parse_error()),
    };
    let reply = if bounds.len() == 4 {
        let (reply_from, reply_to) = bounds[2];
        Some(text.substring_char(reply_from, reply_to).to_owned())
    } else {
        None
    };
    let subject = text.substring_char(subject_from, subject_to).to_owned();
    Ok(MsgArgs { subject, reply, mlen, sid })
}

/// Reads the arguments of a MSG operation.
pub fn parse_msg_args(args: &[u8]) -> (op: Result<ControlOp<Vec<u8>>, Error>)
    ensures
        match spec_msg_args(text_of(args@)) {
            Some(expected) => op matches Ok(op) && op@ == ControlOpView::Msg(expected),
            None => op == Err::<ControlOp<Vec<u8>>, Error>(Error::Parse),
        },
{
    let text = from_utf8_lossy(args);
    match read_msg_args(text.as_str()) {
        Ok(args) => Ok(ControlOp::Msg(args)),
        Err(error) => Err(error),
    }
}

/// Reads the description of an -ERR operation from its text: the quotes around
/// it are dropped.
pub fn read_err(text: &str) -> (op: ControlOp<Vec<u8>>)
    ensures
        op@ == ControlOpView::ServerError(trim(text@, '\'')),
        op matches ControlOp::ServerError(description) && description@ == trim(text@, '\''),
{
    ControlOp::ServerError(trim_matches(text, '\''))
}

/// Reads the description of an -ERR operation.
pub fn parse_err(args: &[u8]) -> (op: ControlOp<Vec<u8>>)
    ensures
        op@ == ControlOpView::ServerError(trim(text_of(args@), '\'')),
        op matches ControlOp::ServerError(description) && description@ == trim(
            text_of(args@),
            '\'',
        ),
{
    let text = from_utf8_lossy(args);
    read_err(text.as_str())
}

/// Reads an operation from its name and its arguments.
fn dispatch(op: &[u8], args: &[u8]) -> (parsed: Result<ControlOp<Vec<u8>>, Error>)
    requires
        forall|i: int| 0 <= i < op.len() ==> spec_is_valid_op_char(#[trigger] op[i]),
    ensures
        match control_op(op@, args@) {
            Some(expected) => parsed matches Ok(op) && op@ == expected,
            None => parsed == Err::<ControlOp<Vec<u8>>, Error>(Error::Parse),
        },
{
    if op.len() == 3 && op[0] == 0x4D && op[1] == 0x53 && op[2] == 0x47 {
        assert(op@ == seq![0x4Du8, 0x53, 0x47]);
        parse_msg_args(args)
    } else if op.len() == 4 && op[0] == 0x49 && op[1] == 0x4E && op[2] == 0x46 && op[3] == 0x4F {
        assert(op@ == seq![0x49u8, 0x4E, 0x46, 0x4F]);
        Ok(ControlOp::Info(slice_to_vec(args)))
    } else if op.len() == 4 && op[0] == 0x50 && op[1] == 0x49 && op[2] == 0x4E && op[3] == 0x47 {
        assert(op@ == seq![0x50u8, 0x49, 0x4E, 0x47]);
        Ok(ControlOp::Ping)
    } else if op.len() == 4 && op[0] == 0x50 && op[1] == 0x4F && op[2] == 0x4E && op[3] == 0x47 {
        assert(op@ == seq![0x50u8, 0x4F, 0x4E, 0x47]);
        Ok(ControlOp::Pong)
    } else if op.len() == 4 && op[0] == 0x2D && op[1] == 0x45 && op[2] == 0x52 && op[3] == 0x52 {
        assert(op@ == seq![0x2Du8, 0x45, 0x52, 0x52]);
        Ok(parse_err(args))
    } else {
        proof {
            lemma_ascii_is_utf8(op@);
        }
        Ok(ControlOp::Unknown(from_utf8_lossy(op)))
    }
}

// ---------------------------------------------------------------------------
// Reading from a connection
// ---------------------------------------------------------------------------

/// What a look at the buffered input gives.
#[derive(Debug)]
pub enum Parsed {
    /// An operation. The reader is to drop the bytes it takes up.
    Op { op: ControlOp<Vec<u8>>, consumed: usize },
    /// The buffer ends within an operation. The reader is to take everything up
    /// to and with the next line feed, or what is left, and to hand that to
    /// [`parse_control_line`].
    NeedLine,
}

/// Reads an operation from the bytes that a reader has buffered.
pub fn parse_control_op(input: &[u8]) -> (parsed: Result<Parsed, Error>)
    ensures
        match frame(input@) {
            Framed::Invalid => parsed == Err::<Parsed, Error>(Error::Parse),
            Framed::Incomplete => parsed == Ok::<Parsed, Error>(Parsed::NeedLine),
            Framed::Line { op, args, end } => match control_op(op, args) {
                Some(expected) => parsed matches Ok(Parsed::Op { op, consumed }) && op@ == expected
                    && consumed == end && 0 < consumed <= input.len(),
                None => parsed == Err::<Parsed, Error>(Error::Parse),
            },
        },
{
    proof {
        law_frame_line(input@);
    }
    match scan(input) {
        Scan::Invalid => Err(parse_error()),
        Scan::Incomplete => Ok(Parsed::NeedLine),
        Scan::Line(line) => {
            match dispatch(line.op, line.args) {
                Ok(op) => Ok(Parsed::Op { op, consumed: line.end }),
                Err(error) => Err(error),
            }
        },
    }
}

/// What a line that was taken off the connection says. There are no bytes in it
/// where the connection was closed.
pub open spec fn line_result(line: Seq<u8>) -> Result<ControlOpView, Error> {
    match frame(line) {
        Framed::Line { op, args, .. } => match control_op(op, args) {
            Some(op) => Ok(op),
            None => Err(Error::Parse),
        },
        _ => if line.len() == 0 {
            Err(Error::SocketClosed)
        } else {
            Err(Error::Parse)
        },
    }
}

/// Reads an operation from a line that was taken off the connection. The line is
/// used up by that: nothing in it follows the operation.
pub fn parse_control_line(line: &[u8]) -> (parsed: Result<ControlOp<Vec<u8>>, Error>)
    requires
        one_line(line@),
    ensures
        match line_result(line@) {
            Ok(expected) => parsed matches Ok(op) && op@ == expected && frame(line@)->end
                == line.len(),
            Err(error) => parsed == Err::<ControlOp<Vec<u8>>, Error>(error),
        },
        match frame(line@) {
            Framed::Line { op, args, end } => end == line.len() && match control_op(op, args) {
                Some(expected) => parsed matches Ok(op) && op@ == expected,
                None => parsed == Err::<ControlOp<Vec<u8>>, Error>(Error::Parse),
            },
            _ => parsed == Err::<ControlOp<Vec<u8>>, Error>(
                if line.len() == 0 {
                    Error::SocketClosed
                } else {
                    Error::Parse
                },
            ),
        },
{
    proof {
        law_frame_line(line@);
    }
    match scan(line) {
        Scan::Line(found) => {
            assert(line[found.end - 1] == 0x0A) by {
                assert(line@.take(found.end as int).last() == 0x0A);
            }
            dispatch(found.op, found.args)
        },
        _ => {
            if line.len() == 0 {
                Err(Error::SocketClosed)
            } else {
                Err(parse_error())
            }
        },
    }
}

/// Puts what the JSON document of an INFO was decoded to in its place. Operations
/// of other kinds stay as they are.
pub fn parse_info<I>(op: ControlOp<Vec<u8>>, decoded: Option<Result<I, Error>>) -> (parsed: Result<
    ControlOp<I>,
    Error,
>)
    requires
        op is Info == decoded is Some,
    ensures
        match op {
            ControlOp::Info(_) => match decoded->0 {
                Ok(info) => parsed == Ok::<ControlOp<I>, Error>(ControlOp::Info(info)),
                Err(error) => parsed == Err::<ControlOp<I>, Error>(error),
            },
            ControlOp::Msg(args) => parsed == Ok::<ControlOp<I>, Error>(ControlOp::Msg(args)),
            ControlOp::Ping => parsed == Ok::<ControlOp<I>, Error>(ControlOp::Ping),
            ControlOp::Pong => parsed == Ok::<ControlOp<I>, Error>(ControlOp::Pong),
            ControlOp::ServerError(text) => parsed == Ok::<ControlOp<I>, Error>(
                ControlOp::ServerError(text),
            ),
            ControlOp::Unknown(name) => parsed == Ok::<ControlOp<I>, Error>(
                ControlOp::Unknown(name),
            ),
        },
{
    match op {
        ControlOp::Info(_) => {
            match decoded {
                Some(Ok(info)) => Ok(ControlOp::Info(info)),
                Some(Err(error)) => Err(error),
                None => Err(parse_error()),
            }
        },
        ControlOp::Msg(args) => Ok(ControlOp::Msg(args)),
        ControlOp::Ping => Ok(ControlOp::Ping),
        ControlOp::Pong => Ok(ControlOp::Pong),
        ControlOp::ServerError(text) => Ok(ControlOp::ServerError(text)),
        ControlOp::Unknown(name) => Ok(ControlOp::Unknown(name)),
    }
}

/// Takes the information out of the INFO that a server sends first.
pub fn expect_info<I>(op: Result<ControlOp<I>, Error>) -> (info: Result<I, Error>)
    ensures
        match op {
            Ok(ControlOp::Info(expected)) => info == Ok::<I, Error>(expected),
            Ok(_) => info == Err::<I, Error>(Error::InfoNotFound),
            Err(error) => info == Err::<I, Error>(error),
        },
{
    match op {
        Ok(ControlOp::Info(info)) => Ok(info),
        Ok(_) => Err(Error::InfoNotFound),
        Err(error) => Err(error),
    }
}

// ---------------------------------------------------------------------------
// Laws
// ---------------------------------------------------------------------------

/// What reading an operation gives, and how many bytes it uses up, if so many of
/// the bytes to come are buffered. A line is taken off the connection only if the
/// buffer ends within an operation.
pub open spec fn read_result(s: Seq<u8>, buffered: int) -> (Result<ControlOpView, Error>, int) {
    match frame(s.take(buffered)) {
        Framed::Invalid => (Err(Error::Parse), 0),
        Framed::Incomplete => (line_result(line_of(s)), line_of(s).len() as int),
        Framed::Line { op, args, end } => match control_op(op, args) {
            Some(op) => (Ok(op), end),
            None => (Err(Error::Parse), 0),
        },
    }
}

/// However much of the input is buffered when an operation is read, the same
/// operation or the same error comes out: that of the input as a whole. An operation
/// uses up just its own bytes. This holds as long as no line feed stands within the
/// operation.
pub proof fn law_buffering(s: Seq<u8>, buffered: int)
    requires
        frame(s) is Line ==> one_line(s.take(frame(s)->end)),
        0 <= buffered <= s.len(),
    ensures
        one_line(line_of(s)),
        read_result(s, buffered).0 == line_result(s),
        read_result(s, buffered).0 is Ok ==> read_result(s, buffered).1 == frame(s)->end,
{
    law_line_of(s);
    let t = s.take(buffered);
    if frame(s) is Line {
        law_frame_line(s);
        law_frame_prefix(s, buffered);
        law_line_is_operation(s);
    } else {
        let line = line_of(s);
        if !(frame(t) is Incomplete) {
            assert(t + s.skip(buffered) == s);
            law_frame_extend(t, s.skip(buffered));
        }
        if frame(line) is Line {
            assert(line + s.skip(line.len() as int) == s);
            law_frame_extend(line, s.skip(line.len() as int));
        }
    }
}

/// The text of the arguments of a MSG operation.
pub open spec fn msg_text(args: MsgArgsView) -> Seq<char> {
    let sid = decimal_text(args.sid as nat);
    let mlen = decimal_text(args.mlen as nat);
    match args.reply {
        Some(reply) => join(seq![args.subject, sid, reply, mlen], ' '),
        None => join(seq![args.subject, sid, mlen], ' '),
    }
}

/// The arguments of a MSG operation are read back from their text, as long as no
/// subject holds a space.
pub proof fn law_msg_text_round_trip(args: MsgArgsView)
    requires
        !args.subject.contains(' '),
        args.reply matches Some(reply) ==> !reply.contains(' '),
    ensures
        spec_msg_args(msg_text(args)) == Some(args),
{
    let sid = decimal_text(args.sid as nat);
    let mlen = decimal_text(args.mlen as nat);
    law_decimal_round_trip(args.sid as nat, usize::MAX as nat);
    law_decimal_round_trip(args.mlen as nat, u32::MAX as nat);
    let fields = match args.reply {
        Some(reply) => seq![args.subject, sid, reply, mlen],
        None => seq![args.subject, sid, mlen],
    };
    law_split_join(fields, ' ');
    assert(split(msg_text(args), ' ') == fields);
}

/// A MSG line is read back as the message it announces: its arguments are valid
/// UTF-8 for the text of those arguments, do not start with a blank and hold no
/// line end.
pub proof fn law_msg_line_round_trip(bytes: Seq<u8>, args: MsgArgsView, rest: Seq<u8>)
    requires
        !args.subject.contains(' '),
        args.reply matches Some(reply) ==> !reply.contains(' '),
        valid_utf8(bytes),
        decode_utf8(bytes) == msg_text(args),
        bytes.len() > 0,
        !spec_is_space(bytes[0]),
        forall|k: int| !(#[trigger] crlf_at(bytes, k)),
    ensures
        ({
            let op = seq![0x4Du8, 0x53, 0x47];
            let line = op + seq![0x20u8] + bytes + seq![0x0Du8, 0x0A];
            &&& frame(line + rest) == Framed::Line { op, args: bytes, end: line.len() as int }
            &&& control_op(op, bytes) == Some(ControlOpView::Msg(args))
        }),
{
    let op = seq![0x4Du8, 0x53, 0x47];
    law_frame_parts(op, seq![0x20u8], bytes, rest);
    law_msg_text_round_trip(args);
}

} // verus!
