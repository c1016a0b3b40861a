use nats_client::error::{Error, ErrorKind};
use nats_client::frame::{control_args, is_valid_op_char, scan, Scan};
use nats_client::parser::{
    expect_info, parse_control_line, parse_control_op, parse_err, parse_error, parse_info,
    parse_msg_args, read_err, read_msg_args, ControlOp, MsgArgs, Parsed,
};
use nom::bytes::streaming::{take_until, take_while, take_while1};
use nom::character::streaming::crlf;
use nom::sequence::tuple;
use nom::IResult;
use std::io::{BufRead, BufReader};
use std::str::FromStr;

fn msg(args: &[u8]) -> MsgArgs {
    match parse_msg_args(args) {
        Ok(ControlOp::Msg(args)) => args,
        other => panic!("not a message: {:?}", other),
    }
}

fn op_of(input: &[u8]) -> (ControlOp<Vec<u8>>, usize) {
    match parse_control_op(input) {
        Ok(Parsed::Op { op, consumed }) => (op, consumed),
        other => panic!("not an operation: {:?}", other),
    }
}

#[test]
fn op_chars() {
    for c in 0..=255u8 {
        let expected = (b'A'..=b'Z').contains(&c) || c == b'-' || c == b'+';
        assert_eq!(is_valid_op_char(c), expected, "{}", c);
    }
}

#[test]
fn msg_without_reply() {
    let args = msg(b"foo.bar 9 11");
    assert_eq!(args.subject, "foo.bar");
    assert_eq!(args.reply, None);
    assert_eq!(args.sid, 9);
    assert_eq!(args.mlen, 11);
}

#[test]
fn msg_with_reply() {
    let args = msg(b"foo.bar 9 _INBOX.34 4294967295");
    assert_eq!(args.subject, "foo.bar");
    assert_eq!(args.reply.as_deref(), Some("_INBOX.34"));
    assert_eq!(args.sid, 9);
    assert_eq!(args.mlen, 4294967295);
}

#[test]
fn msg_numbers_may_have_a_plus_sign_and_leading_zeros() {
    let args = msg(b"a +007 +0");
    assert_eq!(args.sid, 7);
    assert_eq!(args.mlen, 0);
}

#[test]
fn msg_fields_may_be_empty() {
    let args = msg(b" 1  2");
    assert_eq!(args.subject, "");
    assert_eq!(args.reply.as_deref(), Some(""));
    assert_eq!(args.sid, 1);
    assert_eq!(args.mlen, 2);
}

#[test]
fn msg_errors() {
    let bad: [&[u8]; 14] = [
        b"", b"a", b"a 1", b"a 1 2 3 4", b"a x 1", b"a 1 x", b"a -1 1", b"a 1 -1", b"a + 1",
        b"a 1 +", b"a  1", b"a 1 4294967296", b"a 18446744073709551616 1", b"a 1 1\t",
    ];
    for args in bad {
        assert!(matches!(parse_msg_args(args), Err(Error::Parse)), "{:?}", args);
    }
}

#[test]
fn msg_text_beyond_ascii() {
    let args = msg("grüße.漢字 3 5".as_bytes());
    assert_eq!(args.subject, "grüße.漢字");
    let args = msg(b"a\xFFb 3 5");
    assert_eq!(args.subject, "a\u{FFFD}b");
}

/// The same reading with what the standard library offers.
fn msg_by_std(text: &str) -> Option<(String, Option<String>, u32, usize)> {
    let fields: Vec<&str> = text.split(' ').collect();
    let (len_index, reply) = match fields.len() {
        3 => (2, None),
        4 => (3, Some(fields[2].to_owned())),
        _ => return None,
    };
    let sid = usize::from_str(fields[1]).ok()?;
    let mlen = u32::from_str(fields[len_index]).ok()?;
    Some((fields[0].to_owned(), reply, mlen, sid))
}

#[test]
fn msg_args_agree_with_std() {
    let words = [
        "", "a", "+", "-", "0", "7", "+7", "++7", "-7", "7a", "00000000000000000000009",
        "4294967295", "4294967296", "18446744073709551615", "18446744073709551616", "é",
    ];
    let mut texts: Vec<String> = words.iter().map(|w| w.to_string()).collect();
    for a in words {
        for b in words {
            texts.push(format!("{} {}", a, b));
            for c in words {
                texts.push(format!("{} {} {}", a, b, c));
            }
        }
    }
    for b in words {
        for c in words {
            for d in words {
                texts.push(format!("s {} {} {}", b, c, d));
                texts.push(format!("s {} {} {} x", b, c, d));
            }
        }
    }
    for text in texts {
        let read = read_msg_args(&text)
            .ok()
            .map(|args| (args.subject, args.reply, args.mlen, args.sid));
        assert_eq!(read, msg_by_std(&text), "{:?}", text);
    }
}

#[test]
fn err_descriptions_lose_their_quotes() {
    let texts = [
        "'Unknown Protocol Operation'", "", "'", "''", "'''", "no quotes", "'a", "a'", "it's",
        "''a'b''", " 'a'", "'é'",
    ];
    for text in texts {
        match read_err(text) {
            ControlOp::ServerError(description) => {
                assert_eq!(description, text.trim_matches('\''), "{:?}", text)
            }
            other => panic!("{:?}", other),
        }
    }
    match parse_err(b"'Stale Connection'") {
        ControlOp::ServerError(description) => assert_eq!(description, "Stale Connection"),
        other => panic!("{:?}", other),
    }
    match parse_err(b"'\xC3\x28'") {
        ControlOp::ServerError(description) => assert_eq!(description, "\u{FFFD}("),
        other => panic!("{:?}", other),
    }
}

#[test]
fn one_operation_of_each_kind() {
    assert!(matches!(op_of(b"PING\r\n"), (ControlOp::Ping, 6)));
    assert!(matches!(op_of(b"PONG\r\n"), (ControlOp::Pong, 6)));
    match op_of(b"MSG foo 1 5\r\nhello\r\n") {
        (ControlOp::Msg(args), 13) => {
            assert_eq!(args.subject, "foo");
            assert_eq!(args.sid, 1);
            assert_eq!(args.mlen, 5);
        }
        other => panic!("{:?}", other),
    }
    match op_of(b"INFO {\"server_id\":\"x\"} \r\nPING\r\n") {
        (ControlOp::Info(json), 25) => assert_eq!(json, b"{\"server_id\":\"x\"} "),
        other => panic!("{:?}", other),
    }
    match op_of(b"-ERR 'bad'\r\n") {
        (ControlOp::ServerError(text), 12) => assert_eq!(text, "bad"),
        other => panic!("{:?}", other),
    }
    match op_of(b"+OK\r\n") {
        (ControlOp::Unknown(name), 5) => assert_eq!(name, "+OK"),
        other => panic!("{:?}", other),
    }
    match op_of(b"MSGS a\r\n") {
        (ControlOp::Unknown(name), 8) => assert_eq!(name, "MSGS"),
        other => panic!("{:?}", other),
    }
}

#[test]
fn framing_details() {
    // Blanks are spaces and tabs, and a name ends where no name byte follows.
    match op_of(b"INFO \t  {}\r\n") {
        (ControlOp::Info(json), 12) => assert_eq!(json, b"{}"),
        other => panic!("{:?}", other),
    }
    match op_of(b"INFO{}\r\n") {
        (ControlOp::Info(json), 8) => assert_eq!(json, b"{}"),
        other => panic!("{:?}", other),
    }
    assert!(matches!(op_of(b"PINGx y\r\n"), (ControlOp::Ping, 9)));
    // A carriage return or a line feed alone does not end a line.
    match op_of(b"INFO a\rb\nc\r\r\n") {
        (ControlOp::Info(json), 13) => assert_eq!(json, b"a\rb\nc\r"),
        other => panic!("{:?}", other),
    }
    assert_eq!(control_args(b"  a b\r\nrest"), Some((&b"a b"[..], 7)));
    assert_eq!(control_args(b"\r\n"), Some((&b""[..], 2)));
    assert_eq!(control_args(b"  a b\r"), None);
}

#[test]
fn incomplete_and_invalid_input() {
    for input in [&b""[..], b"P", b"PING", b"PING ", b"PING\r", b"PING \t", b"PING x\n", b"-ERR 'a'"] {
        assert!(matches!(parse_control_op(input), Ok(Parsed::NeedLine)), "{:?}", input);
    }
    for input in [&b"ping\r\n"[..], b" PING\r\n", b"\r\n", b"1"] {
        assert!(matches!(parse_control_op(input), Err(Error::Parse)), "{:?}", input);
    }
    assert!(matches!(parse_control_op(b"MSG a b c\r\n"), Err(Error::Parse)));
}

#[test]
fn lines() {
    assert!(matches!(parse_control_line(b"PING\r\n"), Ok(ControlOp::Ping)));
    assert!(matches!(parse_control_line(b""), Err(Error::SocketClosed)));
    assert!(matches!(parse_control_line(b"PING\n"), Err(Error::Parse)));
    assert!(matches!(parse_control_line(b"PING\r"), Err(Error::Parse)));
    assert!(matches!(parse_control_line(b"PI"), Err(Error::Parse)));
    assert!(matches!(parse_control_line(b"ping\r\n"), Err(Error::Parse)));
    assert!(matches!(parse_control_line(b"MSG a b c\r\n"), Err(Error::Parse)));
}

fn info_op() -> ControlOp<Vec<u8>> {
    ControlOp::Info(b"{}".to_vec())
}

#[test]
fn info_documents_are_replaced_by_what_they_decode_to() {
    assert!(matches!(parse_info(info_op(), Some(Ok(7u8))), Ok(ControlOp::Info(7))));
    let failed = parse_info::<u8>(info_op(), Some(Err(Error::Parse)));
    assert!(matches!(failed, Err(Error::Parse)));
    assert!(matches!(parse_info::<u8>(ControlOp::Ping, None), Ok(ControlOp::Ping)));
    assert!(matches!(parse_info::<u8>(ControlOp::Pong, None), Ok(ControlOp::Pong)));
    match parse_info::<u8>(ControlOp::ServerError("e".to_string()), None) {
        Ok(ControlOp::ServerError(text)) => assert_eq!(text, "e"),
        other => panic!("{:?}", other),
    }
    match parse_info::<u8>(ControlOp::Unknown("U".to_string()), None) {
        Ok(ControlOp::Unknown(name)) => assert_eq!(name, "U"),
        other => panic!("{:?}", other),
    }
    match parse_info::<u8>(ControlOp::Msg(msg(b"a 1 2")), None) {
        Ok(ControlOp::Msg(args)) => assert_eq!(args.subject, "a"),
        other => panic!("{:?}", other),
    }
}

#[test]
fn info_is_expected_first() {
    assert!(matches!(expect_info(Ok(ControlOp::Info(3u8))), Ok(3)));
    assert!(matches!(expect_info::<u8>(Ok(ControlOp::Ping)), Err(Error::InfoNotFound)));
    assert!(matches!(expect_info::<u8>(Err(Error::SocketClosed)), Err(Error::SocketClosed)));
}

#[test]
fn error_kinds_and_messages() {
    let errors = [
        (parse_error(), Some(ErrorKind::InvalidInput), Some("parsing error")),
        (Error::SocketClosed, Some(ErrorKind::UnexpectedEof), Some("socket closed")),
        (Error::InfoNotFound, Some(ErrorKind::Other), Some("INFO proto not found")),
        (Error::NoReplySubject, Some(ErrorKind::InvalidInput), Some("No reply subject available")),
        (Error::BufferFull, Some(ErrorKind::Other), Some("the disconnection buffer is full")),
        (Error::ConnectionReset, Some(ErrorKind::ConnectionReset), None),
        (Error::TimedOut, Some(ErrorKind::TimedOut), None),
        (Error::Io(std::io::ErrorKind::BrokenPipe.into()), None, None),
    ];
    for (error, kind, message) in errors {
        assert_eq!(error.kind(), kind);
        assert_eq!(error.message(), message);
    }
}

fn is_blank(c: u8) -> bool {
    c == b' ' || c == b'\t'
}

/// The same framing with parser combinators: the name, the arguments and the rest.
fn frame_by_combinators(input: &[u8]) -> Result<(Vec<u8>, Vec<u8>, usize), bool> {
    let framed: IResult<&[u8], (&[u8], &[u8], &[u8], &[u8])> = tuple((
        take_while1(is_valid_op_char),
        take_while(is_blank),
        take_until("\r\n"),
        crlf,
    ))(input);
    match framed {
        Ok((rest, (op, _, args, _))) => Ok((op.to_vec(), args.to_vec(), rest.len())),
        Err(nom::Err::Incomplete(_)) => Err(true),
        Err(_) => Err(false),
    }
}

#[test]
fn framing_agrees_with_parser_combinators() {
    let alphabet = [b'A', b'+', b'x', b' ', b'\t', b'\r', b'\n'];
    for len in 0..=6usize {
        let mut digits = vec![0usize; len];
        'inputs: loop {
            let input: Vec<u8> = digits.iter().map(|d| alphabet[*d]).collect();
            let expected = frame_by_combinators(&input);
            match scan(&input) {
                Scan::Line(line) => {
                    let found = (line.op.to_vec(), line.args.to_vec(), input.len() - line.end);
                    assert_eq!(Ok(found), expected, "{:?}", input);
                }
                Scan::Incomplete => assert_eq!(Err(true), expected, "{:?}", input),
                Scan::Invalid => assert_eq!(Err(false), expected, "{:?}", input),
            }
            for digit in digits.iter_mut() {
                *digit += 1;
                if *digit < alphabet.len() {
                    continue 'inputs;
                }
                *digit = 0;
            }
            break;
        }
    }
}

/// Reads one operation the way a client does.
fn read_op(reader: &mut impl BufRead) -> Result<ControlOp<Vec<u8>>, Error> {
    match parse_control_op(reader.fill_buf().unwrap())? {
        Parsed::Op { op, consumed } => {
            reader.consume(consumed);
            Ok(op)
        }
        Parsed::NeedLine => {
            let mut line = Vec::new();
            reader.read_until(b'\n', &mut line).unwrap();
            parse_control_line(&line)
        }
    }
}

#[test]
fn buffering_makes_no_difference() {
    let input = b"INFO {\"a\":1}\r\nPING\r\n+OK\r\n-ERR 'no'\r\nMSG a.b 12 r 3\r\nPONG\r\n";
    for capacity in 1..=input.len() + 1 {
        let mut reader = BufReader::with_capacity(capacity, &input[..]);
        match read_op(&mut reader) {
            Ok(ControlOp::Info(json)) => assert_eq!(json, b"{\"a\":1}"),
            other => panic!("{:?}", other),
        }
        assert!(matches!(read_op(&mut reader), Ok(ControlOp::Ping)));
        assert!(matches!(read_op(&mut reader), Ok(ControlOp::Unknown(_))));
        match read_op(&mut reader) {
            Ok(ControlOp::ServerError(text)) => assert_eq!(text, "no"),
            other => panic!("{:?}", other),
        }
        match read_op(&mut reader) {
            Ok(ControlOp::Msg(args)) => {
                assert_eq!(args.subject, "a.b");
                assert_eq!(args.sid, 12);
                assert_eq!(args.reply.as_deref(), Some("r"));
                assert_eq!(args.mlen, 3);
            }
            other => panic!("{:?}", other),
        }
        assert!(matches!(read_op(&mut reader), Ok(ControlOp::Pong)));
        assert!(matches!(read_op(&mut reader), Err(Error::SocketClosed)));
    }
}

#[test]
fn msg_lines_are_read_back() {
    for sid in [0usize, 9, 10, 12345, usize::MAX] {
        for mlen in [0u32, 5, 100, u32::MAX] {
            for reply in [None, Some("_INBOX.1")] {
                let line = match reply {
                    Some(reply) => format!("MSG s.ü {} {} {}\r\n", sid, reply, mlen),
                    None => format!("MSG s.ü {} {}\r\n", sid, mlen),
                };
                match op_of(line.as_bytes()) {
                    (ControlOp::Msg(args), consumed) => {
                        assert_eq!(consumed, line.len());
                        assert_eq!(args.subject, "s.ü");
                        assert_eq!(args.reply.as_deref(), reply);
                        assert_eq!(args.sid, sid);
                        assert_eq!(args.mlen, mlen);
                    }
                    other => panic!("{:?}", other),
                }
            }
        }
    }
}

#[test]
fn bytes_behind_an_operation_do_not_matter() {
    let line = b"MSG a 1 2\r\n";
    for more in [&b""[..], b"\r\n", b"xyz", b"\n", b"PING\r\n"] {
        let input = [&line[..], more].concat();
        match op_of(&input) {
            (ControlOp::Msg(args), consumed) => {
                assert_eq!(consumed, line.len());
                assert_eq!(args.subject, "a");
            }
            other => panic!("{:?}", other),
        }
        for received in 0..line.len() {
            assert!(matches!(parse_control_op(&input[..received]), Ok(Parsed::NeedLine)));
        }
    }
}

#[test]
fn truncated_input_is_an_error_however_it_is_buffered() {
    let line = b"MSG a.b 12 r 3\r\n";
    for len in 0..line.len() {
        for capacity in 1..=line.len() {
            let mut reader = BufReader::with_capacity(capacity, &line[..len]);
            match read_op(&mut reader) {
                Err(Error::SocketClosed) => assert_eq!(len, 0),
                Err(Error::Parse) => assert!(len > 0),
                other => panic!("{:?}", other),
            }
        }
    }
}
