//! Framing of the lines that the server sends.
//!
//! An operation is a name, blanks, arguments and a line end. The arguments reach
//! up to the first carriage return that a line feed follows.

use vstd::prelude::*;
use vstd::slice::slice_subrange;

verus! {

/// Whether a byte can stand in the name of an operation: an upper case letter,
/// a minus or a plus sign.
pub open spec fn spec_is_valid_op_char(c: u8) -> bool {
    (0x41 <= c <= 0x5A) || c == 0x2D || c == 0x2B
}

/// Whether a byte separates the name of an operation from its arguments: a
/// space or a tab.
pub open spec fn spec_is_space(c: u8) -> bool {
    c == 0x20 || c == 0x09
}

/// Returns whether a byte can stand in the name of an operation.
pub fn is_valid_op_char(c: u8) -> (valid: bool)
    ensures
        valid == spec_is_valid_op_char(c),
        valid <==> (0x41 <= c <= 0x5A) || c == 0x2D || c == 0x2B,
{
    (c >= 0x41 && c <= 0x5A) || c == 0x2D || c == 0x2B
}

/// Returns whether a byte is a space or a tab.
fn is_space(c: u8) -> (space: bool)
    ensures
        space == spec_is_space(c),
        space <==> c == 0x20 || c == 0x09,
{
    c == 0x20 || c == 0x09
}

/// Where the run of bytes that satisfy `p` ends that starts at `from`.
pub open spec fn run_end(s: Seq<u8>, from: int, p: spec_fn(u8) -> bool) -> int
    decreases s.len() - from,
{
    if 0 <= from < s.len() && p(s[from]) {
        run_end(s, from + 1, p)
    } else {
        from
    }
}

/// Whether a carriage return and a line feed stand at `i`.
pub open spec fn crlf_at(s: Seq<u8>, i: int) -> bool {
    0 <= i && i + 1 < s.len() && s[i] == 0x0D && s[i + 1] == 0x0A
}

/// Where the first line end at or after `from` stands.
pub open spec fn find_crlf(s: Seq<u8>, from: int) -> Option<int>
    decreases s.len() - from,
{
    if from + 1 >= s.len() {
        None
    } else if crlf_at(s, from) {
        Some(from)
    } else {
        find_crlf(s, from + 1)
    }
}

/// The arguments that follow the name of an operation, and how many bytes they
/// take with the blanks before them and the line end behind them. There are none
/// yet where the line does not end.
pub open spec fn spec_control_args(s: Seq<u8>) -> Option<(Seq<u8>, int)> {
    let start = run_end(s, 0, |c: u8| spec_is_space(c));
    match find_crlf(s, start) {
        Some(end) => Some((s.subrange(start, end), end + 2)),
        None => None,
    }
}

/// What the bytes received so far start with.
pub enum Framed {
    /// No operation: the first byte cannot start one.
    Invalid,
    /// The beginning of an operation.
    Incomplete,
    /// An operation, which takes up the first `end` bytes.
    Line { op: Seq<u8>, args: Seq<u8>, end: int },
}

/// Frames the first operation of the bytes received so far.
pub open spec fn frame(s: Seq<u8>) -> Framed {
    let name_end = run_end(s, 0, |c: u8| spec_is_valid_op_char(c));
    if name_end == s.len() {
        Framed::Incomplete
    } else if name_end == 0 {
        Framed::Invalid
    } else {
        match spec_control_args(s.skip(name_end)) {
            Some((args, len)) => Framed::Line {
                op: s.take(name_end),
                args,
                end: name_end + len,
            },
            None => Framed::Incomplete,
        }
    }
}

proof fn lemma_run_end(s: Seq<u8>, from: int, p: spec_fn(u8) -> bool)
    requires
        0 <= from <= s.len(),
    ensures
        from <= run_end(s, from, p) <= s.len(),
        forall|i: int| from <= i < run_end(s, from, p) ==> p(#[trigger] s[i]),
        run_end(s, from, p) < s.len() ==> !p(s[run_end(s, from, p)]),
    decreases s.len() - from,
{
    if from < s.len() && p(s[from]) {
        lemma_run_end(s, from + 1, p);
    }
}

/// A position up to which all bytes satisfy `p`, and the next does not, is where
/// the run ends.
proof fn lemma_run_end_is(s: Seq<u8>, from: int, end: int, p: spec_fn(u8) -> bool)
    requires
        0 <= from <= end <= s.len(),
        forall|i: int| from <= i < end ==> p(#[trigger] s[i]),
        end < s.len() ==> !p(s[end]),
    ensures
        run_end(s, from, p) == end,
    decreases end - from,
{
    if from < end {
        assert(p(s[from]));
        lemma_run_end_is(s, from + 1, end, p);
    }
}

proof fn lemma_find_crlf(s: Seq<u8>, from: int)
    requires
        0 <= from,
    ensures
        match find_crlf(s, from) {
            Some(i) => from <= i && crlf_at(s, i) && (forall|k: int|
                from <= k < i ==> !(#[trigger] crlf_at(s, k))),
            None => forall|k: int| from <= k ==> !(#[trigger] crlf_at(s, k)),
        },
    decreases s.len() - from,
{
    if from + 1 < s.len() && !crlf_at(s, from) {
        lemma_find_crlf(s, from + 1);
    }
}

/// The first line end at or after a position is the one that `find_crlf` gives.
proof fn lemma_find_crlf_is(s: Seq<u8>, from: int, at: int)
    requires
        0 <= from <= at,
        crlf_at(s, at),
        forall|k: int| from <= k < at ==> !(#[trigger] crlf_at(s, k)),
    ensures
        find_crlf(s, from) == Some(at),
    decreases at - from,
{
    if from < at {
        assert(!crlf_at(s, from));
        lemma_find_crlf_is(s, from + 1, at);
    }
}

/// An operation with its arguments, as it stands in the input.
pub struct ControlLine<'a> {
    pub op: &'a [u8],
    pub args: &'a [u8],
    /// How many bytes the line takes up, with its line end.
    pub end: usize,
}

/// The outcome of looking for an operation in the input.
pub enum Scan<'a> {
    Invalid,
    Incomplete,
    Line(ControlLine<'a>),
}

impl<'a> View for Scan<'a> {
    type V = Framed;

    open spec fn view(&self) -> Framed {
        match self {
            Scan::Invalid => Framed::Invalid,
            Scan::Incomplete => Framed::Incomplete,
            Scan::Line(line) => Framed::Line {
                op: line.op@,
                args: line.args@,
                end: line.end as int,
            },
        }
    }
}

/// Reads the arguments behind the name of an operation: blanks are skipped, and
/// the arguments reach up to the first line end. Returns them with the number of
/// bytes read, or nothing where the line does not end.
pub fn control_args(input: &[u8]) -> (found: Option<(&[u8], usize)>)
    ensures
        match found {
            Some((args, len)) => spec_control_args(input@) == Some((args@, len as int)),
            None => spec_control_args(input@) is None,
        },
{
    let ghost blank = |c: u8| spec_is_space(c);
    let mut start: usize = 0;
    while start < input.len() && is_space(input[start])
        invariant
            start <= input.len(),
            blank == (|c: u8| spec_is_space(c)),
            run_end(input@, 0, blank) == run_end(input@, start as int, blank),
        decreases input.len() - start,
    {
        start += 1;
    }
    let mut i: usize = start;
    while i < input.len() && i + 1 < input.len()
        invariant
            start <= i <= input.len(),
            blank == (|c: u8| spec_is_space(c)),
            run_end(input@, 0, blank) == start,
            find_crlf(input@, start as int) == find_crlf(input@, i as int),
        decreases input.len() - i,
    {
        if input[i] == 0x0D && input[i + 1] == 0x0A {
            return Some((slice_subrange(input, start, i), i + 2));
        }
        i += 1;
    }
    None
}

/// Looks for an operation at the start of the input.
pub fn scan(input: &[u8]) -> (found: Scan<'_>)
    ensures
        found@ == frame(input@),
        match found {
            Scan::Invalid => frame(input@) is Invalid,
            Scan::Incomplete => frame(input@) is Incomplete,
            Scan::Line(line) => frame(input@) == (Framed::Line {
                op: line.op@,
                args: line.args@,
                end: line.end as int,
            }),
        },
{
    let ghost named = |c: u8| spec_is_valid_op_char(c);
    let mut name_end: usize = 0;
    while name_end < input.len() && is_valid_op_char(input[name_end])
        invariant
            name_end <= input.len(),
            named == (|c: u8| spec_is_valid_op_char(c)),
            run_end(input@, 0, named) == run_end(input@, name_end as int, named),
        decreases input.len() - name_end,
    {
        name_end += 1;
    }
    if name_end == input.len() {
        return Scan::Incomplete;
    }
    if name_end == 0 {
        return Scan::Invalid;
    }
    let rest = slice_subrange(input, name_end, input.len());
    proof {
        assert(rest@ == input@.skip(name_end as int));
        let start = run_end(rest@, 0, |c: u8| spec_is_space(c));
        lemma_run_end(rest@, 0, |c: u8| spec_is_space(c));
        lemma_find_crlf(rest@, start);
    }
    match control_args(rest) {
        Some((args, len)) => {
            let op = slice_subrange(input, 0, name_end);
            assert(op@ == input@.take(name_end as int));
            Scan::Line(ControlLine { op, args, end: name_end + len })
        },
        None => Scan::Incomplete,
    }
}

/// Whether bytes are what a reader takes up to and with a line feed: only their
/// last byte can be one.
pub open spec fn one_line(s: Seq<u8>) -> bool {
    forall|i: int| 0 <= i < s.len() - 1 ==> #[trigger] s[i] != 0x0A
}

/// What a reader takes up to and with the first line feed, or all there is.
pub open spec fn line_of(s: Seq<u8>) -> Seq<u8> {
    let end = run_end(s, 0, |c: u8| c != 0x0A);
    if end < s.len() {
        s.take(end + 1)
    } else {
        s
    }
}

// ---------------------------------------------------------------------------
// Laws
// ---------------------------------------------------------------------------

/// Where the parts of a framed line stand: the name up to `name_end`, blanks up to
/// `args_start`, the arguments up to `args_end`, and the line end behind them.
spec fn framed_at(s: Seq<u8>, name_end: int, args_start: int, args_end: int) -> bool {
    &&& 0 < name_end <= args_start <= args_end
    &&& crlf_at(s, args_end)
    &&& forall|i: int| 0 <= i < name_end ==> spec_is_valid_op_char(#[trigger] s[i])
    &&& !spec_is_valid_op_char(s[name_end])
    &&& forall|i: int| name_end <= i < args_start ==> spec_is_space(#[trigger] s[i])
    &&& !spec_is_space(s[args_start])
    &&& forall|k: int| args_start <= k < args_end ==> !(#[trigger] crlf_at(s, k))
}

/// The line that stands at given places.
spec fn line_at(s: Seq<u8>, name_end: int, args_start: int, args_end: int) -> Framed {
    Framed::Line {
        op: s.take(name_end),
        args: s.subrange(args_start, args_end),
        end: args_end + 2,
    }
}

proof fn lemma_frame_at(s: Seq<u8>, name_end: int, args_start: int, args_end: int)
    requires
        framed_at(s, name_end, args_start, args_end),
    ensures
        frame(s) == line_at(s, name_end, args_start, args_end),
{
    let rest = s.skip(name_end);
    lemma_run_end_is(s, 0, name_end, |c: u8| spec_is_valid_op_char(c));
    assert forall|i: int| 0 <= i < args_start - name_end implies spec_is_space(
        #[trigger] rest[i],
    ) by {
        assert(rest[i] == s[name_end + i]);
    }
    lemma_run_end_is(rest, 0, args_start - name_end, |c: u8| spec_is_space(c));
    assert forall|k: int| args_start - name_end <= k < args_end - name_end implies !(
    #[trigger] crlf_at(rest, k)) by {
        assert(!crlf_at(s, k + name_end));
    }
    lemma_find_crlf_is(rest, args_start - name_end, args_end - name_end);
    assert(rest.subrange(args_start - name_end, args_end - name_end) == s.subrange(
        args_start,
        args_end,
    ));
}

/// A framed line has its parts where its name, its arguments and its end say.
proof fn lemma_frame_places(s: Seq<u8>)
    ensures
        frame(s) matches Framed::Line { op, args, end } ==> {
            let args_start = end - 2 - args.len();
            &&& framed_at(s, op.len() as int, args_start, end - 2)
            &&& frame(s) == line_at(s, op.len() as int, args_start, end - 2)
            &&& 0 < end <= s.len()
            &&& forall|i: int| 0 <= i < op.len() ==> spec_is_valid_op_char(#[trigger] op[i])
        },
        frame(s) is Invalid <==> s.len() > 0 && !spec_is_valid_op_char(s[0]),
{
    let named = |c: u8| spec_is_valid_op_char(c);
    let blank = |c: u8| spec_is_space(c);
    let name_end = run_end(s, 0, named);
    lemma_run_end(s, 0, named);
    if 0 < name_end < s.len() {
        assert(named(s[0]));
        let rest = s.skip(name_end);
        let start = run_end(rest, 0, blank);
        lemma_run_end(rest, 0, blank);
        lemma_find_crlf(rest, start);
        if let Some(end) = find_crlf(rest, start) {
            let args_start = name_end + start;
            let args_end = name_end + end;
            assert forall|i: int| 0 <= i < name_end implies spec_is_valid_op_char(
                #[trigger] s[i],
            ) by {
                assert(named(s[i]));
            }
            assert forall|i: int| name_end <= i < args_start implies spec_is_space(
                #[trigger] s[i],
            ) by {
                assert(blank(rest[i - name_end]));
            }
            assert forall|k: int| args_start <= k < args_end implies !(#[trigger] crlf_at(
                s,
                k,
            )) by {
                assert(!crlf_at(rest, k - name_end));
            }
            assert(crlf_at(s, args_end));
            assert(s[args_start] == rest[start]);
            assert(rest.subrange(start, end) == s.subrange(args_start, args_end));
            assert(framed_at(s, name_end, args_start, args_end));
        }
    } else if name_end == 0 && s.len() > 0 {
        assert(!named(s[0]));
    } else if s.len() > 0 {
        assert(named(s[0]));
    }
}

proof fn lemma_framed_at_prefix(s: Seq<u8>, b: int, name_end: int, args_start: int, args_end: int)
    requires
        args_end + 2 <= b <= s.len(),
        0 < name_end <= args_start <= args_end,
    ensures
        framed_at(s.take(b), name_end, args_start, args_end) == framed_at(
            s,
            name_end,
            args_start,
            args_end,
        ),
        line_at(s.take(b), name_end, args_start, args_end) == line_at(
            s,
            name_end,
            args_start,
            args_end,
        ),
{
    let t = s.take(b);
    assert forall|k: int| k <= args_end implies #[trigger] crlf_at(t, k) == crlf_at(s, k) by {}
    assert(forall|i: int| 0 <= i < b ==> t[i] == s[i]);
    if framed_at(t, name_end, args_start, args_end) {
        assert forall|k: int| args_start <= k < args_end implies !(#[trigger] crlf_at(s, k)) by {
            assert(!crlf_at(t, k));
        }
        assert forall|i: int| 0 <= i < name_end implies spec_is_valid_op_char(#[trigger] s[i]) by {
            assert(t[i] == s[i]);
        }
        assert forall|i: int| name_end <= i < args_start implies spec_is_space(#[trigger] s[i]) by {
            assert(t[i] == s[i]);
        }
        assert(crlf_at(t, args_end));
    }
    if framed_at(s, name_end, args_start, args_end) {
        assert(crlf_at(t, args_end));
        assert forall|k: int| args_start <= k < args_end implies !(#[trigger] crlf_at(t, k)) by {
            assert(!crlf_at(s, k));
        }
    }
    assert(t.take(name_end) == s.take(name_end));
    assert(t.subrange(args_start, args_end) == s.subrange(args_start, args_end));
}

/// A framed operation is a name, blanks, arguments and a line end, one after the
/// other. The name is not empty and holds name bytes only, and the first line end
/// behind the blanks is the one that ends the operation.
pub proof fn law_frame_line(s: Seq<u8>)
    ensures
        frame(s) matches Framed::Line { op, args, end } ==> {
            let args_start = end - 2 - args.len();
            let blanks = s.subrange(op.len() as int, args_start);
            &&& 0 < op.len() <= args_start
            &&& end <= s.len()
            &&& s.take(end) == op + blanks + args + seq![0x0Du8, 0x0A]
            &&& forall|i: int| 0 <= i < op.len() ==> spec_is_valid_op_char(#[trigger] op[i])
            &&& forall|i: int| 0 <= i < blanks.len() ==> spec_is_space(#[trigger] blanks[i])
            &&& forall|k: int| args_start <= k < end - 2 ==> !(#[trigger] crlf_at(s, k))
        },
{
    lemma_frame_places(s);
    if let Framed::Line { op, args, end } = frame(s) {
        let args_start = end - 2 - args.len();
        let blanks = s.subrange(op.len() as int, args_start);
        assert(s.take(end) == op + blanks + args + seq![0x0Du8, 0x0A]);
    }
}

/// A reader that has received only some of the bytes of an operation sees the
/// beginning of one, and a reader that has received all of them, and perhaps
/// more, sees that operation.
pub proof fn law_frame_prefix(s: Seq<u8>, received: int)
    requires
        frame(s) is Line,
        0 <= received <= s.len(),
    ensures
        frame(s.take(received)) == if received < frame(s)->end {
            Framed::Incomplete
        } else {
            frame(s)
        },
{
    let t = s.take(received);
    lemma_frame_places(s);
    lemma_frame_places(t);
    let name_end = frame(s)->op.len() as int;
    let args_end = frame(s)->end - 2;
    let args_start = args_end - frame(s)->args.len();
    if received >= frame(s)->end {
        lemma_framed_at_prefix(s, received, name_end, args_start, args_end);
        lemma_frame_at(t, name_end, args_start, args_end);
    } else if frame(t) is Line {
        let n = frame(t)->op.len() as int;
        let e = frame(t)->end - 2;
        let a = e - frame(t)->args.len();
        lemma_framed_at_prefix(s, received, n, a, e);
        lemma_frame_at(s, n, a, e);
        assert(false);
    } else if t.len() > 0 {
        assert(t[0] == s[0]);
    }
}

/// Bytes that arrive behind an operation do not change how it is framed, and bytes
/// that cannot start an operation stay that way.
pub proof fn law_frame_extend(s: Seq<u8>, more: Seq<u8>)
    requires
        !(frame(s) is Incomplete),
    ensures
        frame(s + more) == frame(s),
{
    let t = s + more;
    assert(t.take(s.len() as int) == s);
    lemma_frame_places(s);
    lemma_frame_places(t);
    if frame(s) is Line {
        let name_end = frame(s)->op.len() as int;
        let args_end = frame(s)->end - 2;
        let args_start = args_end - frame(s)->args.len();
        lemma_framed_at_prefix(t, s.len() as int, name_end, args_start, args_end);
        lemma_frame_at(t, name_end, args_start, args_end);
    } else {
        assert(t[0] == s[0]);
    }
}

/// A name, blanks, arguments and a line end, one after the other, are framed as
/// just that operation, whatever follows. Nothing but the name must read as part
/// of it, the arguments must not start with a blank, and no line end may stand
/// within them.
pub proof fn law_frame_parts(
    op: Seq<u8>,
    blanks: Seq<u8>,
    args: Seq<u8>,
    rest: Seq<u8>,
)
    requires
        op.len() > 0,
        forall|i: int| 0 <= i < op.len() ==> spec_is_valid_op_char(#[trigger] op[i]),
        forall|i: int| 0 <= i < blanks.len() ==> spec_is_space(#[trigger] blanks[i]),
        blanks.len() == 0 && args.len() > 0 ==> !spec_is_valid_op_char(args[0]),
        args.len() > 0 ==> !spec_is_space(args[0]),
        forall|k: int| !(#[trigger] crlf_at(args, k)),
    ensures
        ({
            let line = op + blanks + args + seq![0x0Du8, 0x0A];
            frame(line + rest) == Framed::Line { op, args, end: line.len() as int }
        }),
{
    let line = op + blanks + args + seq![0x0Du8, 0x0A];
    let s = line + rest;
    let name_end = op.len() as int;
    let args_start: int = name_end + blanks.len();
    let args_end: int = args_start + args.len();
    assert(crlf_at(s, args_end));
    assert forall|i: int| 0 <= i < name_end implies spec_is_valid_op_char(#[trigger] s[i]) by {
        assert(s[i] == op[i]);
    }
    assert forall|i: int| name_end <= i < args_start implies spec_is_space(#[trigger] s[i]) by {
        assert(s[i] == blanks[i - name_end]);
    }
    if blanks.len() > 0 {
        assert(s[name_end] == blanks[0]);
    } else if args.len() > 0 {
        assert(s[name_end] == args[0]);
    }
    if args.len() > 0 {
        assert(s[args_start] == args[0]);
    }
    assert forall|k: int| args_start <= k < args_end implies !(#[trigger] crlf_at(s, k)) by {
        if crlf_at(s, k) {
            assert(s[k] == args[k - args_start]);
            if k + 1 < args_end {
                assert(s[k + 1] == args[k + 1 - args_start]);
                assert(crlf_at(args, k - args_start));
            } else {
                assert(s[args_end] == 0x0D);
            }
        }
    }
    assert(framed_at(s, name_end, args_start, args_end));
    lemma_frame_at(s, name_end, args_start, args_end);
    assert(s.take(name_end) == op);
    assert(s.subrange(args_start, args_end) == args);
}

/// A line taken off the connection holds a line feed at its end only. It is what the
/// input starts with, and there is none only if there is no input.
pub proof fn law_line_of(s: Seq<u8>)
    ensures
        one_line(line_of(s)),
        line_of(s).len() <= s.len(),
        line_of(s) == s.take(line_of(s).len() as int),
        line_of(s).len() == 0 <==> s.len() == 0,
{
    lemma_run_end(s, 0, |c: u8| c != 0x0A);
    let text = |c: u8| c != 0x0A;
    assert forall|i: int| 0 <= i < line_of(s).len() - 1 implies #[trigger] line_of(s)[i]
        != 0x0A by {
        assert(text(s[i]));
    }
}

/// The first line that is taken off the connection is a framed operation in which
/// no line feed stands before its end, and nothing else.
pub proof fn law_line_is_operation(s: Seq<u8>)
    requires
        frame(s) is Line,
        one_line(s.take(frame(s)->end)),
    ensures
        line_of(s) == s.take(frame(s)->end),
        frame(line_of(s)) == frame(s),
{
    lemma_frame_places(s);
    let end = frame(s)->end;
    let text = |c: u8| c != 0x0A;
    assert(crlf_at(s, end - 2));
    assert forall|i: int| 0 <= i < end - 1 implies text(#[trigger] s[i]) by {
        assert(s.take(end)[i] != 0x0A);
    }
    lemma_run_end_is(s, 0, end - 1, text);
    law_frame_prefix(s, end);
}

/// The bytes of a name are the upper case letters, minus and plus; blanks are the
/// space and the tab; a line ends with a carriage return and a line feed.
pub proof fn law_bytes(c: u8, s: Seq<u8>, i: int)
    ensures
        spec_is_valid_op_char(c) <==> ('A' as u8 <= c <= 'Z' as u8) || c == '-' as u8 || c
            == '+' as u8,
        spec_is_space(c) <==> c == ' ' as u8 || c == '\t' as u8,
        crlf_at(s, i) <==> 0 <= i < s.len() - 1 && s[i] == '\r' as u8 && s[i + 1] == '\n' as u8,
{
}

/// A run ends with the first byte that does not satisfy what the run is made of, or
/// with the input.
pub proof fn law_run_end(s: Seq<u8>, from: int, p: spec_fn(u8) -> bool)
    requires
        0 <= from <= s.len(),
    ensures
        from <= run_end(s, from, p) <= s.len(),
        forall|i: int| from <= i < run_end(s, from, p) ==> p(#[trigger] s[i]),
        run_end(s, from, p) < s.len() ==> !p(s[run_end(s, from, p)]),
{
    lemma_run_end(s, from, p);
}

/// The first line end is found: it is one, and none stands before it. None is found
/// only where there is none.
pub proof fn law_find_crlf(s: Seq<u8>, from: int, k: int)
    requires
        0 <= from <= k,
    ensures
        match find_crlf(s, from) {
            Some(i) => {
                &&& from <= i < s.len() - 1
                &&& s[i] == 0x0D && s[i + 1] == 0x0A
                &&& k < i ==> !(s[k] == 0x0D && s[k + 1] == 0x0A)
            },
            None => k < s.len() - 1 ==> !(s[k] == 0x0D && s[k + 1] == 0x0A),
        },
{
    lemma_find_crlf(s, from);
    match find_crlf(s, from) {
        Some(i) => assert(k < i ==> !crlf_at(s, k)),
        None => assert(!crlf_at(s, k)),
    }
}

/// Blanks, arguments and a line end, one after the other, give those arguments, and
/// take up all bytes up to the line end and with it, whatever follows.
pub proof fn law_control_args(blanks: Seq<u8>, args: Seq<u8>, rest: Seq<u8>)
    requires
        forall|i: int|
            0 <= i < blanks.len() ==> #[trigger] blanks[i] == 0x20 || blanks[i] == 0x09,
        args.len() > 0 ==> args[0] != 0x20 && args[0] != 0x09,
        forall|i: int|
            0 <= i < args.len() - 1 && #[trigger] args[i] == 0x0D ==> args[i + 1] != 0x0A,
    ensures
        spec_control_args(blanks + args + seq![0x0Du8, 0x0A] + rest) == Some(
            (args, (blanks.len() + args.len() + 2) as int),
        ),
{
    let s = blanks + args + seq![0x0Du8, 0x0A] + rest;
    let start = blanks.len() as int;
    let end: int = start + args.len();
    assert forall|i: int| 0 <= i < start implies spec_is_space(#[trigger] s[i]) by {
        assert(s[i] == blanks[i]);
    }
    if args.len() > 0 {
        assert(s[start] == args[0]);
    }
    assert(s[end] == 0x0D);
    lemma_run_end_is(s, 0, start, |c: u8| spec_is_space(c));
    assert(crlf_at(s, end));
    assert forall|k: int| start <= k < end implies !(#[trigger] crlf_at(s, k)) by {
        assert(s[k] == args[k - start]);
        if k + 1 < end {
            assert(s[k + 1] == args[k + 1 - start]);
        }
    }
    lemma_find_crlf_is(s, start, end);
    assert(s.subrange(start, end) == args);
}

/// Arguments that are found stand behind blanks and before the first line end; none are
/// found only where there is no line end.
pub proof fn law_control_args_found(s: Seq<u8>)
    ensures
        match spec_control_args(s) {
            Some((args, len)) => {
                let start = len - 2 - args.len();
                &&& 0 <= start && len <= s.len()
                &&& s.take(len) == s.take(start) + args + seq![0x0Du8, 0x0A]
                &&& forall|i: int| 0 <= i < start ==> #[trigger] s[i] == 0x20 || s[i] == 0x09
                &&& s[start] != 0x20 && s[start] != 0x09
                &&& forall|i: int|
                    0 <= i < args.len() - 1 && #[trigger] args[i] == 0x0D ==> args[i + 1] != 0x0A
            },
            None => forall|i: int|
                0 <= i < s.len() - 1 && #[trigger] s[i] == 0x0D ==> s[i + 1] != 0x0A,
        },
{
    let blank = |c: u8| spec_is_space(c);
    let start = run_end(s, 0, blank);
    lemma_run_end(s, 0, blank);
    lemma_find_crlf(s, start);
    assert forall|i: int| 0 <= i < start implies #[trigger] s[i] == 0x20 || s[i] == 0x09 by {
        assert(blank(s[i]));
    }
    match find_crlf(s, start) {
        Some(end) => {
            let args = s.subrange(start, end);
            assert(!blank(s[start]));
            assert(s.take(end + 2) == s.take(start) + args + seq![0x0Du8, 0x0A]);
            assert forall|i: int|
                0 <= i < args.len() - 1 && #[trigger] args[i] == 0x0D implies args[i + 1]
                != 0x0A by {
                assert(!crlf_at(s, start + i));
            }
        },
        None => {
            assert forall|i: int| 0 <= i < s.len() - 1 && #[trigger] s[i] == 0x0D implies s[i + 1]
                != 0x0A by {
                assert(!crlf_at(s, i));
            }
        },
    }
}

/// A name, blanks, arguments and a line end are framed as an operation with just that
/// name and just those arguments, whatever their length and whatever follows.
pub proof fn law_operation_is_framed(
    op: Seq<u8>,
    blanks: Seq<u8>,
    args: Seq<u8>,
    rest: Seq<u8>,
)
    requires
        op.len() > 0,
        forall|i: int|
            0 <= i < op.len() ==> (0x41 <= #[trigger] op[i] <= 0x5A) || op[i] == 0x2D || op[i]
                == 0x2B,
        forall|i: int|
            0 <= i < blanks.len() ==> #[trigger] blanks[i] == 0x20 || blanks[i] == 0x09,
        args.len() > 0 ==> args[0] != 0x20 && args[0] != 0x09,
        blanks.len() == 0 && args.len() > 0 ==> !(0x41 <= args[0] <= 0x5A) && args[0] != 0x2D
            && args[0] != 0x2B,
        forall|i: int|
            0 <= i < args.len() - 1 && #[trigger] args[i] == 0x0D ==> args[i + 1] != 0x0A,
    ensures
        ({
            let line = op + blanks + args + seq![0x0Du8, 0x0A];
            frame(line + rest) == Framed::Line {
                op,
                args,
                end: (op.len() + blanks.len() + args.len() + 2) as int,
            }
        }),
{
    assert forall|k: int| !(#[trigger] crlf_at(args, k)) by {
        if crlf_at(args, k) {
            assert(args[k] == 0x0D);
        }
    }
    law_frame_parts(op, blanks, args, rest);
}

/// What is framed as an operation is a name, blanks, arguments and a line end. Bytes
/// are no operation if and only if the first of them cannot start one.
pub proof fn law_framed_is_operation(s: Seq<u8>)
    ensures
        frame(s) matches Framed::Line { op, args, end } ==> {
            let start = end - 2 - args.len();
            &&& 0 < op.len() <= start && end <= s.len()
            &&& s.take(end) == op + s.subrange(op.len() as int, start) + args + seq![0x0Du8, 0x0A]
            &&& forall|i: int|
                0 <= i < op.len() ==> (0x41 <= #[trigger] op[i] <= 0x5A) || op[i] == 0x2D || op[i]
                    == 0x2B
            &&& forall|i: int|
                op.len() <= i < start ==> #[trigger] s[i] == 0x20 || s[i] == 0x09
            &&& forall|i: int|
                0 <= i < args.len() - 1 && #[trigger] args[i] == 0x0D ==> args[i + 1] != 0x0A
        },
        frame(s) is Invalid <==> s.len() > 0 && !((0x41 <= s[0] <= 0x5A) || s[0] == 0x2D || s[0]
            == 0x2B),
{
    lemma_frame_places(s);
    law_frame_line(s);
    if let Framed::Line { op, args, end } = frame(s) {
        let start = end - 2 - args.len();
        assert forall|i: int| 0 <= i < args.len() - 1 && #[trigger] args[i] == 0x0D implies args[i
            + 1] != 0x0A by {
            assert(!crlf_at(s, start + i));
            assert(s[start + i] == args[i]);
            assert(s[start + i + 1] == args[i + 1]);
        }
        assert forall|i: int| op.len() <= i < start implies #[trigger] s[i] == 0x20 || s[i]
            == 0x09 by {
            assert(spec_is_space(s[i]));
        }
    }
}

/// Bytes are framed as an operation if and only if the first of them can start one and
/// a line end stands among them.
pub proof fn law_framed_when(s: Seq<u8>)
    ensures
        frame(s) is Line <==> {
            &&& s.len() > 0
            &&& (0x41 <= s[0] <= 0x5A) || s[0] == 0x2D || s[0] == 0x2B
            &&& exists|i: int| 0 <= i < s.len() - 1 && #[trigger] s[i] == 0x0D && s[i + 1] == 0x0A
        },
{
    lemma_frame_places(s);
    let named = |c: u8| spec_is_valid_op_char(c);
    let name_end = run_end(s, 0, named);
    lemma_run_end(s, 0, named);
    if frame(s) is Line {
        assert(crlf_at(s, frame(s)->end - 2));
        assert(s[frame(s)->end - 2] == 0x0D);
        assert(named(s[0]));
    } else if exists|i: int| 0 <= i < s.len() - 1 && #[trigger] s[i] == 0x0D && s[i + 1] == 0x0A {
        let i = choose|i: int|
            0 <= i < s.len() - 1 && #[trigger] s[i] == 0x0D && s[i + 1] == 0x0A;
        assert(!named(s[i]));
        if 0 < name_end {
            let rest = s.skip(name_end);
            assert(rest[i - name_end] == s[i]);
            assert(rest[i + 1 - name_end] == s[i + 1]);
            law_control_args_found(rest);
        }
    }
}

/// The outcome of looking for an operation tells it with its name and its arguments
/// unaltered, and with the number of bytes it takes up.
pub proof fn law_scan_view(line: ControlLine)
    ensures
        Scan::Line(line)@ == (Framed::Line {
            op: line.op@,
            args: line.args@,
            end: line.end as int,
        }),
        Scan::Invalid@ is Invalid,
        Scan::Incomplete@ is Incomplete,
{
}

/// Bytes are one line if and only if no line feed stands before the last of them.
pub proof fn law_one_line(s: Seq<u8>)
    ensures
        one_line(s) <==> forall|i: int| 0 <= i < s.len() - 1 ==> #[trigger] s[i] != '\n' as u8,
{
}

/// The line that is taken off the connection reaches up to the first line feed and
/// with it, whatever follows. Without a line feed it is all there is.
pub proof fn law_line_of_feed(text: Seq<u8>, rest: Seq<u8>)
    requires
        forall|i: int| 0 <= i < text.len() ==> #[trigger] text[i] != 0x0A,
    ensures
        line_of(text + seq![0x0Au8] + rest) == text + seq![0x0Au8],
        line_of(text) == text,
{
    let p = |c: u8| c != 0x0A;
    let s = text + seq![0x0Au8] + rest;
    let n = text.len() as int;
    assert forall|i: int| 0 <= i < n implies p(#[trigger] s[i]) by {
        assert(s[i] == text[i]);
    }
    assert(s[n] == 0x0A);
    lemma_run_end_is(s, 0, n, p);
    assert(s.take(n + 1) == text + seq![0x0Au8]);
    assert forall|i: int| 0 <= i < n implies p(#[trigger] text[i]) by {}
    lemma_run_end_is(text, 0, n, p);
}

} // verus!
