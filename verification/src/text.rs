//! Text inside protocol lines: decoding, fields, quotes and decimal numbers.

use vstd::prelude::*;
use vstd::string::StrSliceExecFns;
use vstd::utf8::{
    decode_utf8, encode_utf8, encode_utf8_decode_utf8, encode_utf8_valid_utf8, is_ascii_chars,
    is_ascii_chars_encode_utf8, valid_utf8,
};

verus! {

// ---------------------------------------------------------------------------
// Decoding
// ---------------------------------------------------------------------------

/// What `String::from_utf8_lossy` makes of bytes that are not valid UTF-8.
pub uninterp spec fn lossy_utf8(bytes: Seq<u8>) -> Seq<char>;

/// The text of bytes: what they encode if they are valid UTF-8, and otherwise a
/// text in which replacement characters stand for what does not decode.
pub open spec fn text_of(bytes: Seq<u8>) -> Seq<char> {
    if valid_utf8(bytes) {
        decode_utf8(bytes)
    } else {
        lossy_utf8(bytes)
    }
}

/// Decodes bytes with `String::from_utf8_lossy`.
///
/// Trusted: bytes that are valid UTF-8 give the text they encode, and the text of
/// other bytes is a function of the bytes alone. Where the replacement characters
/// stand in the latter is left open.
#[verifier::external_body]
pub(crate) fn from_utf8_lossy(bytes: &[u8]) -> (text: String)
    ensures
        valid_utf8(bytes@) ==> text@ == decode_utf8(bytes@),
        !valid_utf8(bytes@) ==> text@ == lossy_utf8(bytes@),
{
    String::from_utf8_lossy(bytes).into_owned()
}

/// The text of bytes that are each one ASCII character.
pub open spec fn ascii_text(bytes: Seq<u8>) -> Seq<char> {
    bytes.map_values(|b: u8| b as char)
}

/// ASCII bytes are valid UTF-8 and encode the characters with their numbers.
pub(crate) proof fn lemma_ascii_is_utf8(bytes: Seq<u8>)
    requires
        forall|i: int| 0 <= i < bytes.len() ==> #[trigger] bytes[i] < 0x80,
    ensures
        valid_utf8(bytes),
        decode_utf8(bytes) == ascii_text(bytes),
        encode_utf8(ascii_text(bytes)) == bytes,
{
    let text = ascii_text(bytes);
    assert forall|i: int| 0 <= i < text.len() implies (text[i] as u32) < 0x80 && #[trigger] (
    text[i] as u8) == bytes[i] by {
        assert(bytes[i] < 0x80);
        assert(text[i] == bytes[i] as char);
    }
    assert(is_ascii_chars(text));
    is_ascii_chars_encode_utf8(text);
    assert(encode_utf8(text) == bytes);
    encode_utf8_valid_utf8(text);
    encode_utf8_decode_utf8(text);
}

/// Bytes that encode a text give that text, whatever it is.
pub proof fn law_text_of_encoded(text: Seq<char>)
    ensures
        text_of(encode_utf8(text)) == text,
{
    encode_utf8_valid_utf8(text);
    encode_utf8_decode_utf8(text);
}

/// Replacement characters come in only where bytes are not valid UTF-8.
pub proof fn law_text_of(bytes: Seq<u8>)
    ensures
        valid_utf8(bytes) ==> text_of(bytes) == decode_utf8(bytes),
        !valid_utf8(bytes) ==> text_of(bytes) == lossy_utf8(bytes),
{
}

/// The text of ASCII bytes has one character for each byte, with the number of that
/// byte.
pub proof fn law_ascii_text(bytes: Seq<u8>)
    ensures
        ascii_text(bytes).len() == bytes.len(),
        forall|i: int|
            0 <= i < bytes.len() ==> (#[trigger] ascii_text(bytes)[i]) as int == bytes[i] as int,
{
}

/// Lists the characters of a text.
pub(crate) fn chars_of(text: &str) -> (chars: Vec<char>)
    ensures
        chars@ == text@,
{
    let mut chars: Vec<char> = Vec::new();
    for c in it: text.chars()
        invariant
            chars@ == it.seq().take(it.index() as int),
            it.seq() == text@,
    {
        chars.push(c);
    }
    chars
}

// ---------------------------------------------------------------------------
// Fields
// ---------------------------------------------------------------------------

/// The fields of a text between its separators; a text without any separator is
/// one field, and neighbouring separators enclose an empty one.
pub open spec fn split(s: Seq<char>, sep: char) -> Seq<Seq<char>>
    decreases s.len(),
{
    if s.len() == 0 {
        seq![Seq::<char>::empty()]
    } else {
        let before = split(s.drop_last(), sep);
        if s.last() == sep {
            before.push(Seq::<char>::empty())
        } else {
            before.drop_last().push(before.last().push(s.last()))
        }
    }
}

/// The text made of fields with a separator between each two.
pub open spec fn join(fields: Seq<Seq<char>>, sep: char) -> Seq<char>
    decreases fields.len(),
{
    if fields.len() == 0 {
        Seq::<char>::empty()
    } else if fields.len() == 1 {
        fields[0]
    } else {
        join(fields.drop_last(), sep) + seq![sep] + fields.last()
    }
}

proof fn lemma_split_nonempty(s: Seq<char>, sep: char)
    ensures
        split(s, sep).len() > 0,
    decreases s.len(),
{
    if s.len() > 0 {
        lemma_split_nonempty(s.drop_last(), sep);
    }
}

/// Appending text without a separator extends the last field.
proof fn lemma_split_extend(s: Seq<char>, t: Seq<char>, sep: char)
    requires
        !t.contains(sep),
    ensures
        split(s + t, sep) == split(s, sep).drop_last().push(split(s, sep).last() + t),
    decreases t.len(),
{
    lemma_split_nonempty(s, sep);
    if t.len() == 0 {
        assert(s + t == s);
        assert(split(s, sep).last() + t == split(s, sep).last());
        assert(split(s, sep).drop_last().push(split(s, sep).last()) == split(s, sep));
    } else {
        let t0 = t.drop_last();
        assert(!t0.contains(sep)) by {
            if t0.contains(sep) {
                let i = choose|i: int| 0 <= i < t0.len() && t0[i] == sep;
                assert(t[i] == sep);
            }
        }
        lemma_split_extend(s, t0, sep);
        assert((s + t).drop_last() == s + t0);
        assert(t.last() != sep) by {
            assert(t[t.len() - 1] == t.last());
        }
        let before = split(s, sep).drop_last().push(split(s, sep).last() + t0);
        assert(before.drop_last() == split(s, sep).drop_last());
        assert(before.last().push(t.last()) == split(s, sep).last() + t);
    }
}

/// Joining the fields of a text with the separator gives the text back, and no
/// field holds the separator.
pub proof fn law_join_split(s: Seq<char>, sep: char)
    ensures
        join(split(s, sep), sep) == s,
        split(s, sep).len() > 0,
        forall|i: int|
            0 <= i < split(s, sep).len() ==> !(#[trigger] split(s, sep)[i]).contains(sep),
    decreases s.len(),
{
    if s.len() == 0 {
        assert(join(split(s, sep), sep) == s);
    } else {
        let before = split(s.drop_last(), sep);
        let fields = split(s, sep);
        law_join_split(s.drop_last(), sep);
        if s.last() == sep {
            assert(fields.drop_last() == before);
            assert(join(fields, sep) == s.drop_last() + seq![sep] + Seq::<char>::empty());
            assert(join(fields, sep) == s);
        } else {
            let f = before.last().push(s.last());
            assert(fields.drop_last() == before.drop_last());
            assert(fields.last() == f);
            if before.len() > 1 {
                assert(join(fields, sep) == join(before.drop_last(), sep) + seq![sep] + f);
                assert(join(fields, sep) == join(before, sep).push(s.last()));
            } else {
                assert(join(fields, sep) == f);
            }
            assert(join(fields, sep) == s);
            assert forall|i: int| 0 <= i < fields.len() implies !(
            #[trigger] fields[i]).contains(sep) by {
                if i < before.len() - 1 {
                    assert(fields[i] == before[i]);
                } else if f.contains(sep) {
                    let k = choose|k: int| 0 <= k < f.len() && f[k] == sep;
                    assert(before[before.len() - 1][k] == sep);
                    assert(before[before.len() - 1].contains(sep));
                }
            }
        }
    }
}

/// Fields that do not hold the separator come back from the text that joins them.
pub proof fn law_split_join(fields: Seq<Seq<char>>, sep: char)
    requires
        fields.len() > 0,
        forall|i: int| 0 <= i < fields.len() ==> !(#[trigger] fields[i]).contains(sep),
    ensures
        split(join(fields, sep), sep) == fields,
    decreases fields.len(),
{
    let empty = Seq::<char>::empty();
    if fields.len() == 1 {
        lemma_split_extend(empty, fields[0], sep);
        assert(empty + fields[0] == fields[0]);
        assert(split(empty, sep) == seq![empty]);
        assert(split(fields[0], sep) == fields);
    } else {
        let init = fields.drop_last();
        assert forall|i: int| 0 <= i < init.len() implies !(#[trigger] init[i]).contains(sep) by {
            assert(init[i] == fields[i]);
        }
        law_split_join(init, sep);
        let head = join(init, sep) + seq![sep];
        assert(head.drop_last() == join(init, sep));
        assert(split(head, sep) == init.push(empty));
        assert(!fields[fields.len() - 1].contains(sep));
        lemma_split_extend(head, fields.last(), sep);
        assert(init.push(empty).drop_last() == init);
        assert(empty + fields.last() == fields.last());
        assert(init.push(fields.last()) == fields);
    }
}

/// A text without the separator is one field, which is all of it.
pub proof fn law_split_one_field(s: Seq<char>, sep: char)
    requires
        forall|i: int| 0 <= i < s.len() ==> #[trigger] s[i] != sep,
    ensures
        split(s, sep) == seq![s],
{
    let empty = Seq::<char>::empty();
    lemma_split_extend(empty, s, sep);
    assert(empty + s == s);
    assert(split(empty, sep) == seq![empty]);
    assert(seq![empty].drop_last().push(empty + s) == seq![s]);
}

/// A separator parts a text: its fields are those before and those behind it.
pub proof fn law_split_at_separator(s: Seq<char>, t: Seq<char>, sep: char)
    ensures
        split(s + seq![sep] + t, sep) == split(s, sep) + split(t, sep),
    decreases t.len(),
{
    let empty = Seq::<char>::empty();
    let head = s + seq![sep];
    if t.len() == 0 {
        assert(head + t == head);
        assert(head.drop_last() == s);
        assert(split(t, sep) == seq![empty]);
        assert(split(head, sep) == split(s, sep).push(empty));
    } else {
        let before = split(t.drop_last(), sep);
        law_split_at_separator(s, t.drop_last(), sep);
        lemma_split_nonempty(t.drop_last(), sep);
        assert((head + t).drop_last() == head + t.drop_last());
        if t.last() == sep {
            assert(split(head + t, sep) == split(s, sep) + before.push(empty));
        } else {
            assert((split(s, sep) + before).drop_last().push(
                (split(s, sep) + before).last().push(t.last()),
            ) == split(s, sep) + before.drop_last().push(before.last().push(t.last())));
        }
    }
}

/// Three texts without the separator, with one separator between each two, are three
/// fields; and so for four.
pub proof fn law_split_fields(a: Seq<char>, b: Seq<char>, c: Seq<char>, d: Seq<char>, sep: char)
    requires
        forall|i: int| 0 <= i < a.len() ==> #[trigger] a[i] != sep,
        forall|i: int| 0 <= i < b.len() ==> #[trigger] b[i] != sep,
        forall|i: int| 0 <= i < c.len() ==> #[trigger] c[i] != sep,
        forall|i: int| 0 <= i < d.len() ==> #[trigger] d[i] != sep,
    ensures
        split(a + seq![sep] + b + seq![sep] + c, sep) == seq![a, b, c],
        split(a + seq![sep] + b + seq![sep] + c + seq![sep] + d, sep) == seq![a, b, c, d],
{
    law_split_one_field(a, sep);
    law_split_one_field(b, sep);
    law_split_one_field(c, sep);
    law_split_one_field(d, sep);
    law_split_at_separator(a, b, sep);
    law_split_at_separator(a + seq![sep] + b, c, sep);
    law_split_at_separator(a + seq![sep] + b + seq![sep] + c, d, sep);
    assert(seq![a] + seq![b] + seq![c] == seq![a, b, c]);
    assert(seq![a, b, c] + seq![d] == seq![a, b, c, d]);
}

/// A text has one more field than it has separators.
pub proof fn law_split_count(s: Seq<char>, sep: char)
    ensures
        split(s, sep).len() == s.filter(|c: char| c == sep).len() + 1,
    decreases s.len(),
{
    reveal(Seq::filter);
    if s.len() > 0 {
        law_split_count(s.drop_last(), sep);
        lemma_split_nonempty(s.drop_last(), sep);
    }
}

/// Joining puts one separator and the next field behind what was joined before.
pub proof fn law_join(fields: Seq<Seq<char>>, field: Seq<char>, sep: char)
    ensures
        join(seq![field], sep) == field,
        fields.len() > 0 ==> join(fields.push(field), sep) == join(fields, sep) + seq![sep] + field,
{
    assert(fields.push(field).drop_last() == fields);
}

/// Finds where each field of a text starts and ends.
pub(crate) fn split_bounds(chars: &Vec<char>, sep: char) -> (bounds: Vec<(usize, usize)>)
    ensures
        bounds.len() == split(chars@, sep).len(),
        forall|i: int|
            0 <= i < bounds.len() ==> {
                &&& (#[trigger] bounds[i]).0 <= bounds[i].1 <= chars.len()
                &&& chars@.subrange(bounds[i].0 as int, bounds[i].1 as int) == split(chars@, sep)[i]
            },
{
    let mut bounds: Vec<(usize, usize)> = Vec::new();
    let mut start: usize = 0;
    let mut i: usize = 0;
    assert(chars@.take(0) == Seq::<char>::empty());
    while i < chars.len()
        invariant
            start <= i <= chars.len(),
            bounds.len() + 1 == split(chars@.take(i as int), sep).len(),
            forall|k: int|
                0 <= k < bounds.len() ==> {
                    &&& (#[trigger] bounds[k]).0 <= bounds[k].1 <= chars.len()
                    &&& chars@.subrange(bounds[k].0 as int, bounds[k].1 as int) == split(
                        chars@.take(i as int),
                        sep,
                    )[k]
                },
            chars@.subrange(start as int, i as int) == split(chars@.take(i as int), sep).last(),
        decreases chars.len() - i,
    {
        assert(chars@.take(i + 1).drop_last() == chars@.take(i as int));
        if chars[i] == sep {
            bounds.push((start, i));
            start = i + 1;
            assert(chars@.subrange(start as int, i + 1) == Seq::<char>::empty());
        } else {
            assert(chars@.subrange(start as int, i + 1) == chars@.subrange(
                start as int,
                i as int,
            ).push(chars@[i as int]));
        }
        i += 1;
    }
    assert(chars@.take(i as int) == chars@);
    bounds.push((start, i));
    bounds
}

// ---------------------------------------------------------------------------
// Quotes
// ---------------------------------------------------------------------------

/// A text without the run of `c` that it starts with.
pub open spec fn trim_start(s: Seq<char>, c: char) -> Seq<char>
    decreases s.len(),
{
    if s.len() > 0 && s.first() == c {
        trim_start(s.drop_first(), c)
    } else {
        s
    }
}

/// A text without the run of `c` that it ends with.
pub open spec fn trim_end(s: Seq<char>, c: char) -> Seq<char>
    decreases s.len(),
{
    if s.len() > 0 && s.last() == c {
        trim_end(s.drop_last(), c)
    } else {
        s
    }
}

/// A text without the runs of `c` at both of its ends.
pub open spec fn trim(s: Seq<char>, c: char) -> Seq<char> {
    trim_end(trim_start(s, c), c)
}

proof fn lemma_trim_start(s: Seq<char>, c: char)
    ensures
        trim_start(s, c).len() <= s.len(),
        trim_start(s, c) == s.skip(s.len() - trim_start(s, c).len()),
        forall|i: int| 0 <= i < s.len() - trim_start(s, c).len() ==> s[i] == c,
        trim_start(s, c).len() > 0 ==> trim_start(s, c).first() != c,
    decreases s.len(),
{
    if s.len() > 0 && s.first() == c {
        let t = s.drop_first();
        lemma_trim_start(t, c);
        assert(t.skip(t.len() - trim_start(t, c).len()) == s.skip(
            s.len() - trim_start(s, c).len(),
        ));
        assert forall|i: int| 0 <= i < s.len() - trim_start(s, c).len() implies s[i] == c by {
            if i > 0 {
                assert(s[i] == t[i - 1]);
            }
        }
    }
}

proof fn lemma_trim_end(s: Seq<char>, c: char)
    ensures
        trim_end(s, c).len() <= s.len(),
        trim_end(s, c) == s.take(trim_end(s, c).len() as int),
        forall|i: int| trim_end(s, c).len() <= i < s.len() ==> s[i] == c,
        trim_end(s, c).len() > 0 ==> trim_end(s, c).last() != c,
    decreases s.len(),
{
    if s.len() > 0 && s.last() == c {
        lemma_trim_end(s.drop_last(), c);
        assert forall|i: int| trim_end(s, c).len() <= i < s.len() implies s[i] == c by {
            if i < s.len() - 1 {
                assert(s.drop_last()[i] == c);
            }
        }
        assert(s.drop_last().take(trim_end(s, c).len() as int) == s.take(
            trim_end(s, c).len() as int,
        ));
    }
}

/// A trimmed text is a stretch of the text it comes from, only the trimmed
/// character was left out, and what remains neither starts nor ends with it.
pub proof fn law_trim(s: Seq<char>, c: char)
    ensures
        exists|from: int, to: int|
            #![trigger s.subrange(from, to)]
            0 <= from <= to <= s.len() && trim(s, c) == s.subrange(from, to) && (forall|i: int|
                (0 <= i < from || to <= i < s.len()) ==> s[i] == c),
        trim(s, c).len() > 0 ==> trim(s, c).first() != c && trim(s, c).last() != c,
        trim(trim(s, c), c) == trim(s, c),
{
    let t = trim_start(s, c);
    let u = trim_end(t, c);
    lemma_trim_start(s, c);
    lemma_trim_end(t, c);
    let from = s.len() - t.len();
    let to = from + u.len();
    assert(s.subrange(from, to) == u);
    assert forall|i: int| (0 <= i < from || to <= i < s.len()) implies s[i] == c by {
        if i >= to {
            assert(t[i - from] == s[i]);
        }
    }
    if u.len() > 0 {
        assert(u.first() == t.first());
    }
    assert(trim_start(u, c) == u);
    assert(trim_end(u, c) == u);
}

/// Runs of a character around a text are dropped, however long they are, and all of
/// the text is kept, as long as it neither starts nor ends with that character.
pub proof fn law_trim_around(before: Seq<char>, s: Seq<char>, behind: Seq<char>, c: char)
    requires
        forall|i: int| 0 <= i < before.len() ==> #[trigger] before[i] == c,
        forall|i: int| 0 <= i < behind.len() ==> #[trigger] behind[i] == c,
        s.len() > 0 ==> s[0] != c && s[s.len() - 1] != c,
    ensures
        trim(before + s + behind, c) == s,
{
    let text = before + s + behind;
    law_trim(text, c);
    let (from, to) = choose|from: int, to: int|
        #![trigger text.subrange(from, to)]
        0 <= from <= to <= text.len() && trim(text, c) == text.subrange(from, to) && (forall|i: int|
            (0 <= i < from || to <= i < text.len()) ==> text[i] == c);
    let start = before.len() as int;
    let end: int = start + s.len();
    if s.len() > 0 {
        assert(text[start] == s[0]);
        assert(text[end - 1] == s[s.len() - 1]);
        assert(from <= start && end <= to);
        if from < start {
            assert(text[from] == before[from]);
            assert(text.subrange(from, to).first() == c);
        }
        if end < to {
            assert(text[to - 1] == behind[to - 1 - end]);
            assert(text.subrange(from, to).last() == c);
        }
        assert(text.subrange(start, end) == s);
    } else if from < to {
        assert(text[from] == c) by {
            if from < start {
                assert(text[from] == before[from]);
            } else {
                assert(text[from] == behind[from - start]);
            }
        }
        assert(text.subrange(from, to).first() == c);
    } else {
        assert(text.subrange(from, to) == s);
    }
}

/// Copies a text without the runs of `c` at both of its ends.
pub(crate) fn trim_matches(text: &str, c: char) -> (trimmed: String)
    ensures
        trimmed@ == trim(text@, c),
{
    let chars = chars_of(text);
    let mut from: usize = 0;
    assert(chars@.skip(0) == chars@);
    while from < chars.len() && chars[from] == c
        invariant
            from <= chars.len(),
            trim_start(chars@, c) == trim_start(chars@.skip(from as int), c),
        decreases chars.len() - from,
    {
        assert(chars@.skip(from as int).drop_first() == chars@.skip(from + 1));
        from += 1;
    }
    let ghost tail = chars@.skip(from as int);
    let mut to: usize = chars.len();
    assert(chars@.subrange(from as int, to as int) == tail);
    while to > from && chars[to - 1] == c
        invariant
            from <= to <= chars.len(),
            trim_end(tail, c) == trim_end(chars@.subrange(from as int, to as int), c),
        decreases to,
    {
        assert(chars@.subrange(from as int, to as int).drop_last() == chars@.subrange(
            from as int,
            to - 1,
        ));
        to -= 1;
    }
    text.substring_char(from, to).to_owned()
}

// ---------------------------------------------------------------------------
// Decimal numbers
// ---------------------------------------------------------------------------

/// Whether a character is a decimal digit.
pub open spec fn is_digit(c: char) -> bool {
    '0' <= c <= '9'
}

/// The number that a run of decimal digits denotes.
pub open spec fn digits_value(s: Seq<char>) -> nat
    decreases s.len(),
{
    if s.len() == 0 {
        0
    } else {
        digits_value(s.drop_last()) * 10 + (s.last() as nat - '0' as nat) as nat
    }
}

/// A text without the plus sign that it may start with.
pub open spec fn strip_plus(s: Seq<char>) -> Seq<char> {
    if s.len() > 0 && s.first() == '+' {
        s.drop_first()
    } else {
        s
    }
}

/// The number that a text denotes, if it is at most `max`: an optional plus sign
/// and then decimal digits, at least one, and nothing else.
pub open spec fn decimal(s: Seq<char>, max: nat) -> Option<nat> {
    let digits = strip_plus(s);
    if digits.len() > 0 && (forall|i: int| 0 <= i < digits.len() ==> is_digit(#[trigger] digits[i]))
        && digits_value(digits) <= max {
        Some(digits_value(digits))
    } else {
        None
    }
}

/// A longer run of digits does not denote a smaller number.
proof fn lemma_digits_value_monotonic(s: Seq<char>, n: int)
    requires
        0 <= n <= s.len(),
        forall|i: int| 0 <= i < s.len() ==> is_digit(#[trigger] s[i]),
    ensures
        digits_value(s.take(n)) <= digits_value(s),
    decreases s.len(),
{
    if n == s.len() {
        assert(s.take(n) == s);
    } else {
        let t = s.drop_last();
        assert forall|i: int| 0 <= i < t.len() implies is_digit(#[trigger] t[i]) by {
            assert(t[i] == s[i]);
        }
        lemma_digits_value_monotonic(t, n);
        assert(t.take(n) == s.take(n));
    }
}

/// The decimal digit for a number below ten.
pub open spec fn digit_char(d: nat) -> char {
    ('0' as nat + d) as char
}

/// A number in decimal digits, without leading zeros.
pub open spec fn decimal_text(n: nat) -> Seq<char>
    decreases n,
{
    if n < 10 {
        seq![digit_char(n)]
    } else {
        decimal_text(n / 10).push(digit_char(n % 10))
    }
}

proof fn lemma_decimal_text(n: nat)
    ensures
        decimal_text(n).len() > 0,
        forall|i: int| 0 <= i < decimal_text(n).len() ==> is_digit(#[trigger] decimal_text(n)[i]),
        digits_value(decimal_text(n)) == n,
    decreases n,
{
    let s = decimal_text(n);
    if n < 10 {
        assert(s.drop_last() == Seq::<char>::empty());
        assert(digits_value(Seq::<char>::empty()) == 0);
        assert(s.last() == digit_char(n));
        assert(digits_value(s) == s.last() as nat - '0' as nat);
    } else {
        lemma_decimal_text(n / 10);
        assert(s.drop_last() == decimal_text(n / 10));
        assert(s.last() == digit_char(n % 10));
        assert forall|i: int| 0 <= i < s.len() implies is_digit(#[trigger] s[i]) by {
            if i < s.len() - 1 {
                assert(s[i] == decimal_text(n / 10)[i]);
            }
        }
    }
}

/// A number that is written down in decimal is read back as that number.
pub proof fn law_decimal_round_trip(n: nat, max: nat)
    requires
        n <= max,
    ensures
        decimal(decimal_text(n), max) == Some(n),
        !decimal_text(n).contains(' '),
{
    lemma_decimal_text(n);
    let s = decimal_text(n);
    assert(is_digit(s[0]));
    assert(strip_plus(s) == s);
    if s.contains(' ') {
        let i = choose|i: int| 0 <= i < s.len() && s[i] == ' ';
        assert(is_digit(s[i]));
    }
}

/// A digit behind a run of digits makes its number ten times as large, and adds its
/// own value. No digits at all make nought.
pub proof fn law_digits_value(s: Seq<char>, c: char)
    requires
        '0' <= c <= '9',
    ensures
        digits_value(Seq::empty()) == 0,
        digits_value(s.push(c)) == 10 * digits_value(s) + (c as int - '0' as int),
{
    assert(s.push(c).drop_last() == s);
}

/// The digits are the ten characters from nought to nine.
pub proof fn law_is_digit(c: char)
    ensures
        is_digit(c) <==> 0x30 <= c as int <= 0x39,
{
}

/// A run of digits, with or without one plus sign before it, denotes its number if
/// that is not above the limit, and nothing otherwise.
pub proof fn law_decimal_digits(s: Seq<char>, max: nat)
    requires
        s.len() > 0,
        forall|i: int| 0 <= i < s.len() ==> '0' <= #[trigger] s[i] <= '9',
    ensures
        digits_value(s) <= max ==> decimal(s, max) == Some(digits_value(s)),
        digits_value(s) > max ==> decimal(s, max) is None,
        decimal(seq!['+'] + s, max) == decimal(s, max),
{
    assert forall|i: int| 0 <= i < s.len() implies is_digit(#[trigger] s[i]) by {
        assert('0' <= s[i] <= '9');
    }
    assert(strip_plus(s) == s);
    assert(strip_plus(seq!['+'] + s) == s);
}

/// A text that holds anything but digits denotes no number, unless that is a plus sign
/// at its start. Neither does a text without any digits.
pub proof fn law_decimal_rejects(s: Seq<char>, i: int, max: nat)
    requires
        0 <= i < s.len(),
        !('0' <= s[i] <= '9'),
        i > 0 || s[i] != '+' || s.len() == 1,
    ensures
        decimal(s, max) is None,
        decimal(Seq::empty(), max) is None,
{
    let digits = strip_plus(s);
    if s[0] == '+' {
        if i > 0 {
            assert(digits[i - 1] == s[i]);
            assert(!is_digit(digits[i - 1]));
        }
    } else {
        assert(!is_digit(digits[i]));
    }
    assert(strip_plus(Seq::<char>::empty()).len() == 0);
}

/// Reads the number that `chars[from..to]` denotes, if it is at most `max`.
pub(crate) fn parse_decimal(chars: &Vec<char>, from: usize, to: usize, max: u64) -> (value: Option<
    u64,
>)
    requires
        from <= to <= chars.len(),
    ensures
        value matches Some(v) ==> decimal(
            chars@.subrange(from as int, to as int),
            max as nat,
        ) == Some(v as nat),
        value is None ==> decimal(chars@.subrange(from as int, to as int), max as nat) is None,
{
    let ghost s = chars@.subrange(from as int, to as int);
    let first: usize = if from < to && chars[from] == '+' {
        from + 1
    } else {
        from
    };
    let ghost digits = chars@.subrange(first as int, to as int);
    assert(digits == strip_plus(s));
    if first == to {
        return None;
    }
    let mut value: u64 = 0;
    let mut i: usize = first;
    assert(digits.take(0) == Seq::<char>::empty());
    while i < to
        invariant
            first <= i <= to <= chars.len(),
            digits == chars@.subrange(first as int, to as int),
            forall|k: int| 0 <= k < i - first ==> is_digit(#[trigger] digits[k]),
            value == digits_value(digits.take(i - first)),
            value <= max,
            digits.len() > 0,
            from <= first,
            s == chars@.subrange(from as int, to as int),
            digits == strip_plus(s),
        decreases to - i,
    {
        let c = chars[i];
        assert(digits[i - first] == c);
        if !('0' <= c && c <= '9') {
            assert(!is_digit(digits[i - first]));
            return None;
        }
        let digit: u64 = (c as u32 - '0' as u32) as u64;
        let ghost prefix = digits.take(i + 1 - first);
        assert(prefix.drop_last() == digits.take(i - first));
        assert(prefix.last() == c);
        let wide: u128 = value as u128 * 10 + digit as u128;
        assert(wide == digits_value(prefix));
        if wide > max as u128 {
            proof {
                if forall|k: int| 0 <= k < digits.len() ==> is_digit(#[trigger] digits[k]) {
                    lemma_digits_value_monotonic(digits, i + 1 - first);
                }
            }
            return None;
        }
        value = wide as u64;
        i += 1;
    }
    assert(digits.take(to - first) == digits);
    Some(value)
}

} // verus!
