//! Text helpers: string comparison, haystack decoding and line splitting.
use vstd::prelude::*;
use vstd::utf8::{
    decode_utf8, decode_utf8_encode_utf8, encode_utf8_valid_utf8, is_char_boundary,
    is_char_boundary_iff_not_is_continuation_byte, is_char_boundary_start_end_of_seq,
    length_of_first_scalar, pop_first_scalar, valid_first_scalar, valid_utf8, valid_utf8_split,
};
use vstd::string::StringSliceAdditionalSpecFns;
use bstr::ByteSlice;
use crate::benchmark::BenchError;
use crate::workload::Span;

verus! {

/// The error with which `bstr` reports bytes that are not UTF-8.
#[verifier::external_type_specification]
#[verifier::external_body]
pub struct ExUtf8Error(bstr::Utf8Error);

/// Whether two strings hold the same characters.
pub fn same_text(a: &str, b: &str) -> (r: bool)
    ensures
        r == (a@ == b@),
{
    let x = a.to_owned();
    let y = b.to_owned();
    x == y
}

/// Calls `bstr::ByteSlice::to_str`: the bytes as a string where they are
/// valid UTF-8, an error where they are not.
#[verifier::external_body]
fn to_str<'a>(bytes: &'a [u8]) -> (r: Result<&'a str, bstr::Utf8Error>)
    ensures
        r is Ok <==> valid_utf8(bytes@),
        r is Ok ==> r->Ok_0@ == decode_utf8(bytes@),
{
    bytes.to_str()
}

/// The haystack as text. Bytes that are not valid UTF-8 are refused
/// as an invalid haystack.
pub fn decode<'a>(haystack: &'a [u8]) -> (r: Result<&'a str, BenchError>)
    ensures
        r is Ok <==> valid_utf8(haystack@),
        r is Ok ==> r->Ok_0@ == decode_utf8(haystack@),
        r is Ok ==> r->Ok_0.spec_bytes() == haystack@,
        r is Err ==> r->Err_0 == BenchError::InvalidHaystack,
{
    match to_str(haystack) {
        Ok(text) => {
            proof {
                decode_utf8_encode_utf8(haystack@);
            }
            Ok(text)
        },
        Err(_) => Err(BenchError::InvalidHaystack),
    }
}

/// The position of the first line feed at or after `from`, or the length
/// of `bytes` where none follows.
pub open spec fn next_break(bytes: Seq<u8>, from: int) -> int
    decreases bytes.len() - from,
{
    if from < 0 || from >= bytes.len() || bytes[from] == 10 {
        from
    } else {
        next_break(bytes, from + 1)
    }
}

/// Where the line that starts at `from` and is ended by the line feed at
/// `brk` ends: before the carriage return that stands directly before
/// the line feed, if there is one, else at the line feed.
pub open spec fn line_end(bytes: Seq<u8>, from: int, brk: int) -> int {
    if from < brk && bytes[brk - 1] == 13 {
        brk - 1
    } else {
        brk
    }
}

/// The lines of the text from `from` on, each as the span of its bytes.
/// A line ends at a line feed, or at a carriage return directly followed
/// by one; neither belongs to the line. What follows the last line feed
/// is a line of its own unless it is empty.
pub open spec fn lines_from(bytes: Seq<u8>, from: int) -> Seq<Span>
    decreases bytes.len() - from,
{
    let brk = next_break(bytes, from);
    if from < 0 || from >= bytes.len() {
        Seq::empty()
    } else if from <= brk < bytes.len() {
        seq![Span { start: from as usize, end: line_end(bytes, from, brk) as usize }] + lines_from(
            bytes,
            brk + 1,
        )
    } else {
        seq![Span { start: from as usize, end: bytes.len() as usize }]
    }
}

/// The lines of a text, in order.
pub open spec fn lines_of(bytes: Seq<u8>) -> Seq<Span> {
    lines_from(bytes, 0)
}

/// No line feed stands between `from` and `to`, so the first one after
/// `from` is the first one after `to`.
proof fn lemma_next_break_skips(bytes: Seq<u8>, from: int, to: int)
    requires
        0 <= from <= to <= bytes.len(),
        forall|j: int| from <= j < to ==> bytes[j] != 10,
    ensures
        next_break(bytes, from) == next_break(bytes, to),
    decreases to - from,
{
    if from < to {
        lemma_next_break_skips(bytes, from + 1, to);
    }
}

/// The first line feed at or after `from` lies between `from` and the
/// end of the text, and no line feed stands before it.
pub proof fn lemma_next_break(bytes: Seq<u8>, from: int)
    requires
        0 <= from <= bytes.len(),
    ensures
        from <= next_break(bytes, from) <= bytes.len(),
        next_break(bytes, from) < bytes.len() ==> bytes[next_break(bytes, from)] == 10,
        forall|j: int| from <= j < next_break(bytes, from) ==> bytes[j] != 10,
    decreases bytes.len() - from,
{
    if from < bytes.len() && bytes[from] != 10 {
        lemma_next_break(bytes, from + 1);
    }
}

/// Whether a span is a line of the text from `from` on: it lies in the
/// text, holds no line feed, starts at `from` or after a line feed, and
/// ends at a line terminator or at the end of the text.
pub open spec fn is_line(bytes: Seq<u8>, from: int, line: Span) -> bool {
    &&& from <= line.start <= line.end <= bytes.len()
    &&& forall|j: int| line.start <= j < line.end ==> bytes[j] != 10
    &&& line.start == from || bytes[line.start - 1] == 10
    &&& line.end == bytes.len() || bytes[line.end as int] == 10 || bytes[line.end as int] == 13
}

/// Every line of a text is a line in the sense above.
pub proof fn lemma_lines_are_lines(bytes: Seq<u8>, from: int)
    requires
        0 <= from <= bytes.len() <= usize::MAX,
    ensures
        forall|i: int|
            0 <= i < lines_from(bytes, from).len() ==> is_line(
                bytes,
                from,
                #[trigger] lines_from(bytes, from)[i],
            ),
    decreases bytes.len() - from,
{
    let brk = next_break(bytes, from);
    lemma_next_break(bytes, from);
    if from < bytes.len() && brk < bytes.len() {
        lemma_lines_are_lines(bytes, brk + 1);
        let rest = lines_from(bytes, brk + 1);
        assert forall|i: int| 0 <= i < lines_from(bytes, from).len() implies is_line(
            bytes,
            from,
            #[trigger] lines_from(bytes, from)[i],
        ) by {
            if i > 0 {
                assert(lines_from(bytes, from)[i] == rest[i - 1]);
                assert(is_line(bytes, brk + 1, rest[i - 1]));
            }
        }
    }
}

/// In valid UTF-8 an ASCII byte is a character of its own: a character
/// starts at it, and another one, or the end of the text, follows it.
pub proof fn lemma_ascii_is_bounded(bytes: Seq<u8>, k: int)
    requires
        valid_utf8(bytes),
        0 <= k < bytes.len(),
        bytes[k] <= 0x7f,
    ensures
        is_char_boundary(bytes, k),
        is_char_boundary(bytes, k + 1),
{
    is_char_boundary_iff_not_is_continuation_byte(bytes, k);
    valid_utf8_split(bytes, k);
    let suffix = bytes.subrange(k, bytes.len() as int);
    assert(suffix[0] == bytes[k]);
    assert(valid_first_scalar(suffix));
    assert(length_of_first_scalar(suffix) == 1);
    let rest = pop_first_scalar(suffix);
    assert(valid_utf8(rest));
    assert(rest =~= bytes.subrange(k + 1, bytes.len() as int));
    if k + 1 < bytes.len() {
        assert(rest[0] == bytes[k + 1]);
        assert(valid_first_scalar(rest));
        is_char_boundary_iff_not_is_continuation_byte(bytes, k + 1);
    } else {
        is_char_boundary_start_end_of_seq(bytes);
    }
}

/// In valid UTF-8 a line starts and ends between characters.
pub proof fn lemma_line_on_boundaries(bytes: Seq<u8>, line: Span)
    requires
        valid_utf8(bytes),
        is_line(bytes, 0, line),
    ensures
        is_char_boundary(bytes, line.start as int),
        is_char_boundary(bytes, line.end as int),
        is_char_boundary(bytes.subrange(0, line.end as int), line.start as int),
{
    let (start, end) = (line.start as int, line.end as int);
    is_char_boundary_start_end_of_seq(bytes);
    if start > 0 {
        lemma_ascii_is_bounded(bytes, start - 1);
    }
    if end < bytes.len() {
        lemma_ascii_is_bounded(bytes, end);
    }
    let prefix = bytes.subrange(0, end);
    valid_utf8_split(bytes, end);
    is_char_boundary_start_end_of_seq(prefix);
    if start < end {
        is_char_boundary_iff_not_is_continuation_byte(bytes, start);
        assert(prefix[start] == bytes[start]);
        is_char_boundary_iff_not_is_continuation_byte(prefix, start);
    }
}

/// The lines of a text, in order, each as the span of its bytes without
/// its terminator. In valid UTF-8 every line starts and ends between
/// characters.
pub fn lines(text: &[u8]) -> (r: Vec<Span>)
    ensures
        r@ == lines_of(text@),
        forall|i: int| 0 <= i < r@.len() ==> is_line(text@, 0, #[trigger] r@[i]),
        valid_utf8(text@) ==> forall|i: int|
            0 <= i < r@.len() ==> is_char_boundary(text@, (#[trigger] r@[i]).start as int)
                && is_char_boundary(text@, r@[i].end as int),
{
    let mut out: Vec<Span> = Vec::new();
    let mut pos: usize = 0;
    while pos < text.len()
        invariant
            pos <= text.len(),
            out@ + lines_from(text@, pos as int) == lines_from(text@, 0),
        decreases text.len() - pos,
    {
        let mut brk: usize = pos;
        while brk < text.len() && text[brk] != 10
            invariant
                pos <= brk <= text.len(),
                forall|j: int| pos <= j < brk ==> text@[j] != 10,
            decreases text.len() - brk,
        {
            brk = brk + 1;
        }
        proof {
            lemma_next_break_skips(text@, pos as int, brk as int);
            assert(next_break(text@, brk as int) == brk);
        }
        let ghost before = out@;
        if brk < text.len() {
            let end: usize = if pos < brk && text[brk - 1] == 13 {
                brk - 1
            } else {
                brk
            };
            out.push(Span { start: pos, end });
            proof {
                assert(out@ + lines_from(text@, brk + 1) =~= before + lines_from(
                    text@,
                    pos as int,
                ));
            }
            pos = brk + 1;
        } else {
            out.push(Span { start: pos, end: brk });
            proof {
                assert(lines_from(text@, brk as int) =~= Seq::<Span>::empty());
                assert(out@ + lines_from(text@, brk as int) =~= before + lines_from(
                    text@,
                    pos as int,
                ));
            }
            pos = brk;
        }
    }
    let total = text.len();
    proof {
        assert(lines_from(text@, pos as int) =~= Seq::<Span>::empty());
        assert(out@ =~= out@ + Seq::<Span>::empty());
        assert(total == text@.len());
        lemma_lines_are_lines(text@, 0);
        if valid_utf8(text@) {
            assert forall|i: int| 0 <= i < out@.len() implies is_char_boundary(
                text@,
                (#[trigger] out@[i]).start as int,
            ) && is_char_boundary(text@, out@[i].end as int) by {
                lemma_line_on_boundaries(text@, out@[i]);
            }
        }
    }
    out
}

/// The lines of a text, in order, without their terminators: each is
/// the part of the text that its span covers.
pub fn text_lines<'a>(text: &'a str) -> (r: Vec<&'a str>)
    ensures
        r@.len() == lines_of(text.spec_bytes()).len(),
        forall|i: int|
            0 <= i < r@.len() ==> (#[trigger] r@[i]).spec_bytes() == text.spec_bytes().subrange(
                lines_of(text.spec_bytes())[i].start as int,
                lines_of(text.spec_bytes())[i].end as int,
            ),
{
    let ghost bytes = text.spec_bytes();
    proof {
        encode_utf8_valid_utf8(text@);
    }
    let spans = lines(text.as_bytes());
    let mut out: Vec<&'a str> = Vec::new();
    let mut i: usize = 0;
    while i < spans.len()
        invariant
            i <= spans.len(),
            bytes == text.spec_bytes(),
            valid_utf8(bytes),
            spans@ == lines_of(bytes),
            forall|j: int| 0 <= j < spans@.len() ==> is_line(bytes, 0, #[trigger] spans@[j]),
            out@.len() == i,
            forall|j: int|
                0 <= j < i ==> (#[trigger] out@[j]).spec_bytes() == bytes.subrange(
                    spans@[j].start as int,
                    spans@[j].end as int,
                ),
        decreases spans.len() - i,
    {
        let span = spans[i];
        proof {
            lemma_line_on_boundaries(bytes, span);
        }
        let (head, _) = text.split_at(span.end);
        let (_, line) = head.split_at(span.start);
        proof {
            assert(line.spec_bytes() =~= bytes.subrange(span.start as int, span.end as int));
        }
        out.push(line);
        i = i + 1;
    }
    out
}

} // verus!
