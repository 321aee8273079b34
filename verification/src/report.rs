//! The output of a run: one line for each sample.
use vstd::prelude::*;
use crate::sampler::Sample;

verus! {

/// The decimal digits of a number, as ASCII.
pub open spec fn decimal(n: nat) -> Seq<u8>
    decreases n,
{
    if n < 10 {
        seq![(48 + n) as u8]
    } else {
        decimal(n / 10).push((48 + n % 10) as u8)
    }
}

/// The line of one sample: its nanoseconds, a comma, its count, and a
/// line feed.
pub open spec fn line_of(s: Sample) -> Seq<u8> {
    decimal(s.duration as nat) + seq![44u8] + decimal(s.count as nat) + seq![10u8]
}

/// The lines of the samples, in order.
pub open spec fn lines_text(samples: Seq<Sample>) -> Seq<u8>
    decreases samples.len(),
{
    if samples.len() == 0 {
        Seq::empty()
    } else {
        lines_text(samples.drop_last()) + line_of(samples.last())
    }
}

/// What is written for a run: nothing where it is quiet, else the lines
/// of its samples.
pub open spec fn report_text(samples: Seq<Sample>, quiet: bool) -> Seq<u8> {
    if quiet {
        Seq::empty()
    } else {
        lines_text(samples)
    }
}

/// Appends the decimal digits of `n`.
pub fn push_decimal(out: &mut Vec<u8>, n: u128)
    ensures
        final(out)@ == old(out)@ + decimal(n as nat),
    decreases n,
{
    if n >= 10 {
        push_decimal(out, n / 10);
    }
    let d: u8 = (n % 10) as u8;
    out.push(48 + d);
    proof {
        assert(final(out)@ =~= old(out)@ + decimal(n as nat));
    }
}

/// The line of one sample.
pub fn sample_line(s: &Sample) -> (r: Vec<u8>)
    ensures
        r@ == line_of(*s),
{
    let mut out: Vec<u8> = Vec::new();
    push_decimal(&mut out, s.duration);
    out.push(44u8);
    push_decimal(&mut out, s.count as u128);
    out.push(10u8);
    proof {
        assert(out@ =~= line_of(*s));
    }
    out
}

/// What is written for a run: nothing where it is quiet, else one line
/// for each sample, in order, with no header and no summary.
pub fn report(samples: &Vec<Sample>, quiet: bool) -> (r: Vec<u8>)
    ensures
        r@ == report_text(samples@, quiet),
{
    let mut out: Vec<u8> = Vec::new();
    if quiet {
        return out;
    }
    let mut i: usize = 0;
    while i < samples.len()
        invariant
            i <= samples.len(),
            out@ == lines_text(samples@.take(i as int)),
        decreases samples.len() - i,
    {
        let mut line = sample_line(&samples[i]);
        out.append(&mut line);
        proof {
            assert(samples@.take(i + 1).drop_last() =~= samples@.take(i as int));
        }
        i = i + 1;
    }
    proof {
        assert(samples@.take(i as int) =~= samples@);
    }
    out
}

/// How often a byte occurs in a text.
pub open spec fn occurrences(text: Seq<u8>, byte: u8) -> nat
    decreases text.len(),
{
    if text.len() == 0 {
        0
    } else {
        occurrences(text.drop_last(), byte) + if text.last() == byte {
            1nat
        } else {
            0nat
        }
    }
}

/// A number is written with at least one digit, and with digits only.
pub proof fn lemma_decimal_is_digits(n: nat)
    ensures
        decimal(n).len() >= 1,
        forall|i: int| 0 <= i < decimal(n).len() ==> 48 <= #[trigger] decimal(n)[i] <= 57,
    decreases n,
{
    if n >= 10 {
        lemma_decimal_is_digits(n / 10);
    }
}

/// A byte that stands nowhere in a text occurs in it zero times.
pub proof fn lemma_absent_byte(text: Seq<u8>, byte: u8)
    requires
        forall|i: int| 0 <= i < text.len() ==> text[i] != byte,
    ensures
        occurrences(text, byte) == 0,
    decreases text.len(),
{
    if text.len() > 0 {
        lemma_absent_byte(text.drop_last(), byte);
    }
}

/// The occurrences in two texts add up in their concatenation.
pub proof fn lemma_occurrences_add(a: Seq<u8>, b: Seq<u8>, byte: u8)
    ensures
        occurrences(a + b, byte) == occurrences(a, byte) + occurrences(b, byte),
    decreases b.len(),
{
    if b.len() == 0 {
        assert(a + b =~= a);
    } else {
        lemma_occurrences_add(a, b.drop_last(), byte);
        assert((a + b).drop_last() =~= a + b.drop_last());
    }
}

/// A text of one byte holds that byte once, and no other.
pub proof fn lemma_single_byte(held: u8, byte: u8)
    ensures
        occurrences(seq![held], byte) == if held == byte {
            1nat
        } else {
            0nat
        },
{
    let text = seq![held];
    assert(text.len() == 1);
    assert(text.last() == held);
    assert(text.drop_last().len() == 0);
    assert(occurrences(text.drop_last(), byte) == 0);
}

/// The line of a sample holds one comma and ends with its only line feed.
pub proof fn lemma_line_shape(s: Sample)
    ensures
        occurrences(line_of(s), 10u8) == 1,
        occurrences(line_of(s), 44u8) == 1,
        line_of(s).last() == 10u8,
{
    let d = decimal(s.duration as nat);
    let c = decimal(s.count as nat);
    lemma_decimal_is_digits(s.duration as nat);
    lemma_decimal_is_digits(s.count as nat);
    lemma_absent_byte(d, 10u8);
    lemma_absent_byte(c, 10u8);
    lemma_absent_byte(d, 44u8);
    lemma_absent_byte(c, 44u8);
    lemma_single_byte(44u8, 44u8);
    lemma_single_byte(44u8, 10u8);
    lemma_single_byte(10u8, 10u8);
    lemma_single_byte(10u8, 44u8);
    lemma_occurrences_add(d, seq![44u8], 10u8);
    lemma_occurrences_add(d + seq![44u8], c, 10u8);
    lemma_occurrences_add(d + seq![44u8] + c, seq![10u8], 10u8);
    lemma_occurrences_add(d, seq![44u8], 44u8);
    lemma_occurrences_add(d + seq![44u8], c, 44u8);
    lemma_occurrences_add(d + seq![44u8] + c, seq![10u8], 44u8);
}

/// What is written for a run that is not quiet has exactly one line for
/// each sample.
pub proof fn lemma_one_line_for_each_sample(samples: Seq<Sample>)
    ensures
        occurrences(report_text(samples, false), 10u8) == samples.len(),
        occurrences(report_text(samples, false), 44u8) == samples.len(),
    decreases samples.len(),
{
    if samples.len() > 0 {
        lemma_one_line_for_each_sample(samples.drop_last());
        lemma_line_shape(samples.last());
        lemma_occurrences_add(lines_text(samples.drop_last()), line_of(samples.last()), 10u8);
        lemma_occurrences_add(lines_text(samples.drop_last()), line_of(samples.last()), 44u8);
    }
}

/// A quiet run writes nothing, whatever its samples.
pub proof fn lemma_quiet_writes_nothing(samples: Seq<Sample>)
    ensures
        report_text(samples, true).len() == 0,
{
}

} // verus!
