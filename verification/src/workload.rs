//! The result count of each workload, from what the matcher reported.
use vstd::prelude::*;
use crate::model::{Model, Query};

verus! {

/// The place of a match, or of a group of a match, in the searched text.
#[derive(Clone, Copy, Debug, PartialEq, Eq, Structural)]
pub struct Span {
    pub start: usize,
    pub end: usize,
}

/// One match with its capture-group slots. Slot 0 is the whole match; a
/// group that took no part in the match is `None`.
#[derive(Clone, Debug, PartialEq, Eq)]
pub struct CaptureMatch {
    pub groups: Vec<Option<Span>>,
}

/// What the matcher reported in one iteration.
#[derive(Clone, Debug, PartialEq, Eq)]
pub enum Observation {
    /// The non-overlapping matches over the whole haystack, left to right.
    Matches(Vec<Span>),
    /// The same matches, with their groups.
    Captures(Vec<CaptureMatch>),
    /// For each line of the haystack, whether it holds a match.
    LineHits(Vec<bool>),
    /// For each line of the haystack, its matches with their groups.
    LineCaptures(Vec<Vec<CaptureMatch>>),
}

/// The sum of a sequence of numbers.
pub open spec fn sum(s: Seq<nat>) -> nat
    decreases s.len(),
{
    if s.len() == 0 {
        0
    } else {
        sum(s.drop_last()) + s.last()
    }
}

/// The length of a span; a span that ends before it starts covers nothing.
pub open spec fn span_len(s: Span) -> nat {
    if s.start <= s.end {
        (s.end - s.start) as nat
    } else {
        0
    }
}

/// The length of each span.
pub open spec fn span_lengths(spans: Seq<Span>) -> Seq<nat> {
    Seq::new(spans.len(), |i: int| span_len(spans[i]))
}

/// How many of the slots are populated.
pub open spec fn populated(groups: Seq<Option<Span>>) -> nat
    decreases groups.len(),
{
    if groups.len() == 0 {
        0
    } else {
        populated(groups.drop_last()) + if groups.last().is_some() {
            1nat
        } else {
            0nat
        }
    }
}

/// The populated slots of each match.
pub open spec fn populated_each(matches: Seq<CaptureMatch>) -> Seq<nat> {
    Seq::new(matches.len(), |i: int| populated(matches[i].groups@))
}

/// The populated slots of all the matches of each line.
pub open spec fn populated_each_line(lines: Seq<Vec<CaptureMatch>>) -> Seq<nat> {
    Seq::new(lines.len(), |i: int| sum(populated_each(lines[i]@)))
}

/// How many of the lines hold a match.
pub open spec fn hits(lines: Seq<bool>) -> nat
    decreases lines.len(),
{
    if lines.len() == 0 {
        0
    } else {
        hits(lines.drop_last()) + if lines.last() {
            1nat
        } else {
            0nat
        }
    }
}

/// A count as the number a sample carries, where it fits in one.
pub open spec fn as_count(n: nat) -> Option<u64> {
    if n <= u64::MAX {
        Some(n as u64)
    } else {
        None
    }
}

/// The result count of one iteration of a model, from what the matcher
/// reported. There is none where the report is not of the kind that the
/// model asks for, or where the count does not fit in 64 bits.
pub open spec fn spec_tally(model: Model, seen: Observation) -> Option<u64> {
    match (model, seen) {
        (Model::Compile, Observation::Matches(spans)) => as_count(spans@.len()),
        (Model::Count, Observation::Matches(spans)) => as_count(spans@.len()),
        (Model::CountSpans, Observation::Matches(spans)) => as_count(sum(span_lengths(spans@))),
        (Model::CountCaptures, Observation::Captures(matches)) => as_count(
            sum(populated_each(matches@)),
        ),
        (Model::Grep, Observation::LineHits(lines)) => as_count(hits(lines@)),
        (Model::GrepCaptures, Observation::LineCaptures(lines)) => as_count(
            sum(populated_each_line(lines@)),
        ),
        _ => None,
    }
}

/// Adding one more number to a prefix of a sequence.
pub proof fn lemma_sum_step(s: Seq<nat>, i: int)
    requires
        0 <= i < s.len(),
    ensures
        sum(s.take(i + 1)) == sum(s.take(i)) + s[i],
{
    assert(s.take(i + 1).drop_last() =~= s.take(i));
}

/// The sum of a prefix is at most the sum of the whole.
pub proof fn lemma_sum_prefix(s: Seq<nat>, i: int)
    requires
        0 <= i <= s.len(),
    ensures
        sum(s.take(i)) <= sum(s),
    decreases s.len() - i,
{
    if i == s.len() {
        assert(s.take(i) =~= s);
    } else {
        lemma_sum_step(s, i);
        lemma_sum_prefix(s, i + 1);
    }
}

/// The number of matches.
pub fn count(spans: &Vec<Span>) -> (r: u64)
    ensures
        r == spans@.len(),
{
    spans.len() as u64
}

/// The summed lengths of the matches, or `None` where the sum does not
/// fit in 64 bits.
pub fn count_spans(spans: &Vec<Span>) -> (r: Option<u64>)
    ensures
        r == as_count(sum(span_lengths(spans@))),
{
    let ghost w = span_lengths(spans@);
    let mut total: u64 = 0;
    let mut i: usize = 0;
    while i < spans.len()
        invariant
            i <= spans.len(),
            w == span_lengths(spans@),
            total == sum(w.take(i as int)),
        decreases spans.len() - i,
    {
        let s = spans[i];
        let n: u64 = if s.start <= s.end {
            (s.end - s.start) as u64
        } else {
            0
        };
        proof {
            lemma_sum_step(w, i as int);
            lemma_sum_prefix(w, i + 1);
        }
        if n > u64::MAX - total {
            return None;
        }
        total = total + n;
        i = i + 1;
    }
    proof {
        assert(w.take(i as int) =~= w);
    }
    Some(total)
}

/// How many of the slots of one match are populated.
pub fn populated_slots(m: &CaptureMatch) -> (r: usize)
    ensures
        r == populated(m.groups@),
{
    let mut n: usize = 0;
    let mut i: usize = 0;
    while i < m.groups.len()
        invariant
            i <= m.groups.len(),
            n <= i,
            n == populated(m.groups@.take(i as int)),
        decreases m.groups.len() - i,
    {
        proof {
            assert(m.groups@.take(i + 1).drop_last() =~= m.groups@.take(i as int));
        }
        if m.groups[i].is_some() {
            n = n + 1;
        }
        i = i + 1;
    }
    proof {
        assert(m.groups@.take(i as int) =~= m.groups@);
    }
    n
}

/// The populated capture-group slots over all the matches, or `None`
/// where their number does not fit in 64 bits.
pub fn count_captures(matches: &Vec<CaptureMatch>) -> (r: Option<u64>)
    ensures
        r == as_count(sum(populated_each(matches@))),
{
    let ghost w = populated_each(matches@);
    let mut total: u64 = 0;
    let mut i: usize = 0;
    while i < matches.len()
        invariant
            i <= matches.len(),
            w == populated_each(matches@),
            total == sum(w.take(i as int)),
        decreases matches.len() - i,
    {
        let n: u64 = populated_slots(&matches[i]) as u64;
        proof {
            lemma_sum_step(w, i as int);
            lemma_sum_prefix(w, i + 1);
        }
        if n > u64::MAX - total {
            return None;
        }
        total = total + n;
        i = i + 1;
    }
    proof {
        assert(w.take(i as int) =~= w);
    }
    Some(total)
}

/// The number of lines that hold a match.
pub fn grep(lines: &Vec<bool>) -> (r: u64)
    ensures
        r == hits(lines@),
{
    let mut n: usize = 0;
    let mut i: usize = 0;
    while i < lines.len()
        invariant
            i <= lines.len(),
            n <= i,
            n == hits(lines@.take(i as int)),
        decreases lines.len() - i,
    {
        proof {
            assert(lines@.take(i + 1).drop_last() =~= lines@.take(i as int));
        }
        if lines[i] {
            n = n + 1;
        }
        i = i + 1;
    }
    proof {
        assert(lines@.take(i as int) =~= lines@);
    }
    n as u64
}

/// The populated capture-group slots over all the matches of all the
/// lines, or `None` where their number does not fit in 64 bits.
pub fn grep_captures(lines: &Vec<Vec<CaptureMatch>>) -> (r: Option<u64>)
    ensures
        r == as_count(sum(populated_each_line(lines@))),
{
    let ghost w = populated_each_line(lines@);
    let mut total: u64 = 0;
    let mut i: usize = 0;
    while i < lines.len()
        invariant
            i <= lines.len(),
            w == populated_each_line(lines@),
            total == sum(w.take(i as int)),
        decreases lines.len() - i,
    {
        proof {
            lemma_sum_step(w, i as int);
            lemma_sum_prefix(w, i + 1);
        }
        match count_captures(&lines[i]) {
            None => {
                return None;
            },
            Some(n) => {
                if n > u64::MAX - total {
                    return None;
                }
                total = total + n;
            },
        }
        i = i + 1;
    }
    proof {
        assert(w.take(i as int) =~= w);
    }
    Some(total)
}

/// The result count of one iteration of `model`, from what the matcher
/// reported.
pub fn tally(model: Model, seen: &Observation) -> (r: Option<u64>)
    ensures
        r == spec_tally(model, *seen),
{
    match seen {
        Observation::Matches(spans) => match model {
            Model::Compile => Some(count(spans)),
            Model::Count => Some(count(spans)),
            Model::CountSpans => count_spans(spans),
            _ => None,
        },
        Observation::Captures(matches) => match model {
            Model::CountCaptures => count_captures(matches),
            _ => None,
        },
        Observation::LineHits(lines) => match model {
            Model::Grep => Some(grep(lines)),
            _ => None,
        },
        Observation::LineCaptures(lines) => match model {
            Model::GrepCaptures => grep_captures(lines),
            _ => None,
        },
    }
}

/// Whether a report is of the kind that a model asks for.
pub open spec fn answers(seen: Observation, q: Query) -> bool {
    match (seen, q) {
        (Observation::Matches(_), Query::Matches) => true,
        (Observation::Captures(_), Query::Captures) => true,
        (Observation::LineHits(_), Query::LineTest) => true,
        (Observation::LineCaptures(_), Query::LineCaptures) => true,
        _ => false,
    }
}

/// A model has a count only for a report of the kind it asks for.
pub proof fn lemma_tally_needs_its_query(model: Model, seen: Observation)
    ensures
        spec_tally(model, seen).is_some() ==> answers(seen, model.spec_query()),
{
}

} // verus!
