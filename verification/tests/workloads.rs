use regex::Regex;
use regex_bench::benchmark::BenchError;
use regex_bench::model::Model;
use regex_bench::text::{decode, lines, text_lines};
use regex_bench::workload::{
    count, count_captures, count_spans, grep, grep_captures, populated_slots, tally,
    CaptureMatch, Observation, Span,
};

// The matches of "a+" in "aaa bb aaaa".
fn runs_of_a() -> Vec<Span> {
    vec![Span { start: 0, end: 3 }, Span { start: 7, end: 11 }]
}

// The one match of "(a)(b)?" in "a": the whole match, the first group,
// and the optional group that took no part.
fn a_without_b() -> CaptureMatch {
    CaptureMatch {
        groups: vec![Some(Span { start: 0, end: 1 }), Some(Span { start: 0, end: 1 }), None],
    }
}

#[test]
fn compile_model_counts_matches() {
    assert_eq!(tally(Model::Compile, &Observation::Matches(runs_of_a())), Some(2));
}

#[test]
fn count_and_count_spans() {
    assert_eq!(count(&runs_of_a()), 2);
    assert_eq!(count_spans(&runs_of_a()), Some(7));
    assert_eq!(tally(Model::Count, &Observation::Matches(runs_of_a())), Some(2));
    assert_eq!(tally(Model::CountSpans, &Observation::Matches(runs_of_a())), Some(7));
}

#[test]
fn no_match_counts_zero() {
    assert_eq!(count(&vec![]), 0);
    assert_eq!(count_spans(&vec![]), Some(0));
    assert_eq!(count_captures(&vec![]), Some(0));
    assert_eq!(grep(&vec![]), 0);
    assert_eq!(grep_captures(&vec![]), Some(0));
    assert_eq!(grep_captures(&vec![vec![], vec![]]), Some(0));
}

#[test]
fn empty_and_inverted_spans_add_nothing() {
    let spans = vec![
        Span { start: 2, end: 2 },
        Span { start: 5, end: 4 },
        Span { start: 6, end: 9 },
    ];
    assert_eq!(count(&spans), 3);
    assert_eq!(count_spans(&spans), Some(3));
}

#[test]
fn span_sum_that_does_not_fit_is_none() {
    let spans = vec![
        Span { start: 0, end: usize::MAX },
        Span { start: 0, end: usize::MAX },
    ];
    assert_eq!(count_spans(&spans), (usize::MAX as u64).checked_mul(2));
    assert_eq!(count_spans(&spans[..1].to_vec()), Some(usize::MAX as u64));
}

#[test]
fn grep_counts_matching_lines() {
    let text = decode(b"aaa\nbb\naaaa\n").unwrap();
    let re = Regex::new("a+").unwrap();
    assert_eq!(text_lines(text), vec!["aaa", "bb", "aaaa"]);
    let found: Vec<bool> = text_lines(text).iter().map(|l| re.is_match(l)).collect();
    assert_eq!(found, vec![true, false, true]);
    assert_eq!(grep(&found), 2);
    assert_eq!(tally(Model::Grep, &Observation::LineHits(found)), Some(2));
}

#[test]
fn only_participating_groups_are_counted() {
    assert_eq!(populated_slots(&a_without_b()), 2);
    assert_eq!(populated_slots(&CaptureMatch { groups: vec![Some(Span { start: 0, end: 1 }), None] }), 1);
    assert_eq!(populated_slots(&CaptureMatch { groups: vec![] }), 0);
    assert_eq!(count_captures(&vec![a_without_b()]), Some(2));
    assert_eq!(count_captures(&vec![a_without_b(), a_without_b()]), Some(4));
    assert_eq!(
        tally(Model::CountCaptures, &Observation::Captures(vec![a_without_b()])),
        Some(2)
    );
}

#[test]
fn grep_captures_sums_over_lines() {
    let per_line = vec![vec![a_without_b(), a_without_b()], vec![], vec![a_without_b()]];
    assert_eq!(grep_captures(&per_line), Some(6));
    assert_eq!(tally(Model::GrepCaptures, &Observation::LineCaptures(per_line)), Some(6));
}

#[test]
fn a_report_of_the_wrong_kind_has_no_count() {
    assert_eq!(tally(Model::Grep, &Observation::Matches(runs_of_a())), None);
    assert_eq!(tally(Model::Count, &Observation::LineHits(vec![true])), None);
    assert_eq!(tally(Model::CountCaptures, &Observation::Matches(runs_of_a())), None);
    assert_eq!(tally(Model::GrepCaptures, &Observation::Captures(vec![a_without_b()])), None);
    assert_eq!(tally(Model::CountSpans, &Observation::LineCaptures(vec![])), None);
}

#[test]
fn counts_repeat() {
    let seen = Observation::Matches(runs_of_a());
    for m in [Model::Compile, Model::Count, Model::CountSpans] {
        assert_eq!(tally(m, &seen), tally(m, &seen.clone()));
    }
}

#[test]
fn decode_accepts_text_and_refuses_other_bytes() {
    assert_eq!(decode(b"aaa bb aaaa"), Ok("aaa bb aaaa"));
    assert_eq!(decode(b""), Ok(""));
    assert_eq!(decode("\u{2603}\u{3b2}".as_bytes()), Ok("\u{2603}\u{3b2}"));
    assert_eq!(decode(b"foobar\xFF"), Err(BenchError::InvalidHaystack));
    assert_eq!(decode(b"\xF1\x80\x80"), Err(BenchError::InvalidHaystack));
    assert_eq!(decode(b"\xC0\x80"), Err(BenchError::InvalidHaystack));
    assert_eq!(decode(b"\xED\xA0\x80"), Err(BenchError::InvalidHaystack));
}

fn split(text: &str) -> Vec<&str> {
    lines(text.as_bytes()).iter().map(|l| &text[l.start..l.end]).collect()
}

#[test]
fn lines_end_at_line_feeds() {
    assert_eq!(split(""), Vec::<&str>::new());
    assert_eq!(split("\n"), vec![""]);
    assert_eq!(split("a"), vec!["a"]);
    assert_eq!(split("a\n"), vec!["a"]);
    assert_eq!(split("a\nb"), vec!["a", "b"]);
    assert_eq!(split("a\n\nb\n"), vec!["a", "", "b"]);
    assert_eq!(split("a\r\nb\r\n"), vec!["a", "b"]);
    assert_eq!(split("a\rb\n"), vec!["a\rb"]);
    assert_eq!(split("a\r"), vec!["a\r"]);
    assert_eq!(split("\r\n"), vec![""]);
    assert_eq!(split("a\r\r\n"), vec!["a\r"]);
    assert_eq!(split("\u{2603}\n\u{3b2}"), vec!["\u{2603}", "\u{3b2}"]);
}

#[test]
fn lines_are_spans_of_bytes() {
    assert_eq!(
        lines(b"aaa\r\nbb\n\naaaa"),
        vec![
            Span { start: 0, end: 3 },
            Span { start: 5, end: 7 },
            Span { start: 8, end: 8 },
            Span { start: 9, end: 13 },
        ]
    );
}

#[test]
fn text_lines_are_the_parts_that_the_spans_cover() {
    for text in ["", "a\r\nb", "\u{2603}\r\n\u{3b2}\u{3b2}\n\n\u{1F600}", "x\n"] {
        assert_eq!(text_lines(text), split(text));
        let expected: Vec<&str> = text.lines().collect();
        assert_eq!(text_lines(text), expected);
    }
    assert_eq!(text_lines("\u{2603}\r\n\u{3b2}\n"), vec!["\u{2603}", "\u{3b2}"]);
}

#[test]
fn lines_agree_with_the_standard_library() {
    for text in ["", "\n", "a", "a\n", "a\nb", "a\n\nb\n", "a\r\nb\r\n", "a\rb\n", "a\r", "\r\n", "\n\n", "\r", "\r\r\n\r"] {
        let expected: Vec<&str> = text.lines().collect();
        assert_eq!(split(text), expected);
    }
}

// What a matcher for `pattern` reports on `text`.
fn matches(pattern: &str, text: &str) -> Vec<Span> {
    Regex::new(pattern)
        .unwrap()
        .find_iter(text)
        .map(|m| Span { start: m.start(), end: m.end() })
        .collect()
}

fn captures(pattern: &str, text: &str) -> Vec<CaptureMatch> {
    Regex::new(pattern)
        .unwrap()
        .captures_iter(text)
        .map(|c| CaptureMatch {
            groups: (0..c.len())
                .map(|i| c.get(i).map(|g| Span { start: g.start(), end: g.end() }))
                .collect(),
        })
        .collect()
}

#[test]
fn compile_model_on_runs_of_a() {
    let seen = Observation::Matches(matches("a+", "aaa bb aaaa"));
    assert_eq!(seen, Observation::Matches(runs_of_a()));
    for _ in 0..5 {
        assert_eq!(tally(Model::Compile, &seen), Some(2));
    }
}

#[test]
fn count_and_count_spans_on_runs_of_a() {
    let seen = Observation::Matches(matches("a+", "aaa bb aaaa"));
    assert_eq!(tally(Model::Count, &seen), Some(2));
    assert_eq!(tally(Model::CountSpans, &seen), Some(7));
}

#[test]
fn optional_group_that_took_no_part_is_not_counted() {
    let found = captures("(a)(b)?", "a");
    assert_eq!(found, vec![a_without_b()]);
    assert_eq!(tally(Model::CountCaptures, &Observation::Captures(found.clone())), Some(2));
    assert_eq!(
        tally(Model::GrepCaptures, &Observation::LineCaptures(vec![found])),
        Some(2)
    );
    let both = captures("(a)(b)?", "ab");
    assert_eq!(tally(Model::CountCaptures, &Observation::Captures(both)), Some(3));
}

#[test]
fn empty_haystack_counts_zero() {
    assert_eq!(tally(Model::Count, &Observation::Matches(matches("a+", ""))), Some(0));
    assert_eq!(tally(Model::CountSpans, &Observation::Matches(matches("a+", ""))), Some(0));
    assert_eq!(tally(Model::Grep, &Observation::LineHits(vec![])), Some(0));
    assert_eq!(lines(b""), Vec::<Span>::new());
}
