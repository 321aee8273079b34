use regex_bench::benchmark::{BenchError, Benchmark, RegexSpec};
use regex_bench::model::Model;
use regex_bench::report::{report, sample_line};
use regex_bench::sampler::{Action, Event, Sample, Sampler};

fn bench(warmup: u64, iterations: u64) -> Benchmark {
    Benchmark {
        model: "count".to_string(),
        regex: RegexSpec {
            patterns: vec!["a+".to_string()],
            case_insensitive: false,
            unicode: true,
        },
        haystack: b"aaa bb aaaa".to_vec(),
        warmup_iterations: warmup,
        iterations,
    }
}

// Runs the sampler of `model` to its end, with iteration `i` taking
// `times[i]` nanoseconds and counting 2.
fn drive_model(
    model: Model,
    warmup: u64,
    iterations: u64,
    times: &[u128],
) -> (Vec<Action>, Result<Vec<Sample>, BenchError>) {
    let mut s = Sampler::new(&bench(warmup, iterations), model);
    let mut steps = Vec::new();
    let mut i = 0;
    loop {
        let step = s.next();
        steps.push(step);
        match step {
            Action::Build => s.record(Event::Built),
            Action::WarmUp { .. } | Action::Measure { .. } => {
                s.record(Event::Counted { nanos: times[i], count: 2 });
                i += 1;
            }
            Action::Report | Action::Abort => break,
        }
    }
    (steps, s.finish())
}

fn drive(warmup: u64, iterations: u64, times: &[u128]) -> (Vec<Action>, Result<Vec<Sample>, BenchError>) {
    drive_model(Model::Compile, warmup, iterations, times)
}

const WARM: Action = Action::WarmUp { build: true };
const MEASURE: Action = Action::Measure { build: true };

#[test]
fn the_matcher_is_built_once_before_the_iterations() {
    for model in [Model::Count, Model::CountSpans, Model::CountCaptures, Model::Grep, Model::GrepCaptures] {
        let (steps, samples) = drive_model(model, 1, 2, &[5, 6, 7]);
        assert_eq!(
            steps,
            vec![
                Action::Build,
                Action::WarmUp { build: false },
                Action::Measure { build: false },
                Action::Measure { build: false },
                Action::Report,
            ]
        );
        assert_eq!(
            samples,
            Ok(vec![Sample { duration: 6, count: 2 }, Sample { duration: 7, count: 2 }])
        );
    }
}

#[test]
fn the_compile_model_builds_in_every_iteration() {
    let (steps, samples) = drive_model(Model::Compile, 1, 2, &[5, 6, 7]);
    assert_eq!(steps, vec![WARM, MEASURE, MEASURE, Action::Report]);
    assert_eq!(
        samples,
        Ok(vec![Sample { duration: 6, count: 2 }, Sample { duration: 7, count: 2 }])
    );
}

#[test]
fn a_matcher_that_cannot_be_built_aborts_before_any_iteration() {
    let mut s = Sampler::new(&bench(1, 3), Model::Grep);
    assert_eq!(s.next(), Action::Build);
    s.record(Event::Counted { nanos: 1, count: 1 });
    assert_eq!(s.next(), Action::Build);
    s.record(Event::Failed(BenchError::Compile("unclosed group".to_string())));
    assert_eq!(s.next(), Action::Abort);
    s.record(Event::Built);
    assert_eq!(s.next(), Action::Abort);
    assert_eq!(s.finish(), Err(BenchError::Compile("unclosed group".to_string())));
}

#[test]
fn the_matcher_is_built_even_without_iterations() {
    let (steps, samples) = drive_model(Model::Count, 0, 0, &[]);
    assert_eq!(steps, vec![Action::Build, Action::Report]);
    assert_eq!(samples, Ok(vec![]));
}

#[test]
fn one_sample_for_each_iteration() {
    let (steps, samples) = drive(0, 3, &[10, 20, 30]);
    assert_eq!(steps, vec![MEASURE, MEASURE, MEASURE, Action::Report]);
    assert_eq!(
        samples,
        Ok(vec![
            Sample { duration: 10, count: 2 },
            Sample { duration: 20, count: 2 },
            Sample { duration: 30, count: 2 },
        ])
    );
}

#[test]
fn warm_up_iterations_give_no_sample() {
    let (steps, samples) = drive(2, 1, &[5, 6, 7]);
    assert_eq!(steps, vec![WARM, WARM, MEASURE, Action::Report]);
    assert_eq!(samples, Ok(vec![Sample { duration: 7, count: 2 }]));
}

#[test]
fn no_iterations_no_samples() {
    let (steps, samples) = drive(0, 0, &[]);
    assert_eq!(steps, vec![Action::Report]);
    assert_eq!(samples, Ok(vec![]));
}

#[test]
fn durations_do_not_accumulate() {
    let (_, samples) = drive(0, 2, &[100, 1]);
    let samples = samples.unwrap();
    assert_eq!(samples[0].duration, 100);
    assert_eq!(samples[1].duration, 1);
}

#[test]
fn a_failure_aborts_and_drops_the_samples() {
    let mut s = Sampler::new(&bench(0, 3), Model::Compile);
    assert_eq!(s.next(), MEASURE);
    s.record(Event::Counted { nanos: 10, count: 2 });
    assert_eq!(s.next(), MEASURE);
    s.record(Event::Failed(BenchError::Workload("boom".to_string())));
    assert_eq!(s.next(), Action::Abort);
    s.record(Event::Counted { nanos: 10, count: 2 });
    assert_eq!(s.next(), Action::Abort);
    assert_eq!(s.finish(), Err(BenchError::Workload("boom".to_string())));
}

#[test]
fn a_failure_during_warm_up_aborts() {
    let mut s = Sampler::new(&bench(1, 1), Model::Compile);
    assert_eq!(s.next(), WARM);
    s.record(Event::Failed(BenchError::Compile("bad pattern".to_string())));
    assert_eq!(s.next(), Action::Abort);
    assert_eq!(s.finish(), Err(BenchError::Compile("bad pattern".to_string())));
}

#[test]
fn events_after_the_end_change_nothing() {
    let mut s = Sampler::new(&bench(0, 1), Model::Compile);
    s.record(Event::Counted { nanos: 1, count: 9 });
    assert_eq!(s.next(), Action::Report);
    s.record(Event::Counted { nanos: 2, count: 8 });
    s.record(Event::Failed(BenchError::InvalidHaystack));
    assert_eq!(s.next(), Action::Report);
    assert_eq!(s.finish(), Ok(vec![Sample { duration: 1, count: 9 }]));
}

#[test]
fn two_runs_give_the_same_counts() {
    let (_, first) = drive(1, 3, &[10, 20, 30, 40]);
    let (_, second) = drive(1, 3, &[11, 19, 35, 2]);
    let a: Vec<u64> = first.unwrap().iter().map(|s| s.count).collect();
    let b: Vec<u64> = second.unwrap().iter().map(|s| s.count).collect();
    assert_eq!(a, b);
    assert_eq!(a, vec![2, 2, 2]);
}

#[test]
fn a_sample_line_is_nanoseconds_comma_count() {
    assert_eq!(sample_line(&Sample { duration: 1234, count: 2 }), b"1234,2\n".to_vec());
    assert_eq!(sample_line(&Sample { duration: 0, count: 0 }), b"0,0\n".to_vec());
    assert_eq!(sample_line(&Sample { duration: 9, count: 10 }), b"9,10\n".to_vec());
    assert_eq!(
        sample_line(&Sample { duration: u128::MAX, count: u64::MAX }),
        format!("{},{}\n", u128::MAX, u64::MAX).into_bytes()
    );
}

#[test]
fn the_report_has_one_line_for_each_sample() {
    let samples = vec![
        Sample { duration: 10, count: 2 },
        Sample { duration: 205, count: 2 },
        Sample { duration: 30, count: 7 },
    ];
    assert_eq!(report(&samples, false), b"10,2\n205,2\n30,7\n".to_vec());
    assert_eq!(report(&vec![], false), Vec::<u8>::new());
}

#[test]
fn a_quiet_run_writes_nothing() {
    let samples = vec![Sample { duration: 10, count: 2 }, Sample { duration: 20, count: 2 }];
    assert_eq!(report(&samples, true), Vec::<u8>::new());
    assert_eq!(report(&vec![], true), Vec::<u8>::new());
}
