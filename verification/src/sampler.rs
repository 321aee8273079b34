//! The sampler: which step of a run comes next, and what each measured
//! iteration adds. The caller does the timed work and hands back what
//! came of it.
use vstd::prelude::*;
use crate::benchmark::{Benchmark, BenchError};
use crate::model::Model;

verus! {

/// What one timed iteration gave: its elapsed time in nanoseconds and its
/// result count.
#[derive(Clone, Copy, Debug, PartialEq, Eq, Structural)]
pub struct Sample {
    pub duration: u128,
    pub count: u64,
}

/// What the caller is to do next.
#[derive(Clone, Copy, Debug, PartialEq, Eq, Structural)]
pub enum Action {
    /// Build the matcher, untimed, before the first iteration.
    Build,
    /// Run the workload once; its result is discarded. Where `build` is
    /// set, the iteration first builds the matcher anew.
    WarmUp { build: bool },
    /// Run the workload once and time it. Where `build` is set, the
    /// iteration first builds the matcher anew, inside the timed region.
    Measure { build: bool },
    /// All samples are in: report them.
    Report,
    /// Building the matcher or an iteration failed: give the run up.
    Abort,
}

/// What came of the step that was asked for.
#[derive(Clone, Debug, PartialEq, Eq)]
pub enum Event {
    /// The matcher was built.
    Built,
    /// The workload ran through.
    Counted { nanos: u128, count: u64 },
    /// Building the matcher or running the workload failed.
    Failed(BenchError),
}

/// The state of a run.
pub struct Sampler {
    timed_build: bool,
    built: bool,
    warmup_left: u64,
    iterations: u64,
    samples: Vec<Sample>,
    failure: Option<BenchError>,
}

/// The state of a run, as contracts speak of it.
pub struct Progress {
    /// Whether every iteration builds the matcher anew.
    pub timed_build: bool,
    /// Whether the matcher that the iterations share has been built.
    pub built: bool,
    pub warmup_left: nat,
    pub iterations: nat,
    pub samples: Seq<Sample>,
    pub failure: Option<BenchError>,
}

impl Progress {
    /// The state before the first step.
    pub open spec fn start(model: Model, warmup: nat, iterations: nat) -> Progress {
        Progress {
            timed_build: model.spec_compile_is_timed(),
            built: false,
            warmup_left: warmup,
            iterations,
            samples: Seq::empty(),
            failure: None,
        }
    }

    /// No more samples than iterations, and none beside a failure.
    pub open spec fn wf(self) -> bool {
        &&& self.samples.len() <= self.iterations
        &&& self.failure.is_some() ==> self.samples.len() == 0
    }

    /// Whether the iterations can begin: they build the matcher
    /// themselves, or the one they share is there.
    pub open spec fn ready(self) -> bool {
        self.timed_build || self.built
    }

    /// What the caller is to do in this state.
    pub open spec fn next(self) -> Action {
        if self.failure.is_some() {
            Action::Abort
        } else if !self.ready() {
            Action::Build
        } else if self.warmup_left > 0 {
            Action::WarmUp { build: self.timed_build }
        } else if self.samples.len() < self.iterations {
            Action::Measure { build: self.timed_build }
        } else {
            Action::Report
        }
    }

    /// The state after a failure: the samples taken so far are dropped.
    pub open spec fn failed(self, e: BenchError) -> Progress {
        Progress { samples: Seq::empty(), failure: Some(e), ..self }
    }

    /// The state after a step. A built matcher lets the iterations begin,
    /// a warm-up result is discarded, a measured one becomes the next
    /// sample, a failure ends the run. An event that does not answer the
    /// step asked for changes nothing, and nothing changes a run that is
    /// over.
    pub open spec fn after(self, event: Event) -> Progress {
        match (self.next(), event) {
            (Action::Build, Event::Built) => Progress { built: true, ..self },
            (Action::WarmUp { .. }, Event::Counted { .. }) => Progress {
                warmup_left: (self.warmup_left - 1) as nat,
                ..self
            },
            (Action::Measure { .. }, Event::Counted { nanos, count }) => Progress {
                samples: self.samples.push(Sample { duration: nanos, count }),
                ..self
            },
            (Action::Build, Event::Failed(e)) => self.failed(e),
            (Action::WarmUp { .. }, Event::Failed(e)) => self.failed(e),
            (Action::Measure { .. }, Event::Failed(e)) => self.failed(e),
            _ => self,
        }
    }

    /// The state after a sequence of steps.
    pub open spec fn run(self, events: Seq<Event>) -> Progress
        decreases events.len(),
    {
        if events.len() == 0 {
            self
        } else {
            self.run(events.drop_last()).after(events.last())
        }
    }
}

impl View for Sampler {
    type V = Progress;

    closed spec fn view(&self) -> Progress {
        Progress {
            timed_build: self.timed_build,
            built: self.built,
            warmup_left: self.warmup_left as nat,
            iterations: self.iterations as nat,
            samples: self.samples@,
            failure: self.failure,
        }
    }
}

impl Sampler {
    /// The sampler of a run of `model`, before its first step.
    pub fn new(b: &Benchmark, model: Model) -> (r: Sampler)
        ensures
            r@ == Progress::start(model, b.warmup_iterations as nat, b.iterations as nat),
            r@.wf(),
    {
        Sampler {
            timed_build: model.compile_is_timed(),
            built: false,
            warmup_left: b.warmup_iterations,
            iterations: b.iterations,
            samples: Vec::new(),
            failure: None,
        }
    }

    /// What the caller is to do next.
    pub fn next(&self) -> (r: Action)
        requires
            self@.wf(),
        ensures
            r == self@.next(),
    {
        if self.failure.is_some() {
            Action::Abort
        } else if !self.timed_build && !self.built {
            Action::Build
        } else if self.warmup_left > 0 {
            Action::WarmUp { build: self.timed_build }
        } else if (self.samples.len() as u64) < self.iterations {
            Action::Measure { build: self.timed_build }
        } else {
            Action::Report
        }
    }

    /// Takes in what came of the step that `next` asked for.
    pub fn record(&mut self, event: Event)
        requires
            old(self)@.wf(),
        ensures
            final(self)@ == old(self)@.after(event),
            final(self)@.wf(),
    {
        let step = self.next();
        match step {
            Action::Build => match event {
                Event::Built => {
                    self.built = true;
                },
                Event::Failed(e) => {
                    self.samples = Vec::new();
                    self.failure = Some(e);
                },
                Event::Counted { .. } => {},
            },
            Action::WarmUp { .. } => match event {
                Event::Counted { .. } => {
                    self.warmup_left = self.warmup_left - 1;
                },
                Event::Failed(e) => {
                    self.samples = Vec::new();
                    self.failure = Some(e);
                },
                Event::Built => {},
            },
            Action::Measure { .. } => match event {
                Event::Counted { nanos, count } => {
                    self.samples.push(Sample { duration: nanos, count });
                },
                Event::Failed(e) => {
                    self.samples = Vec::new();
                    self.failure = Some(e);
                },
                Event::Built => {},
            },
            Action::Report => {},
            Action::Abort => {},
        }
        proof {
            assert(self@.samples =~= old(self)@.after(event).samples);
        }
    }

    /// The samples of a run that is over, in the order of the iterations:
    /// one for each timed iteration, or the failure that ended the run.
    pub fn finish(self) -> (r: Result<Vec<Sample>, BenchError>)
        requires
            self@.wf(),
            self@.next() == Action::Report || self@.next() == Action::Abort,
        ensures
            match r {
                Ok(samples) => self@.failure.is_none() && samples@ == self@.samples
                    && samples@.len() == self@.iterations,
                Err(e) => self@.failure == Some(e),
            },
    {
        match self.failure {
            Some(e) => Err(e),
            None => Ok(self.samples),
        }
    }
}

/// The sample that a completed iteration gives.
pub open spec fn sample_of(event: Event) -> Sample {
    match event {
        Event::Counted { nanos, count } => Sample { duration: nanos, count },
        _ => Sample { duration: 0, count: 0 },
    }
}

/// Whatever the steps give, there are never more samples than configured
/// iterations, and the configuration does not change.
pub proof fn lemma_run_keeps_wf(p: Progress, events: Seq<Event>)
    requires
        p.wf(),
    ensures
        p.run(events).wf(),
        p.run(events).iterations == p.iterations,
        p.run(events).timed_build == p.timed_build,
    decreases events.len(),
{
    if events.len() > 0 {
        lemma_run_keeps_wf(p, events.drop_last());
    }
}

/// When the sampler asks for the report, the number of samples is exactly
/// the configured number of iterations.
pub proof fn lemma_report_is_complete(p: Progress)
    requires
        p.wf(),
        p.next() == Action::Report,
    ensures
        p.samples.len() == p.iterations,
        p.failure.is_none(),
{
}

/// Only the compile model builds the matcher inside its iterations; every
/// other model has it built once, before the first iteration.
pub proof fn lemma_build_is_timed_for_compile_only(model: Model, warmup: nat, iterations: nat)
    ensures
        ({
            let p = Progress::start(model, warmup, iterations);
            &&& model != Model::Compile ==> p.next() == Action::Build && !p.after(
                Event::Built,
            ).timed_build && p.after(Event::Built).ready()
            &&& model == Model::Compile ==> p.ready() && p.timed_build && p.next() != Action::Build
        }),
{
}

/// A failure ends the run, whatever step it comes at, and leaves no
/// samples behind.
pub proof fn lemma_failure_aborts(p: Progress, e: BenchError)
    requires
        p.wf(),
        p.next() != Action::Report,
    ensures
        p.after(Event::Failed(e)).next() == Action::Abort,
        p.after(Event::Failed(e)).samples.len() == 0,
{
}

/// A run in which no iteration fails, from the point where its
/// iterations can begin: after the first `k` of them the warm-up ones
/// were discarded, and each later one gave its own sample, with the time
/// and count of that iteration alone.
pub proof fn lemma_run_prefix(p: Progress, events: Seq<Event>, k: int)
    requires
        p.ready(),
        p.failure.is_none(),
        p.samples.len() == 0,
        0 <= k <= events.len(),
        events.len() == p.warmup_left + p.iterations,
        forall|i: int| 0 <= i < events.len() ==> events[i] is Counted,
    ensures
        ({
            let q = p.run(events.take(k));
            &&& q.failure.is_none()
            &&& q.ready()
            &&& q.iterations == p.iterations
            &&& k <= p.warmup_left ==> q.warmup_left == p.warmup_left - k && q.samples.len() == 0
            &&& k > p.warmup_left ==> q.warmup_left == 0 && q.samples.len() == k - p.warmup_left
            &&& forall|i: int|
                0 <= i < q.samples.len() ==> q.samples[i] == sample_of(
                    events[p.warmup_left + i],
                )
        }),
    decreases k,
{
    if k > 0 {
        lemma_run_prefix(p, events, k - 1);
        assert(events.take(k).drop_last() =~= events.take(k - 1));
        assert(events.take(k).last() == events[k - 1]);
    }
}

/// A run in which no iteration fails ends with exactly as many samples
/// as iterations were configured, in the order of the iterations.
pub proof fn lemma_full_run(p: Progress, events: Seq<Event>)
    requires
        p.ready(),
        p.failure.is_none(),
        p.samples.len() == 0,
        events.len() == p.warmup_left + p.iterations,
        forall|i: int| 0 <= i < events.len() ==> events[i] is Counted,
    ensures
        ({
            let q = p.run(events);
            &&& q.next() == Action::Report
            &&& q.samples.len() == p.iterations
            &&& forall|i: int|
                0 <= i < p.iterations ==> q.samples[i] == sample_of(events[p.warmup_left + i])
        }),
{
    lemma_run_prefix(p, events, events.len() as int);
    assert(events.take(events.len() as int) =~= events);
}

/// Two runs of the same configuration whose iterations give the same
/// counts end with samples of the same counts, whatever their times.
pub proof fn lemma_counts_repeat(p: Progress, first: Seq<Event>, second: Seq<Event>)
    requires
        p.ready(),
        p.failure.is_none(),
        p.samples.len() == 0,
        first.len() == p.warmup_left + p.iterations,
        second.len() == p.warmup_left + p.iterations,
        forall|i: int| 0 <= i < first.len() ==> first[i] is Counted,
        forall|i: int| 0 <= i < second.len() ==> second[i] is Counted,
        forall|i: int|
            0 <= i < first.len() ==> sample_of(first[i]).count == sample_of(second[i]).count,
    ensures
        p.run(first).samples.len() == p.run(second).samples.len(),
        forall|i: int|
            0 <= i < p.run(first).samples.len() ==> p.run(first).samples[i].count == p.run(
                second,
            ).samples[i].count,
{
    lemma_full_run(p, first);
    lemma_full_run(p, second);
}

} // verus!
