//! The description of one benchmark run and its validation.
use vstd::prelude::*;
use crate::engine::Engine;
use crate::model::{Model, Query, model_of_name, lemma_model_name_round_trip};

verus! {

/// The pattern part of a benchmark description.
#[derive(Clone, Debug, PartialEq, Eq)]
pub struct RegexSpec {
    pub patterns: Vec<String>,
    pub case_insensitive: bool,
    pub unicode: bool,
}

/// The description of one benchmark run.
#[derive(Clone, Debug, PartialEq, Eq)]
pub struct Benchmark {
    /// The name of the model to run.
    pub model: String,
    pub regex: RegexSpec,
    pub haystack: Vec<u8>,
    /// How many untimed iterations precede the timed ones.
    pub warmup_iterations: u64,
    /// How many timed iterations are run, each giving one sample.
    pub iterations: u64,
}

/// Why a run was refused or given up.
#[derive(Clone, Debug, PartialEq, Eq)]
pub enum BenchError {
    /// The description does not hold exactly one pattern.
    MultiPattern,
    /// The description names no known model; the name is kept.
    UnknownModel(String),
    /// The haystack is not valid text.
    InvalidHaystack,
    /// The backend refused the pattern; its own words are kept.
    Compile(String),
    /// A workload failed during an iteration; its own words are kept.
    Workload(String),
}

/// What a backend is handed to build a matcher.
#[derive(Clone, Debug, PartialEq, Eq)]
pub struct MatcherRequest {
    pub pattern: String,
    pub case_insensitive: bool,
    pub unicode: bool,
    pub captures: bool,
    pub engine: Engine,
}

/// What a validated description is run as.
#[derive(Clone, Copy, Debug, PartialEq, Eq, Structural)]
pub struct Plan {
    pub model: Model,
    pub engine: Engine,
    /// What each iteration asks of the matcher.
    pub query: Query,
    /// Whether the matcher must report capture groups.
    pub captures: bool,
    /// Whether each iteration builds the matcher anew, inside the timed
    /// region.
    pub timed_build: bool,
}

/// The plan of a model on an engine.
pub open spec fn plan_of(model: Model, engine: Engine) -> Plan {
    Plan {
        model,
        engine,
        query: model.spec_query(),
        captures: model.spec_needs_captures(),
        timed_build: model.spec_compile_is_timed(),
    }
}

impl Benchmark {
    /// A description can be run when it holds exactly one pattern and
    /// names a known model.
    pub open spec fn valid(&self) -> bool {
        self.regex.patterns@.len() == 1 && model_of_name(self.model@).is_some()
    }

    /// The error with which a description that cannot be run is refused:
    /// the pattern count is looked at first, the model name second.
    pub open spec fn refusal(&self) -> Option<BenchError> {
        if self.regex.patterns@.len() != 1 {
            Some(BenchError::MultiPattern)
        } else if model_of_name(self.model@).is_none() {
            Some(BenchError::UnknownModel(self.model))
        } else {
            None
        }
    }

    /// The request from which the matcher of this description is built.
    /// Unicode mode is always on, whatever the description says.
    pub open spec fn request_matches(&self, engine: Engine, req: MatcherRequest) -> bool {
        &&& self.valid()
        &&& req.pattern@ == self.regex.patterns@[0]@
        &&& req.case_insensitive == self.regex.case_insensitive
        &&& req.unicode
        &&& req.captures == model_of_name(self.model@).unwrap().spec_needs_captures()
        &&& req.engine == engine
    }

    /// Checks the description: exactly one pattern, and a known model.
    pub fn validate(&self) -> (r: Result<Model, BenchError>)
        ensures
            r is Ok <==> self.valid(),
            r is Ok ==> model_of_name(self.model@) == Some(r->Ok_0),
            r is Err ==> self.refusal() == Some(r->Err_0),
    {
        if self.regex.patterns.len() != 1 {
            return Err(BenchError::MultiPattern);
        }
        match Model::from_name(self.model.as_str()) {
            Some(m) => Ok(m),
            None => Err(BenchError::UnknownModel(self.model.clone())),
        }
    }

    /// What the backend is to build for this description: its one
    /// pattern, its case flag, and capture reporting where the model
    /// counts groups. A description that cannot be run is refused.
    pub fn matcher_request(&self, engine: Engine) -> (r: Result<MatcherRequest, BenchError>)
        ensures
            r is Ok <==> self.valid(),
            r is Ok ==> self.request_matches(engine, r->Ok_0),
            r is Err ==> self.refusal() == Some(r->Err_0),
    {
        match self.validate() {
            Err(e) => Err(e),
            Ok(m) => Ok(
                MatcherRequest {
                    pattern: self.regex.patterns[0].clone(),
                    case_insensitive: self.regex.case_insensitive,
                    unicode: true,
                    captures: m.needs_captures(),
                    engine,
                },
            ),
        }
    }

    /// Validates the description and picks the workload that its model
    /// name stands for.
    pub fn dispatch(&self, engine: Engine) -> (r: Result<Plan, BenchError>)
        ensures
            r is Ok <==> self.valid(),
            r is Ok ==> r->Ok_0 == plan_of(model_of_name(self.model@).unwrap(), engine),
            r is Err ==> self.refusal() == Some(r->Err_0),
    {
        match self.validate() {
            Err(e) => Err(e),
            Ok(m) => Ok(
                Plan {
                    model: m,
                    engine,
                    query: m.query(),
                    captures: m.needs_captures(),
                    timed_build: m.compile_is_timed(),
                },
            ),
        }
    }
}

/// A description with exactly one pattern and a known model is accepted.
/// One with no pattern or with several is refused as multi-pattern,
/// whatever model it names.
pub proof fn lemma_validation(b: Benchmark)
    ensures
        b.valid() <==> b.refusal().is_none(),
        b.regex.patterns@.len() != 1 ==> b.refusal() == Some(BenchError::MultiPattern),
        b.regex.patterns@.len() == 1 && model_of_name(b.model@).is_none() ==> b.refusal()
            == Some(BenchError::UnknownModel(b.model)),
{
}

/// The table of the models: what each one asks of the matcher, whether
/// it needs capture groups, and whether it times the matcher's
/// construction. Only the compile model does the last; only the two
/// capture models need groups.
pub proof fn lemma_plan_table(engine: Engine)
    ensures
        plan_of(Model::Compile, engine) == (Plan {
            model: Model::Compile,
            engine,
            query: Query::Matches,
            captures: false,
            timed_build: true,
        }),
        plan_of(Model::Count, engine) == (Plan {
            model: Model::Count,
            engine,
            query: Query::Matches,
            captures: false,
            timed_build: false,
        }),
        plan_of(Model::CountSpans, engine) == (Plan {
            model: Model::CountSpans,
            engine,
            query: Query::Matches,
            captures: false,
            timed_build: false,
        }),
        plan_of(Model::CountCaptures, engine) == (Plan {
            model: Model::CountCaptures,
            engine,
            query: Query::Captures,
            captures: true,
            timed_build: false,
        }),
        plan_of(Model::Grep, engine) == (Plan {
            model: Model::Grep,
            engine,
            query: Query::LineTest,
            captures: false,
            timed_build: false,
        }),
        plan_of(Model::GrepCaptures, engine) == (Plan {
            model: Model::GrepCaptures,
            engine,
            query: Query::LineCaptures,
            captures: true,
            timed_build: false,
        }),
{
}

/// A description that names one of the six models and holds one pattern
/// is dispatched to the plan of that model; any other is refused before
/// a matcher is asked for.
pub proof fn lemma_dispatch_by_name(b: Benchmark, m: Model)
    requires
        b.regex.patterns@.len() == 1,
        b.model@ == m.spec_name(),
    ensures
        b.valid(),
        model_of_name(b.model@) == Some(m),
        b.refusal().is_none(),
{
    lemma_model_name_round_trip(m);
}

} // verus!
