//! The benchmark models: named workloads that say what is timed and what
//! is counted.
use vstd::prelude::*;
use crate::text::same_text;

verus! {

/// A benchmark model.
#[derive(Clone, Copy, Debug, PartialEq, Eq, Structural)]
pub enum Model {
    /// Matcher construction and one match enumeration, every iteration.
    Compile,
    /// The number of non-overlapping matches.
    Count,
    /// The summed lengths of the matches.
    CountSpans,
    /// The populated capture-group slots over all matches.
    CountCaptures,
    /// The lines that hold at least one match.
    Grep,
    /// The populated capture-group slots over all matches of all lines.
    GrepCaptures,
}

/// What a workload asks of the matcher in one iteration.
#[derive(Clone, Copy, Debug, PartialEq, Eq, Structural)]
pub enum Query {
    /// Enumerate the matches over the whole haystack.
    Matches,
    /// Enumerate the matches over the whole haystack with their groups.
    Captures,
    /// Test each line of the haystack for a match.
    LineTest,
    /// Enumerate the matches of each line with their groups.
    LineCaptures,
}

/// The model that a name selects, if any.
pub open spec fn model_of_name(name: Seq<char>) -> Option<Model> {
    if name == "compile"@ {
        Some(Model::Compile)
    } else if name == "count"@ {
        Some(Model::Count)
    } else if name == "count-spans"@ {
        Some(Model::CountSpans)
    } else if name == "count-captures"@ {
        Some(Model::CountCaptures)
    } else if name == "grep"@ {
        Some(Model::Grep)
    } else if name == "grep-captures"@ {
        Some(Model::GrepCaptures)
    } else {
        None
    }
}

impl Model {
    /// The name by which this model is selected.
    pub open spec fn spec_name(self) -> Seq<char> {
        match self {
            Model::Compile => "compile"@,
            Model::Count => "count"@,
            Model::CountSpans => "count-spans"@,
            Model::CountCaptures => "count-captures"@,
            Model::Grep => "grep"@,
            Model::GrepCaptures => "grep-captures"@,
        }
    }

    /// Whether the matcher must report capture groups for this model.
    pub open spec fn spec_needs_captures(self) -> bool {
        self == Model::CountCaptures || self == Model::GrepCaptures
    }

    /// Whether the matcher is built anew inside every timed iteration.
    pub open spec fn spec_compile_is_timed(self) -> bool {
        self == Model::Compile
    }

    /// What this model asks of the matcher in one iteration.
    pub open spec fn spec_query(self) -> Query {
        match self {
            Model::Compile => Query::Matches,
            Model::Count => Query::Matches,
            Model::CountSpans => Query::Matches,
            Model::CountCaptures => Query::Captures,
            Model::Grep => Query::LineTest,
            Model::GrepCaptures => Query::LineCaptures,
        }
    }

    /// The model named `s`, or `None` where `s` names none.
    pub fn from_name(s: &str) -> (r: Option<Model>)
        ensures
            r == model_of_name(s@),
    {
        if same_text(s, "compile") {
            Some(Model::Compile)
        } else if same_text(s, "count") {
            Some(Model::Count)
        } else if same_text(s, "count-spans") {
            Some(Model::CountSpans)
        } else if same_text(s, "count-captures") {
            Some(Model::CountCaptures)
        } else if same_text(s, "grep") {
            Some(Model::Grep)
        } else if same_text(s, "grep-captures") {
            Some(Model::GrepCaptures)
        } else {
            None
        }
    }

    /// The name by which this model is selected.
    pub fn name(self) -> (r: &'static str)
        ensures
            r@ == self.spec_name(),
    {
        match self {
            Model::Compile => "compile",
            Model::Count => "count",
            Model::CountSpans => "count-spans",
            Model::CountCaptures => "count-captures",
            Model::Grep => "grep",
            Model::GrepCaptures => "grep-captures",
        }
    }

    /// Whether the matcher must report capture groups for this model.
    pub fn needs_captures(self) -> (r: bool)
        ensures
            r == self.spec_needs_captures(),
    {
        match self {
            Model::Compile => false,
            Model::Count => false,
            Model::CountSpans => false,
            Model::CountCaptures => true,
            Model::Grep => false,
            Model::GrepCaptures => true,
        }
    }

    /// Whether the matcher is built anew inside every timed iteration.
    pub fn compile_is_timed(self) -> (r: bool)
        ensures
            r == self.spec_compile_is_timed(),
    {
        match self {
            Model::Compile => true,
            _ => false,
        }
    }

    /// What this model asks of the matcher in one iteration.
    pub fn query(self) -> (r: Query)
        ensures
            r == self.spec_query(),
    {
        match self {
            Model::Compile => Query::Matches,
            Model::Count => Query::Matches,
            Model::CountSpans => Query::Matches,
            Model::CountCaptures => Query::Captures,
            Model::Grep => Query::LineTest,
            Model::GrepCaptures => Query::LineCaptures,
        }
    }
}

/// The six model names are pairwise different, so every model is selected
/// by its own name and by no other.
pub proof fn lemma_model_name_round_trip(m: Model)
    ensures
        model_of_name(m.spec_name()) == Some(m),
{
    reveal_strlit("compile");
    reveal_strlit("count");
    reveal_strlit("count-spans");
    reveal_strlit("count-captures");
    reveal_strlit("grep");
    reveal_strlit("grep-captures");
    assert("compile"@.len() == 7);
    assert("count"@.len() == 5);
    assert("count-spans"@.len() == 11);
    assert("count-captures"@.len() == 14);
    assert("grep"@.len() == 4);
    assert("grep-captures"@.len() == 13);
}

/// A name selects a model exactly when it is that model's name.
pub proof fn lemma_model_of_name_is_name(name: Seq<char>, m: Model)
    ensures
        model_of_name(name) == Some(m) <==> name == m.spec_name(),
{
    lemma_model_name_round_trip(m);
}

} // verus!
