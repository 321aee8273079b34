//! The matching backends a run can be asked to use.
use vstd::prelude::*;
use crate::text::same_text;

verus! {

/// A matching backend: the just-in-time compiled matcher or the
/// interpreted virtual machine.
#[derive(Clone, Copy, Debug, PartialEq, Eq, Structural)]
pub enum Engine {
    PikeJIT,
    PikeVM,
}

/// The backend that a name selects, if any.
pub open spec fn engine_of_name(name: Seq<char>) -> Option<Engine> {
    if name == "pike_jit"@ {
        Some(Engine::PikeJIT)
    } else if name == "pike_vm"@ {
        Some(Engine::PikeVM)
    } else {
        None
    }
}

impl Engine {
    /// The name by which this backend is selected.
    pub open spec fn spec_name(self) -> Seq<char> {
        match self {
            Engine::PikeJIT => "pike_jit"@,
            Engine::PikeVM => "pike_vm"@,
        }
    }

    /// Whether `s` names a backend.
    pub fn recognized(s: &str) -> (r: bool)
        ensures
            r == engine_of_name(s@).is_some(),
    {
        same_text(s, "pike_jit") || same_text(s, "pike_vm")
    }

    /// The backend named `s`, or `None` where `s` names none.
    pub fn parse(s: &str) -> (r: Option<Engine>)
        ensures
            r == engine_of_name(s@),
    {
        if same_text(s, "pike_jit") {
            Some(Engine::PikeJIT)
        } else if same_text(s, "pike_vm") {
            Some(Engine::PikeVM)
        } else {
            None
        }
    }

    /// The backend named `s`, which must be a recognized name.
    pub fn from_str(s: &str) -> (r: Engine)
        requires
            engine_of_name(s@).is_some(),
        ensures
            engine_of_name(s@) == Some(r),
    {
        if same_text(s, "pike_jit") {
            Engine::PikeJIT
        } else {
            Engine::PikeVM
        }
    }

    /// The name by which this backend is selected.
    pub fn name(self) -> (r: &'static str)
        ensures
            r@ == self.spec_name(),
            engine_of_name(r@) == Some(self),
    {
        proof {
            lemma_engine_names_differ();
        }
        match self {
            Engine::PikeJIT => "pike_jit",
            Engine::PikeVM => "pike_vm",
        }
    }
}

/// The two backend names are different strings.
pub proof fn lemma_engine_names_differ()
    ensures
        "pike_jit"@ != "pike_vm"@,
{
    reveal_strlit("pike_jit");
    reveal_strlit("pike_vm");
    assert("pike_jit"@.len() == 8);
    assert("pike_vm"@.len() == 7);
}

/// Every backend is selected by its own name.
pub proof fn lemma_engine_name_round_trip(e: Engine)
    ensures
        engine_of_name(e.spec_name()) == Some(e),
{
    lemma_engine_names_differ();
}

} // verus!
