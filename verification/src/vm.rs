//! The virtual-machine collaborator, as the driver sees it: a cost budget,
//! the outcome of one evaluation, and a bridge through which a compiled
//! fuzzer and a compiled test program are applied and evaluated. The bridge
//! is deterministic for equal inputs; that determinism is what its trait
//! contract states.

use vstd::prelude::*;

use crate::data::{Dat, DataValue};

verus! {

/// A pair of cost counters the machine decrements while evaluating.
#[derive(Debug, Clone, Copy, PartialEq, Eq, Structural)]
pub struct CostBudget {
    pub mem: i64,
    pub cpu: i64,
}

impl CostBudget {
    /// The effectively unbounded budget every driver evaluation runs under.
    pub fn max() -> (r: CostBudget)
        ensures
            r.mem == i64::MAX,
            r.cpu == i64::MAX,
    {
        CostBudget { mem: i64::MAX, cpu: i64::MAX }
    }
}

/// The residual term of a successful evaluation, as far as the driver
/// inspects it: the machine's canonical booleans are distinguished, any
/// other term is carried as a rendering for diagnostics.
#[derive(Debug)]
pub enum VmTerm {
    Bool { value: bool },
    Other { rendered: String },
}

/// The mathematical model of a [`VmTerm`].
pub enum TermModel {
    Bool { value: bool },
    Other { rendered: Seq<char> },
}

impl View for VmTerm {
    type V = TermModel;

    open spec fn view(&self) -> TermModel {
        match self {
            VmTerm::Bool { value } => TermModel::Bool { value: *value },
            VmTerm::Other { rendered } => TermModel::Other { rendered: rendered@ },
        }
    }
}

/// The output of one machine run: a residual term or an error rendering,
/// the budget spent, and the ordered log lines (retained for aborted runs).
#[derive(Debug)]
pub struct Evaluation {
    pub result: Result<VmTerm, String>,
    pub spent: CostBudget,
    pub logs: Vec<String>,
}

/// The mathematical model of an [`Evaluation`].
#[verifier::ext_equal]
pub struct EvalModel {
    pub result: Result<TermModel, Seq<char>>,
    pub spent: CostBudget,
    pub logs: Seq<Seq<char>>,
}

impl View for Evaluation {
    type V = EvalModel;

    open spec fn view(&self) -> EvalModel {
        EvalModel {
            result: match &self.result {
                Ok(term) => Ok(term@),
                Err(err) => Err(err@),
            },
            spent: self.spent,
            logs: self.logs.deep_view(),
        }
    }
}

/// Whether an evaluation counts as a failed test under the given polarity:
/// an error fails unless errors are expected; the canonical `true` passes
/// exactly when they are not, the canonical `false` exactly when they are;
/// any other residual term fails either way.
pub open spec fn eval_failed(e: EvalModel, can_error: bool) -> bool {
    match e.result {
        Err(_) => !can_error,
        Ok(TermModel::Bool { value }) => value == can_error,
        Ok(TermModel::Other { .. }) => true,
    }
}

impl Evaluation {
    /// Decide failure under the given polarity, as [`eval_failed`] states.
    pub fn failed(&self, can_error: bool) -> (r: bool)
        ensures
            r == eval_failed(self@, can_error),
    {
        match &self.result {
            Err(_) => !can_error,
            Ok(VmTerm::Bool { value }) => *value == can_error,
            Ok(VmTerm::Other { .. }) => true,
        }
    }
}

/// The bridge to the virtual machine for one property test: it holds the
/// compiled fuzzer and the compiled test program and evaluates them on
/// demand. Both operations are deterministic for equal inputs, which the
/// contracts state by tying each call's result to a specification-level
/// function of the argument alone.
pub trait VmBridge {
    /// What applying the encoded generator state to the compiled fuzzer and
    /// evaluating under the maximal budget returns: `None` models a machine
    /// error (a crashed fuzzer), `Some` carries the data the fuzzer returned.
    spec fn fuzzer_response(&self, prng: Dat) -> Option<Dat>;

    /// The evaluation of the compiled test program applied to a generated
    /// value, converted to its declared type, under the maximal budget.
    spec fn test_evaluation(&self, value: Dat) -> EvalModel;

    /// Apply the encoded generator state to the fuzzer and evaluate it.
    fn run_fuzzer(&self, prng: &DataValue) -> (r: Option<DataValue>)
        ensures
            r is Some <==> self.fuzzer_response(prng@) is Some,
            r matches Some(d) ==> self.fuzzer_response(prng@) == Some(d@);

    /// Apply a generated value to the test program and evaluate it.
    fn run_test(&self, value: &DataValue) -> (r: Evaluation)
        ensures
            r@ == self.test_evaluation(value@);
}

/// An unrecoverable fault: a contract violation by upstream code generation
/// or by the fuzzer, never an ordinary test failure.
#[derive(Debug, Clone, Copy, PartialEq, Eq, Structural)]
pub enum FatalError {
    /// The fuzzer's evaluation itself errored out.
    FuzzerCrashed,
    /// The fuzzer returned data that does not parse as an optional pair of
    /// generator state and value.
    MalformedFuzzerResult,
    /// A seeded generator came back exhausted, which a well-formed fuzzer
    /// cannot cause.
    SeededSampleNone,
    /// A seeded generator came back replayed, which a well-formed fuzzer
    /// cannot cause.
    SeededSampleReplayed,
}

} // verus!
