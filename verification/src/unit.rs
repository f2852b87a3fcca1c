//! Unit tests: a compiled program evaluated once, whose residual value
//! decides success under the test's polarity.

use vstd::prelude::*;

use crate::assertion::Assertion;
use crate::result::{TestResult, UnitTestResult};
use crate::vm::{eval_failed, Evaluation, VmTerm};

verus! {

/// A unit test: its identity, polarity, and the comparison hint used for
/// diagnostics. The compiled program stays with the virtual machine; its
/// one evaluation is handed to [`UnitTest::run`].
#[derive(Debug)]
pub struct UnitTest {
    pub input_path: String,
    pub module: String,
    pub name: String,
    pub can_error: bool,
    pub assertion: Option<Assertion>,
}

impl UnitTest {
    /// Wrap the program's one evaluation into a result: the test succeeds
    /// exactly when the evaluation did not fail under its polarity; the
    /// budget spent, the logs and the residual term are carried along.
    pub fn run<T>(self, evaluation: Evaluation) -> (r: TestResult<T>)
        ensures
            r matches TestResult::UnitTestResult(u) && u.success == !eval_failed(
                evaluation@,
                self.can_error,
            ) && u.spent_budget == evaluation.spent && u.logs.deep_view() == evaluation@.logs && (
            match (u.output, evaluation@.result) {
                (Some(t), Ok(m)) => t@ == m,
                (None, Err(_)) => true,
                _ => false,
            }) && u.test == self,
    {
        let success = !evaluation.failed(self.can_error);
        let ghost ev = evaluation@;
        let Evaluation { result, spent, logs } = evaluation;
        let output: Option<VmTerm> = match result {
            Ok(term) => Some(term),
            Err(_) => None,
        };
        TestResult::UnitTestResult(
            UnitTestResult { success, spent_budget: spent, output, logs, test: self },
        )
    }
}

} // verus!
