//! Test results and their reporting: the success predicate, accessors for
//! the reporter, and the conversion of a failed result into an error.

use vstd::prelude::*;

use crate::assertion::message_of;
use crate::property::PropertyTestResult;
use crate::unit::UnitTest;
use crate::vm::{CostBudget, VmTerm};

verus! {

/// The outcome of running one test.
#[derive(Debug)]
pub enum TestResult<T> {
    UnitTestResult(UnitTestResult),
    PropertyTestResult(PropertyTestResult<T>),
}

/// The outcome of a unit test: the success flag, what the evaluation spent
/// and logged, the residual term, and the test itself.
#[derive(Debug)]
pub struct UnitTestResult {
    pub success: bool,
    pub spent_budget: CostBudget,
    pub output: Option<VmTerm>,
    pub logs: Vec<String>,
    pub test: UnitTest,
}

/// A failed test, as reported: its name and path, the rendered assertion
/// for unit tests built from a comparison, and the pretty-printed program.
#[derive(Debug)]
pub struct TestFailure {
    pub name: String,
    pub path: String,
    pub assertion: Option<String>,
    pub src: String,
    pub verbose: bool,
}

/// Whether a result counts as a success: a unit test's stored flag; a
/// property test succeeds without a counterexample, or with one when
/// errors were expected.
pub open spec fn spec_is_success<T>(r: TestResult<T>) -> bool {
    match r {
        TestResult::UnitTestResult(u) => u.success,
        TestResult::PropertyTestResult(p) => if p.test.can_error {
            p.counterexample is Some
        } else {
            p.counterexample is None
        },
    }
}

impl<T> TestResult<T> {
    /// Hand a property result's counterexample on in its converted form;
    /// a unit result passes through unchanged. The conversion itself
    /// belongs to the compiler, so the caller supplies the converted
    /// value, present exactly when a counterexample is.
    pub fn reify<U>(self, counterexample: Option<U>) -> (r: TestResult<U>)
        requires
            self matches TestResult::PropertyTestResult(p) ==> (p.counterexample is Some
                <==> counterexample is Some),
        ensures
            self matches TestResult::UnitTestResult(u) ==> (r matches TestResult::UnitTestResult(
                u2,
            ) && u2 == u),
            self matches TestResult::PropertyTestResult(p) ==> (r matches
                TestResult::PropertyTestResult(p2) && p2.test == p.test && p2.iterations
                == p.iterations && p2.counterexample == counterexample),
    {
        match self {
            TestResult::UnitTestResult(u) => TestResult::UnitTestResult(u),
            TestResult::PropertyTestResult(p) => TestResult::PropertyTestResult(
                p.reify(counterexample),
            ),
        }
    }

    /// Decide success, as [`spec_is_success`] fixes it.
    pub fn is_success(&self) -> (r: bool)
        ensures
            r == spec_is_success(*self),
    {
        match self {
            TestResult::UnitTestResult(UnitTestResult { success, .. }) => *success,
            TestResult::PropertyTestResult(p) => {
                if p.test.can_error {
                    p.counterexample.is_some()
                } else {
                    p.counterexample.is_none()
                }
            },
        }
    }

    /// The module the test was declared in.
    pub fn module(&self) -> (r: &str)
        ensures
            self matches TestResult::UnitTestResult(u) ==> r@ == u.test.module@,
            self matches TestResult::PropertyTestResult(p) ==> r@ == p.test.module@,
    {
        match self {
            TestResult::UnitTestResult(u) => u.test.module.as_str(),
            TestResult::PropertyTestResult(p) => p.test.module.as_str(),
        }
    }

    /// The test's own name.
    pub fn title(&self) -> (r: &str)
        ensures
            self matches TestResult::UnitTestResult(u) ==> r@ == u.test.name@,
            self matches TestResult::PropertyTestResult(p) ==> r@ == p.test.name@,
    {
        match self {
            TestResult::UnitTestResult(u) => u.test.name.as_str(),
            TestResult::PropertyTestResult(p) => p.test.name.as_str(),
        }
    }

    /// The log lines the evaluation produced; property results carry none.
    pub fn logs(&self) -> (r: &[String])
        ensures
            self matches TestResult::UnitTestResult(u) ==> r@ == u.logs@,
            self matches TestResult::PropertyTestResult(_) ==> r@.len() == 0,
    {
        match self {
            TestResult::UnitTestResult(u) => u.logs.as_slice(),
            TestResult::PropertyTestResult(_) => &[],
        }
    }

    /// Turn a failed result into the reported error. The pretty-printed
    /// program text is supplied by the caller, who owns the program; for a
    /// unit test with a comparison hint the rendered message rides along.
    pub fn into_error(&self, verbose: bool, src: String) -> (r: TestFailure)
        ensures
            r.verbose == verbose,
            r.src@ == src@,
            self matches TestResult::UnitTestResult(u) ==> r.name@ == u.test.name@ && r.path@
                == u.test.input_path@ && (u.test.assertion is None ==> r.assertion is None) && (
            u.test.assertion matches Some(hint) ==> ((r.assertion is Some <==> message_of(
                hint.bin_op,
                hint.can_error,
                hint.left@,
                hint.right@,
            ) is Some) && (r.assertion matches Some(m) ==> message_of(
                hint.bin_op,
                hint.can_error,
                hint.left@,
                hint.right@,
            ) == Some(m@)))),
            self matches TestResult::PropertyTestResult(p) ==> r.name@ == p.test.name@ && r.path@
                == p.test.input_path@ && r.assertion is None,
    {
        match self {
            TestResult::UnitTestResult(u) => {
                let assertion: Option<String> = match &u.test.assertion {
                    Some(hint) => hint.message(),
                    None => None,
                };
                TestFailure {
                    name: u.test.name.clone(),
                    path: u.test.input_path.clone(),
                    assertion,
                    src,
                    verbose,
                }
            },
            TestResult::PropertyTestResult(p) => TestFailure {
                name: p.test.name.clone(),
                path: p.test.input_path.clone(),
                assertion: None,
                src,
                verbose,
            },
        }
    }
}

} // verus!
