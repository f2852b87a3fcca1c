//! Property tests: a test program applied to values a fuzzer generates,
//! driven by a seeded pseudo-random source and shrunk on failure.

use vstd::prelude::*;

use crate::counterexample::Counterexample;
use crate::data::{Dat, DataValue};
use crate::prng::{parse_reply, prng_dat, Prng, PrngModel};
use crate::vm::{eval_failed, Evaluation, FatalError, VmBridge};

verus! {

/// The property test runner iterates sampling and evaluation at most this
/// many times before declaring the property to hold.
pub const MAX_TEST_RUN: usize = 100;

/// A property test: its identity and polarity. The compiled test program
/// and the compiled fuzzer stay with the virtual machine and are reached
/// through a [`VmBridge`].
#[derive(Debug)]
pub struct PropertyTest {
    pub input_path: String,
    pub module: String,
    pub name: String,
    pub can_error: bool,
}

/// The outcome of a property test: the test, the shrunk counterexample if
/// one was found, and the one-based iteration at which it appeared (or the
/// full iteration count when none did).
#[derive(Debug)]
pub struct PropertyTestResult<T> {
    pub test: PropertyTest,
    pub counterexample: Option<T>,
    pub iterations: usize,
}

/// What one seeded iteration determines, before any shrinking: the next
/// seed, whether the test failed, the generated value, and the recorded
/// choices in draw order. `None` is a fatal fault: a crashed fuzzer, a
/// malformed reply, or a seeded generator that came back exhausted or
/// replayed.
pub open spec fn spec_run_once<B: VmBridge>(vm: &B, can_error: bool, seed: u32) -> Option<
    (u32, bool, Dat, Seq<u32>),
> {
    match vm.fuzzer_response(prng_dat(PrngModel::Seeded { seed, choices: Seq::<u32>::empty() })) {
        None => None,
        Some(d) => match parse_reply(d) {
            None => None,
            Some(None) => None,
            Some(Some((p, v))) => match p {
                PrngModel::Seeded { seed: next, choices } => Some(
                    (next, eval_failed(vm.test_evaluation(v), can_error), v, choices.reverse()),
                ),
                PrngModel::Replayed { .. } => None,
            },
        },
    }
}

/// The outcome of iterating [`spec_run_once`]: every iteration passed, a
/// fatal fault, or a failure at a one-based iteration, with the value the
/// fuzzer generated there and the draws it recorded.
pub enum RunChain {
    Passed,
    Broken,
    FailedAt { iteration: int, value: Dat, draws: Seq<u32> },
}

/// Iterate [`spec_run_once`] for at most `remaining` rounds, threading the
/// seed, and report the first failure's one-based position.
pub open spec fn run_chain<B: VmBridge>(vm: &B, can_error: bool, seed: u32, remaining: nat) -> RunChain
    decreases remaining,
{
    if remaining == 0 {
        RunChain::Passed
    } else {
        match spec_run_once(vm, can_error, seed) {
            None => RunChain::Broken,
            Some((next, failed, v, cs)) => if failed {
                RunChain::FailedAt { iteration: 1, value: v, draws: cs }
            } else {
                match run_chain(vm, can_error, next, (remaining - 1) as nat) {
                    RunChain::FailedAt { iteration, value, draws } => RunChain::FailedAt {
                        iteration: iteration + 1,
                        value,
                        draws,
                    },
                    other => other,
                }
            },
        }
    }
}

/// Shift a failure position by the rounds already done.
pub open spec fn chain_shift(c: RunChain, k: int) -> RunChain {
    match c {
        RunChain::FailedAt { iteration, value, draws } => RunChain::FailedAt {
            iteration: iteration + k,
            value,
            draws,
        },
        other => other,
    }
}

impl<T> PropertyTestResult<T> {
    /// Hand the counterexample on in its converted form, keeping the test
    /// and the iteration count. Converting a counterexample into a surface
    /// expression belongs to the compiler, so the caller supplies the
    /// converted value, present exactly when a counterexample is.
    pub fn reify<U>(self, counterexample: Option<U>) -> (r: PropertyTestResult<U>)
        requires
            self.counterexample is Some <==> counterexample is Some,
        ensures
            r.test == self.test,
            r.iterations == self.iterations,
            r.counterexample == counterexample,
    {
        PropertyTestResult { test: self.test, counterexample, iterations: self.iterations }
    }
}

impl PropertyTest {
    /// Evaluate the test program against one generated value.
    pub fn eval<B: VmBridge>(&self, value: &DataValue, vm: &B) -> (r: Evaluation)
        ensures
            r@ == vm.test_evaluation(value@),
    {
        vm.run_test(value)
    }

    /// One iteration: sample a fresh seeded generator, evaluate the test
    /// on the generated value, and on failure shrink the recorded choices
    /// (unless none were recorded) and report the shrunk value. The
    /// returned seed drives the next iteration.
    pub fn run_once<B: VmBridge>(&self, seed: u32, vm: &B) -> (r: Result<
        (u32, Option<DataValue>),
        FatalError,
    >)
        ensures
            match spec_run_once(vm, self.can_error, seed) {
                None => r is Err,
                Some((next, failed, v, cs)) => match r {
                    Err(_) => failed,
                    Ok((s, c)) => s == next && (c is Some <==> failed) && (c matches Some(value)
                        ==> eval_failed(vm.test_evaluation(value@), self.can_error) && ((value@
                        == v && crate::counterexample::fixed_point(vm, self.can_error, cs)) || (
                    exists|cs2: Seq<u32>|
                        #[trigger] crate::counterexample::shrunk_pair(vm, self.can_error, cs2, value@)
                            && crate::counterexample::no_worse(cs, cs2)))) && (failed && cs.len()
                        == 0 ==> (c matches Some(value) && value@ == v)),
                },
            },
            spec_run_once(vm, self.can_error, seed) matches Some(t) && t.1 && t.3.len() == 0
                ==> r is Ok,
            spec_run_once(vm, self.can_error, seed) is Some && crate::counterexample::replays_total(
                vm,
            ) ==> r is Ok,
    {
        let prng = Prng::from_seed(seed);
        match prng.sample(vm) {
            Err(e) => Err(e),
            Ok(None) => Err(FatalError::SeededSampleNone),
            Ok(Some((next_prng, value))) => {
                let result = self.eval(&value, vm);
                match &next_prng {
                    Prng::Replayed { .. } => Err(FatalError::SeededSampleReplayed),
                    Prng::Seeded { seed: next_seed, .. } => {
                        let next_seed = *next_seed;
                        if result.failed(self.can_error) {
                            let choices = next_prng.choices();
                            let mut counterexample = Counterexample { value, choices };
                            let ghost cs0 = counterexample.choices@;
                            if counterexample.choices.len() != 0 {
                                match counterexample.simplify(self, vm) {
                                    Err(e) => {
                                        return Err(e);
                                    },
                                    Ok(()) => {},
                                }
                                proof {
                                    if counterexample.choices@ != cs0 {
                                        assert(crate::counterexample::shrunk_pair(
                                            vm,
                                            self.can_error,
                                            counterexample.choices@,
                                            counterexample.value@,
                                        ) && crate::counterexample::no_worse(
                                            cs0,
                                            counterexample.choices@,
                                        ));
                                    }
                                }
                            } else {
                                proof {
                                    crate::counterexample::lemma_fixed_point_empty(
                                        vm,
                                        self.can_error,
                                        cs0,
                                    );
                                }
                            }
                            Ok((next_seed, Some(counterexample.value)))
                        } else {
                            Ok((next_seed, None))
                        }
                    },
                }
            },
        }
    }

    /// Run the property from a seed: iterate [`Self::run_once`] at most
    /// [`MAX_TEST_RUN`] times, stop at the first failure, and report the
    /// (shrunk) counterexample with the one-based iteration count at which
    /// it appeared. A run whose every iteration passes reports no
    /// counterexample and the full iteration count.
    pub fn run<B: VmBridge>(self, seed: u32, vm: &B) -> (r: Result<
        crate::result::TestResult<DataValue>,
        FatalError,
    >)
        ensures
            match run_chain(vm, self.can_error, seed, MAX_TEST_RUN as nat) {
                RunChain::Passed => r matches Ok(
                    crate::result::TestResult::PropertyTestResult(p),
                ) && p.counterexample is None && p.iterations == MAX_TEST_RUN && p.test == self,
                RunChain::FailedAt { iteration, value, draws } => r is Err || (r matches Ok(
                    crate::result::TestResult::PropertyTestResult(p),
                ) && p.iterations == iteration && (p.counterexample matches Some(v) && eval_failed(
                    vm.test_evaluation(v@),
                    self.can_error,
                ) && ((v@ == value && crate::counterexample::fixed_point(
                    vm,
                    self.can_error,
                    draws,
                )) || (exists|cs2: Seq<u32>|
                #[trigger] crate::counterexample::shrunk_pair(vm, self.can_error, cs2, v@)
                    && crate::counterexample::no_worse(draws, cs2)))) && p.test == self),
                RunChain::Broken => r is Err,
            },
            !(run_chain(vm, self.can_error, seed, MAX_TEST_RUN as nat) is Broken)
                && crate::counterexample::replays_total(vm) ==> r is Ok,
    {
        let ghost full = run_chain(vm, self.can_error, seed, MAX_TEST_RUN as nat);
        let mut current: u32 = seed;
        let mut iter: usize = 0;
        let mut counterexample: Option<DataValue> = None;
        while iter < MAX_TEST_RUN && counterexample.is_none()
            invariant
                iter <= MAX_TEST_RUN,
                full == run_chain(vm, self.can_error, seed, MAX_TEST_RUN as nat),
                counterexample is None ==> full == chain_shift(
                    run_chain(vm, self.can_error, current, (MAX_TEST_RUN - iter) as nat),
                    iter as int,
                ),
                counterexample matches Some(v) ==> (full matches RunChain::FailedAt { .. } && full
                    ->FailedAt_iteration == iter as int && eval_failed(
                    vm.test_evaluation(v@),
                    self.can_error,
                ) && ((v@ == full->FailedAt_value && crate::counterexample::fixed_point(
                    vm,
                    self.can_error,
                    full->FailedAt_draws,
                )) || (exists|cs2: Seq<u32>|
                #[trigger] crate::counterexample::shrunk_pair(vm, self.can_error, cs2, v@)
                    && crate::counterexample::no_worse(full->FailedAt_draws, cs2)))),
            decreases MAX_TEST_RUN - iter,
        {
            let ghost rem = (MAX_TEST_RUN - iter) as nat;
            proof {
                assert(rem > 0);
            }
            match self.run_once(current, vm) {
                Err(e) => {
                    proof {
                        let step = spec_run_once(vm, self.can_error, current);
                        if step is None {
                            assert(run_chain(vm, self.can_error, current, rem)
                                == RunChain::Broken);
                        } else {
                            assert(run_chain(vm, self.can_error, current, rem) matches
                                RunChain::FailedAt { .. });
                        }
                    }
                    return Err(e);
                },
                Ok((next, c)) => {
                    proof {
                        let step = spec_run_once(vm, self.can_error, current);
                        match step {
                            None => {
                                assert(false);
                            },
                            Some((n2, failed, v, cs)) => {
                                if failed {
                                    assert(run_chain(vm, self.can_error, current, rem)
                                        == RunChain::FailedAt {
                                        iteration: 1,
                                        value: v,
                                        draws: cs,
                                    });
                                } else {
                                    let tail = run_chain(
                                        vm,
                                        self.can_error,
                                        n2,
                                        (rem - 1) as nat,
                                    );
                                    assert(run_chain(vm, self.can_error, current, rem)
                                        == chain_shift(tail, 1));
                                    assert(chain_shift(chain_shift(tail, 1), iter as int)
                                        == chain_shift(tail, iter + 1));
                                }
                            },
                        }
                    }
                    current = next;
                    iter = iter + 1;
                    counterexample = c;
                },
            }
        }
        proof {
            if counterexample is None {
                assert(run_chain(vm, self.can_error, current, (MAX_TEST_RUN - iter) as nat)
                    == RunChain::Passed);
            }
        }
        Ok(
            crate::result::TestResult::PropertyTestResult(
                PropertyTestResult { test: self, counterexample, iterations: iter },
            ),
        )
    }
}

} // verus!
