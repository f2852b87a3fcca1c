use microthesis::counterexample::Counterexample;
use microthesis::data::DataValue;
use microthesis::model::{ModelFuzzer, ModelProperty, ModelVm};
use microthesis::prng::Prng;
use microthesis::property::PropertyTest;
use microthesis::vm::FatalError;

fn property(property: ModelProperty, can_error: bool) -> (PropertyTest, ModelVm) {
    let test = PropertyTest {
        input_path: String::from("lib/test.ak"),
        module: String::from("test"),
        name: String::from("foo"),
        can_error,
    };
    let vm = ModelVm { fuzzer: ModelFuzzer::DrawByte, property };
    (test, vm)
}

fn scramble(seed: u32) -> u32 {
    seed.wrapping_mul(1664525).wrapping_add(1013904223)
}

#[test]
fn test_prop_basic() {
    let (prop, vm) = property(ModelProperty::NonNegative, false);
    assert!(prop.run(42, &vm).unwrap().is_success());
}

#[test]
fn test_prop_always_odd() {
    let (prop, vm) = property(ModelProperty::IsEven, false);

    let (next_prng, value) = Prng::from_seed(12).sample(&vm).unwrap().unwrap();
    let result = prop.eval(&value, &vm);
    assert!(result.failed(prop.can_error));
    let mut counterexample = Counterexample {
        value,
        choices: next_prng.choices(),
    };

    counterexample.simplify(&prop, &vm).unwrap();

    assert_eq!(counterexample.choices, vec![1]);
}

#[test]
fn passing_run_reports_full_iteration_count() {
    let (prop, vm) = property(ModelProperty::NonNegative, false);
    match prop.run(42, &vm).unwrap() {
        microthesis::result::TestResult::PropertyTestResult(p) => {
            assert!(p.counterexample.is_none());
            assert_eq!(p.iterations, 100);
        }
        _ => panic!("expected a property result"),
    }
}

#[test]
fn failing_run_shrinks_to_one() {
    let (prop, vm) = property(ModelProperty::IsEven, false);
    let result = prop.run(12, &vm).unwrap();
    assert!(!result.is_success());
    match result {
        microthesis::result::TestResult::PropertyTestResult(p) => {
            assert_eq!(p.iterations, 1);
            match p.counterexample {
                Some(DataValue::Integer { value }) => assert_eq!(value, 1),
                _ => panic!("expected an integer counterexample"),
            }
        }
        _ => panic!("expected a property result"),
    }
}

#[test]
fn expected_failure_makes_property_succeed() {
    let (prop, vm) = property(ModelProperty::AlwaysTrue, true);
    // With inverted polarity the canonical `true` is a failing evaluation,
    // so a counterexample appears at once and the test counts as a success.
    let result = prop.run(7, &vm).unwrap();
    assert!(result.is_success());
}

#[test]
fn zero_draw_fuzzer_skips_shrinking() {
    let test = PropertyTest {
        input_path: String::from("lib/test.ak"),
        module: String::from("test"),
        name: String::from("constant"),
        can_error: false,
    };
    let vm = ModelVm {
        fuzzer: ModelFuzzer::ConstantInt { value: 7 },
        property: ModelProperty::AlwaysFalse,
    };
    let (_, counterexample) = test.run_once(99, &vm).unwrap();
    match counterexample {
        Some(DataValue::Integer { value }) => assert_eq!(value, 7),
        _ => panic!("expected the generated value unchanged"),
    }
}

#[test]
fn replay_of_empty_choices_returns_none() {
    let vm = ModelVm {
        fuzzer: ModelFuzzer::DrawByte,
        property: ModelProperty::NonNegative,
    };
    let empty: Vec<u32> = Vec::new();
    let replayed = Prng::from_choices(&empty);
    assert!(replayed.sample(&vm).unwrap().is_none());
}

#[test]
fn seeded_choices_come_in_draw_order() {
    let vm = ModelVm {
        fuzzer: ModelFuzzer::DrawByte,
        property: ModelProperty::NonNegative,
    };
    let seed: u32 = 5;
    let first = scramble(seed);
    let second = scramble(first);
    let (prng1, _) = Prng::from_seed(seed).sample(&vm).unwrap().unwrap();
    let (prng2, _) = prng1.sample(&vm).unwrap().unwrap();
    assert_eq!(prng2.choices(), vec![first % 256, second % 256]);
}

#[test]
fn replayed_choices_are_returned_unchanged() {
    let stored = vec![5u32, 6, 7];
    assert_eq!(Prng::from_choices(&stored).choices(), vec![5, 6, 7]);
}

#[test]
fn replaying_recorded_choices_reproduces_the_value() {
    let vm = ModelVm {
        fuzzer: ModelFuzzer::DrawByte,
        property: ModelProperty::NonNegative,
    };
    let (prng1, value1) = Prng::from_seed(42).sample(&vm).unwrap().unwrap();
    let (_, value2) = Prng::from_choices(&prng1.choices())
        .sample(&vm)
        .unwrap()
        .unwrap();
    match (value1, value2) {
        (DataValue::Integer { value: a }, DataValue::Integer { value: b }) => assert_eq!(a, b),
        _ => panic!("expected integer draws"),
    }
}

#[test]
fn crashed_fuzzer_is_fatal() {
    let test = PropertyTest {
        input_path: String::new(),
        module: String::new(),
        name: String::from("crash"),
        can_error: false,
    };
    let vm = ModelVm {
        fuzzer: ModelFuzzer::Crash,
        property: ModelProperty::NonNegative,
    };
    assert_eq!(test.run(1, &vm).unwrap_err(), FatalError::FuzzerCrashed);
}

#[test]
fn malformed_reply_is_fatal() {
    let test = PropertyTest {
        input_path: String::new(),
        module: String::new(),
        name: String::from("garbage"),
        can_error: false,
    };
    let vm = ModelVm {
        fuzzer: ModelFuzzer::Garbage,
        property: ModelProperty::NonNegative,
    };
    assert_eq!(
        test.run(1, &vm).unwrap_err(),
        FatalError::MalformedFuzzerResult
    );
}

#[test]
fn exhausted_seeded_fuzzer_is_fatal() {
    let test = PropertyTest {
        input_path: String::new(),
        module: String::new(),
        name: String::from("exhaust"),
        can_error: false,
    };
    let vm = ModelVm {
        fuzzer: ModelFuzzer::Exhaust,
        property: ModelProperty::NonNegative,
    };
    assert_eq!(test.run(1, &vm).unwrap_err(), FatalError::SeededSampleNone);
}

#[test]
fn consider_keeps_only_failing_candidates() {
    let (prop, vm) = property(ModelProperty::IsEven, false);
    let mut counterexample = Counterexample {
        value: DataValue::Integer { value: 5 },
        choices: vec![5],
    };
    // An even replacement makes the test pass, so it is rejected.
    assert!(!counterexample.consider(&prop, &vm, &vec![4]).unwrap());
    assert_eq!(counterexample.choices, vec![5]);
    // An odd, smaller replacement still fails and is kept.
    assert!(counterexample.consider(&prop, &vm, &vec![3]).unwrap());
    assert_eq!(counterexample.choices, vec![3]);
    // The current choices are always accepted unchanged.
    assert!(counterexample.consider(&prop, &vm, &vec![3]).unwrap());
    assert_eq!(counterexample.choices, vec![3]);
}

#[test]
fn binary_search_replace_finds_the_smallest_failing_value() {
    let (prop, vm) = property(ModelProperty::IsEven, false);
    let mut counterexample = Counterexample {
        value: DataValue::Integer { value: 201 },
        choices: vec![201],
    };
    let found = counterexample
        .binary_search_replace(&prop, &vm, 0, 201, 0)
        .unwrap();
    assert!(found < 201);
    assert_eq!(found % 2, 1);
}

#[test]
fn infeasible_replay_is_rejected() {
    let (prop, vm) = property(ModelProperty::IsEven, false);
    let mut counterexample = Counterexample {
        value: DataValue::Integer { value: 5 },
        choices: vec![300],
    };
    // A choice above the byte range makes the replay infeasible.
    assert!(!counterexample.consider(&prop, &vm, &vec![299]).unwrap());
    assert_eq!(counterexample.choices, vec![300]);
}

#[test]
fn always_failing_property_shrinks_to_zero() {
    let (prop, vm) = property(ModelProperty::AlwaysFalse, false);
    let result = prop.run(3, &vm).unwrap();
    match result {
        microthesis::result::TestResult::PropertyTestResult(p) => {
            assert_eq!(p.iterations, 1);
            match p.counterexample {
                Some(DataValue::Integer { value }) => assert_eq!(value, 0),
                _ => panic!("expected an integer counterexample"),
            }
        }
        _ => panic!("expected a property result"),
    }
}

#[test]
fn simplify_deletes_unused_trailing_choices() {
    let (prop, vm) = property(ModelProperty::IsEven, false);
    // Replaying consumes only the first choice, so the trailing ones can
    // be deleted outright, and the surviving head shrinks to the smallest
    // odd value.
    let mut counterexample = Counterexample {
        value: DataValue::Integer { value: 7 },
        choices: vec![7, 200, 13],
    };
    counterexample.simplify(&prop, &vm).unwrap();
    assert_eq!(counterexample.choices, vec![1]);
}

#[test]
fn reify_keeps_test_and_iterations() {
    let (prop, vm) = property(ModelProperty::IsEven, false);
    match prop.run(12, &vm).unwrap() {
        microthesis::result::TestResult::PropertyTestResult(p) => {
            let iterations = p.iterations;
            let reified = p.reify(Some(1i64));
            assert_eq!(reified.iterations, iterations);
            assert_eq!(reified.test.name, "foo");
            assert_eq!(reified.counterexample, Some(1i64));
        }
        _ => panic!("expected a property result"),
    }
}

#[test]
fn reify_keeps_a_missing_counterexample() {
    let (prop, vm) = property(ModelProperty::NonNegative, false);
    let result = prop.run(42, &vm).unwrap();
    let reified: microthesis::result::TestResult<i64> = result.reify(None);
    assert!(reified.is_success());
    match reified {
        microthesis::result::TestResult::PropertyTestResult(p) => {
            assert_eq!(p.iterations, 100);
            assert!(p.counterexample.is_none());
        }
        _ => panic!("expected a property result"),
    }
}
