use microthesis::assertion::{Assertion, BinaryOp};
use microthesis::framework::Test;
use microthesis::result::TestResult;
use microthesis::unit::UnitTest;
use microthesis::vm::{CostBudget, Evaluation, VmTerm};

fn render(bin_op: BinaryOp, can_error: bool) -> Option<String> {
    Assertion {
        bin_op,
        left: String::from("L"),
        right: String::from("R"),
        can_error,
    }
    .message()
}

#[test]
fn plain_messages_follow_the_table() {
    assert_eq!(
        render(BinaryOp::And, false).unwrap(),
        "L\n\nand\n\nR\n\nshould both be true."
    );
    assert_eq!(
        render(BinaryOp::Or, false).unwrap(),
        "L\n\nor\n\nR\n\nshould be true."
    );
    assert_eq!(
        render(BinaryOp::Eq, false).unwrap(),
        "L\n\nshould be equal to\n\nR"
    );
    assert_eq!(
        render(BinaryOp::NotEq, false).unwrap(),
        "L\n\nshould not be equal to\n\nR"
    );
    assert_eq!(
        render(BinaryOp::LtInt, false).unwrap(),
        "L\n\nshould be lower than\n\nR"
    );
    assert_eq!(
        render(BinaryOp::LtEqInt, false).unwrap(),
        "L\n\nshould be lower than or equal to\n\nR"
    );
    assert_eq!(
        render(BinaryOp::GtEqInt, false).unwrap(),
        "L\n\nshould be greater than\n\nR"
    );
    assert_eq!(
        render(BinaryOp::GtInt, false).unwrap(),
        "L\n\nshould be greater than or equal to\n\nR"
    );
}

#[test]
fn inverted_messages_follow_the_table() {
    assert_eq!(
        render(BinaryOp::And, true).unwrap(),
        "L\n\nand\n\nR\n\nare both true but shouldn't."
    );
    assert_eq!(
        render(BinaryOp::Or, true).unwrap(),
        "neither\n\nL\n\nnor\n\nR\n\nshould be true."
    );
    assert_eq!(
        render(BinaryOp::Eq, true).unwrap(),
        "L\n\nshould not be equal to\n\nR"
    );
    assert_eq!(
        render(BinaryOp::NotEq, true).unwrap(),
        "L\n\nshould be equal to\n\nR"
    );
    assert_eq!(
        render(BinaryOp::LtInt, true).unwrap(),
        "L\n\nshould be greater than or equal to\n\nR"
    );
    assert_eq!(
        render(BinaryOp::LtEqInt, true).unwrap(),
        "L\n\nshould be greater than\n\nR"
    );
    assert_eq!(
        render(BinaryOp::GtEqInt, true).unwrap(),
        "L\n\nshould be lower than or equal\n\nR"
    );
    assert_eq!(
        render(BinaryOp::GtInt, true).unwrap(),
        "L\n\nshould be lower than\n\nR"
    );
}

#[test]
fn unsupported_operators_render_nothing() {
    assert!(render(BinaryOp::AddInt, false).is_none());
    assert!(render(BinaryOp::ModInt, true).is_none());
}

fn boolean_evaluation(value: bool) -> Evaluation {
    Evaluation {
        result: Ok(VmTerm::Bool { value }),
        spent: CostBudget { mem: 10, cpu: 20 },
        logs: vec![String::from("trace")],
    }
}

#[test]
fn expected_error_makes_unit_test_succeed() {
    // A test whose body evaluates to the canonical `false`, declared as
    // expecting failure, counts as a success.
    let test = match Test::unit_test(
        String::from("lib/test.ak"),
        String::from("test"),
        String::from("inverted"),
        true,
        None,
    ) {
        Test::UnitTest(u) => u,
        _ => panic!("expected a unit test"),
    };
    let result: TestResult<()> = test.run(boolean_evaluation(false));
    assert!(result.is_success());
}

#[test]
fn failed_comparison_reports_its_assertion() {
    let assertion = Assertion {
        bin_op: BinaryOp::Eq,
        left: String::from("2"),
        right: String::from("3"),
        can_error: false,
    };
    let test = UnitTest {
        input_path: String::from("lib/test.ak"),
        module: String::from("test"),
        name: String::from("sum"),
        can_error: false,
        assertion: Some(assertion),
    };
    let result: TestResult<()> = test.run(boolean_evaluation(false));
    assert!(!result.is_success());
    let failure = result.into_error(false, String::from("(program)"));
    assert!(failure.assertion.unwrap().contains("should be equal to"));
    assert_eq!(failure.name, "sum");
    assert_eq!(failure.path, "lib/test.ak");
    assert_eq!(failure.src, "(program)");
    assert!(!failure.verbose);
}

#[test]
fn unit_run_records_the_evaluation() {
    let test = UnitTest {
        input_path: String::from("lib/test.ak"),
        module: String::from("m"),
        name: String::from("ok"),
        can_error: false,
        assertion: None,
    };
    match test.run::<()>(boolean_evaluation(true)) {
        TestResult::UnitTestResult(u) => {
            assert!(u.success);
            assert_eq!(u.spent_budget, CostBudget { mem: 10, cpu: 20 });
            assert_eq!(u.logs, vec![String::from("trace")]);
            assert!(matches!(u.output, Some(VmTerm::Bool { value: true })));
        }
        _ => panic!("expected a unit result"),
    }
}

#[test]
fn accessors_report_the_test_identity() {
    let test = UnitTest {
        input_path: String::from("lib/test.ak"),
        module: String::from("my_module"),
        name: String::from("my_test"),
        can_error: false,
        assertion: None,
    };
    let result: TestResult<()> = test.run(boolean_evaluation(true));
    assert_eq!(result.module(), "my_module");
    assert_eq!(result.title(), "my_test");
    assert_eq!(result.logs(), [String::from("trace")].as_slice());
}

#[test]
fn non_boolean_output_fails_both_polarities() {
    let evaluation = || Evaluation {
        result: Ok(VmTerm::Other {
            rendered: String::from("42"),
        }),
        spent: CostBudget { mem: 0, cpu: 0 },
        logs: Vec::new(),
    };
    assert!(evaluation().failed(true));
    assert!(evaluation().failed(false));
}

#[test]
fn evaluation_errors_follow_the_polarity() {
    let error = Evaluation {
        result: Err(String::from("out of budget")),
        spent: CostBudget { mem: 0, cpu: 0 },
        logs: Vec::new(),
    };
    assert!(error.failed(false));
    let error = Evaluation {
        result: Err(String::from("out of budget")),
        spent: CostBudget { mem: 0, cpu: 0 },
        logs: Vec::new(),
    };
    assert!(!error.failed(true));
}

#[test]
fn max_budget_is_unbounded() {
    let budget = CostBudget::max();
    assert_eq!(budget.mem, i64::MAX);
    assert_eq!(budget.cpu, i64::MAX);
}

#[test]
fn reify_passes_unit_results_through() {
    let test = UnitTest {
        input_path: String::from("lib/test.ak"),
        module: String::from("m"),
        name: String::from("ok"),
        can_error: false,
        assertion: None,
    };
    let result: TestResult<()> = test.run(boolean_evaluation(true));
    let reified: TestResult<i64> = result.reify(None);
    assert!(reified.is_success());
    assert_eq!(reified.title(), "ok");
}
