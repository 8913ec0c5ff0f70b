use mock_support::CapturedState;
use mock_support::ExpectBehaviour;
use mock_support::MockState;
use mock_support::decimal_string;
use mock_support::unsatisfied_report;

#[test]
fn decimal_rendering_matches_expected_values() {
    assert_eq!(decimal_string(0), "0");
    assert_eq!(decimal_string(7), "7");
    assert_eq!(decimal_string(10), "10");
    assert_eq!(decimal_string(123), "123");
    assert_eq!(decimal_string(90710), "90710");
    assert_eq!(decimal_string(1000001), "1000001");
}

#[test]
fn report_line_carries_method_count_and_description() {
    let line = unsatisfied_report("Greeter", "hello", 1, "expect hello twice");
    assert_eq!(
        line,
        "Behaviour unsatisfied for Greeter::hello with 1 matching invocations: expect hello twice"
    );
}

#[test]
fn one_report_line_per_unsatisfied_expectation_in_order() {
    let mut s = MockState::new();
    let state = CapturedState::new(0, vec![]);
    s.add_expect_behaviour(
        "Repo",
        "save",
        ExpectBehaviour::with_times(2, 1, state.clone(), "expect save twice"),
    );
    s.add_expect_behaviour(
        "Repo",
        "load",
        ExpectBehaviour::with_at_most(3, 2, state.clone(), "expect load up to three times"),
    );
    s.add_expect_behaviour(
        "Log",
        "append",
        ExpectBehaviour::with_at_least(1, 3, state, "expect append"),
    );
    s.record_expect_match("Repo", "save", 0);
    let reports = s.unsatisfied_reports();
    assert_eq!(reports.len(), 2);
    assert_eq!(
        reports[0],
        "Behaviour unsatisfied for Repo::save with 1 matching invocations: expect save twice"
    );
    assert_eq!(
        reports[1],
        "Behaviour unsatisfied for Log::append with 0 matching invocations: expect append"
    );
}

#[test]
fn satisfied_registry_owes_no_report_lines() {
    let mut s = MockState::new();
    let state = CapturedState::new(0, vec![]);
    s.add_expect_behaviour("Repo", "save", ExpectBehaviour::with_times(1, 1, state, "a"));
    s.record_expect_match("Repo", "save", 0);
    assert!(s.unsatisfied_reports().is_empty());
}
