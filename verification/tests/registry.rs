use mock_support::CapturedState;
use mock_support::ExpectBehaviour;
use mock_support::GivenBehaviour;
use mock_support::MockControl;
use mock_support::MockState;

fn state() -> CapturedState {
    CapturedState::new(0, vec![])
}

#[test]
fn fresh_registry_has_empty_buckets_and_verifies_on_drop() {
    let s = MockState::new();
    assert!(s.given_behaviours_for("Greeter", "hello").is_none());
    assert!(s.expect_behaviours_for("Greeter", "hello").is_none());
    assert!(s.verify_on_drop_enabled());
}

#[test]
fn teardown_policy_can_be_switched_off_and_on() {
    let mut s = MockState::new();
    s.should_verify_on_drop(false);
    assert!(!s.verify_on_drop_enabled());
    s.should_verify_on_drop(true);
    assert!(s.verify_on_drop_enabled());
}

#[test]
fn registration_order_is_preserved_within_a_bucket() {
    let mut s = MockState::new();
    s.add_given_behaviour("Greeter", "hello", GivenBehaviour::with(1, state(), "first"));
    s.add_given_behaviour("Greeter", "hello", GivenBehaviour::with(2, state(), "second"));
    let bucket = s.given_behaviours_for("Greeter", "hello").unwrap();
    assert_eq!(bucket.len(), 2);
    assert_eq!(bucket[0].stmt_id, 1);
    assert_eq!(bucket[1].stmt_id, 2);
    assert_eq!(bucket[0].describe(), "first");
    assert_eq!(bucket[1].describe(), "second");
}

#[test]
fn buckets_are_kept_apart_by_their_keys() {
    let mut s = MockState::new();
    s.add_given_behaviour("Greeter", "hello", GivenBehaviour::with(1, state(), "a"));
    s.add_given_behaviour("Greeter", "goodbye", GivenBehaviour::with(2, state(), "b"));
    s.add_given_behaviour("Repo", "hello", GivenBehaviour::with(3, state(), "c"));
    assert_eq!(s.given_behaviours_for("Greeter", "hello").unwrap()[0].stmt_id, 1);
    assert_eq!(s.given_behaviours_for("Greeter", "goodbye").unwrap()[0].stmt_id, 2);
    assert_eq!(s.given_behaviours_for("Repo", "hello").unwrap()[0].stmt_id, 3);
    assert!(s.given_behaviours_for("Repo", "goodbye").is_none());
}

#[test]
fn reset_given_empties_every_bucket_and_registration_starts_fresh() {
    let mut s = MockState::new();
    s.add_given_behaviour("Greeter", "hello", GivenBehaviour::with(1, state(), "a"));
    s.add_given_behaviour("Repo", "save", GivenBehaviour::with(2, state(), "b"));
    s.reset_given_behaviours();
    assert!(s.given_behaviours_for("Greeter", "hello").is_none());
    assert!(s.given_behaviours_for("Repo", "save").is_none());
    s.add_given_behaviour("Greeter", "hello", GivenBehaviour::with(3, state(), "c"));
    let bucket = s.given_behaviours_for("Greeter", "hello").unwrap();
    assert_eq!(bucket.len(), 1);
    assert_eq!(bucket[0].stmt_id, 3);
}

#[test]
fn reset_expected_empties_every_bucket() {
    let mut s = MockState::new();
    s.add_expect_behaviour("Repo", "save", ExpectBehaviour::with_times(1, 1, state(), "a"));
    assert!(!s.are_expected_behaviours_satisfied());
    s.reset_expected_behaviours();
    assert!(s.expect_behaviours_for("Repo", "save").is_none());
    assert!(s.are_expected_behaviours_satisfied());
}

#[test]
fn registry_with_no_expectations_is_satisfied() {
    let s = MockState::new();
    assert!(s.are_expected_behaviours_satisfied());
    assert!(s.verify(false).is_ok());
}

#[test]
fn exact_expectation_scenario_is_satisfied_at_the_exact_count() {
    let mut s = MockState::new();
    s.add_expect_behaviour(
        "Greeter",
        "hello",
        ExpectBehaviour::with_times(2, 0, state(), "expect hello twice"),
    );
    s.record_expect_match("Greeter", "hello", 0);
    assert!(!s.are_expected_behaviours_satisfied());
    s.record_expect_match("Greeter", "hello", 0);
    assert!(s.are_expected_behaviours_satisfied());
    assert!(s.verify(false).is_ok());
}

#[test]
fn unmatched_at_least_expectation_makes_verification_fatal() {
    let mut s = MockState::new();
    s.add_expect_behaviour(
        "Repo",
        "save",
        ExpectBehaviour::with_at_least(1, 0, state(), "expect save at least once"),
    );
    let outcome = s.verify(false);
    assert!(outcome.is_err());
    assert_eq!(
        outcome.unwrap_err().message(),
        "There are unsatisfied expected behaviours for mocked traits."
    );
}

#[test]
fn explicit_verification_still_raises_after_teardown_policy_is_off() {
    let mut s = MockState::new();
    s.should_verify_on_drop(false);
    s.add_expect_behaviour("Repo", "save", ExpectBehaviour::with_times(1, 0, state(), "a"));
    assert!(!s.verify_on_drop_enabled());
    assert!(s.verify(false).is_err());
}

#[test]
fn verification_is_suppressed_while_unwinding() {
    let mut s = MockState::new();
    s.add_expect_behaviour("Repo", "save", ExpectBehaviour::with_times(1, 0, state(), "a"));
    assert!(s.verify(true).is_ok());
    assert!(s.verify(false).is_err());
    assert!(s.verify(true).is_ok());
}

#[test]
fn recording_a_given_match_counts_toward_saturation() {
    let mut s = MockState::new();
    s.add_given_behaviour(
        "Greeter",
        "hello",
        GivenBehaviour::with_times(1, 0, state(), "given hello once"),
    );
    assert!(!s.given_behaviours_for("Greeter", "hello").unwrap()[0].is_saturated());
    s.record_given_match("Greeter", "hello", 0);
    let bucket = s.given_behaviours_for("Greeter", "hello").unwrap();
    assert!(bucket[0].is_saturated());
    assert_eq!(bucket[0].num_matches(), 1);
}

#[test]
fn match_recording_touches_only_the_addressed_behaviour() {
    let mut s = MockState::new();
    s.add_expect_behaviour("Repo", "save", ExpectBehaviour::with_times(1, 1, state(), "a"));
    s.add_expect_behaviour("Repo", "save", ExpectBehaviour::with_times(1, 2, state(), "b"));
    s.add_expect_behaviour("Repo", "load", ExpectBehaviour::with_times(1, 3, state(), "c"));
    s.record_expect_match("Repo", "save", 1);
    let save = s.expect_behaviours_for("Repo", "save").unwrap();
    assert_eq!(save[0].num_matches(), 0);
    assert_eq!(save[1].num_matches(), 1);
    let load = s.expect_behaviours_for("Repo", "load").unwrap();
    assert_eq!(load[0].num_matches(), 0);
}

#[test]
fn control_surface_delegates_to_the_registry() {
    let mut s = MockState::new();
    MockControl::add_expect_behaviour(
        &mut s,
        "Repo",
        "save",
        ExpectBehaviour::with_at_least(1, 0, state(), "expect save"),
    );
    assert!(!MockControl::are_expected_behaviours_satisfied(&s));
    assert!(MockControl::verify(&s, false).is_err());
    MockControl::reset_expected_behaviours(&mut s);
    assert!(MockControl::verify(&s, false).is_ok());
    MockControl::add_given_behaviour(&mut s, "Repo", "save", GivenBehaviour::with(0, state(), "g"));
    MockControl::reset_given_behaviours(&mut s);
    assert!(s.given_behaviours_for("Repo", "save").is_none());
    MockControl::should_verify_on_drop(&mut s, false);
    assert!(!s.verify_on_drop_enabled());
}
