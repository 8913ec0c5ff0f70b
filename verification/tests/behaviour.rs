use mock_support::CapturedState;
use mock_support::ExpectBehaviour;
use mock_support::GivenBehaviour;

fn state() -> CapturedState {
    CapturedState::new(7, vec![1, 2, 3])
}

#[test]
fn limited_given_is_exhausted_at_its_limit() {
    let mut b = GivenBehaviour::with_times(2, 0, state(), "given foo");
    assert!(!b.is_saturated());
    b.matched();
    assert!(!b.is_saturated());
    b.matched();
    assert!(b.is_saturated());
    b.matched();
    assert!(b.is_saturated());
}

#[test]
fn limited_given_with_zero_limit_starts_exhausted() {
    let b = GivenBehaviour::with_times(0, 0, state(), "given foo");
    assert!(b.is_saturated());
}

#[test]
fn unlimited_given_is_never_exhausted() {
    let mut b = GivenBehaviour::with(0, state(), "given foo");
    assert!(!b.is_saturated());
    for _ in 0..100 {
        b.matched();
    }
    assert!(!b.is_saturated());
}

#[test]
fn given_reports_its_description_and_count() {
    let mut b = GivenBehaviour::with(3, state(), "given foo returns 1");
    assert_eq!(b.describe(), "given foo returns 1");
    assert_eq!(b.num_matches(), 0);
    b.matched();
    assert_eq!(b.num_matches(), 1);
    assert_eq!(b.stmt_id, 3);
}

#[test]
fn exact_expectation_is_satisfied_only_at_the_exact_count() {
    let mut b = ExpectBehaviour::with_times(2, 0, state(), "expect foo twice");
    assert!(!b.is_saturated());
    b.matched();
    assert!(!b.is_saturated());
    b.matched();
    assert!(b.is_saturated());
    b.matched();
    assert!(!b.is_saturated());
}

#[test]
fn at_least_expectation_is_satisfied_from_the_bound_on() {
    let mut b = ExpectBehaviour::with_at_least(1, 0, state(), "expect foo at least once");
    assert!(!b.is_saturated());
    b.matched();
    assert!(b.is_saturated());
    b.matched();
    assert!(b.is_saturated());
}

#[test]
fn at_most_expectation_is_satisfied_up_to_the_bound() {
    let mut b = ExpectBehaviour::with_at_most(1, 0, state(), "expect foo at most once");
    assert!(b.is_saturated());
    b.matched();
    assert!(b.is_saturated());
    b.matched();
    assert!(!b.is_saturated());
}

#[test]
fn between_expectation_is_satisfied_inside_the_range() {
    let mut b = ExpectBehaviour::with_between(1, 3, 0, state(), "expect foo one to three times");
    assert!(!b.is_saturated());
    b.matched();
    assert!(b.is_saturated());
    b.matched();
    assert!(b.is_saturated());
    b.matched();
    assert!(b.is_saturated());
    b.matched();
    assert!(!b.is_saturated());
}

#[test]
fn fresh_zero_min_expectation_is_satisfied_before_any_call() {
    let b = ExpectBehaviour::with_at_most(5, 0, state(), "expect foo up to five times");
    assert!(b.is_saturated());
    let b2 = ExpectBehaviour::with_between(0, 2, 0, state(), "expect foo up to twice");
    assert!(b2.is_saturated());
}

#[test]
fn expectation_reports_its_description_and_count() {
    let mut b = ExpectBehaviour::with_times(1, 9, state(), "expect bar once");
    assert_eq!(b.describe(), "expect bar once");
    assert_eq!(b.num_matches(), 0);
    b.matched();
    assert_eq!(b.num_matches(), 1);
    assert_eq!(b.stmt_id, 9);
}

#[test]
fn captured_state_downcast_checks_the_tag() {
    let s = CapturedState::new(42, vec![9, 8]);
    assert_eq!(s.tag(), 42);
    let payload = s.downcast(42);
    assert_eq!(payload, Some(&vec![9, 8]));
    assert_eq!(s.downcast(41), None);
}

#[test]
fn captured_state_clones_share_the_payload() {
    let s = CapturedState::new(1, vec![5]);
    let t = s.clone();
    assert_eq!(t.tag(), 1);
    assert_eq!(t.downcast(1), Some(&vec![5]));
    assert_eq!(s.downcast(1), Some(&vec![5]));
}
