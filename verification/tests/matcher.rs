use mock_support::ArgMatcher;

fn is_even(x: &i32) -> bool {
    *x % 2 == 0
}

#[test]
fn plain_functions_act_as_argument_matchers() {
    assert!(is_even.match_args(&4));
    assert!(!is_even.match_args(&5));
}

#[test]
fn closures_act_as_argument_matchers() {
    let above_three = |x: &i32| *x > 3;
    assert!(above_three.match_args(&4));
    assert!(!above_three.match_args(&3));
}

#[test]
fn tuple_arguments_can_be_matched_in_curried_form() {
    let both_positive = |p: &(i32, i32)| p.0 > 0 && p.1 > 0;
    assert!(both_positive.match_args(&(1, 2)));
    assert!(!both_positive.match_args(&(1, -2)));
}
