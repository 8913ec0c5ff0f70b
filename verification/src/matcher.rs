//! Matchers for the arguments of a mocked method.
//!
//! A matcher may check a single argument of a method or all arguments at
//! once; to check all of them they are passed in curried form, for example
//! as a tuple.  The registry core never constructs matchers, it only invokes
//! them: matching logic is supplied by the code generated around a mock.

use vstd::prelude::*;

verus! {

/// A matcher for the arguments of a mocked method.
pub trait ArgMatcher<T> {
    /// Whether the matcher may be asked about `actual`.  Unless an
    /// implementation narrows it, any argument may be asked about.
    open spec fn admissible(&self, actual: &T) -> bool {
        true
    }

    /// Returns `true` iff the `actual` arguments satisfy the matcher.
    fn match_args(&self, actual: &T) -> bool
        requires
            self.admissible(actual),
    ;
}

/// Any function accepting a reference to the arguments and returning `bool`
/// can be used as an `ArgMatcher`.
impl<T, F: Fn(&T) -> bool> ArgMatcher<T> for F {
    open spec fn admissible(&self, actual: &T) -> bool {
        call_requires(*self, (actual,))
    }

    fn match_args(&self, actual: &T) -> bool {
        self(actual)
    }
}

} // verus!
