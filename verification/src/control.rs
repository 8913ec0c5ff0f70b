//! The control surface a generated mock exposes.
//!
//! A generated mock type keeps a `MockState` internally and delegates the
//! operations of this trait to it.  The trait mirrors the registry's own
//! operations; the registry's inherent methods carry the contracts, and the
//! trait impl forwards to them.

use vstd::prelude::*;

use crate::behaviour::ExpectBehaviour;
use crate::behaviour::GivenBehaviour;
use crate::registry::MockState;
use crate::registry::VerifyError;

verus! {

/// The operation set for controlling the behaviour of a mock.
pub trait MockControl {
    /// Passing `true` enables verification of the expected behaviours at
    /// teardown of the mock object.
    fn should_verify_on_drop(&mut self, flag: bool);

    /// Activates a given behaviour for a trait's method.
    fn add_given_behaviour(
        &mut self,
        requested_trait: &'static str,
        method: &'static str,
        behaviour: GivenBehaviour,
    );

    /// Deactivates all given behaviours activated before.
    fn reset_given_behaviours(&mut self);

    /// Activates an expected behaviour for a trait's method.
    fn add_expect_behaviour(
        &mut self,
        requested_trait: &'static str,
        method: &'static str,
        behaviour: ExpectBehaviour,
    );

    /// Deactivates all expected behaviours activated before.
    fn reset_expected_behaviours(&mut self);

    /// Returns `true` iff all expected interactions with the mock have
    /// occurred, emitting a diagnostic line for each that has not.
    fn are_expected_behaviours_satisfied(&self) -> bool;

    /// Checks the expected interactions, unless the ambient execution
    /// context is already unwinding (`unwinding` true), and returns the
    /// fatal outcome when some expected interaction has not occurred.
    fn verify(&self, unwinding: bool) -> Result<(), VerifyError>;
}

impl MockControl for MockState {
    fn should_verify_on_drop(&mut self, flag: bool) {
        MockState::should_verify_on_drop(self, flag)
    }

    fn add_given_behaviour(
        &mut self,
        requested_trait: &'static str,
        method: &'static str,
        behaviour: GivenBehaviour,
    ) {
        MockState::add_given_behaviour(self, requested_trait, method, behaviour)
    }

    fn reset_given_behaviours(&mut self) {
        MockState::reset_given_behaviours(self)
    }

    fn add_expect_behaviour(
        &mut self,
        requested_trait: &'static str,
        method: &'static str,
        behaviour: ExpectBehaviour,
    ) {
        MockState::add_expect_behaviour(self, requested_trait, method, behaviour)
    }

    fn reset_expected_behaviours(&mut self) {
        MockState::reset_expected_behaviours(self)
    }

    fn are_expected_behaviours_satisfied(&self) -> bool {
        MockState::are_expected_behaviours_satisfied(self)
    }

    fn verify(&self, unwinding: bool) -> Result<(), VerifyError> {
        MockState::verify(self, unwinding)
    }
}

} // verus!
