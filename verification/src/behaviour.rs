//! Behaviour records: substitute behaviours and interaction expectations.
//!
//! A `GivenBehaviour` is one registered substitute response for a mocked
//! method, optionally exhaustible after a fixed number of matches.  An
//! `ExpectBehaviour` is one registered interaction expectation, satisfied when
//! its match count lies within a configured inclusive range.  Both count the
//! matches recorded against them; the policies are pure functions of that
//! count and the configured bounds.

use vstd::prelude::*;

use crate::captured::CapturedState;

verus! {

/// A registered substitute behaviour for one mocked method.
pub struct GivenBehaviour {
    /// Identifies which source statement produced the behaviour.
    pub stmt_id: usize,
    /// How often the behaviour has been matched so far.
    num_matches: usize,
    /// How often the behaviour may be matched before it is exhausted;
    /// `None` means it is usable unboundedly.
    expected_matches: Option<usize>,
    /// The captured state available to the behaviour's matcher.
    pub bound: CapturedState,
    /// A textual rendering of the behaviour's declaration, for diagnostics.
    stmt_repr: String,
}

impl GivenBehaviour {
    /// The number of matches recorded so far.
    pub closed spec fn match_count(&self) -> usize {
        self.num_matches
    }

    /// The statement identifier the behaviour was created with.
    pub closed spec fn id(&self) -> usize {
        self.stmt_id
    }

    /// The captured state the behaviour was created with.
    pub closed spec fn captured(&self) -> CapturedState {
        self.bound
    }

    /// The consumption limit the behaviour was created with, if any.
    pub closed spec fn limit(&self) -> Option<usize> {
        self.expected_matches
    }

    /// The stored description of the behaviour's declaration.
    pub closed spec fn repr(&self) -> Seq<char> {
        self.stmt_repr@
    }

    /// A behaviour is exhausted once a limit was set and the match count has
    /// reached it; a behaviour without a limit is never exhausted.
    pub open spec fn saturated(&self) -> bool {
        match self.limit() {
            Some(limit) => self.match_count() >= limit,
            None => false,
        }
    }

    /// Creates a behaviour which is never exhausted.
    pub fn with(stmt_id: usize, bound: CapturedState, stmt_repr: &str) -> (s: Self)
        ensures
            s.id() == stmt_id,
            s.match_count() == 0,
            s.limit() is None,
            s.captured() == bound,
            s.repr() == stmt_repr@,
    {
        Self {
            stmt_id,
            num_matches: 0,
            expected_matches: None,
            bound,
            stmt_repr: stmt_repr.to_owned(),
        }
    }

    /// Creates a behaviour which is exhausted after being matched `times`.
    pub fn with_times(times: usize, stmt_id: usize, bound: CapturedState, stmt_repr: &str) -> (s:
        Self)
        ensures
            s.id() == stmt_id,
            s.match_count() == 0,
            s.limit() == Some(times),
            s.captured() == bound,
            s.repr() == stmt_repr@,
    {
        Self {
            stmt_id,
            num_matches: 0,
            expected_matches: Some(times),
            bound,
            stmt_repr: stmt_repr.to_owned(),
        }
    }

    /// Records that the behaviour has been matched once more.  The count
    /// never decreases; everything else is left as it was.
    pub fn matched(&mut self)
        requires
            old(self).match_count() < usize::MAX,
        ensures
            final(self).match_count() == old(self).match_count() + 1,
            final(self).limit() == old(self).limit(),
            final(self).repr() == old(self).repr(),
            final(self).id() == old(self).id(),
            final(self).captured() == old(self).captured(),
    {
        self.num_matches = self.num_matches + 1;
    }

    /// Returns `true` iff the behaviour is exhausted.
    pub fn is_saturated(&self) -> (r: bool)
        ensures
            r == self.saturated(),
    {
        match self.expected_matches {
            Some(limit) => self.num_matches >= limit,
            None => false,
        }
    }

    /// Returns how often the behaviour has been matched so far.
    pub fn num_matches(&self) -> (c: usize)
        ensures
            c == self.match_count(),
    {
        self.num_matches
    }

    /// Returns the description of the behaviour.
    pub fn describe(&self) -> (r: &str)
        ensures
            r@ == self.repr(),
    {
        self.stmt_repr.as_str()
    }
}

/// A registered interaction expectation for one mocked method.
pub struct ExpectBehaviour {
    /// Identifies which source statement produced the behaviour.
    pub stmt_id: usize,
    /// How often the behaviour has been matched so far.
    num_matches: usize,
    /// The least number of matches for the behaviour to be satisfied;
    /// `None` means no lower bound.
    expected_min_matches: Option<usize>,
    /// The greatest number of matches for the behaviour to be satisfied;
    /// `None` means no upper bound.
    expected_max_matches: Option<usize>,
    /// The captured state available to the behaviour's matcher.
    pub bound: CapturedState,
    /// A textual rendering of the behaviour's declaration, for diagnostics.
    stmt_repr: String,
}

impl ExpectBehaviour {
    /// The number of matches recorded so far.
    pub closed spec fn match_count(&self) -> usize {
        self.num_matches
    }

    /// The statement identifier the behaviour was created with.
    pub closed spec fn id(&self) -> usize {
        self.stmt_id
    }

    /// The captured state the behaviour was created with.
    pub closed spec fn captured(&self) -> CapturedState {
        self.bound
    }

    /// The lower bound of the satisfaction range, if any.
    pub closed spec fn min_matches(&self) -> Option<usize> {
        self.expected_min_matches
    }

    /// The upper bound of the satisfaction range, if any.
    pub closed spec fn max_matches(&self) -> Option<usize> {
        self.expected_max_matches
    }

    /// The stored description of the behaviour's declaration.
    pub closed spec fn repr(&self) -> Seq<char> {
        self.stmt_repr@
    }

    /// An expectation is satisfied when its match count lies within the
    /// configured inclusive range; an absent bound does not constrain it.
    pub open spec fn satisfied(&self) -> bool {
        &&& match self.min_matches() {
            Some(min) => min <= self.match_count(),
            None => true,
        }
        &&& match self.max_matches() {
            Some(max) => self.match_count() <= max,
            None => true,
        }
    }

    /// Creates an expectation satisfied iff matched exactly `times`.
    pub fn with_times(times: usize, stmt_id: usize, bound: CapturedState, stmt_repr: &str) -> (s:
        Self)
        ensures
            s.id() == stmt_id,
            s.match_count() == 0,
            s.min_matches() == Some(times),
            s.max_matches() == Some(times),
            s.captured() == bound,
            s.repr() == stmt_repr@,
    {
        Self {
            stmt_id,
            num_matches: 0,
            expected_min_matches: Some(times),
            expected_max_matches: Some(times),
            bound,
            stmt_repr: stmt_repr.to_owned(),
        }
    }

    /// Creates an expectation satisfied iff matched at least `at_least_times`.
    pub fn with_at_least(
        at_least_times: usize,
        stmt_id: usize,
        bound: CapturedState,
        stmt_repr: &str,
    ) -> (s: Self)
        ensures
            s.id() == stmt_id,
            s.match_count() == 0,
            s.min_matches() == Some(at_least_times),
            s.max_matches() is None,
            s.captured() == bound,
            s.repr() == stmt_repr@,
    {
        Self {
            stmt_id,
            num_matches: 0,
            expected_min_matches: Some(at_least_times),
            expected_max_matches: None,
            bound,
            stmt_repr: stmt_repr.to_owned(),
        }
    }

    /// Creates an expectation satisfied iff matched at most `at_most_times`.
    pub fn with_at_most(
        at_most_times: usize,
        stmt_id: usize,
        bound: CapturedState,
        stmt_repr: &str,
    ) -> (s: Self)
        ensures
            s.id() == stmt_id,
            s.match_count() == 0,
            s.min_matches() is None,
            s.max_matches() == Some(at_most_times),
            s.captured() == bound,
            s.repr() == stmt_repr@,
    {
        Self {
            stmt_id,
            num_matches: 0,
            expected_min_matches: None,
            expected_max_matches: Some(at_most_times),
            bound,
            stmt_repr: stmt_repr.to_owned(),
        }
    }

    /// Creates an expectation satisfied iff the match count lies within
    /// `[at_least_times, at_most_times]`, both endpoints included.
    pub fn with_between(
        at_least_times: usize,
        at_most_times: usize,
        stmt_id: usize,
        bound: CapturedState,
        stmt_repr: &str,
    ) -> (s: Self)
        ensures
            s.id() == stmt_id,
            s.match_count() == 0,
            s.min_matches() == Some(at_least_times),
            s.max_matches() == Some(at_most_times),
            s.captured() == bound,
            s.repr() == stmt_repr@,
    {
        Self {
            stmt_id,
            num_matches: 0,
            expected_min_matches: Some(at_least_times),
            expected_max_matches: Some(at_most_times),
            bound,
            stmt_repr: stmt_repr.to_owned(),
        }
    }

    /// Records that the behaviour has been matched once more.  The count
    /// never decreases; everything else is left as it was.
    pub fn matched(&mut self)
        requires
            old(self).match_count() < usize::MAX,
        ensures
            final(self).match_count() == old(self).match_count() + 1,
            final(self).min_matches() == old(self).min_matches(),
            final(self).max_matches() == old(self).max_matches(),
            final(self).repr() == old(self).repr(),
            final(self).id() == old(self).id(),
            final(self).captured() == old(self).captured(),
    {
        self.num_matches = self.num_matches + 1;
    }

    /// Returns `true` iff the current match count satisfies the expected
    /// repetition range.
    pub fn is_saturated(&self) -> (r: bool)
        ensures
            r == self.satisfied(),
    {
        let min_ok = match self.expected_min_matches {
            Some(min) => min <= self.num_matches,
            None => true,
        };
        let max_ok = match self.expected_max_matches {
            Some(max) => self.num_matches <= max,
            None => true,
        };
        min_ok && max_ok
    }

    /// Returns how often the behaviour has been matched so far.
    pub fn num_matches(&self) -> (c: usize)
        ensures
            c == self.match_count(),
    {
        self.num_matches
    }

    /// Returns the description of the behaviour.
    pub fn describe(&self) -> (r: &str)
        ensures
            r@ == self.repr(),
    {
        self.stmt_repr.as_str()
    }
}

/// A given behaviour carrying a consumption limit is exhausted exactly when
/// its match count has reached that limit, however the count was arrived at.
pub proof fn lemma_limited_given_exhaustion(b: GivenBehaviour, limit: usize)
    requires
        b.limit() == Some(limit),
    ensures
        b.saturated() <==> b.match_count() >= limit,
{
}

/// A given behaviour created without a consumption limit is never exhausted,
/// whatever its match count.
pub proof fn lemma_unlimited_given_never_exhausted(b: GivenBehaviour)
    requires
        b.limit() is None,
    ensures
        !b.saturated(),
{
}

/// An expectation whose range pins the count to exactly `n` is satisfied
/// exactly when its match count equals `n`.
pub proof fn lemma_exact_satisfaction(b: ExpectBehaviour, n: usize)
    requires
        b.min_matches() == Some(n),
        b.max_matches() == Some(n),
    ensures
        b.satisfied() <==> b.match_count() == n,
{
}

/// An expectation with only a lower bound `n` is satisfied exactly when its
/// match count is at least `n`.
pub proof fn lemma_at_least_satisfaction(b: ExpectBehaviour, n: usize)
    requires
        b.min_matches() == Some(n),
        b.max_matches() is None,
    ensures
        b.satisfied() <==> b.match_count() >= n,
{
}

/// An expectation whose range is `[lo, hi]` with `lo <= hi` is satisfied
/// exactly when its match count lies within that range.
pub proof fn lemma_between_satisfaction(b: ExpectBehaviour, lo: usize, hi: usize)
    requires
        b.min_matches() == Some(lo),
        b.max_matches() == Some(hi),
        lo <= hi,
    ensures
        b.satisfied() <==> lo <= b.match_count() <= hi,
{
}

} // verus!
