//! The behaviour registry: the state kept per mock instance.
//!
//! A `MockState` owns two mappings from a (trait name, method name) key to an
//! ordered sequence of behaviour records, one mapping for given behaviours
//! and one for expected behaviours.  Registration appends to the bucket of
//! the key, creating it when absent, and the order of appends within a bucket
//! is kept: it is the priority order in which candidates are to be tried.
//!
//! The mappings are stored as vectors of buckets; a key is looked up by
//! scanning for the first bucket that carries it.  Registration never creates
//! a second bucket for a key that already has one, so the first match is the
//! only one, but no contract below depends on that: every contract speaks of
//! the first matching bucket, through `lookup`.

use vstd::prelude::*;

use crate::behaviour::ExpectBehaviour;
use crate::behaviour::GivenBehaviour;
use crate::report::emit_diagnostic_line;
use crate::report::unsatisfied_message;
use crate::report::unsatisfied_report;

verus! {

/// One bucket of behaviour records: all records registered under one
/// (trait name, method name) key, in registration order.
pub struct Bucket<B> {
    /// The name of the mocked trait.
    pub requested_trait: &'static str,
    /// The name of the mocked method.
    pub method: &'static str,
    /// The records registered under the key, first registered first.
    pub behaviours: Vec<B>,
}

/// Whether a bucket carries the key `(tr, m)`.
pub open spec fn bucket_matches<B>(b: Bucket<B>, tr: Seq<char>, m: Seq<char>) -> bool {
    b.requested_trait@ == tr && b.method@ == m
}

/// The contents of the first bucket carrying the key `(tr, m)`, or the empty
/// sequence when no bucket does.
pub open spec fn lookup<B>(bs: Seq<Bucket<B>>, tr: Seq<char>, m: Seq<char>) -> Seq<B>
    decreases bs.len(),
{
    if bs.len() == 0 {
        Seq::empty()
    } else if bucket_matches(bs[0], tr, m) {
        bs[0].behaviours@
    } else {
        lookup(bs.drop_first(), tr, m)
    }
}

/// Whether some bucket carries the key `(tr, m)`.
pub open spec fn has_bucket<B>(bs: Seq<Bucket<B>>, tr: Seq<char>, m: Seq<char>) -> bool
    decreases bs.len(),
{
    if bs.len() == 0 {
        false
    } else {
        bucket_matches(bs[0], tr, m) || has_bucket(bs.drop_first(), tr, m)
    }
}

/// Whether no two buckets carry the same key.  Registration keeps this: it
/// appends to the first bucket of a key and creates a bucket only when none
/// carries the key.
pub open spec fn buckets_wf<B>(bs: Seq<Bucket<B>>) -> bool {
    forall|a: int, b: int|
        0 <= a < b < bs.len() ==> !((#[trigger] bs[a]).requested_trait@ == (
        #[trigger] bs[b]).requested_trait@ && bs[a].method@ == bs[b].method@)
}

/// When no bucket carries the key, `lookup` yields the empty sequence.
proof fn lemma_lookup_no_match<B>(bs: Seq<Bucket<B>>, tr: Seq<char>, m: Seq<char>)
    requires
        forall|j: int| 0 <= j < bs.len() ==> !bucket_matches(#[trigger] bs[j], tr, m),
    ensures
        lookup(bs, tr, m) == Seq::<B>::empty(),
        !has_bucket(bs, tr, m),
    decreases bs.len(),
{
    if bs.len() > 0 {
        assert(forall|j: int|
            0 <= j < bs.drop_first().len() ==> !bucket_matches(
                #[trigger] bs.drop_first()[j],
                tr,
                m,
            ));
        lemma_lookup_no_match(bs.drop_first(), tr, m);
    }
}

/// When the first bucket carrying the key stands at index `i`, `lookup`
/// yields that bucket's contents.
proof fn lemma_lookup_at_first_match<B>(bs: Seq<Bucket<B>>, i: int, tr: Seq<char>, m: Seq<char>)
    requires
        0 <= i < bs.len(),
        bucket_matches(bs[i], tr, m),
        forall|j: int| 0 <= j < i ==> !bucket_matches(#[trigger] bs[j], tr, m),
    ensures
        lookup(bs, tr, m) == bs[i].behaviours@,
        has_bucket(bs, tr, m),
    decreases i,
{
    if i > 0 {
        lemma_lookup_at_first_match(bs.drop_first(), i - 1, tr, m);
    }
}

/// Replacing the first bucket carrying a key with another bucket of the same
/// key makes `lookup` on that key yield the replacement's contents.
proof fn lemma_lookup_update_same<B>(
    bs: Seq<Bucket<B>>,
    i: int,
    nb: Bucket<B>,
    tr: Seq<char>,
    m: Seq<char>,
)
    requires
        0 <= i < bs.len(),
        bucket_matches(bs[i], tr, m),
        bucket_matches(nb, tr, m),
        forall|j: int| 0 <= j < i ==> !bucket_matches(#[trigger] bs[j], tr, m),
    ensures
        lookup(bs.update(i, nb), tr, m) == nb.behaviours@,
    decreases i,
{
    let bs2 = bs.update(i, nb);
    if i == 0 {
        assert(bucket_matches(bs2[0], tr, m));
    } else {
        assert(bs2.drop_first() =~= bs.drop_first().update(i - 1, nb));
        lemma_lookup_update_same(bs.drop_first(), i - 1, nb, tr, m);
        assert(!bucket_matches(bs2[0], tr, m));
    }
}

/// Replacing a bucket with another bucket of the same key leaves `lookup`
/// on every other key as it was.
proof fn lemma_lookup_update_other<B>(
    bs: Seq<Bucket<B>>,
    i: int,
    nb: Bucket<B>,
    tr: Seq<char>,
    m: Seq<char>,
    tr2: Seq<char>,
    m2: Seq<char>,
)
    requires
        0 <= i < bs.len(),
        bucket_matches(bs[i], tr, m),
        bucket_matches(nb, tr, m),
        !(tr2 == tr && m2 == m),
    ensures
        lookup(bs.update(i, nb), tr2, m2) == lookup(bs, tr2, m2),
        has_bucket(bs.update(i, nb), tr2, m2) == has_bucket(bs, tr2, m2),
    decreases i,
{
    let bs2 = bs.update(i, nb);
    if i == 0 {
        assert(!bucket_matches(bs[0], tr2, m2));
        assert(!bucket_matches(nb, tr2, m2));
        assert(bs2.drop_first() =~= bs.drop_first());
    } else {
        assert(bs2[0] == bs[0]);
        assert(bs2.drop_first() =~= bs.drop_first().update(i - 1, nb));
        lemma_lookup_update_other(bs.drop_first(), i - 1, nb, tr, m, tr2, m2);
    }
}

/// Appending a bucket for a key no earlier bucket carries makes `lookup` on
/// that key yield the new bucket's contents.
proof fn lemma_lookup_push_same<B>(bs: Seq<Bucket<B>>, nb: Bucket<B>, tr: Seq<char>, m: Seq<char>)
    requires
        forall|j: int| 0 <= j < bs.len() ==> !bucket_matches(#[trigger] bs[j], tr, m),
        bucket_matches(nb, tr, m),
    ensures
        lookup(bs.push(nb), tr, m) == nb.behaviours@,
        has_bucket(bs.push(nb), tr, m),
    decreases bs.len(),
{
    let bs2 = bs.push(nb);
    if bs.len() == 0 {
        assert(bucket_matches(bs2[0], tr, m));
    } else {
        assert(!bucket_matches(bs2[0], tr, m));
        assert(bs2.drop_first() =~= bs.drop_first().push(nb));
        assert(forall|j: int|
            0 <= j < bs.drop_first().len() ==> !bucket_matches(
                #[trigger] bs.drop_first()[j],
                tr,
                m,
            ));
        lemma_lookup_push_same(bs.drop_first(), nb, tr, m);
    }
}

/// Appending a bucket leaves `lookup` on every key the bucket does not carry
/// as it was.
proof fn lemma_lookup_push_other<B>(
    bs: Seq<Bucket<B>>,
    nb: Bucket<B>,
    tr2: Seq<char>,
    m2: Seq<char>,
)
    requires
        !bucket_matches(nb, tr2, m2),
    ensures
        lookup(bs.push(nb), tr2, m2) == lookup(bs, tr2, m2),
        has_bucket(bs.push(nb), tr2, m2) == has_bucket(bs, tr2, m2),
    decreases bs.len(),
{
    let bs2 = bs.push(nb);
    if bs.len() == 0 {
        assert(forall|j: int| 0 <= j < bs2.len() ==> !bucket_matches(#[trigger] bs2[j], tr2, m2));
        lemma_lookup_no_match(bs2, tr2, m2);
        lemma_lookup_no_match(bs, tr2, m2);
    } else {
        assert(bs2[0] == bs[0]);
        assert(bs2.drop_first() =~= bs.drop_first().push(nb));
        lemma_lookup_push_other(bs.drop_first(), nb, tr2, m2);
    }
}

/// The relation between a registry before and after one given behaviour
/// `b` is registered under the key `(tr, m)`: the bucket of that key gains
/// `b` at its end, every other key's bucket is untouched, and the expected
/// behaviours and the teardown policy are untouched.
pub open spec fn given_registered(
    pre: MockState,
    post: MockState,
    tr: Seq<char>,
    m: Seq<char>,
    b: GivenBehaviour,
) -> bool {
    &&& post.given_for(tr, m) == pre.given_for(tr, m).push(b)
    &&& forall|tr2: Seq<char>, m2: Seq<char>|
        !(tr2 == tr && m2 == m) ==> post.given_for(tr2, m2) == pre.given_for(tr2, m2)
    &&& post.expected() == pre.expected()
    &&& post.verifies_on_drop() == pre.verifies_on_drop()
}

/// The relation between a registry before and after one expected behaviour
/// `b` is registered under the key `(tr, m)`: the bucket of that key gains
/// `b` at its end, every other key's bucket is untouched, and the given
/// behaviours and the teardown policy are untouched.
pub open spec fn expect_registered(
    pre: MockState,
    post: MockState,
    tr: Seq<char>,
    m: Seq<char>,
    b: ExpectBehaviour,
) -> bool {
    &&& post.expected_for(tr, m) == pre.expected_for(tr, m).push(b)
    &&& forall|tr2: Seq<char>, m2: Seq<char>|
        !(tr2 == tr && m2 == m) ==> post.expected_for(tr2, m2) == pre.expected_for(tr2, m2)
    &&& post.given() == pre.given()
    &&& post.verifies_on_drop() == pre.verifies_on_drop()
}

/// Relies on str's `PartialEq`: two string slices are equal exactly when
/// their character sequences are equal.
#[verifier::external_body]
fn str_eq(a: &str, b: &str) -> (r: bool)
    ensures
        r == (a@ == b@),
{
    a == b
}

/// The state of one mock instance: its registered given and expected
/// behaviours and its verification policy.
pub struct MockState {
    /// The given behaviours, bucketed by (trait name, method name).
    given_behaviours: Vec<Bucket<GivenBehaviour>>,
    /// The expected behaviours, bucketed by (trait name, method name).
    expect_behaviours: Vec<Bucket<ExpectBehaviour>>,
    /// Whether the expected behaviours are to be verified on teardown.
    verify_on_drop: bool,
}

impl MockState {
    /// The buckets of given behaviours, in the order they were created.
    pub closed spec fn given(&self) -> Seq<Bucket<GivenBehaviour>> {
        self.given_behaviours@
    }

    /// The buckets of expected behaviours, in the order they were created.
    pub closed spec fn expected(&self) -> Seq<Bucket<ExpectBehaviour>> {
        self.expect_behaviours@
    }

    /// Whether teardown verification is enabled.
    pub closed spec fn verifies_on_drop(&self) -> bool {
        self.verify_on_drop
    }

    /// The given behaviours registered under `(tr, m)`, in registration
    /// order.
    pub open spec fn given_for(&self, tr: Seq<char>, m: Seq<char>) -> Seq<GivenBehaviour> {
        lookup(self.given(), tr, m)
    }

    /// The expected behaviours registered under `(tr, m)`, in registration
    /// order.
    pub open spec fn expected_for(&self, tr: Seq<char>, m: Seq<char>) -> Seq<ExpectBehaviour> {
        lookup(self.expected(), tr, m)
    }

    /// Well-formedness of the registry: no key has two buckets, in either
    /// mapping.  Every state reachable through the operations below is
    /// well-formed.
    pub open spec fn wf(&self) -> bool {
        buckets_wf(self.given()) && buckets_wf(self.expected())
    }

    /// Whether every registered expected behaviour is satisfied: under every
    /// key, every expected behaviour that a lookup yields is satisfied.
    pub open spec fn all_expected_satisfied(&self) -> bool {
        forall|tr: Seq<char>, m: Seq<char>, j: int|
            0 <= j < self.expected_for(tr, m).len() ==> (#[trigger] self.expected_for(
                tr,
                m,
            )[j]).satisfied()
    }

    /// Creates the state of a fresh mock instance: no behaviours are
    /// registered and teardown verification is enabled.
    pub fn new() -> (s: Self)
        ensures
            s.given() == Seq::<Bucket<GivenBehaviour>>::empty(),
            s.expected() == Seq::<Bucket<ExpectBehaviour>>::empty(),
            s.verifies_on_drop(),
            s.wf(),
    {
        Self { given_behaviours: Vec::new(), expect_behaviours: Vec::new(), verify_on_drop: true }
    }

    /// Sets whether the expected behaviours are verified on teardown.
    pub fn should_verify_on_drop(&mut self, flag: bool)
        ensures
            final(self).verifies_on_drop() == flag,
            final(self).given() == old(self).given(),
            final(self).expected() == old(self).expected(),
    {
        self.verify_on_drop = flag;
    }

    /// Returns whether teardown verification is enabled.
    pub fn verify_on_drop_enabled(&self) -> (r: bool)
        ensures
            r == self.verifies_on_drop(),
    {
        self.verify_on_drop
    }

    /// Registers a given behaviour under `(requested_trait, method)`: the
    /// behaviour is appended to the bucket of that key, which is created if
    /// absent, and every other bucket is left as it was.
    pub fn add_given_behaviour(
        &mut self,
        requested_trait: &'static str,
        method: &'static str,
        behaviour: GivenBehaviour,
    )
        ensures
            given_registered(*old(self), *final(self), requested_trait@, method@, behaviour),
            old(self).wf() ==> final(self).wf(),
    {
        let ghost bs0 = self.given_behaviours@;
        let n = self.given_behaviours.len();
        let mut i: usize = 0;
        while i < n
            invariant
                n == self.given_behaviours.len(),
                i <= n,
                self.given_behaviours@ == bs0,
                bs0 == old(self).given_behaviours@,
                self.expect_behaviours@ == old(self).expect_behaviours@,
                self.verify_on_drop == old(self).verify_on_drop,
                forall|j: int|
                    0 <= j < i ==> !bucket_matches(
                        #[trigger] self.given_behaviours@[j],
                        requested_trait@,
                        method@,
                    ),
            decreases n - i,
        {
            if str_eq(self.given_behaviours[i].requested_trait, requested_trait) && str_eq(
                self.given_behaviours[i].method,
                method,
            ) {
                self.given_behaviours[i].behaviours.push(behaviour);
                proof {
                    let nb = self.given_behaviours@[i as int];
                    lemma_lookup_at_first_match(bs0, i as int, requested_trait@, method@);
                    lemma_lookup_update_same(bs0, i as int, nb, requested_trait@, method@);
                    assert forall|tr2: Seq<char>, m2: Seq<char>|
                        !(tr2 == requested_trait@ && m2 == method@) implies lookup(
                        self.given_behaviours@,
                        tr2,
                        m2,
                    ) == lookup(bs0, tr2, m2) by {
                        lemma_lookup_update_other(
                            bs0,
                            i as int,
                            nb,
                            requested_trait@,
                            method@,
                            tr2,
                            m2,
                        );
                    }
                }
                return ;
            }
            i = i + 1;
        }
        let nb = Bucket { requested_trait, method, behaviours: vec![behaviour] };
        proof {
            lemma_lookup_no_match(bs0, requested_trait@, method@);
        }
        self.given_behaviours.push(nb);
        proof {
            let nb2 = self.given_behaviours@[n as int];
            lemma_lookup_push_same(bs0, nb2, requested_trait@, method@);
            assert(lookup(bs0, requested_trait@, method@).push(behaviour) =~= nb2.behaviours@);
            assert forall|tr2: Seq<char>, m2: Seq<char>|
                !(tr2 == requested_trait@ && m2 == method@) implies lookup(
                self.given_behaviours@,
                tr2,
                m2,
            ) == lookup(bs0, tr2, m2) by {
                lemma_lookup_push_other(bs0, nb2, tr2, m2);
            }
        }
    }

    /// Discards every registered given behaviour: afterwards every key's
    /// bucket is empty.  Expected behaviours and the teardown policy are
    /// untouched.
    pub fn reset_given_behaviours(&mut self)
        ensures
            final(self).given() == Seq::<Bucket<GivenBehaviour>>::empty(),
            forall|tr: Seq<char>, m: Seq<char>|
                final(self).given_for(tr, m) == Seq::<GivenBehaviour>::empty(),
            final(self).expected() == old(self).expected(),
            final(self).verifies_on_drop() == old(self).verifies_on_drop(),
    {
        self.given_behaviours = Vec::new();
    }

    /// Registers an expected behaviour under `(requested_trait, method)`:
    /// the behaviour is appended to the bucket of that key, which is created
    /// if absent, and every other bucket is left as it was.
    pub fn add_expect_behaviour(
        &mut self,
        requested_trait: &'static str,
        method: &'static str,
        behaviour: ExpectBehaviour,
    )
        ensures
            expect_registered(*old(self), *final(self), requested_trait@, method@, behaviour),
            old(self).wf() ==> final(self).wf(),
    {
        let ghost bs0 = self.expect_behaviours@;
        let n = self.expect_behaviours.len();
        let mut i: usize = 0;
        while i < n
            invariant
                n == self.expect_behaviours.len(),
                i <= n,
                self.expect_behaviours@ == bs0,
                bs0 == old(self).expect_behaviours@,
                self.given_behaviours@ == old(self).given_behaviours@,
                self.verify_on_drop == old(self).verify_on_drop,
                forall|j: int|
                    0 <= j < i ==> !bucket_matches(
                        #[trigger] self.expect_behaviours@[j],
                        requested_trait@,
                        method@,
                    ),
            decreases n - i,
        {
            if str_eq(self.expect_behaviours[i].requested_trait, requested_trait) && str_eq(
                self.expect_behaviours[i].method,
                method,
            ) {
                self.expect_behaviours[i].behaviours.push(behaviour);
                proof {
                    let nb = self.expect_behaviours@[i as int];
                    lemma_lookup_at_first_match(bs0, i as int, requested_trait@, method@);
                    lemma_lookup_update_same(bs0, i as int, nb, requested_trait@, method@);
                    assert forall|tr2: Seq<char>, m2: Seq<char>|
                        !(tr2 == requested_trait@ && m2 == method@) implies lookup(
                        self.expect_behaviours@,
                        tr2,
                        m2,
                    ) == lookup(bs0, tr2, m2) by {
                        lemma_lookup_update_other(
                            bs0,
                            i as int,
                            nb,
                            requested_trait@,
                            method@,
                            tr2,
                            m2,
                        );
                    }
                }
                return ;
            }
            i = i + 1;
        }
        let nb = Bucket { requested_trait, method, behaviours: vec![behaviour] };
        proof {
            lemma_lookup_no_match(bs0, requested_trait@, method@);
        }
        self.expect_behaviours.push(nb);
        proof {
            let nb2 = self.expect_behaviours@[n as int];
            lemma_lookup_push_same(bs0, nb2, requested_trait@, method@);
            assert(lookup(bs0, requested_trait@, method@).push(behaviour) =~= nb2.behaviours@);
            assert forall|tr2: Seq<char>, m2: Seq<char>|
                !(tr2 == requested_trait@ && m2 == method@) implies lookup(
                self.expect_behaviours@,
                tr2,
                m2,
            ) == lookup(bs0, tr2, m2) by {
                lemma_lookup_push_other(bs0, nb2, tr2, m2);
            }
        }
    }

    /// Discards every registered expected behaviour: afterwards every key's
    /// bucket is empty.  Given behaviours and the teardown policy are
    /// untouched.
    pub fn reset_expected_behaviours(&mut self)
        ensures
            final(self).expected() == Seq::<Bucket<ExpectBehaviour>>::empty(),
            forall|tr: Seq<char>, m: Seq<char>|
                final(self).expected_for(tr, m) == Seq::<ExpectBehaviour>::empty(),
            final(self).given() == old(self).given(),
            final(self).verifies_on_drop() == old(self).verifies_on_drop(),
    {
        self.expect_behaviours = Vec::new();
    }


    /// Records a match against the behaviour at position `index` (in
    /// registration order) of the given behaviours registered under
    /// `(requested_trait, method)`: its match count grows by one and nothing
    /// else changes.
    pub fn record_given_match(&mut self, requested_trait: &str, method: &str, index: usize)
        requires
            index < old(self).given_for(requested_trait@, method@).len(),
            old(self).given_for(requested_trait@, method@)[index as int].match_count()
                < usize::MAX,
        ensures
            final(self).given_for(requested_trait@, method@) == old(self).given_for(
                requested_trait@,
                method@,
            ).update(
                index as int,
                final(self).given_for(requested_trait@, method@)[index as int],
            ),
            ({
                let pre = old(self).given_for(requested_trait@, method@)[index as int];
                let post = final(self).given_for(requested_trait@, method@)[index as int];
                &&& post.match_count() == pre.match_count() + 1
                &&& post.limit() == pre.limit()
                &&& post.repr() == pre.repr()
                &&& post.id() == pre.id()
                &&& post.captured() == pre.captured()
            }),
            forall|tr2: Seq<char>, m2: Seq<char>|
                !(tr2 == requested_trait@ && m2 == method@) ==> final(self).given_for(tr2, m2)
                    == old(self).given_for(tr2, m2),
            final(self).expected() == old(self).expected(),
            final(self).verifies_on_drop() == old(self).verifies_on_drop(),
            old(self).wf() ==> final(self).wf(),
    {
        let ghost bs0 = self.given_behaviours@;
        let n = self.given_behaviours.len();
        let mut i: usize = 0;
        while i < n
            invariant
                n == self.given_behaviours.len(),
                i <= n,
                self.given_behaviours@ == bs0,
                bs0 == old(self).given_behaviours@,
                self.expect_behaviours@ == old(self).expect_behaviours@,
                self.verify_on_drop == old(self).verify_on_drop,
                index < lookup(bs0, requested_trait@, method@).len(),
                lookup(bs0, requested_trait@, method@)[index as int].match_count() < usize::MAX,
                forall|j: int|
                    0 <= j < i ==> !bucket_matches(
                        #[trigger] self.given_behaviours@[j],
                        requested_trait@,
                        method@,
                    ),
            decreases n - i,
        {
            if str_eq(self.given_behaviours[i].requested_trait, requested_trait) && str_eq(
                self.given_behaviours[i].method,
                method,
            ) {
                proof {
                    lemma_lookup_at_first_match(bs0, i as int, requested_trait@, method@);
                }
                self.given_behaviours[i].behaviours[index].matched();
                proof {
                    let nb = self.given_behaviours@[i as int];
                    lemma_lookup_update_same(bs0, i as int, nb, requested_trait@, method@);
                    assert forall|tr2: Seq<char>, m2: Seq<char>|
                        !(tr2 == requested_trait@ && m2 == method@) implies lookup(
                        self.given_behaviours@,
                        tr2,
                        m2,
                    ) == lookup(bs0, tr2, m2) by {
                        lemma_lookup_update_other(
                            bs0,
                            i as int,
                            nb,
                            requested_trait@,
                            method@,
                            tr2,
                            m2,
                        );
                    }
                }
                return ;
            }
            i = i + 1;
        }
        proof {
            lemma_lookup_no_match(bs0, requested_trait@, method@);
        }
    }

    /// Records a match against the behaviour at position `index` (in
    /// registration order) of the expected behaviours registered under
    /// `(requested_trait, method)`: its match count grows by one and nothing
    /// else changes.
    pub fn record_expect_match(&mut self, requested_trait: &str, method: &str, index: usize)
        requires
            index < old(self).expected_for(requested_trait@, method@).len(),
            old(self).expected_for(requested_trait@, method@)[index as int].match_count()
                < usize::MAX,
        ensures
            final(self).expected_for(requested_trait@, method@) == old(self).expected_for(
                requested_trait@,
                method@,
            ).update(
                index as int,
                final(self).expected_for(requested_trait@, method@)[index as int],
            ),
            ({
                let pre = old(self).expected_for(requested_trait@, method@)[index as int];
                let post = final(self).expected_for(requested_trait@, method@)[index as int];
                &&& post.match_count() == pre.match_count() + 1
                &&& post.min_matches() == pre.min_matches()
                &&& post.max_matches() == pre.max_matches()
                &&& post.repr() == pre.repr()
                &&& post.id() == pre.id()
                &&& post.captured() == pre.captured()
            }),
            forall|tr2: Seq<char>, m2: Seq<char>|
                !(tr2 == requested_trait@ && m2 == method@) ==> final(self).expected_for(tr2, m2)
                    == old(self).expected_for(tr2, m2),
            final(self).given() == old(self).given(),
            final(self).verifies_on_drop() == old(self).verifies_on_drop(),
            old(self).wf() ==> final(self).wf(),
    {
        let ghost bs0 = self.expect_behaviours@;
        let n = self.expect_behaviours.len();
        let mut i: usize = 0;
        while i < n
            invariant
                n == self.expect_behaviours.len(),
                i <= n,
                self.expect_behaviours@ == bs0,
                bs0 == old(self).expect_behaviours@,
                self.given_behaviours@ == old(self).given_behaviours@,
                self.verify_on_drop == old(self).verify_on_drop,
                index < lookup(bs0, requested_trait@, method@).len(),
                lookup(bs0, requested_trait@, method@)[index as int].match_count() < usize::MAX,
                forall|j: int|
                    0 <= j < i ==> !bucket_matches(
                        #[trigger] self.expect_behaviours@[j],
                        requested_trait@,
                        method@,
                    ),
            decreases n - i,
        {
            if str_eq(self.expect_behaviours[i].requested_trait, requested_trait) && str_eq(
                self.expect_behaviours[i].method,
                method,
            ) {
                proof {
                    lemma_lookup_at_first_match(bs0, i as int, requested_trait@, method@);
                }
                self.expect_behaviours[i].behaviours[index].matched();
                proof {
                    let nb = self.expect_behaviours@[i as int];
                    lemma_lookup_update_same(bs0, i as int, nb, requested_trait@, method@);
                    assert forall|tr2: Seq<char>, m2: Seq<char>|
                        !(tr2 == requested_trait@ && m2 == method@) implies lookup(
                        self.expect_behaviours@,
                        tr2,
                        m2,
                    ) == lookup(bs0, tr2, m2) by {
                        lemma_lookup_update_other(
                            bs0,
                            i as int,
                            nb,
                            requested_trait@,
                            method@,
                            tr2,
                            m2,
                        );
                    }
                }
                return ;
            }
            i = i + 1;
        }
        proof {
            lemma_lookup_no_match(bs0, requested_trait@, method@);
        }
    }

    /// Returns the bucket of given behaviours registered under
    /// `(requested_trait, method)`, or `None` when no bucket carries the
    /// key, in which case nothing is registered under it.
    pub fn given_behaviours_for(&self, requested_trait: &str, method: &str) -> (r: Option<
        &Vec<GivenBehaviour>,
    >)
        ensures
            match r {
                Some(v) => v@ == self.given_for(requested_trait@, method@) && has_bucket(
                    self.given(),
                    requested_trait@,
                    method@,
                ),
                None => !has_bucket(self.given(), requested_trait@, method@) && self.given_for(
                    requested_trait@,
                    method@,
                ) == Seq::<GivenBehaviour>::empty(),
            },
    {
        let n = self.given_behaviours.len();
        let mut i: usize = 0;
        while i < n
            invariant
                n == self.given_behaviours.len(),
                i <= n,
                forall|j: int|
                    0 <= j < i ==> !bucket_matches(
                        #[trigger] self.given_behaviours@[j],
                        requested_trait@,
                        method@,
                    ),
            decreases n - i,
        {
            if str_eq(self.given_behaviours[i].requested_trait, requested_trait) && str_eq(
                self.given_behaviours[i].method,
                method,
            ) {
                proof {
                    lemma_lookup_at_first_match(
                        self.given_behaviours@,
                        i as int,
                        requested_trait@,
                        method@,
                    );
                }
                return Some(&self.given_behaviours[i].behaviours);
            }
            i = i + 1;
        }
        proof {
            lemma_lookup_no_match(self.given_behaviours@, requested_trait@, method@);
        }
        None
    }

    /// Returns the bucket of expected behaviours registered under
    /// `(requested_trait, method)`, or `None` when no bucket carries the
    /// key, in which case nothing is registered under it.
    pub fn expect_behaviours_for(&self, requested_trait: &str, method: &str) -> (r: Option<
        &Vec<ExpectBehaviour>,
    >)
        ensures
            match r {
                Some(v) => v@ == self.expected_for(requested_trait@, method@) && has_bucket(
                    self.expected(),
                    requested_trait@,
                    method@,
                ),
                None => !has_bucket(self.expected(), requested_trait@, method@)
                    && self.expected_for(requested_trait@, method@) == Seq::<
                    ExpectBehaviour,
                >::empty(),
            },
    {
        let n = self.expect_behaviours.len();
        let mut i: usize = 0;
        while i < n
            invariant
                n == self.expect_behaviours.len(),
                i <= n,
                forall|j: int|
                    0 <= j < i ==> !bucket_matches(
                        #[trigger] self.expect_behaviours@[j],
                        requested_trait@,
                        method@,
                    ),
            decreases n - i,
        {
            if str_eq(self.expect_behaviours[i].requested_trait, requested_trait) && str_eq(
                self.expect_behaviours[i].method,
                method,
            ) {
                proof {
                    lemma_lookup_at_first_match(
                        self.expect_behaviours@,
                        i as int,
                        requested_trait@,
                        method@,
                    );
                }
                return Some(&self.expect_behaviours[i].behaviours);
            }
            i = i + 1;
        }
        proof {
            lemma_lookup_no_match(self.expect_behaviours@, requested_trait@, method@);
        }
        None
    }
}

/// The diagnostic lines owed for the unsatisfied records of one bucket with
/// key `(tr, m)`, in registration order.
pub open spec fn messages_of_bucket(tr: Seq<char>, m: Seq<char>, behs: Seq<ExpectBehaviour>) -> Seq<
    Seq<char>,
>
    decreases behs.len(),
{
    if behs.len() == 0 {
        Seq::empty()
    } else {
        let rest = messages_of_bucket(tr, m, behs.drop_first());
        if behs[0].satisfied() {
            rest
        } else {
            seq![unsatisfied_message(tr, m, behs[0].match_count() as nat, behs[0].repr())] + rest
        }
    }
}

/// The diagnostic lines owed for all unsatisfied records, bucket by bucket,
/// in the order the buckets were created.
pub open spec fn messages_of_buckets(bs: Seq<Bucket<ExpectBehaviour>>) -> Seq<Seq<char>>
    decreases bs.len(),
{
    if bs.len() == 0 {
        Seq::empty()
    } else {
        messages_of_bucket(bs[0].requested_trait@, bs[0].method@, bs[0].behaviours@)
            + messages_of_buckets(bs.drop_first())
    }
}

/// A bucket owes no diagnostic line exactly when each of its records is
/// satisfied.
proof fn lemma_bucket_messages_empty(tr: Seq<char>, m: Seq<char>, behs: Seq<ExpectBehaviour>)
    ensures
        messages_of_bucket(tr, m, behs).len() == 0 <==> (forall|j: int|
            0 <= j < behs.len() ==> (#[trigger] behs[j]).satisfied()),
    decreases behs.len(),
{
    if behs.len() > 0 {
        let rest = behs.drop_first();
        lemma_bucket_messages_empty(tr, m, rest);
        if messages_of_bucket(tr, m, behs).len() == 0 {
            assert forall|j: int| 0 <= j < behs.len() implies (#[trigger] behs[j]).satisfied() by {
                if j == 0 {
                    assert(behs[0].satisfied());
                } else {
                    assert(rest[j - 1] == behs[j]);
                    assert(rest[j - 1].satisfied());
                }
            }
        }
        if forall|j: int| 0 <= j < behs.len() ==> (#[trigger] behs[j]).satisfied() {
            assert forall|j: int| 0 <= j < rest.len() implies (#[trigger] rest[j]).satisfied() by {
                assert(rest[j] == behs[j + 1]);
            }
            assert(behs[0].satisfied());
            assert(messages_of_bucket(tr, m, behs).len() == 0);
        }
    }
}

/// No diagnostic line is owed exactly when every record of every bucket is
/// satisfied.
proof fn lemma_buckets_messages_empty(bs: Seq<Bucket<ExpectBehaviour>>)
    ensures
        messages_of_buckets(bs).len() == 0 <==> (forall|i: int, j: int|
            0 <= i < bs.len() && 0 <= j < bs[i].behaviours@.len() ==> (#[trigger] bs[i].behaviours@[j]).satisfied()),
    decreases bs.len(),
{
    if bs.len() > 0 {
        let rest = bs.drop_first();
        lemma_bucket_messages_empty(bs[0].requested_trait@, bs[0].method@, bs[0].behaviours@);
        lemma_buckets_messages_empty(rest);
        if messages_of_buckets(bs).len() == 0 {
            assert forall|i: int, j: int|
                0 <= i < bs.len() && 0 <= j < bs[i].behaviours@.len() implies (
            #[trigger] bs[i].behaviours@[j]).satisfied() by {
                if i == 0 {
                    assert(messages_of_bucket(bs[0].requested_trait@, bs[0].method@, bs[0].behaviours@).len() == 0);
                } else {
                    assert(rest[i - 1] == bs[i]);
                    assert(rest[i - 1].behaviours@[j].satisfied());
                }
            }
        }
        if forall|i: int, j: int|
            0 <= i < bs.len() && 0 <= j < bs[i].behaviours@.len() ==> (
        #[trigger] bs[i].behaviours@[j]).satisfied() {
            assert forall|i: int, j: int|
                0 <= i < rest.len() && 0 <= j < rest[i].behaviours@.len() implies (
            #[trigger] rest[i].behaviours@[j]).satisfied() by {
                assert(rest[i] == bs[i + 1]);
                assert(bs[i + 1].behaviours@[j].satisfied());
            }
            assert forall|j: int| 0 <= j < bs[0].behaviours@.len() implies (
            #[trigger] bs[0].behaviours@[j]).satisfied() by {
                assert(bs[0].behaviours@[j].satisfied());
            }
            assert(messages_of_buckets(bs).len() == 0);
        }
    }
}

/// Whether every record of every bucket is satisfied.
pub open spec fn all_records_satisfied(bs: Seq<Bucket<ExpectBehaviour>>) -> bool {
    forall|i: int, j: int|
        0 <= i < bs.len() && 0 <= j < bs[i].behaviours@.len() ==> (
        #[trigger] bs[i].behaviours@[j]).satisfied()
}

/// What `lookup` yields is the contents of some bucket, or empty.
proof fn lemma_lookup_is_some_bucket<B>(bs: Seq<Bucket<B>>, tr: Seq<char>, m: Seq<char>)
    ensures
        lookup(bs, tr, m).len() == 0 || exists|i: int|
            0 <= i < bs.len() && bucket_matches(#[trigger] bs[i], tr, m) && lookup(bs, tr, m)
                == bs[i].behaviours@,
    decreases bs.len(),
{
    if bs.len() > 0 && !bucket_matches(bs[0], tr, m) {
        lemma_lookup_is_some_bucket(bs.drop_first(), tr, m);
        if lookup(bs.drop_first(), tr, m).len() > 0 {
            let i = choose|i: int|
                0 <= i < bs.drop_first().len() && bucket_matches(#[trigger] bs.drop_first()[i], tr, m)
                    && lookup(bs.drop_first(), tr, m) == bs.drop_first()[i].behaviours@;
            assert(bs[i + 1] == bs.drop_first()[i]);
            assert(bucket_matches(bs[i + 1], tr, m) && lookup(bs, tr, m) == bs[i + 1].behaviours@);
        }
    }
}

/// On a well-formed state, the expected behaviours are satisfied bucket by
/// bucket exactly when they are satisfied lookup by lookup.
proof fn lemma_satisfaction_agrees(s: MockState)
    requires
        s.wf(),
    ensures
        all_records_satisfied(s.expected()) <==> s.all_expected_satisfied(),
{
    let bs = s.expected();
    if all_records_satisfied(bs) {
        assert forall|tr: Seq<char>, m: Seq<char>, j: int|
            0 <= j < s.expected_for(tr, m).len() implies (#[trigger] s.expected_for(
            tr,
            m,
        )[j]).satisfied() by {
            lemma_lookup_is_some_bucket(bs, tr, m);
            let i = choose|i: int|
                0 <= i < bs.len() && bucket_matches(#[trigger] bs[i], tr, m) && lookup(bs, tr, m)
                    == bs[i].behaviours@;
            assert(bs[i].behaviours@[j].satisfied());
        }
    }
    if s.all_expected_satisfied() {
        assert forall|i: int, j: int|
            0 <= i < bs.len() && 0 <= j < bs[i].behaviours@.len() implies (
        #[trigger] bs[i].behaviours@[j]).satisfied() by {
            let tr = bs[i].requested_trait@;
            let m = bs[i].method@;
            assert forall|k: int| 0 <= k < i implies !bucket_matches(#[trigger] bs[k], tr, m) by {
                assert(!(bs[k].requested_trait@ == bs[i].requested_trait@ && bs[k].method@
                    == bs[i].method@));
            }
            lemma_lookup_at_first_match(bs, i, tr, m);
            assert(s.expected_for(tr, m)[j].satisfied());
        }
    }
}

/// The fatal outcome of verification: at least one expected behaviour was
/// unsatisfied when the mock was verified.
pub struct VerifyError;

impl VerifyError {
    /// The message of the fatal verification failure.
    pub fn message(&self) -> (r: &'static str)
        ensures
            r@ == "There are unsatisfied expected behaviours for mocked traits."@,
    {
        "There are unsatisfied expected behaviours for mocked traits."
    }
}

impl MockState {
    /// The diagnostic lines owed for the currently unsatisfied expected
    /// behaviours.
    pub open spec fn unsatisfied_messages(&self) -> Seq<Seq<char>> {
        messages_of_buckets(self.expected())
    }

    /// Renders the diagnostic line of every unsatisfied expected behaviour,
    /// in registry order, without mutating any behaviour state.
    pub fn unsatisfied_reports(&self) -> (r: Vec<String>)
        ensures
            r@.map_values(|s: String| s@) == self.unsatisfied_messages(),
    {
        let mut reports: Vec<String> = Vec::new();
        let ghost total = messages_of_buckets(self.expect_behaviours@);
        let n = self.expect_behaviours.len();
        let mut i: usize = 0;
        proof {
            assert(self.expect_behaviours@.skip(0) =~= self.expect_behaviours@);
            assert(reports@.map_values(|s: String| s@) + messages_of_buckets(
                self.expect_behaviours@.skip(0),
            ) =~= total);
        }
        while i < n
            invariant
                n == self.expect_behaviours.len(),
                i <= n,
                total == messages_of_buckets(self.expect_behaviours@),
                reports@.map_values(|s: String| s@) + messages_of_buckets(
                    self.expect_behaviours@.skip(i as int),
                ) == total,
            decreases n - i,
        {
            let ghost bs = self.expect_behaviours@;
            let ghost tr0 = bs[i as int].requested_trait@;
            let ghost m0 = bs[i as int].method@;
            let ghost behs = bs[i as int].behaviours@;
            proof {
                assert(bs.skip(i as int)[0] == bs[i as int]);
                assert(bs.skip(i as int).drop_first() =~= bs.skip(i as int + 1));
                assert(messages_of_buckets(bs.skip(i as int)) == messages_of_bucket(tr0, m0, behs)
                    + messages_of_buckets(bs.skip(i as int + 1)));
                assert(behs.skip(0) =~= behs);
                assert(reports@.map_values(|s: String| s@) + messages_of_bucket(
                    tr0,
                    m0,
                    behs.skip(0),
                ) + messages_of_buckets(bs.skip(i as int + 1)) =~= reports@.map_values(
                    |s: String| s@,
                ) + messages_of_buckets(bs.skip(i as int)));
            }
            let bn = self.expect_behaviours[i].behaviours.len();
            let mut j: usize = 0;
            while j < bn
                invariant
                    n == self.expect_behaviours.len(),
                    i < n,
                    bs == self.expect_behaviours@,
                    tr0 == bs[i as int].requested_trait@,
                    m0 == bs[i as int].method@,
                    behs == bs[i as int].behaviours@,
                    bn == behs.len(),
                    j <= bn,
                    total == messages_of_buckets(bs),
                    reports@.map_values(|s: String| s@) + messages_of_bucket(
                        tr0,
                        m0,
                        behs.skip(j as int),
                    ) + messages_of_buckets(bs.skip(i as int + 1)) == total,
                decreases bn - j,
            {
                proof {
                    assert(behs.skip(j as int)[0] == behs[j as int]);
                    assert(behs.skip(j as int).drop_first() =~= behs.skip(j as int + 1));
                }
                let ghost prev = reports@.map_values(|s: String| s@);
                let b = &self.expect_behaviours[i].behaviours[j];
                if !b.is_saturated() {
                    let line = unsatisfied_report(
                        self.expect_behaviours[i].requested_trait,
                        self.expect_behaviours[i].method,
                        b.num_matches(),
                        b.describe(),
                    );
                    reports.push(line);
                    proof {
                        assert(reports@.map_values(|s: String| s@) =~= prev.push(
                            unsatisfied_message(tr0, m0, behs[j as int].match_count() as nat, behs[j as int].repr()),
                        ));
                        assert(reports@.map_values(|s: String| s@) + messages_of_bucket(
                            tr0,
                            m0,
                            behs.skip(j as int + 1),
                        ) =~= prev + messages_of_bucket(tr0, m0, behs.skip(j as int)));
                    }
                }
                j = j + 1;
            }
            proof {
                assert(behs.skip(bn as int) =~= Seq::<ExpectBehaviour>::empty());
                assert(reports@.map_values(|s: String| s@) + messages_of_buckets(
                    bs.skip(i as int + 1),
                ) =~= reports@.map_values(|s: String| s@) + messages_of_bucket(
                    tr0,
                    m0,
                    behs.skip(bn as int),
                ) + messages_of_buckets(bs.skip(i as int + 1)));
            }
            i = i + 1;
        }
        proof {
            assert(self.expect_behaviours@.skip(n as int) =~= Seq::<Bucket<ExpectBehaviour>>::empty());
            assert(reports@.map_values(|s: String| s@) =~= total);
        }
        reports
    }

    /// Returns `true` iff every registered expected behaviour is satisfied.
    /// For each unsatisfied behaviour one diagnostic line is emitted to the
    /// standard error stream; no behaviour state is mutated either way.
    pub fn are_expected_behaviours_satisfied(&self) -> (r: bool)
        ensures
            r == all_records_satisfied(self.expected()),
            self.wf() ==> r == self.all_expected_satisfied(),
    {
        let reports = self.unsatisfied_reports();
        proof {
            lemma_buckets_messages_empty(self.expect_behaviours@);
            assert(reports@.map_values(|s: String| s@).len() == reports@.len());
            if self.wf() {
                lemma_satisfaction_agrees(*self);
            }
        }
        let nr = reports.len();
        let mut k: usize = 0;
        while k < nr
            invariant
                k <= nr,
                nr == reports.len(),
            decreases nr - k,
        {
            emit_diagnostic_line(reports[k].as_str());
            k = k + 1;
        }
        nr == 0
    }

    /// Decides the verification outcome.  While the ambient execution
    /// context is already unwinding from an earlier failure (`unwinding`
    /// true), verification is skipped so that the earlier failure is not
    /// masked.  Otherwise the expected behaviours are checked, diagnostics
    /// are emitted for the unsatisfied ones, and the fatal outcome is
    /// returned exactly when one of them is unsatisfied.  No behaviour state
    /// is mutated, so verifying repeatedly is harmless.
    pub fn verify(&self, unwinding: bool) -> (r: Result<(), VerifyError>)
        ensures
            r is Err <==> (!unwinding && !all_records_satisfied(self.expected())),
            self.wf() ==> (r is Err <==> (!unwinding && !self.all_expected_satisfied())),
    {
        proof {
            if self.wf() {
                lemma_satisfaction_agrees(*self);
            }
        }
        if !unwinding && !self.are_expected_behaviours_satisfied() {
            Err(VerifyError)
        } else {
            Ok(())
        }
    }
}

/// Registration order is preserved: registering `b1` and then `b2` under one
/// key leaves that key's bucket extended by `b1, b2`, in that order, and
/// every other key's bucket untouched.
pub proof fn lemma_given_registration_order(
    s0: MockState,
    s1: MockState,
    s2: MockState,
    tr: Seq<char>,
    m: Seq<char>,
    b1: GivenBehaviour,
    b2: GivenBehaviour,
)
    requires
        given_registered(s0, s1, tr, m, b1),
        given_registered(s1, s2, tr, m, b2),
    ensures
        s2.given_for(tr, m) == s0.given_for(tr, m) + seq![b1, b2],
        forall|tr2: Seq<char>, m2: Seq<char>|
            !(tr2 == tr && m2 == m) ==> s2.given_for(tr2, m2) == s0.given_for(tr2, m2),
{
    assert(s2.given_for(tr, m) =~= s0.given_for(tr, m) + seq![b1, b2]);
}

/// Registration order is preserved for expectations as well: registering
/// `b1` and then `b2` under one key leaves that key's bucket extended by
/// `b1, b2`, in that order, and every other key's bucket untouched.
pub proof fn lemma_expect_registration_order(
    s0: MockState,
    s1: MockState,
    s2: MockState,
    tr: Seq<char>,
    m: Seq<char>,
    b1: ExpectBehaviour,
    b2: ExpectBehaviour,
)
    requires
        expect_registered(s0, s1, tr, m, b1),
        expect_registered(s1, s2, tr, m, b2),
    ensures
        s2.expected_for(tr, m) == s0.expected_for(tr, m) + seq![b1, b2],
        forall|tr2: Seq<char>, m2: Seq<char>|
            !(tr2 == tr && m2 == m) ==> s2.expected_for(tr2, m2) == s0.expected_for(tr2, m2),
{
    assert(s2.expected_for(tr, m) =~= s0.expected_for(tr, m) + seq![b1, b2]);
}

/// After the given behaviours are discarded, every lookup yields the empty
/// sequence, and a registration under any key starts a fresh bucket holding
/// only the newly registered behaviour.
pub proof fn lemma_reset_then_register_given(
    s1: MockState,
    s2: MockState,
    tr: Seq<char>,
    m: Seq<char>,
    b: GivenBehaviour,
)
    requires
        forall|tr2: Seq<char>, m2: Seq<char>|
            s1.given_for(tr2, m2) == Seq::<GivenBehaviour>::empty(),
        given_registered(s1, s2, tr, m, b),
    ensures
        s2.given_for(tr, m) == seq![b],
{
    assert(s2.given_for(tr, m) =~= seq![b]);
}

/// A registry holding no expected behaviour is vacuously satisfied.
pub proof fn lemma_no_expectations_satisfied(s: MockState)
    requires
        s.expected() == Seq::<Bucket<ExpectBehaviour>>::empty(),
    ensures
        s.all_expected_satisfied(),
{
    assert forall|tr: Seq<char>, m: Seq<char>, j: int|
        0 <= j < s.expected_for(tr, m).len() implies (#[trigger] s.expected_for(
        tr,
        m,
    )[j]).satisfied() by {
        assert(s.expected_for(tr, m).len() == 0);
    }
}

} // verus!
