//! Opaque captured state attached to a behaviour.
//!
//! A behaviour may carry a payload captured at declaration time (for example
//! the substitute return value a mocked method should produce).  The registry
//! never inspects the payload; it only keeps it alive.  The payload is shared
//! through a reference count, because the declaration site and the registry
//! entry both hold it and either may be the last to let go.  A registration
//! time tag stands in for the erased type: retrieval checks the tag and fails
//! closed on a mismatch.

use std::rc::Rc;
use vstd::prelude::*;

verus! {

/// A type-erased, reference-counted payload captured when a behaviour was
/// declared, together with the tag recorded at registration time.  Cloning
/// shares the payload instead of copying it.
#[derive(Clone)]
pub struct CapturedState {
    tag: u64,
    payload: Rc<Vec<u8>>,
}

impl CapturedState {
    /// The tag recorded when the payload was captured.
    pub closed spec fn spec_tag(&self) -> u64 {
        self.tag
    }

    /// The bytes of the captured payload.
    pub closed spec fn data(&self) -> Seq<u8> {
        self.payload@
    }

    /// Captures a payload under the given type tag.
    pub fn new(tag: u64, payload: Vec<u8>) -> (s: Self)
        ensures
            s.spec_tag() == tag,
            s.data() == payload@,
    {
        CapturedState { tag, payload: Rc::new(payload) }
    }

    /// Returns the registration-time tag.
    pub fn tag(&self) -> (t: u64)
        ensures
            t == self.spec_tag(),
    {
        self.tag
    }

    /// Checked retrieval of the payload: yields the bytes only when the
    /// caller's expected tag is the one recorded at capture time, and fails
    /// closed otherwise.
    pub fn downcast(&self, expected_tag: u64) -> (r: Option<&Vec<u8>>)
        ensures
            self.spec_tag() == expected_tag ==> (r matches Some(p) && p@ == self.data()),
            self.spec_tag() != expected_tag ==> r is None,
    {
        if self.tag == expected_tag {
            Some(&*self.payload)
        } else {
            None
        }
    }
}

} // verus!
