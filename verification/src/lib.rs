//! Runtime support for generated mock objects.
//!
//! The crate keeps, per mock instance, the registered substitute behaviours
//! ("given" behaviours) and interaction expectations ("expected" behaviours),
//! matches bookkeeping calls against them, and decides at verification time
//! whether every expectation was satisfied.

mod behaviour;
mod captured;
mod control;
mod matcher;
mod registry;
mod report;

pub use behaviour::ExpectBehaviour;
pub use behaviour::GivenBehaviour;
pub use behaviour::lemma_at_least_satisfaction;
pub use behaviour::lemma_between_satisfaction;
pub use behaviour::lemma_exact_satisfaction;
pub use behaviour::lemma_limited_given_exhaustion;
pub use behaviour::lemma_unlimited_given_never_exhausted;
pub use captured::CapturedState;
pub use control::MockControl;
pub use matcher::ArgMatcher;
pub use registry::Bucket;
pub use registry::all_records_satisfied;
pub use registry::buckets_wf;
pub use registry::bucket_matches;
pub use registry::has_bucket;
pub use registry::lookup;
pub use registry::MockState;
pub use registry::VerifyError;
pub use registry::expect_registered;
pub use registry::given_registered;
pub use registry::lemma_expect_registration_order;
pub use registry::lemma_given_registration_order;
pub use registry::lemma_no_expectations_satisfied;
pub use registry::lemma_reset_then_register_given;
pub use registry::messages_of_bucket;
pub use registry::messages_of_buckets;
pub use report::decimal_of;
pub use report::decimal_string;
pub use report::digit_char;
pub use report::unsatisfied_message;
pub use report::unsatisfied_report;
