//! Core of a double-opt-in mailing-list service: idempotent newsletter
//! publishing and reliable at-least-once delivery to confirmed subscribers.
//!
//! The durable state (newsletter issues, the per-subscriber delivery queue,
//! and the idempotency response cache) is modelled by [`store::NewsletterStore`],
//! whose operations carry the contracts that make duplicate submissions,
//! worker retries, and dead-lettering safe.

use vstd::prelude::*;

pub mod configuration;
pub mod delivery;
pub mod domain;
pub mod errors;
pub mod idempotency;
pub mod laws;
pub mod login;
pub mod response;
pub mod store;
pub mod subscriptions;

verus! {

/// Relies on std's String::push: appends the character to the string.
pub assume_specification[ String::push ](s: &mut String, ch: char)
    ensures
        final(s)@ == old(s)@.push(ch),
;

} // verus!
