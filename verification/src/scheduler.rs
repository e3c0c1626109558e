//! Timer events. The application turns a one-second timer (paused with the
//! rotation) into these events.

use std::time::Instant;
use vstd::prelude::*;

verus! {

/// `std::time::Instant`, carried through as an opaque value.
#[verifier::external_type_specification]
#[verifier::external_body]
pub struct ExInstant(Instant);

/// A timer event: one second has passed (at the given instant).
#[derive(Debug, Clone, Copy)]
pub enum SchedulerEvent {
    Tick(Instant),
}

} // verus!
