//! The part of `std::time` that the buffers are stamped with.
use std::time::Instant;
use vstd::prelude::*;

verus! {

/// `std::time::Instant`, as an opaque type.
#[verifier::external_type_specification]
#[verifier::external_body]
pub struct ExInstant(Instant);

/// `Instant::now` reads the clock; nothing is claimed of the instant it
/// returns.
pub assume_specification[ Instant::now ]() -> (now: Instant);

} // verus!
