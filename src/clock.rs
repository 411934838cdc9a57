use vstd::prelude::*;

verus! {

/// A date and time with its offset from UTC, from the `time` crate; carried
/// through opaquely.
#[verifier::external_type_specification]
#[verifier::external_body]
pub struct ExOffsetDateTime(time::OffsetDateTime);

/// The error of the `time` crate for a local offset that cannot be found.
#[verifier::external_type_specification]
#[verifier::external_body]
pub struct ExIndeterminateOffset(time::error::IndeterminateOffset);

/// Relies on `time::OffsetDateTime::now_local`: the current local date and
/// time, or an error when the local offset cannot be determined. Nothing is
/// promised of which one comes back.
pub assume_specification[ time::OffsetDateTime::now_local ]() -> (r: Result<
    time::OffsetDateTime,
    time::error::IndeterminateOffset,
>);

} // verus!
