//! The one reading the engine takes from the environment: the current
//! second within the minute, stamped into each new block header.

use vstd::prelude::*;

verus! {

/// Relies on time::OffsetDateTime::now_utc and its second accessor: the
/// second-of-minute is stored as a ranged integer and is always below 60.
#[verifier::external_body]
pub(crate) fn now_second() -> (s: u8)
    ensures
        s < 60,
{
    time::OffsetDateTime::now_utc().second()
}

} // verus!
