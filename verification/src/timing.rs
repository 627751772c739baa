use vstd::prelude::*;
use std::time::Duration;

verus! {

/// The duration of `secs` whole seconds, as `Duration::from_secs` makes it.
pub uninterp spec fn secs_duration(secs: u64) -> Duration;

/// Calls `Duration::from_secs`; its result depends on `secs` alone.
#[verifier::external_body]
pub(crate) fn duration_from_secs(secs: u64) -> (d: Duration)
    ensures
        d == secs_duration(secs),
{
    Duration::from_secs(secs)
}

} // verus!
