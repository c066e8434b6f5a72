//! The calls this library makes into `uuid` and into std's clock, each behind
//! a trusted item whose contract states no more than the outside code shows.
use vstd::prelude::*;
use std::time::{Duration, SystemTime, UNIX_EPOCH};

verus! {

/// `uuid::Uuid`, carried through the library as an opaque identifier.
#[verifier::external_type_specification]
#[verifier::external_body]
pub struct ExUuid(uuid::Uuid);

/// `uuid::Uuid` derives `Clone` beside `Copy`: its `clone` is a bitwise copy, so
/// the clone equals the identifier it was made from.
pub assume_specification[ <uuid::Uuid as Clone>::clone ](u: &uuid::Uuid) -> (r: uuid::Uuid)
    ensures
        r == *u,
;

/// `std::time::SystemTime`, an opaque instant read from the system clock.
#[verifier::external_type_specification]
#[verifier::external_body]
pub struct ExSystemTime(std::time::SystemTime);

/// Calls `uuid::Uuid::new_v4`, which fills a version-4 identifier with random
/// bits. Nothing is claimed of the identifier: it rests on chance.
#[verifier::external_body]
pub(crate) fn random_uuid() -> uuid::Uuid {
    uuid::Uuid::new_v4()
}

/// Calls `SystemTime::now`. Nothing is claimed of the instant: it rests on the
/// machine's clock.
#[verifier::external_body]
pub(crate) fn clock_now() -> SystemTime {
    SystemTime::now()
}

/// Calls `SystemTime::duration_since(UNIX_EPOCH)`: the time elapsed since the
/// Unix epoch, `None` where the instant lies before it (the outside error).
/// Nothing is claimed of the duration: it rests on the instant read.
#[verifier::external_body]
pub(crate) fn duration_since_epoch(t: &SystemTime) -> Option<Duration> {
    t.duration_since(UNIX_EPOCH).ok()
}

/// Calls `Duration::as_secs`: the whole seconds of a duration. Nothing is
/// claimed of the number, as the duration is opaque here.
#[verifier::external_body]
pub(crate) fn whole_secs(d: &Duration) -> u64 {
    d.as_secs()
}

} // verus!
