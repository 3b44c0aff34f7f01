//! Radii and dwell times of the geofences, and the containment test.
//!
//! Distances are great-circle distances in whole millimetres; instants are
//! nanoseconds on a monotonic clock.
use vstd::prelude::*;

verus! {

/// Radius around a station inside which a person counts as being at it.
pub const STATION_RADIUS_MM: u64 = 200_000;

/// Radius around a train inside which a person counts as being near it.
pub const TRAIN_RADIUS_MM: u64 = 400_000;

/// Time a person has to stay inside a station's radius to be at the station.
pub const STATION_DWELL_NS: u64 = 30_000_000_000;

/// Time a person may stay outside a station's radius and still be at it.
pub const STATION_GRACE_NS: u64 = 60_000_000_000;

/// Age of the last contact with a train beyond which the ride is over.
pub const TRAIN_GRACE_NS: u64 = 300_000_000_000;

/// A point at `distance_mm` from a circle's centre lies in the circle when the
/// distance is strictly below the radius.
pub open spec fn within(distance_mm: u64, radius_mm: u64) -> bool {
    distance_mm < radius_mm
}

/// Time that has passed at `now` since `since`; none if `since` lies ahead.
pub open spec fn elapsed(now: u64, since: u64) -> int {
    if now >= since {
        now - since
    } else {
        0
    }
}

/// Containment test of a circular geofence.
pub fn in_circle(distance_mm: u64, radius_mm: u64) -> (inside: bool)
    ensures
        inside == within(distance_mm, radius_mm),
{
    distance_mm < radius_mm
}

/// Time that has passed at `now` since `since`, saturating at zero.
pub fn elapsed_since(now: u64, since: u64) -> (span: u64)
    ensures
        span == elapsed(now, since),
{
    if now >= since {
        now - since
    } else {
        0
    }
}

} // verus!
