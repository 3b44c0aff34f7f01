//! The transition of the presence at one tick.
//!
//! A tick brings `now`, the distance from the person to each station of the
//! catalog, in catalog order, and the trains of the feed, in feed order, each
//! with its distance from the person. A distance that could not be resolved is
//! `None`; a tick that has to read one fails as a whole.
use crate::encounters::{Encounter, EncounterLog};
use crate::geofence::{
    elapsed, elapsed_since, in_circle, within, STATION_DWELL_NS, STATION_GRACE_NS,
    STATION_RADIUS_MM, TRAIN_GRACE_NS, TRAIN_RADIUS_MM,
};
use crate::state::{Presence, PresenceState};
use std::collections::HashMap;
use vstd::prelude::*;

verus! {

broadcast use vstd::std_specs::hash::group_hash_axioms;

/// A train of the feed as seen from the person.
#[derive(Clone, Debug)]
pub struct TrainSighting {
    pub train_id: String,
    /// Distance from the person, or `None` where it could not be resolved.
    pub distance_mm: Option<u64>,
}

/// A distance that the tick had to read could not be resolved.
#[derive(Clone, Copy, Debug, PartialEq, Eq)]
pub struct GeoResolutionError;

/// The person is inside the radius of station `k`.
pub open spec fn inside_station(stations: Seq<Option<u64>>, k: usize) -> bool {
    k < stations.len() && stations[k as int] is Some && within(
        stations[k as int].unwrap(),
        STATION_RADIUS_MM,
    )
}

/// The distance to every station of the catalog is resolved.
pub open spec fn all_resolved(stations: Seq<Option<u64>>) -> bool {
    forall|k: int| 0 <= k < stations.len() ==> (#[trigger] stations[k]) is Some
}

/// The person is inside the radius of station `k` and was first noticed there
/// at least the dwell time ago.
pub open spec fn eligible(
    first_seen: Map<usize, u64>,
    now: u64,
    stations: Seq<Option<u64>>,
    k: usize,
) -> bool {
    inside_station(stations, k) && first_seen.contains_key(k) && elapsed(now, first_seen[k])
        >= STATION_DWELL_NS
}

/// Station `k` is eligible, no eligible station is nearer, and none that is
/// as near comes before it in the catalog.
pub open spec fn nearest_eligible(
    first_seen: Map<usize, u64>,
    now: u64,
    stations: Seq<Option<u64>>,
    k: usize,
) -> bool {
    eligible(first_seen, now, stations, k) && forall|j: usize| #[trigger]
        eligible(first_seen, now, stations, j) ==> stations[k as int].unwrap()
            < stations[j as int].unwrap() || (stations[k as int].unwrap()
            == stations[j as int].unwrap() && k <= j)
}

/// The candidacy clocks after a tick without an eligible station: a station of
/// the catalog has one exactly if the person is inside its radius, and it
/// shows `now` unless it was already running.
pub open spec fn clocks_after(first_seen: Map<usize, u64>, now: u64, stations: Seq<Option<u64>>) -> Map<
    usize,
    u64,
> {
    Map::new(
        |k: usize|
            if k < stations.len() {
                inside_station(stations, k)
            } else {
                first_seen.contains_key(k)
            },
        |k: usize|
            if first_seen.contains_key(k) {
                first_seen[k]
            } else {
                now
            },
    )
}

/// The next presence of a person who is not travelling; `None` where the tick
/// fails.
pub open spec fn from_no_status(
    first_seen: Map<usize, u64>,
    now: u64,
    stations: Seq<Option<u64>>,
) -> Option<Presence> {
    if !all_resolved(stations) {
        None
    } else if exists|k: usize| eligible(first_seen, now, stations, k) {
        Some(
            Presence::arrived(choose|k: usize| nearest_eligible(first_seen, now, stations, k)),
        )
    } else {
        Some(Presence::NoStatus { first_seen: clocks_after(first_seen, now, stations) })
    }
}

/// The instant of leaving the station's radius after a tick.
pub open spec fn left_after(left_at: Option<u64>, now: u64, inside: bool) -> Option<u64> {
    if inside {
        None
    } else {
        match left_at {
            Some(t) => Some(t),
            None => Some(now),
        }
    }
}

/// The person is outside the station's radius and was first noticed there
/// more than the grace time ago.
pub open spec fn departed(left_at: Option<u64>, now: u64, inside: bool) -> bool {
    !inside && left_at is Some && elapsed(now, left_at.unwrap()) > STATION_GRACE_NS
}

/// What the scan of the feed finds for a person waiting at a station.
pub enum TrainScan {
    /// A distance was unresolved before any train matched.
    Failed,
    /// The first train with both classes of sighting.
    Matched(Seq<char>),
    /// No train matched; the encounters after the scan.
    Unmatched(Map<Seq<char>, Encounter>),
}

/// The scan of the trains from position `from` on, in feed order. A train
/// outside the train radius loses its encounter. One inside has the sighting
/// recorded, as inside or outside the station radius, and matches as soon as
/// both classes are recorded for it.
pub open spec fn scan_trains(
    trains: Seq<TrainSighting>,
    from: int,
    encounters: Map<Seq<char>, Encounter>,
    now: u64,
) -> TrainScan
    decreases trains.len() - from,
{
    if from < 0 || from >= trains.len() {
        TrainScan::Unmatched(encounters)
    } else {
        let id = trains[from].train_id@;
        match trains[from].distance_mm {
            None => TrainScan::Failed,
            Some(d) => if !within(d, TRAIN_RADIUS_MM) {
                scan_trains(trains, from + 1, encounters.remove(id), now)
            } else {
                let seen = if encounters.contains_key(id) {
                    encounters[id]
                } else {
                    Encounter::blank()
                };
                let e = seen.stamped(within(d, STATION_RADIUS_MM), now);
                if e.complete() {
                    TrainScan::Matched(id)
                } else {
                    scan_trains(trains, from + 1, encounters.insert(id, e), now)
                }
            },
        }
    }
}

/// The next presence of a person waiting at a station; `None` where the tick
/// fails.
pub open spec fn from_at_station(
    station: usize,
    encounters: Map<Seq<char>, Encounter>,
    left_at: Option<u64>,
    now: u64,
    stations: Seq<Option<u64>>,
    trains: Seq<TrainSighting>,
) -> Option<Presence> {
    if station >= stations.len() || stations[station as int] is None {
        None
    } else {
        let inside = within(stations[station as int].unwrap(), STATION_RADIUS_MM);
        if departed(left_at, now, inside) {
            Some(Presence::idle())
        } else {
            match scan_trains(trains, 0, encounters, now) {
                TrainScan::Failed => None,
                TrainScan::Matched(id) => Some(Presence::OnTrain { train: id, last_seen: now }),
                TrainScan::Unmatched(seen) => Some(
                    Presence::AtStation {
                        station,
                        encounters: seen,
                        left_at: left_after(left_at, now, inside),
                    },
                ),
            }
        }
    }
}

/// The first position from `from` on at which the feed holds train `id`.
pub open spec fn position_of(trains: Seq<TrainSighting>, id: Seq<char>, from: int) -> Option<int>
    decreases trains.len() - from,
{
    if from < 0 || from >= trains.len() {
        None
    } else if trains[from].train_id@ == id {
        Some(from)
    } else {
        position_of(trains, id, from + 1)
    }
}

/// What the search for a station around the person finds.
pub enum StationSearch {
    /// A distance was unresolved before any station contained the person.
    Failed,
    /// The first station of the catalog whose radius contains the person.
    Found(usize),
    /// No station contains the person.
    Absent,
}

/// The search of the catalog from station `from` on, in catalog order.
pub open spec fn first_containing(stations: Seq<Option<u64>>, from: int) -> StationSearch
    decreases stations.len() - from,
{
    if from < 0 || from >= stations.len() {
        StationSearch::Absent
    } else {
        match stations[from] {
            None => StationSearch::Failed,
            Some(d) => if within(d, STATION_RADIUS_MM) {
                StationSearch::Found(from as usize)
            } else {
                first_containing(stations, from + 1)
            },
        }
    }
}

/// The next presence of a person riding a train; `None` where the tick fails.
/// The age of the last contact is the signed interval from `now` to
/// `last_seen`.
pub open spec fn from_on_train(
    train: Seq<char>,
    last_seen: u64,
    now: u64,
    stations: Seq<Option<u64>>,
    trains: Seq<TrainSighting>,
) -> Option<Presence> {
    match position_of(trains, train, 0) {
        None => Some(Presence::idle()),
        Some(i) => match trains[i].distance_mm {
            None => None,
            Some(d) => if within(d, TRAIN_RADIUS_MM) {
                Some(Presence::OnTrain { train, last_seen: now })
            } else if last_seen - now > TRAIN_GRACE_NS {
                match first_containing(stations, 0) {
                    StationSearch::Failed => None,
                    StationSearch::Found(k) => Some(Presence::arrived(k)),
                    StationSearch::Absent => Some(Presence::idle()),
                }
            } else {
                Some(Presence::OnTrain { train, last_seen })
            },
        },
    }
}

/// The next presence; `None` where the tick fails.
pub open spec fn next_presence(
    state: Presence,
    now: u64,
    stations: Seq<Option<u64>>,
    trains: Seq<TrainSighting>,
) -> Option<Presence> {
    match state {
        Presence::NoStatus { first_seen } => from_no_status(first_seen, now, stations),
        Presence::AtStation { station, encounters, left_at } => from_at_station(
            station,
            encounters,
            left_at,
            now,
            stations,
            trains,
        ),
        Presence::OnTrain { train, last_seen } => from_on_train(
            train,
            last_seen,
            now,
            stations,
            trains,
        ),
    }
}

/// The result of a tick agrees with the model: it holds the next presence,
/// well formed, or it is an error where the model has none.
pub open spec fn yields(r: Result<PresenceState, GeoResolutionError>, next: Option<Presence>) -> bool {
    match r {
        Ok(s) => s.wf() && next == Some(s@),
        Err(_) => next is None,
    }
}

/// At most one station is the nearest eligible one.
pub proof fn lemma_nearest_unique(
    first_seen: Map<usize, u64>,
    now: u64,
    stations: Seq<Option<u64>>,
    a: usize,
    b: usize,
)
    requires
        nearest_eligible(first_seen, now, stations, a),
        nearest_eligible(first_seen, now, stations, b),
    ensures
        a == b,
{
}

/// The tick of a person who is not travelling.
pub fn advance_no_status(first_seen: &HashMap<usize, u64>, now: u64, stations: &Vec<Option<u64>>) -> (r:
    Result<PresenceState, GeoResolutionError>)
    ensures
        yields(r, from_no_status(first_seen@, now, stations@)),
{
    let mut clocks = first_seen.clone();
    let mut best: Option<(usize, u64)> = None;
    let mut k: usize = 0;
    while k < stations.len()
        invariant
            k <= stations@.len(),
            forall|j: int| 0 <= j < k ==> (#[trigger] stations@[j]) is Some,
            forall|j: usize|
                clocks@.contains_key(j) <==> (if j < k {
                    inside_station(stations@, j)
                } else {
                    first_seen@.contains_key(j)
                }),
            forall|j: usize|
                clocks@.contains_key(j) ==> clocks@[j] == (if first_seen@.contains_key(j) {
                    first_seen@[j]
                } else {
                    now
                }),
            match best {
                None => forall|j: usize| j < k ==> !eligible(first_seen@, now, stations@, j),
                Some((b, d)) => b < k && eligible(first_seen@, now, stations@, b) && stations@[b as int]
                    == Some(d) && forall|j: usize|
                    j < k && #[trigger] eligible(first_seen@, now, stations@, j) ==> d
                        < stations@[j as int].unwrap() || (d == stations@[j as int].unwrap() && b
                        <= j),
            },
        decreases stations@.len() - k,
    {
        match stations[k] {
            None => {
                return Err(GeoResolutionError);
            },
            Some(d) => {
                if in_circle(d, STATION_RADIUS_MM) {
                    let started: Option<u64> = match clocks.get(&k) {
                        Some(t) => Some(*t),
                        None => None,
                    };
                    match started {
                        Some(t) => {
                            if elapsed_since(now, t) >= STATION_DWELL_NS {
                                let nearer = match best {
                                    Some((_, least)) => d < least,
                                    None => true,
                                };
                                if nearer {
                                    best = Some((k, d));
                                }
                            }
                        },
                        None => {
                            clocks.insert(k, now);
                        },
                    }
                } else {
                    clocks.remove(&k);
                }
            },
        }
        k = k + 1;
    }
    assert(all_resolved(stations@));
    match best {
        Some((b, _)) => {
            proof {
                assert(nearest_eligible(first_seen@, now, stations@, b));
                let c = choose|c: usize| nearest_eligible(first_seen@, now, stations@, c);
                lemma_nearest_unique(first_seen@, now, stations@, b, c);
            }
            Ok(PresenceState::at_station(b))
        },
        None => {
            proof {
                assert(clocks@ =~= clocks_after(first_seen@, now, stations@));
            }
            Ok(PresenceState::NoStatus { first_seen: clocks })
        },
    }
}

/// The tick of a person waiting at `station`.
#[verifier::loop_isolation(false)]
pub fn advance_at_station(
    station: usize,
    encounters: &EncounterLog,
    left_at: Option<u64>,
    now: u64,
    stations: &Vec<Option<u64>>,
    trains: &Vec<TrainSighting>,
) -> (r: Result<PresenceState, GeoResolutionError>)
    requires
        encounters.wf(),
    ensures
        yields(r, from_at_station(station, encounters@, left_at, now, stations@, trains@)),
{
    if station >= stations.len() {
        return Err(GeoResolutionError);
    }
    let distance: u64 = match stations[station] {
        Some(d) => d,
        None => {
            return Err(GeoResolutionError);
        },
    };
    let inside = in_circle(distance, STATION_RADIUS_MM);
    let gone = !inside && match left_at {
        Some(t) => elapsed_since(now, t) > STATION_GRACE_NS,
        None => false,
    };
    if gone {
        return Ok(PresenceState::new());
    }
    let left: Option<u64> = if inside {
        None
    } else {
        match left_at {
            Some(t) => Some(t),
            None => Some(now),
        }
    };
    let mut log = encounters.duplicate();
    let mut i: usize = 0;
    while i < trains.len()
        invariant
            i <= trains@.len(),
            log.wf(),
            scan_trains(trains@, 0, encounters@, now) == scan_trains(trains@, i as int, log@, now),
        decreases trains@.len() - i,
    {
        let sighting = &trains[i];
        match sighting.distance_mm {
            None => {
                return Err(GeoResolutionError);
            },
            Some(d) => {
                if in_circle(d, TRAIN_RADIUS_MM) {
                    let seen = match log.get(&sighting.train_id) {
                        Some(e) => e,
                        None => Encounter::new(),
                    };
                    let e = seen.stamp(in_circle(d, STATION_RADIUS_MM), now);
                    if e.is_complete() {
                        return Ok(PresenceState::on_train(sighting.train_id.clone(), now));
                    }
                    log.insert(sighting.train_id.clone(), e);
                } else {
                    log.remove(&sighting.train_id);
                }
            },
        }
        i = i + 1;
    }
    Ok(PresenceState::AtStation { station, encounters: log, left_at: left })
}

/// The first position at which the feed holds train `id`.
pub fn find_train(trains: &Vec<TrainSighting>, id: &String) -> (r: Option<usize>)
    ensures
        match r {
            Some(i) => position_of(trains@, id@, 0) == Some(i as int) && i < trains@.len(),
            None => position_of(trains@, id@, 0) is None,
        },
{
    let mut i: usize = 0;
    while i < trains.len()
        invariant
            i <= trains@.len(),
            position_of(trains@, id@, 0) == position_of(trains@, id@, i as int),
        decreases trains@.len() - i,
    {
        if trains[i].train_id == *id {
            return Some(i);
        }
        i = i + 1;
    }
    None
}

/// The first station of the catalog whose radius contains the person.
pub fn find_station(stations: &Vec<Option<u64>>) -> (r: Result<Option<usize>, GeoResolutionError>)
    ensures
        match r {
            Ok(Some(k)) => first_containing(stations@, 0) == StationSearch::Found(k),
            Ok(None) => first_containing(stations@, 0) == StationSearch::Absent,
            Err(_) => first_containing(stations@, 0) == StationSearch::Failed,
        },
{
    let mut k: usize = 0;
    while k < stations.len()
        invariant
            k <= stations@.len(),
            first_containing(stations@, 0) == first_containing(stations@, k as int),
        decreases stations@.len() - k,
    {
        match stations[k] {
            None => {
                return Err(GeoResolutionError);
            },
            Some(d) => {
                if in_circle(d, STATION_RADIUS_MM) {
                    return Ok(Some(k));
                }
            },
        }
        k = k + 1;
    }
    Ok(None)
}

/// The tick of a person riding `train`.
pub fn advance_on_train(
    train: &String,
    last_seen: u64,
    now: u64,
    stations: &Vec<Option<u64>>,
    trains: &Vec<TrainSighting>,
) -> (r: Result<PresenceState, GeoResolutionError>)
    ensures
        yields(r, from_on_train(train@, last_seen, now, stations@, trains@)),
{
    match find_train(trains, train) {
        None => Ok(PresenceState::new()),
        Some(i) => match trains[i].distance_mm {
            None => Err(GeoResolutionError),
            Some(d) => {
                if in_circle(d, TRAIN_RADIUS_MM) {
                    Ok(PresenceState::on_train(train.clone(), now))
                } else if last_seen > now && last_seen - now > TRAIN_GRACE_NS {
                    match find_station(stations) {
                        Err(e) => Err(e),
                        Ok(Some(k)) => Ok(PresenceState::at_station(k)),
                        Ok(None) => Ok(PresenceState::new()),
                    }
                } else {
                    Ok(PresenceState::on_train(train.clone(), last_seen))
                }
            },
        },
    }
}

/// One tick: the presence that follows `state` at `now`, given the distances
/// from the person to the stations of the catalog and the trains of the feed.
/// Fails, leaving nothing changed, where a distance that the tick has to read
/// is unresolved.
pub fn advance(
    state: &PresenceState,
    now: u64,
    stations: &Vec<Option<u64>>,
    trains: &Vec<TrainSighting>,
) -> (r: Result<PresenceState, GeoResolutionError>)
    requires
        state.wf(),
    ensures
        yields(r, next_presence(state@, now, stations@, trains@)),
{
    match state {
        PresenceState::NoStatus { first_seen } => advance_no_status(first_seen, now, stations),
        PresenceState::AtStation { station, encounters, left_at } => advance_at_station(
            *station,
            encounters,
            *left_at,
            now,
            stations,
            trains,
        ),
        PresenceState::OnTrain { train, last_seen } => advance_on_train(
            train,
            *last_seen,
            now,
            stations,
            trains,
        ),
    }
}

} // verus!
