//! What holds of every tick, proved from the definition of the transition.
use crate::encounters::Encounter;
use crate::geofence::{
    within, STATION_DWELL_NS, STATION_RADIUS_MM, TRAIN_GRACE_NS, TRAIN_RADIUS_MM,
};
use crate::machine::{
    all_resolved, clocks_after, eligible, first_containing, from_at_station, from_no_status,
    from_on_train, inside_station, lemma_nearest_unique, nearest_eligible, next_presence,
    position_of, scan_trains, yields, GeoResolutionError, StationSearch, TrainScan, TrainSighting,
};
use crate::state::{Presence, PresenceState};
use vstd::prelude::*;

verus! {

/// A person who has been inside one station's radius for the dwell time, and
/// in no other station's for as long, arrives at that station at the next
/// tick, provided that the distance to every station is resolved.
pub proof fn law_dwell_arrives(
    first_seen: Map<usize, u64>,
    now: u64,
    stations: Seq<Option<u64>>,
    k: usize,
)
    requires
        eligible(first_seen, now, stations, k),
        forall|j: usize| j != k ==> !eligible(first_seen, now, stations, j),
    ensures
        from_no_status(first_seen, now, stations) == (if all_resolved(stations) {
            Some(Presence::arrived(k))
        } else {
            None
        }),
{
    assert(nearest_eligible(first_seen, now, stations, k));
    let c = choose|c: usize| nearest_eligible(first_seen, now, stations, c);
    lemma_nearest_unique(first_seen, now, stations, k, c);
}

/// A person who stays inside one station's radius over two ticks that lie at
/// least the dwell time apart arrives at that station at the second, provided
/// that no clock of the station ran ahead of the first tick, that no other
/// station is eligible at the second, and that both ticks resolve every
/// station.
pub proof fn law_stay_arrives(
    first_seen: Map<usize, u64>,
    earlier: u64,
    later: u64,
    stations_earlier: Seq<Option<u64>>,
    stations_later: Seq<Option<u64>>,
    k: usize,
)
    requires
        all_resolved(stations_earlier),
        all_resolved(stations_later),
        inside_station(stations_earlier, k),
        inside_station(stations_later, k),
        later - earlier >= STATION_DWELL_NS,
        first_seen.contains_key(k) ==> first_seen[k] <= earlier,
        forall|j: usize| !eligible(first_seen, earlier, stations_earlier, j),
        forall|j: usize|
            j != k ==> !eligible(
                clocks_after(first_seen, earlier, stations_earlier),
                later,
                stations_later,
                j,
            ),
    ensures
        from_no_status(first_seen, earlier, stations_earlier) == Some(
            Presence::NoStatus { first_seen: clocks_after(first_seen, earlier, stations_earlier) },
        ),
        from_no_status(
            clocks_after(first_seen, earlier, stations_earlier),
            later,
            stations_later,
        ) == Some(Presence::arrived(k)),
{
    let clocks = clocks_after(first_seen, earlier, stations_earlier);
    assert(clocks.contains_key(k));
    assert(eligible(clocks, later, stations_later, k));
    law_dwell_arrives(clocks, later, stations_later, k);
}

/// Station `k` is below `n` and the nearest of the eligible stations below
/// `n`, the first in the catalog among those as near.
pub open spec fn nearest_below(
    first_seen: Map<usize, u64>,
    now: u64,
    stations: Seq<Option<u64>>,
    n: usize,
    k: usize,
) -> bool {
    k < n && eligible(first_seen, now, stations, k) && forall|j: usize|
        j < n && #[trigger] eligible(first_seen, now, stations, j) ==> stations[k as int].unwrap()
            < stations[j as int].unwrap() || (stations[k as int].unwrap()
            == stations[j as int].unwrap() && k <= j)
}

/// Where a station below `n` is eligible, one of them is the nearest.
pub proof fn lemma_nearest_below(
    first_seen: Map<usize, u64>,
    now: u64,
    stations: Seq<Option<u64>>,
    n: usize,
    witness: usize,
) -> (k: usize)
    requires
        witness < n,
        eligible(first_seen, now, stations, witness),
    ensures
        nearest_below(first_seen, now, stations, n, k),
    decreases n,
{
    let last: usize = (n - 1) as usize;
    if witness < last {
        let k0 = lemma_nearest_below(first_seen, now, stations, last, witness);
        if eligible(first_seen, now, stations, last) && stations[last as int].unwrap()
            < stations[k0 as int].unwrap() {
            last
        } else {
            k0
        }
    } else if exists|j: usize| j < last && eligible(first_seen, now, stations, j) {
        let j = choose|j: usize| j < last && eligible(first_seen, now, stations, j);
        let k0 = lemma_nearest_below(first_seen, now, stations, last, j);
        if stations[last as int].unwrap() < stations[k0 as int].unwrap() {
            last
        } else {
            k0
        }
    } else {
        last
    }
}

/// Where stations are eligible, the person arrives at the nearest of them: no
/// eligible station is strictly nearer than the one chosen, and of two that
/// are as near the one that comes first in the catalog is chosen.
pub proof fn law_nearest_station_chosen(
    first_seen: Map<usize, u64>,
    now: u64,
    stations: Seq<Option<u64>>,
    a: usize,
)
    requires
        stations.len() <= usize::MAX,
        all_resolved(stations),
        eligible(first_seen, now, stations, a),
    ensures
        match from_no_status(first_seen, now, stations) {
            Some(Presence::AtStation { station, encounters, left_at }) => {
                &&& eligible(first_seen, now, stations, station)
                &&& stations[station as int].unwrap() <= stations[a as int].unwrap()
                &&& stations[station as int].unwrap() == stations[a as int].unwrap() ==> station
                    <= a
                &&& encounters == Map::<Seq<char>, Encounter>::empty()
                &&& left_at is None
            },
            _ => false,
        },
{
    let n: usize = stations.len() as usize;
    let k = lemma_nearest_below(first_seen, now, stations, n, a);
    assert(nearest_eligible(first_seen, now, stations, k));
    let c = choose|c: usize| nearest_eligible(first_seen, now, stations, c);
    lemma_nearest_unique(first_seen, now, stations, k, c);
}

/// Sighting `j` of the feed shows train `id` inside the train radius, and
/// inside the station radius exactly if `inside` says so.
pub open spec fn sighted_as(trains: Seq<TrainSighting>, id: Seq<char>, inside: bool, j: int) -> bool {
    &&& 0 <= j < trains.len()
    &&& trains[j].train_id@ == id
    &&& trains[j].distance_mm is Some
    &&& within(trains[j].distance_mm.unwrap(), TRAIN_RADIUS_MM)
    &&& within(trains[j].distance_mm.unwrap(), STATION_RADIUS_MM) == inside
}

/// A sighting of train `id` of the class `inside` is on record, or the feed
/// holds one from position `from` on.
pub open spec fn class_seen(
    trains: Seq<TrainSighting>,
    from: int,
    encounters: Map<Seq<char>, Encounter>,
    id: Seq<char>,
    inside: bool,
) -> bool {
    ||| encounters.contains_key(id) && (if inside {
        encounters[id].first_inside
    } else {
        encounters[id].first_outside
    }) is Some
    ||| exists|j: int| from <= j && sighted_as(trains, id, inside, j)
}

/// A scan matches a train only if a sighting of it inside the station radius
/// and one outside are each on record or in the feed, and the feed shows the
/// train inside the train radius.
pub proof fn law_match_needs_both_classes(
    trains: Seq<TrainSighting>,
    from: int,
    encounters: Map<Seq<char>, Encounter>,
    now: u64,
    id: Seq<char>,
)
    requires
        0 <= from,
        scan_trains(trains, from, encounters, now) == TrainScan::Matched(id),
    ensures
        class_seen(trains, from, encounters, id, true),
        class_seen(trains, from, encounters, id, false),
        exists|j: int, inside: bool| from <= j && sighted_as(trains, id, inside, j),
    decreases trains.len() - from,
{
    if from < trains.len() {
        let tid = trains[from].train_id@;
        let d = trains[from].distance_mm.unwrap();
        if !within(d, TRAIN_RADIUS_MM) {
            law_match_needs_both_classes(trains, from + 1, encounters.remove(tid), now, id);
            lemma_class_seen_earlier(trains, from, encounters.remove(tid), id, true);
            lemma_class_seen_earlier(trains, from, encounters.remove(tid), id, false);
            let (j, c) = choose|j: int, c: bool| from + 1 <= j && sighted_as(trains, id, c, j);
            assert(from <= j && sighted_as(trains, id, c, j));
        } else {
            let inside = within(d, STATION_RADIUS_MM);
            let seen = if encounters.contains_key(tid) {
                encounters[tid]
            } else {
                Encounter::blank()
            };
            let e = seen.stamped(inside, now);
            assert(sighted_as(trains, tid, inside, from));
            if e.complete() {
                assert(id == tid);
            } else {
                law_match_needs_both_classes(trains, from + 1, encounters.insert(tid, e), now, id);
                lemma_class_seen_earlier(trains, from, encounters.insert(tid, e), id, true);
                lemma_class_seen_earlier(trains, from, encounters.insert(tid, e), id, false);
                let (j, c) = choose|j: int, c: bool| from + 1 <= j && sighted_as(trains, id, c, j);
                assert(from <= j && sighted_as(trains, id, c, j));
            }
        }
    }
}

proof fn lemma_class_seen_earlier(
    trains: Seq<TrainSighting>,
    from: int,
    encounters: Map<Seq<char>, Encounter>,
    id: Seq<char>,
    inside: bool,
)
    requires
        class_seen(trains, from + 1, encounters, id, inside),
    ensures
        class_seen(trains, from, encounters, id, inside),
{
    if !(encounters.contains_key(id) && (if inside {
        encounters[id].first_inside
    } else {
        encounters[id].first_outside
    }) is Some) {
        let j = choose|j: int| from + 1 <= j && sighted_as(trains, id, inside, j);
        assert(from <= j && sighted_as(trains, id, inside, j));
    }
}

/// After a scan that matched no train, no encounter on record is complete if
/// none was before, and a class of sighting is on record for a train only if
/// it was on record before or the feed holds such a sighting: records come
/// from sightings alone.
pub proof fn law_records_come_from_sightings(
    trains: Seq<TrainSighting>,
    from: int,
    encounters: Map<Seq<char>, Encounter>,
    now: u64,
    id: Seq<char>,
)
    requires
        0 <= from,
        scan_trains(trains, from, encounters, now) is Unmatched,
        scan_trains(trains, from, encounters, now)->Unmatched_0.contains_key(id),
    ensures
        ({
            let after = scan_trains(trains, from, encounters, now)->Unmatched_0[id];
            &&& after.first_inside is Some ==> class_seen(trains, from, encounters, id, true)
            &&& after.first_outside is Some ==> class_seen(trains, from, encounters, id, false)
            &&& (encounters.contains_key(id) ==> !encounters[id].complete()) ==> !after.complete()
        }),
    decreases trains.len() - from,
{
    if from < trains.len() {
        let tid = trains[from].train_id@;
        let d = trains[from].distance_mm.unwrap();
        if !within(d, TRAIN_RADIUS_MM) {
            let next = encounters.remove(tid);
            law_records_come_from_sightings(trains, from + 1, next, now, id);
            let after = scan_trains(trains, from, encounters, now)->Unmatched_0[id];
            if after.first_inside is Some {
                lemma_class_seen_earlier(trains, from, next, id, true);
            }
            if after.first_outside is Some {
                lemma_class_seen_earlier(trains, from, next, id, false);
            }
        } else {
            let inside = within(d, STATION_RADIUS_MM);
            let seen = if encounters.contains_key(tid) {
                encounters[tid]
            } else {
                Encounter::blank()
            };
            let e = seen.stamped(inside, now);
            let next = encounters.insert(tid, e);
            assert(sighted_as(trains, tid, inside, from));
            law_records_come_from_sightings(trains, from + 1, next, now, id);
            let after = scan_trains(trains, from, encounters, now)->Unmatched_0[id];
            if after.first_inside is Some {
                lemma_class_seen_earlier(trains, from, next, id, true);
            }
            if after.first_outside is Some {
                lemma_class_seen_earlier(trains, from, next, id, false);
            }
        }
    }
}

/// A person waiting at a station boards a train only if that train has been
/// sighted inside the station radius and outside it, each on record or in
/// this tick's feed.
pub proof fn law_boarding_needs_both_classes(
    station: usize,
    encounters: Map<Seq<char>, Encounter>,
    left_at: Option<u64>,
    now: u64,
    stations: Seq<Option<u64>>,
    trains: Seq<TrainSighting>,
)
    ensures
        match from_at_station(station, encounters, left_at, now, stations, trains) {
            Some(Presence::OnTrain { train, last_seen }) => {
                &&& class_seen(trains, 0, encounters, train, true)
                &&& class_seen(trains, 0, encounters, train, false)
                &&& last_seen == now
            },
            _ => true,
        },
{
    match from_at_station(station, encounters, left_at, now, stations, trains) {
        Some(Presence::OnTrain { train, last_seen }) => {
            law_match_needs_both_classes(trains, 0, encounters, now, train);
        },
        _ => {},
    }
}

/// What `position_of` finds is the first position from `from` on that holds
/// the train, and it finds none only where none holds it.
pub proof fn lemma_position_of(trains: Seq<TrainSighting>, id: Seq<char>, from: int)
    requires
        0 <= from,
    ensures
        match position_of(trains, id, from) {
            Some(i) => from <= i < trains.len() && trains[i].train_id@ == id && forall|j: int|
                from <= j < i ==> (#[trigger] trains[j]).train_id@ != id,
            None => forall|j: int|
                from <= j < trains.len() ==> (#[trigger] trains[j]).train_id@ != id,
        },
    decreases trains.len() - from,
{
    if from < trains.len() && trains[from].train_id@ != id {
        lemma_position_of(trains, id, from + 1);
    }
}

/// What `first_containing` finds is the first station from `from` on whose
/// radius contains the person, and it finds none only where none does.
pub proof fn lemma_first_containing(stations: Seq<Option<u64>>, from: int)
    requires
        0 <= from,
        stations.len() <= usize::MAX,
    ensures
        match first_containing(stations, from) {
            StationSearch::Found(k) => from <= k && inside_station(stations, k) && forall|j: usize|
                from <= j < k ==> !#[trigger] inside_station(stations, j),
            StationSearch::Absent => forall|j: usize|
                from <= j ==> !#[trigger] inside_station(stations, j),
            StationSearch::Failed => !all_resolved(stations),
        },
    decreases stations.len() - from,
{
    if from < stations.len() {
        match stations[from] {
            None => {},
            Some(d) => {
                if !within(d, STATION_RADIUS_MM) {
                    lemma_first_containing(stations, from + 1);
                }
            },
        }
    }
}

/// A ride goes on while the feed holds the train with a resolved distance and
/// the person is inside the train radius or the last contact is not more than
/// the grace time ahead of `now`; a contact inside the radius is recorded.
pub proof fn law_ride_persists(
    train: Seq<char>,
    last_seen: u64,
    now: u64,
    stations: Seq<Option<u64>>,
    trains: Seq<TrainSighting>,
    i: int,
)
    requires
        0 <= i < trains.len(),
        trains[i].train_id@ == train,
        forall|j: int| 0 <= j < i ==> (#[trigger] trains[j]).train_id@ != train,
        trains[i].distance_mm is Some,
        within(trains[i].distance_mm.unwrap(), TRAIN_RADIUS_MM) || last_seen - now
            <= TRAIN_GRACE_NS,
    ensures
        from_on_train(train, last_seen, now, stations, trains) == Some(
            Presence::OnTrain {
                train,
                last_seen: if within(trains[i].distance_mm.unwrap(), TRAIN_RADIUS_MM) {
                    now
                } else {
                    last_seen
                },
            },
        ),
{
    lemma_position_of(trains, train, 0);
}

/// A ride ends at once where the feed no longer holds the train: the person
/// is then not travelling, whatever the time.
pub proof fn law_lost_train_ends_ride(
    train: Seq<char>,
    last_seen: u64,
    now: u64,
    stations: Seq<Option<u64>>,
    trains: Seq<TrainSighting>,
)
    requires
        forall|j: int| 0 <= j < trains.len() ==> (#[trigger] trains[j]).train_id@ != train,
    ensures
        from_on_train(train, last_seen, now, stations, trains) == Some(Presence::idle()),
{
    lemma_position_of(trains, train, 0);
}

/// A ride ends where the person is outside the train radius and the last
/// contact is more than the grace time ahead of `now`: the person is then at
/// the first station of the catalog whose radius contains them, or not
/// travelling where none does.
pub proof fn law_stale_ride_ends(
    train: Seq<char>,
    last_seen: u64,
    now: u64,
    stations: Seq<Option<u64>>,
    trains: Seq<TrainSighting>,
    i: int,
)
    requires
        stations.len() <= usize::MAX,
        all_resolved(stations),
        0 <= i < trains.len(),
        trains[i].train_id@ == train,
        forall|j: int| 0 <= j < i ==> (#[trigger] trains[j]).train_id@ != train,
        trains[i].distance_mm is Some,
        !within(trains[i].distance_mm.unwrap(), TRAIN_RADIUS_MM),
        last_seen - now > TRAIN_GRACE_NS,
    ensures
        match from_on_train(train, last_seen, now, stations, trains) {
            Some(Presence::AtStation { station, encounters, left_at }) => {
                &&& inside_station(stations, station)
                &&& forall|j: usize| j < station ==> !#[trigger] inside_station(stations, j)
                &&& encounters == Map::<Seq<char>, Encounter>::empty()
                &&& left_at is None
            },
            Some(Presence::NoStatus { first_seen }) => {
                &&& forall|j: usize| !#[trigger] inside_station(stations, j)
                &&& first_seen == Map::<usize, u64>::empty()
            },
            _ => false,
        },
{
    lemma_position_of(trains, train, 0);
    lemma_first_containing(stations, 0);
}

/// A tick is a function of the presence, the instant and the snapshot: two
/// runs of it on the same values succeed or fail together and yield the same
/// presence.
pub proof fn law_tick_repeatable(
    state: Presence,
    now: u64,
    stations: Seq<Option<u64>>,
    trains: Seq<TrainSighting>,
    first: Result<PresenceState, GeoResolutionError>,
    second: Result<PresenceState, GeoResolutionError>,
)
    requires
        yields(first, next_presence(state, now, stations, trains)),
        yields(second, next_presence(state, now, stations, trains)),
    ensures
        first is Ok == second is Ok,
        first is Ok ==> first.unwrap()@ == second.unwrap()@,
{
}

/// No train identifier occurs twice in the feed.
pub open spec fn distinct_trains(trains: Seq<TrainSighting>) -> bool {
    forall|i: int, j: int|
        0 <= i < j < trains.len() ==> (#[trigger] trains[i]).train_id@ != (#[trigger] trains[j]).train_id@
}

/// From position `from` on, every train of the feed is resolved, and the
/// encounters hold what a scan would leave for it: nothing for a train outside
/// the train radius, and for one inside an encounter that has its class of
/// sighting and lacks the other.
pub open spec fn settled(
    trains: Seq<TrainSighting>,
    from: int,
    encounters: Map<Seq<char>, Encounter>,
    now: u64,
) -> bool {
    forall|j: int|
        from <= j < trains.len() ==> {
            let t = #[trigger] trains[j];
            &&& t.distance_mm is Some
            &&& if within(t.distance_mm.unwrap(), TRAIN_RADIUS_MM) {
                &&& encounters.contains_key(t.train_id@)
                &&& !encounters[t.train_id@].complete()
                &&& encounters[t.train_id@].stamped(
                    within(t.distance_mm.unwrap(), STATION_RADIUS_MM),
                    now,
                ) == encounters[t.train_id@]
            } else {
                !encounters.contains_key(t.train_id@)
            }
        }
}

proof fn lemma_scan_keeps_others(
    trains: Seq<TrainSighting>,
    from: int,
    encounters: Map<Seq<char>, Encounter>,
    now: u64,
    k: Seq<char>,
)
    requires
        0 <= from,
        scan_trains(trains, from, encounters, now) is Unmatched,
        forall|j: int| from <= j < trains.len() ==> (#[trigger] trains[j]).train_id@ != k,
    ensures
        scan_trains(trains, from, encounters, now)->Unmatched_0.contains_key(k)
            == encounters.contains_key(k),
        encounters.contains_key(k) ==> scan_trains(
            trains,
            from,
            encounters,
            now,
        )->Unmatched_0[k] == encounters[k],
    decreases trains.len() - from,
{
    if from < trains.len() {
        let t = trains[from];
        let id = t.train_id@;
        let d = t.distance_mm.unwrap();
        if !within(d, TRAIN_RADIUS_MM) {
            lemma_scan_keeps_others(trains, from + 1, encounters.remove(id), now, k);
        } else {
            let seen = if encounters.contains_key(id) {
                encounters[id]
            } else {
                Encounter::blank()
            };
            let e = seen.stamped(within(d, STATION_RADIUS_MM), now);
            lemma_scan_keeps_others(trains, from + 1, encounters.insert(id, e), now, k);
        }
    }
}

proof fn lemma_scan_settles(
    trains: Seq<TrainSighting>,
    from: int,
    encounters: Map<Seq<char>, Encounter>,
    now: u64,
)
    requires
        0 <= from,
        distinct_trains(trains),
        scan_trains(trains, from, encounters, now) is Unmatched,
    ensures
        settled(trains, from, scan_trains(trains, from, encounters, now)->Unmatched_0, now),
    decreases trains.len() - from,
{
    if from < trains.len() {
        let t = trains[from];
        let id = t.train_id@;
        let d = t.distance_mm.unwrap();
        assert forall|j: int| from + 1 <= j < trains.len() implies (#[trigger] trains[j]).train_id@
            != id by {
            assert(trains[from].train_id@ != trains[j].train_id@);
        }
        if !within(d, TRAIN_RADIUS_MM) {
            lemma_scan_settles(trains, from + 1, encounters.remove(id), now);
            lemma_scan_keeps_others(trains, from + 1, encounters.remove(id), now, id);
        } else {
            let seen = if encounters.contains_key(id) {
                encounters[id]
            } else {
                Encounter::blank()
            };
            let e = seen.stamped(within(d, STATION_RADIUS_MM), now);
            lemma_scan_settles(trains, from + 1, encounters.insert(id, e), now);
            lemma_scan_keeps_others(trains, from + 1, encounters.insert(id, e), now, id);
        }
    }
}

/// A scan of settled encounters matches no train and leaves them as they are.
pub proof fn lemma_settled_scan(
    trains: Seq<TrainSighting>,
    from: int,
    encounters: Map<Seq<char>, Encounter>,
    now: u64,
)
    requires
        0 <= from,
        settled(trains, from, encounters, now),
    ensures
        scan_trains(trains, from, encounters, now) == TrainScan::Unmatched(encounters),
    decreases trains.len() - from,
{
    if from < trains.len() {
        let t = trains[from];
        let id = t.train_id@;
        let d = t.distance_mm.unwrap();
        lemma_settled_scan(trains, from + 1, encounters, now);
        if !within(d, TRAIN_RADIUS_MM) {
            assert(encounters.remove(id) =~= encounters);
        } else {
            assert(encounters.insert(id, encounters[id]) =~= encounters);
        }
    }
}

/// With no encounter on record and no train twice in the feed, a scan matches
/// no train: one tick shows one class of sighting of a train.
pub proof fn lemma_first_scan_never_matches(trains: Seq<TrainSighting>, now: u64)
    requires
        distinct_trains(trains),
    ensures
        !(scan_trains(trains, 0, Map::empty(), now) is Matched),
{
    let empty = Map::<Seq<char>, Encounter>::empty();
    if scan_trains(trains, 0, empty, now) is Matched {
        let id = scan_trains(trains, 0, empty, now)->Matched_0;
        law_match_needs_both_classes(trains, 0, empty, now, id);
        let a = choose|j: int| 0 <= j && sighted_as(trains, id, true, j);
        let b = choose|j: int| 0 <= j && sighted_as(trains, id, false, j);
        assert(sighted_as(trains, id, true, a));
        assert(sighted_as(trains, id, false, b));
        if a < b {
            assert(trains[a].train_id@ != trains[b].train_id@);
        } else if b < a {
            assert(trains[b].train_id@ != trains[a].train_id@);
        }
    }
}

/// A tick repeated at the same instant with the same snapshot, in which no
/// train occurs twice, keeps the status that the first run gave, where both
/// runs succeed. It changes nothing at all unless the first run has just
/// brought the person to a station or to not travelling: the second run then
/// starts the bookkeeping of that status.
pub proof fn law_repeated_tick_keeps_status(
    state: Presence,
    now: u64,
    stations: Seq<Option<u64>>,
    trains: Seq<TrainSighting>,
)
    requires
        stations.len() <= usize::MAX,
        distinct_trains(trains),
        next_presence(state, now, stations, trains) is Some,
        next_presence(next_presence(state, now, stations, trains).unwrap(), now, stations, trains)
            is Some,
    ensures
        ({
            let once = next_presence(state, now, stations, trains).unwrap();
            let twice = next_presence(once, now, stations, trains).unwrap();
            &&& once.same_status(twice)
            &&& (state.same_status(once) || once is OnTrain) ==> twice == once
        }),
{
    let once = next_presence(state, now, stations, trains).unwrap();
    let twice = next_presence(once, now, stations, trains).unwrap();
    lemma_first_scan_never_matches(trains, now);
    match state {
        Presence::NoStatus { first_seen } => {
            if exists|k: usize| eligible(first_seen, now, stations, k) {
                let w = choose|k: usize| eligible(first_seen, now, stations, k);
                let n: usize = stations.len() as usize;
                let k = lemma_nearest_below(first_seen, now, stations, n, w);
                assert(nearest_eligible(first_seen, now, stations, k));
            } else {
                let after = clocks_after(first_seen, now, stations);
                assert forall|k: usize| !eligible(after, now, stations, k) by {
                    if eligible(after, now, stations, k) {
                        assert(!eligible(first_seen, now, stations, k));
                    }
                }
                assert(clocks_after(after, now, stations) =~= after);
            }
        },
        Presence::AtStation { station, encounters, left_at } => {
            match scan_trains(trains, 0, encounters, now) {
                TrainScan::Matched(id) => {
                    if once is OnTrain {
                        law_match_needs_both_classes(trains, 0, encounters, now, id);
                        let (j, c) = choose|j: int, c: bool| 0 <= j && sighted_as(trains, id, c, j);
                        assert(sighted_as(trains, id, c, j));
                        lemma_position_of(trains, id, 0);
                        let i = position_of(trains, id, 0).unwrap();
                        if i < j {
                            assert(trains[i].train_id@ != trains[j].train_id@);
                        }
                    }
                },
                TrainScan::Unmatched(seen) => {
                    lemma_scan_settles(trains, 0, encounters, now);
                    lemma_settled_scan(trains, 0, seen, now);
                },
                TrainScan::Failed => {},
            }
        },
        Presence::OnTrain { train, last_seen } => {
            lemma_position_of(trains, train, 0);
            lemma_first_containing(stations, 0);
        },
    }
}

} // verus!
