//! The catalog of stations: the stops that the rail operator's client library
//! enumerates, in its order, without the entry that stands for an unknown
//! stop. A station is named by its place in this catalog.
use septa_api::types::RegionalRailStop;
use strum::IntoEnumIterator;
use vstd::prelude::*;

verus! {

/// The entry at `position` of the enumeration of stops: whether it is the one
/// that stands for an unknown stop, and its label. `None` past the end.
pub uninterp spec fn stop_entry(position: usize) -> Option<(bool, Seq<char>)>;

/// Reads one entry of the enumeration.
///
/// Trusted: calls `RegionalRailStop::iter()` of septa_api and takes the item
/// that `nth(position)` yields. The contract claims that this item, told apart
/// as the `Unknown` variant or not and printed by its `Display`, is the same
/// for the same position at every call, and names it `stop_entry`. The last
/// position is left out: the iterator adds one to the position it is given.
#[verifier::external_body]
fn read_stop(position: usize) -> (entry: Option<(bool, String)>)
    requires
        position < usize::MAX,
    ensures
        match entry {
            Some((unknown, label)) => stop_entry(position) == Some((unknown, label@)),
            None => stop_entry(position) is None,
        },
{
    match RegionalRailStop::iter().nth(position) {
        Some(stop) => Some((matches!(stop, RegionalRailStop::Unknown(_)), stop.to_string())),
        None => None,
    }
}

/// The position in the enumeration of the station that comes after `skip`
/// stations, counting from `from` on; `None` where the enumeration ends first.
pub open spec fn station_position_from(from: usize, skip: nat) -> Option<usize>
    decreases usize::MAX - from,
{
    if from == usize::MAX {
        None
    } else {
        match stop_entry(from) {
            None => None,
            Some((unknown, _)) => if !unknown && skip == 0 {
                Some(from)
            } else {
                station_position_from(
                    (from + 1) as usize,
                    if unknown {
                        skip
                    } else {
                        (skip - 1) as nat
                    },
                )
            },
        }
    }
}

/// The position in the enumeration of station `k` of the catalog.
pub open spec fn station_position_of(k: usize) -> Option<usize> {
    station_position_from(0, k as nat)
}

/// The label of station `k` of the catalog.
pub open spec fn station_label_of(k: usize) -> Option<Seq<char>> {
    match station_position_of(k) {
        Some(p) => Some(stop_entry(p).unwrap().1),
        None => None,
    }
}

fn locate(k: usize) -> (found: Option<(usize, String)>)
    ensures
        match found {
            Some((p, label)) => station_position_of(k) == Some(p) && station_label_of(k) == Some(
                label@,
            ),
            None => station_position_of(k) is None,
        },
{
    let mut position: usize = 0;
    let mut skip: usize = k;
    loop
        invariant
            station_position_of(k) == station_position_from(position, skip as nat),
        decreases usize::MAX - position,
    {
        if position == usize::MAX {
            return None;
        }
        match read_stop(position) {
            None => {
                return None;
            },
            Some((unknown, label)) => {
                if !unknown && skip == 0 {
                    return Some((position, label));
                }
                if !unknown {
                    skip = skip - 1;
                }
                position = position + 1;
            },
        }
    }
}

/// The position in the enumeration of stops of station `k` of the catalog;
/// `None` where the catalog has no such station.
pub fn station_position(k: usize) -> (position: Option<usize>)
    ensures
        position == station_position_of(k),
{
    match locate(k) {
        Some((p, _)) => Some(p),
        None => None,
    }
}

/// The label of station `k` of the catalog; `None` where the catalog has no
/// such station.
pub fn station_label(k: usize) -> (label: Option<String>)
    ensures
        match label {
            Some(l) => station_label_of(k) == Some(l@),
            None => station_label_of(k) is None,
        },
{
    match locate(k) {
        Some((_, label)) => Some(label),
        None => None,
    }
}

/// The entry at a station's position is not the one for an unknown stop, and
/// a station's position is not before its place in the catalog.
pub proof fn law_stations_are_known_stops(from: usize, skip: nat)
    ensures
        match station_position_from(from, skip) {
            Some(p) => from + skip <= p && stop_entry(p) is Some && !stop_entry(p).unwrap().0,
            None => true,
        },
    decreases usize::MAX - from,
{
    if from < usize::MAX {
        match stop_entry(from) {
            None => {},
            Some((unknown, _)) => {
                if unknown || skip != 0 {
                    law_stations_are_known_stops(
                        (from + 1) as usize,
                        if unknown {
                            skip
                        } else {
                            (skip - 1) as nat
                        },
                    );
                }
            },
        }
    }
}

} // verus!
