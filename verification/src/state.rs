//! The presence of a person: not travelling, waiting at a station, or riding
//! a train, each with the bookkeeping that only that status needs.
//!
//! A station is named by its place in the catalog; a train by the identifier
//! that the feed gives it.
use crate::encounters::{Encounter, EncounterLog};
use std::collections::HashMap;
use vstd::prelude::*;

verus! {

broadcast use vstd::std_specs::hash::group_hash_axioms;

/// The presence as a mathematical value.
pub enum Presence {
    /// Not travelling. `first_seen` holds, for each station whose radius the
    /// person is inside, the instant at which that was first noticed.
    NoStatus { first_seen: Map<usize, u64> },
    /// Waiting at `station`. `left_at` is the instant at which the person was
    /// first noticed outside its radius, if they are outside.
    AtStation { station: usize, encounters: Map<Seq<char>, Encounter>, left_at: Option<u64> },
    /// Riding `train`, last seen near it at `last_seen`.
    OnTrain { train: Seq<char>, last_seen: u64 },
}

impl Presence {
    /// Not travelling, with no station noticed.
    pub open spec fn idle() -> Presence {
        Presence::NoStatus { first_seen: Map::empty() }
    }

    /// Just arrived at `station`: no train seen, not outside its radius.
    pub open spec fn arrived(station: usize) -> Presence {
        Presence::AtStation { station, encounters: Map::empty(), left_at: None }
    }

    /// Two presences name the same status: both not travelling, both at the
    /// same station, or both on the same train.
    pub open spec fn same_status(self, other: Presence) -> bool {
        match (self, other) {
            (Presence::NoStatus { .. }, Presence::NoStatus { .. }) => true,
            (Presence::AtStation { station: a, .. }, Presence::AtStation { station: b, .. }) => a
                == b,
            (Presence::OnTrain { train: a, .. }, Presence::OnTrain { train: b, .. }) => a == b,
            _ => false,
        }
    }
}

/// The presence as the tracker holds it.
#[derive(Debug)]
pub enum PresenceState {
    NoStatus { first_seen: HashMap<usize, u64> },
    AtStation { station: usize, encounters: EncounterLog, left_at: Option<u64> },
    OnTrain { train: String, last_seen: u64 },
}

impl View for PresenceState {
    type V = Presence;

    open spec fn view(&self) -> Presence {
        match *self {
            PresenceState::NoStatus { first_seen } => Presence::NoStatus { first_seen: first_seen@ },
            PresenceState::AtStation { station, encounters, left_at } => Presence::AtStation {
                station,
                encounters: encounters@,
                left_at,
            },
            PresenceState::OnTrain { train, last_seen } => Presence::OnTrain {
                train: train@,
                last_seen,
            },
        }
    }
}

impl PresenceState {
    /// The encounters of a stay hold no train twice.
    pub open spec fn wf(&self) -> bool {
        match *self {
            PresenceState::AtStation { encounters, .. } => encounters.wf(),
            _ => true,
        }
    }

    /// The presence of a tracker that has seen nothing yet.
    pub fn new() -> (s: PresenceState)
        ensures
            s.wf(),
            s@ == Presence::idle(),
    {
        PresenceState::NoStatus { first_seen: HashMap::new() }
    }

    /// The presence of a person who has just arrived at `station`.
    pub fn at_station(station: usize) -> (s: PresenceState)
        ensures
            s.wf(),
            s@ == Presence::arrived(station),
    {
        PresenceState::AtStation { station, encounters: EncounterLog::new(), left_at: None }
    }

    /// The presence of a person on `train`, last seen near it at `last_seen`.
    pub fn on_train(train: String, last_seen: u64) -> (s: PresenceState)
        ensures
            s.wf(),
            s@ == (Presence::OnTrain { train: train@, last_seen }),
    {
        PresenceState::OnTrain { train, last_seen }
    }

    /// A presence with the same value.
    pub fn duplicate(&self) -> (s: PresenceState)
        requires
            self.wf(),
        ensures
            s.wf(),
            s@ == self@,
    {
        match self {
            PresenceState::NoStatus { first_seen } => PresenceState::NoStatus {
                first_seen: first_seen.clone(),
            },
            PresenceState::AtStation { station, encounters, left_at } => PresenceState::AtStation {
                station: *station,
                encounters: encounters.duplicate(),
                left_at: *left_at,
            },
            PresenceState::OnTrain { train, last_seen } => PresenceState::OnTrain {
                train: train.clone(),
                last_seen: *last_seen,
            },
        }
    }

    pub fn is_no_status(&self) -> (b: bool)
        ensures
            b == (self@ is NoStatus),
    {
        match self {
            PresenceState::NoStatus { .. } => true,
            _ => false,
        }
    }

    /// The station at which the person waits.
    pub fn station(&self) -> (r: Option<usize>)
        ensures
            r == (match self@ {
                Presence::AtStation { station, .. } => Some(station),
                _ => None,
            }),
    {
        match self {
            PresenceState::AtStation { station, .. } => Some(*station),
            _ => None,
        }
    }

    /// The train that the person rides.
    pub fn train(&self) -> (r: Option<String>)
        ensures
            match self@ {
                Presence::OnTrain { train, .. } => r is Some && r.unwrap()@ == train,
                _ => r is None,
            },
    {
        match self {
            PresenceState::OnTrain { train, .. } => Some(train.clone()),
            _ => None,
        }
    }

    /// The instant of the last contact with the train that the person rides.
    pub fn last_seen(&self) -> (r: Option<u64>)
        ensures
            r == (match self@ {
                Presence::OnTrain { last_seen, .. } => Some(last_seen),
                _ => None,
            }),
    {
        match self {
            PresenceState::OnTrain { last_seen, .. } => Some(*last_seen),
            _ => None,
        }
    }

    /// The instant at which a person waiting at a station was first noticed
    /// outside its radius.
    pub fn left_at(&self) -> (r: Option<u64>)
        ensures
            r == (match self@ {
                Presence::AtStation { left_at, .. } => left_at,
                _ => None,
            }),
    {
        match self {
            PresenceState::AtStation { left_at, .. } => *left_at,
            _ => None,
        }
    }

    /// The instant at which a person who is not travelling was first noticed
    /// inside the radius of `station`.
    pub fn first_seen(&self, station: usize) -> (r: Option<u64>)
        ensures
            r == (match self@ {
                Presence::NoStatus { first_seen } => if first_seen.contains_key(station) {
                    Some(first_seen[station])
                } else {
                    None
                },
                _ => None,
            }),
    {
        match self {
            PresenceState::NoStatus { first_seen } => match first_seen.get(&station) {
                Some(t) => Some(*t),
                None => None,
            },
            _ => None,
        }
    }

    /// What a person waiting at a station has seen of `train`.
    pub fn encounter(&self, train: &String) -> (r: Option<Encounter>)
        requires
            self.wf(),
        ensures
            r == (match self@ {
                Presence::AtStation { encounters, .. } => if encounters.contains_key(train@) {
                    Some(encounters[train@])
                } else {
                    None
                },
                _ => None,
            }),
    {
        match self {
            PresenceState::AtStation { encounters, .. } => encounters.get(train),
            _ => None,
        }
    }
}

} // verus!
