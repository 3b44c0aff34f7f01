//! The polling loop's decisions: what one iteration does with what the feeds
//! returned, and whether the loop goes on.
use crate::machine::{advance, next_presence, TrainSighting};
use crate::shared::SharedPresenceView;
use crate::state::PresenceState;
use vstd::prelude::*;

verus! {

/// Time between two iterations of the loop.
pub const POLL_INTERVAL_NS: u64 = 15_000_000_000;

/// What the location feed returned for the person: name, status text, and the
/// distance to each station of the catalog.
#[derive(Debug)]
pub struct PersonSample {
    pub name: Option<String>,
    pub status: Option<String>,
    pub stations: Vec<Option<u64>>,
}

/// Why an iteration was abandoned.
#[derive(Clone, Copy, Debug, PartialEq, Eq)]
pub enum TickError {
    /// A feed returned nothing.
    Feed,
    /// A distance that the tick had to read was unresolved.
    GeoResolution,
}

/// What the loop does next.
#[derive(Clone, Copy, Debug, PartialEq, Eq)]
pub enum LoopAction {
    /// Ask both feeds, then run the tick.
    Fetch,
    /// Wait, then begin the next iteration.
    Sleep { nanos: u64 },
    /// Leave the loop for good.
    Stop,
}

/// The top of an iteration: the loop goes on while the liveness flag is set.
pub fn begin_iteration(alive: bool) -> (action: LoopAction)
    ensures
        action == (if alive {
            LoopAction::Fetch
        } else {
            LoopAction::Stop
        }),
{
    if alive {
        LoopAction::Fetch
    } else {
        LoopAction::Stop
    }
}

/// The end of an iteration: the loop sleeps after a tick that succeeded and
/// stops, without retry, after one that failed.
pub fn end_iteration(outcome: &Result<(), TickError>) -> (action: LoopAction)
    ensures
        action == (match *outcome {
            Ok(_) => LoopAction::Sleep { nanos: POLL_INTERVAL_NS },
            Err(_) => LoopAction::Stop,
        }),
{
    match outcome {
        Ok(_) => LoopAction::Sleep { nanos: POLL_INTERVAL_NS },
        Err(_) => LoopAction::Stop,
    }
}

/// One iteration's work on the shared view, given what the two feeds returned
/// (`None` for a feed that failed). Where both returned and the transition
/// succeeds, the next presence is published with the person's name and status
/// text. Otherwise the view keeps what it held.
pub fn tick(
    view: &mut SharedPresenceView,
    now: u64,
    person: Option<PersonSample>,
    trains: Option<Vec<TrainSighting>>,
) -> (r: Result<(), TickError>)
    requires
        old(view).wf(),
    ensures
        final(view).wf(),
        match r {
            Ok(_) => {
                &&& person is Some
                &&& trains is Some
                &&& final(view).state is Some
                &&& next_presence(
                    old(view).current(),
                    now,
                    person.unwrap().stations@,
                    trains.unwrap()@,
                ) == Some(final(view).state.unwrap()@)
                &&& final(view).person_name == person.unwrap().name
                &&& final(view).person_status == person.unwrap().status
            },
            Err(TickError::Feed) => (person is None || trains is None) && *final(view) == *old(
                view,
            ),
            Err(TickError::GeoResolution) => {
                &&& person is Some
                &&& trains is Some
                &&& next_presence(
                    old(view).current(),
                    now,
                    person.unwrap().stations@,
                    trains.unwrap()@,
                ) is None
                &&& *final(view) == *old(view)
            },
        },
{
    let sample = match person {
        Some(p) => p,
        None => {
            return Err(TickError::Feed);
        },
    };
    let feed = match trains {
        Some(t) => t,
        None => {
            return Err(TickError::Feed);
        },
    };
    let next = match &view.state {
        Some(s) => advance(s, now, &sample.stations, &feed),
        None => {
            let start = PresenceState::new();
            advance(&start, now, &sample.stations, &feed)
        },
    };
    match next {
        Ok(s) => {
            view.publish(s, sample.name, sample.status);
            Ok(())
        },
        Err(_) => Err(TickError::GeoResolution),
    }
}

} // verus!
