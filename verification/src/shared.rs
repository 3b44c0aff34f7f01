//! What the tracker publishes for the display: the presence together with the
//! person's name and status text, and the two lines drawn from them.
use crate::catalog::{station_label, station_label_of};
use crate::state::{Presence, PresenceState};
use vstd::prelude::*;
use vstd::string::*;

verus! {

/// The latest presence with the person's display name and status text. The
/// three are replaced together, so a reader always sees values of one tick.
#[derive(Debug)]
pub struct SharedPresenceView {
    /// Absent until the first tick has succeeded.
    pub state: Option<PresenceState>,
    pub person_name: Option<String>,
    pub person_status: Option<String>,
}

/// The text of a line, or of the placeholder where there is none.
pub open spec fn text_or_placeholder(text: Option<String>) -> Seq<char> {
    match text {
        Some(s) => s@,
        None => "Unknown"@,
    }
}

/// The label of a station, or the placeholder where the catalog has no such
/// station.
pub open spec fn label_or_placeholder(station: usize) -> Seq<char> {
    match station_label_of(station) {
        Some(label) => label,
        None => "Unknown"@,
    }
}

/// The status line for a presence.
pub open spec fn status_text(state: Presence, person_status: Option<String>) -> Seq<char> {
    match state {
        Presence::NoStatus { .. } => text_or_placeholder(person_status),
        Presence::AtStation { station, .. } => "At Station "@ + label_or_placeholder(station),
        Presence::OnTrain { train, .. } => "On Train "@ + train,
    }
}

impl SharedPresenceView {
    pub open spec fn wf(&self) -> bool {
        self.state is Some ==> self.state.unwrap().wf()
    }

    /// The presence from which the next tick starts: the one published, or a
    /// person who is not travelling where none was.
    pub open spec fn current(&self) -> Presence {
        match self.state {
            Some(s) => s@,
            None => Presence::idle(),
        }
    }

    /// A view on which nothing has been published.
    pub fn new() -> (v: SharedPresenceView)
        ensures
            v.wf(),
            v.state is None,
            v.person_name is None,
            v.person_status is None,
    {
        SharedPresenceView { state: None, person_name: None, person_status: None }
    }

    /// Replaces the presence, the name and the status text at once.
    pub fn publish(
        &mut self,
        state: PresenceState,
        person_name: Option<String>,
        person_status: Option<String>,
    )
        requires
            state.wf(),
        ensures
            final(self).wf(),
            final(self).state == Some(state),
            final(self).person_name == person_name,
            final(self).person_status == person_status,
    {
        self.state = Some(state);
        self.person_name = person_name;
        self.person_status = person_status;
    }

    /// The station at which the published presence waits, if it waits at one.
    pub fn station(&self) -> (r: Option<usize>)
        ensures
            r == (match self.state {
                Some(s) => match s@ {
                    Presence::AtStation { station, .. } => Some(station),
                    _ => None,
                },
                None => None,
            }),
    {
        match &self.state {
            Some(s) => s.station(),
            None => None,
        }
    }

    /// The two lines to draw, the name above the status, or `None` while
    /// nothing has been published.
    pub fn lines(&self) -> (r: Option<(String, String)>)
        ensures
            match self.state {
                None => r is None,
                Some(s) => r is Some && r.unwrap().0@ == text_or_placeholder(self.person_name)
                    && r.unwrap().1@ == status_text(s@, self.person_status),
            },
    {
        match &self.state {
            None => None,
            Some(s) => {
                let name = line_or_placeholder(&self.person_name);
                let status = match s {
                    PresenceState::NoStatus { .. } => line_or_placeholder(&self.person_status),
                    PresenceState::AtStation { station, .. } => {
                        let label = line_or_placeholder(&station_label(*station));
                        String::from_str("At Station ").concat(label.as_str())
                    },
                    PresenceState::OnTrain { train, .. } => String::from_str("On Train ").concat(
                        train.as_str(),
                    ),
                };
                Some((name, status))
            },
        }
    }
}

/// The text to draw for an optional line.
pub fn line_or_placeholder(text: &Option<String>) -> (line: String)
    ensures
        line@ == text_or_placeholder(*text),
{
    match text {
        Some(s) => s.clone(),
        None => String::from_str("Unknown"),
    }
}

} // verus!
