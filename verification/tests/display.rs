use transit_presence::catalog::station_label;
use transit_presence::machine::TrainSighting;
use transit_presence::poll::{
    begin_iteration, end_iteration, tick, LoopAction, PersonSample, TickError, POLL_INTERVAL_NS,
};
use transit_presence::render::{draw_commands, DrawCommand, Font};
use transit_presence::shared::{line_or_placeholder, SharedPresenceView};
use transit_presence::state::PresenceState;

const SEC: u64 = 1_000_000_000;

fn sample(name: Option<&str>, status: Option<&str>, stations: Vec<Option<u64>>) -> PersonSample {
    PersonSample {
        name: name.map(|s| s.to_string()),
        status: status.map(|s| s.to_string()),
        stations,
    }
}

#[test]
fn loop_runs_while_alive_and_stops_on_failure() {
    assert_eq!(begin_iteration(true), LoopAction::Fetch);
    assert_eq!(begin_iteration(false), LoopAction::Stop);
    assert_eq!(end_iteration(&Ok(())), LoopAction::Sleep { nanos: 15 * SEC });
    assert_eq!(end_iteration(&Err(TickError::Feed)), LoopAction::Stop);
    assert_eq!(end_iteration(&Err(TickError::GeoResolution)), LoopAction::Stop);
    assert_eq!(POLL_INTERVAL_NS, 15 * SEC);
}

#[test]
fn nothing_is_drawn_before_the_first_tick() {
    let view = SharedPresenceView::new();
    assert!(view.state.is_none());
    assert_eq!(view.lines(), None);
    assert!(draw_commands(&view).is_empty());
    assert_eq!(view.station(), None);
}

#[test]
fn tick_publishes_state_name_and_status_together() {
    let mut view = SharedPresenceView::new();
    let r = tick(&mut view, 0, Some(sample(Some("Ada"), Some("home"), vec![Some(0)])), Some(Vec::new()));
    assert_eq!(r, Ok(()));
    assert!(view.state.as_ref().unwrap().is_no_status());
    assert_eq!(view.state.as_ref().unwrap().first_seen(0), Some(0));
    assert_eq!(view.lines(), Some(("Ada".to_string(), "home".to_string())));
    let r = tick(&mut view, 31 * SEC, Some(sample(None, None, vec![Some(0)])), Some(Vec::new()));
    assert_eq!(r, Ok(()));
    assert_eq!(view.station(), Some(0));
    assert_eq!(view.person_name, None);
    assert_eq!(
        view.lines(),
        Some(("Unknown".to_string(), "At Station Airport Terminal E F".to_string()))
    );
}

#[test]
fn failed_feed_leaves_the_view_as_it_was() {
    let mut view = SharedPresenceView::new();
    view.publish(PresenceState::at_station(2), Some("Ada".to_string()), Some("away".to_string()));
    let r = tick(&mut view, 5, None, Some(Vec::new()));
    assert_eq!(r, Err(TickError::Feed));
    let r = tick(&mut view, 5, Some(sample(Some("Eve"), None, vec![Some(0)])), None);
    assert_eq!(r, Err(TickError::Feed));
    let r = tick(&mut view, 5, None, None);
    assert_eq!(r, Err(TickError::Feed));
    assert_eq!(view.station(), Some(2));
    assert_eq!(view.person_name, Some("Ada".to_string()));
    assert_eq!(view.person_status, Some("away".to_string()));
}

#[test]
fn failed_resolution_leaves_the_view_as_it_was() {
    let mut view = SharedPresenceView::new();
    view.publish(PresenceState::at_station(2), Some("Ada".to_string()), None);
    let r = tick(&mut view, 5, Some(sample(Some("Eve"), Some("x"), vec![Some(0)])), Some(Vec::new()));
    assert_eq!(r, Err(TickError::GeoResolution));
    assert_eq!(view.station(), Some(2));
    assert_eq!(view.person_name, Some("Ada".to_string()));
    assert_eq!(view.person_status, None);
    let mut fresh = SharedPresenceView::new();
    let r = tick(&mut fresh, 5, Some(sample(Some("Eve"), Some("x"), vec![None])), Some(Vec::new()));
    assert_eq!(r, Err(TickError::GeoResolution));
    assert!(fresh.state.is_none());
    assert_eq!(fresh.person_name, None);
}

#[test]
fn status_line_follows_the_presence() {
    let mut view = SharedPresenceView::new();
    view.publish(PresenceState::new(), None, None);
    assert_eq!(view.lines(), Some(("Unknown".to_string(), "Unknown".to_string())));
    view.publish(PresenceState::new(), Some("Ada".to_string()), Some("not_home".to_string()));
    assert_eq!(view.lines(), Some(("Ada".to_string(), "not_home".to_string())));
    view.publish(PresenceState::on_train("9725".to_string(), 0), Some("Ada".to_string()), Some("not_home".to_string()));
    assert_eq!(view.lines(), Some(("Ada".to_string(), "On Train 9725".to_string())));
    let suburban = (0..500usize)
        .find(|k| station_label(*k) == Some("Suburban Station".to_string()))
        .unwrap();
    view.publish(PresenceState::at_station(suburban), Some("Ada".to_string()), Some("not_home".to_string()));
    assert_eq!(
        view.lines(),
        Some(("Ada".to_string(), "At Station Suburban Station".to_string()))
    );
    view.publish(PresenceState::at_station(usize::MAX), None, None);
    assert_eq!(view.lines(), Some(("Unknown".to_string(), "At Station Unknown".to_string())));
    assert_eq!(line_or_placeholder(&None), "Unknown");
    assert_eq!(line_or_placeholder(&Some("Zed".to_string())), "Zed");
}

#[test]
fn presence_is_drawn_as_clear_name_status() {
    let mut view = SharedPresenceView::new();
    view.publish(PresenceState::on_train("9725".to_string(), 0), Some("Ada".to_string()), None);
    let commands = draw_commands(&view);
    assert_eq!(commands.len(), 3);
    assert!(matches!(commands[0], DrawCommand::Clear));
    match &commands[1] {
        DrawCommand::Text { text, x, y, font } => {
            assert_eq!(text, "Ada");
            assert_eq!((*x, *y), (0, 15));
            assert_eq!(*font, Font::Mono6x10);
        }
        DrawCommand::Clear => panic!("text expected"),
    }
    match &commands[2] {
        DrawCommand::Text { text, x, y, font } => {
            assert_eq!(text, "On Train 9725");
            assert_eq!((*x, *y), (0, 40));
            assert_eq!(*font, Font::Mono5x7);
        }
        DrawCommand::Clear => panic!("text expected"),
    }
}

#[test]
fn tick_boards_through_the_view() {
    let mut view = SharedPresenceView::new();
    view.publish(PresenceState::at_station(0), None, None);
    let near = vec![TrainSighting { train_id: "T".to_string(), distance_mm: Some(100_000) }];
    let far = vec![TrainSighting { train_id: "T".to_string(), distance_mm: Some(300_000) }];
    assert_eq!(tick(&mut view, 0, Some(sample(None, None, vec![Some(0)])), Some(near)), Ok(()));
    assert_eq!(view.station(), Some(0));
    assert_eq!(tick(&mut view, 15 * SEC, Some(sample(None, None, vec![Some(0)])), Some(far)), Ok(()));
    assert_eq!(view.state.as_ref().unwrap().train(), Some("T".to_string()));
    assert_eq!(view.station(), None);
}
