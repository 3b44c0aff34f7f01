use septa_api::types::RegionalRailStop;
use strum::IntoEnumIterator;
use transit_presence::catalog::{station_label, station_position};

fn known_stops() -> Vec<(usize, RegionalRailStop)> {
    RegionalRailStop::iter()
        .enumerate()
        .filter(|(_, stop)| !matches!(stop, RegionalRailStop::Unknown(_)))
        .collect()
}

#[test]
fn catalog_starts_with_the_first_stop() {
    assert_eq!(station_position(0), Some(0));
    assert_eq!(station_label(0), Some("Airport Terminal E F".to_string()));
    assert_eq!(station_label(1), Some("Airport Terminal C D".to_string()));
}

#[test]
fn catalog_holds_the_known_stops_in_order() {
    let known = known_stops();
    assert!(known.len() > 100);
    for (k, (position, stop)) in known.iter().enumerate() {
        assert_eq!(station_position(k), Some(*position));
        assert_eq!(station_label(k), Some(stop.to_string()));
    }
}

#[test]
fn catalog_ends_after_the_known_stops() {
    let known = known_stops();
    assert_eq!(station_position(known.len()), None);
    assert_eq!(station_label(known.len()), None);
    assert_eq!(station_position(usize::MAX), None);
    assert_eq!(station_label(usize::MAX), None);
}

#[test]
fn catalog_leaves_out_the_unknown_stop() {
    let all = RegionalRailStop::iter().count();
    let known = known_stops();
    assert_eq!(known.len() + 1, all);
    for k in 0..known.len() {
        let position = station_position(k).unwrap();
        let stop = RegionalRailStop::iter().nth(position).unwrap();
        assert!(!matches!(stop, RegionalRailStop::Unknown(_)));
    }
}
