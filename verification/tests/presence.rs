use transit_presence::encounters::{Encounter, EncounterLog};
use transit_presence::geofence::{
    elapsed_since, in_circle, STATION_DWELL_NS, STATION_GRACE_NS, STATION_RADIUS_MM,
    TRAIN_GRACE_NS, TRAIN_RADIUS_MM,
};
use transit_presence::machine::{
    advance, find_station, find_train, GeoResolutionError, TrainSighting,
};
use transit_presence::state::PresenceState;

const SEC: u64 = 1_000_000_000;
const METER: u64 = 1_000;

fn train(id: &str, meters: u64) -> TrainSighting {
    TrainSighting { train_id: id.to_string(), distance_mm: Some(meters * METER) }
}

fn lost(id: &str) -> TrainSighting {
    TrainSighting { train_id: id.to_string(), distance_mm: None }
}

#[test]
fn circle_is_open_at_its_radius() {
    assert!(in_circle(0, STATION_RADIUS_MM));
    assert!(in_circle(199_999, STATION_RADIUS_MM));
    assert!(!in_circle(200_000, STATION_RADIUS_MM));
    assert!(in_circle(399_999, TRAIN_RADIUS_MM));
    assert!(!in_circle(400_000, TRAIN_RADIUS_MM));
}

#[test]
fn elapsed_saturates_at_zero() {
    assert_eq!(elapsed_since(31 * SEC, 0), 31 * SEC);
    assert_eq!(elapsed_since(5, 5), 0);
    assert_eq!(elapsed_since(5, 9), 0);
}

#[test]
fn thresholds_have_their_values() {
    assert_eq!(STATION_DWELL_NS, 30 * SEC);
    assert_eq!(STATION_GRACE_NS, 60 * SEC);
    assert_eq!(TRAIN_GRACE_NS, 300 * SEC);
    assert_eq!(STATION_RADIUS_MM, 200 * METER);
    assert_eq!(TRAIN_RADIUS_MM, 400 * METER);
}

#[test]
fn encounter_keeps_the_first_instant_of_each_class() {
    let e = Encounter::new();
    assert_eq!(e, Encounter { first_inside: None, first_outside: None });
    assert!(!e.is_complete());
    let e = e.stamp(true, 7);
    assert_eq!(e, Encounter { first_inside: Some(7), first_outside: None });
    let e = e.stamp(true, 9);
    assert_eq!(e, Encounter { first_inside: Some(7), first_outside: None });
    assert!(!e.is_complete());
    let e = e.stamp(false, 11);
    assert_eq!(e, Encounter { first_inside: Some(7), first_outside: Some(11) });
    assert!(e.is_complete());
}

#[test]
fn encounter_log_is_a_map() {
    let mut log = EncounterLog::new();
    let a = "A".to_string();
    let b = "B".to_string();
    assert_eq!(log.get(&a), None);
    log.insert(a.clone(), Encounter { first_inside: Some(1), first_outside: None });
    log.insert(b.clone(), Encounter { first_inside: None, first_outside: Some(2) });
    log.insert(a.clone(), Encounter { first_inside: Some(3), first_outside: None });
    assert_eq!(log.get(&a), Some(Encounter { first_inside: Some(3), first_outside: None }));
    assert_eq!(log.get(&b), Some(Encounter { first_inside: None, first_outside: Some(2) }));
    let copy = log.duplicate();
    log.remove(&a);
    assert_eq!(log.get(&a), None);
    assert_eq!(log.get(&b), Some(Encounter { first_inside: None, first_outside: Some(2) }));
    log.remove(&a);
    assert_eq!(log.get(&a), None);
    assert_eq!(copy.get(&a), Some(Encounter { first_inside: Some(3), first_outside: None }));
}

#[test]
fn scenario_dwell_at_a_station() {
    let stations = vec![Some(0)];
    let trains: Vec<TrainSighting> = Vec::new();
    let s0 = PresenceState::new();
    let s1 = advance(&s0, 0, &stations, &trains).unwrap();
    assert!(s1.is_no_status());
    assert_eq!(s1.first_seen(0), Some(0));
    let s2 = advance(&s1, 31 * SEC, &stations, &trains).unwrap();
    assert_eq!(s2.station(), Some(0));
    assert_eq!(s2.left_at(), None);
}

#[test]
fn dwell_counts_from_thirty_seconds_on() {
    let stations = vec![Some(150 * METER)];
    let trains: Vec<TrainSighting> = Vec::new();
    let s1 = advance(&PresenceState::new(), 10 * SEC, &stations, &trains).unwrap();
    let early = advance(&s1, 40 * SEC - 1, &stations, &trains).unwrap();
    assert!(early.is_no_status());
    assert_eq!(early.first_seen(0), Some(10 * SEC));
    let due = advance(&s1, 40 * SEC, &stations, &trains).unwrap();
    assert_eq!(due.station(), Some(0));
}

#[test]
fn leaving_the_radius_stops_the_clock() {
    let trains: Vec<TrainSighting> = Vec::new();
    let s1 = advance(&PresenceState::new(), 0, &vec![Some(0), Some(500 * METER)], &trains).unwrap();
    assert_eq!(s1.first_seen(0), Some(0));
    assert_eq!(s1.first_seen(1), None);
    let s2 = advance(&s1, 15 * SEC, &vec![Some(200 * METER), Some(100 * METER)], &trains).unwrap();
    assert_eq!(s2.first_seen(0), None);
    assert_eq!(s2.first_seen(1), Some(15 * SEC));
    let s3 = advance(&s2, 31 * SEC, &vec![Some(0), Some(100 * METER)], &trains).unwrap();
    assert!(s3.is_no_status());
    assert_eq!(s3.first_seen(0), Some(31 * SEC));
    assert_eq!(s3.first_seen(1), Some(15 * SEC));
}

#[test]
fn nearest_eligible_station_wins() {
    let trains: Vec<TrainSighting> = Vec::new();
    let first = vec![Some(150 * METER), Some(100 * METER), Some(120 * METER)];
    let s1 = advance(&PresenceState::new(), 0, &first, &trains).unwrap();
    let s2 = advance(&s1, 30 * SEC, &first, &trains).unwrap();
    assert_eq!(s2.station(), Some(1));
}

#[test]
fn equal_distances_resolve_to_catalog_order() {
    let trains: Vec<TrainSighting> = Vec::new();
    let stations = vec![Some(900 * METER), Some(100 * METER), Some(100 * METER)];
    let s1 = advance(&PresenceState::new(), 0, &stations, &trains).unwrap();
    let s2 = advance(&s1, 45 * SEC, &stations, &trains).unwrap();
    assert_eq!(s2.station(), Some(1));
}

#[test]
fn a_nearer_station_that_is_not_eligible_does_not_compete() {
    let trains: Vec<TrainSighting> = Vec::new();
    let s1 = advance(&PresenceState::new(), 0, &vec![Some(150 * METER), Some(300 * METER)], &trains)
        .unwrap();
    let s2 = advance(&s1, 20 * SEC, &vec![Some(150 * METER), Some(10 * METER)], &trains).unwrap();
    let s3 = advance(&s2, 35 * SEC, &vec![Some(150 * METER), Some(10 * METER)], &trains).unwrap();
    assert_eq!(s3.station(), Some(0));
}

#[test]
fn scenario_boarding_a_train() {
    let stations = vec![Some(0)];
    let t = "T".to_string();
    let s0 = PresenceState::at_station(0);
    let s1 = advance(&s0, 0, &stations, &vec![train("T", 100)]).unwrap();
    assert_eq!(s1.station(), Some(0));
    assert_eq!(s1.encounter(&t), Some(Encounter { first_inside: Some(0), first_outside: None }));
    let s2 = advance(&s1, 15 * SEC, &stations, &vec![train("T", 300)]).unwrap();
    assert_eq!(s2.train(), Some(t));
    assert_eq!(s2.last_seen(), Some(15 * SEC));
}

#[test]
fn boarding_in_the_other_order() {
    let stations = vec![Some(0)];
    let s1 = advance(&PresenceState::at_station(0), 0, &stations, &vec![train("T", 300)]).unwrap();
    assert_eq!(s1.station(), Some(0));
    let s2 = advance(&s1, 15 * SEC, &stations, &vec![train("T", 100)]).unwrap();
    assert_eq!(s2.train(), Some("T".to_string()));
}

#[test]
fn one_class_of_sighting_never_boards() {
    let stations = vec![Some(0)];
    let t = "T".to_string();
    let mut s = PresenceState::at_station(0);
    for tick in 0..10u64 {
        s = advance(&s, tick * 15 * SEC, &stations, &vec![train("T", 100), train("U", 350)])
            .unwrap();
        assert_eq!(s.station(), Some(0));
    }
    assert_eq!(s.encounter(&t), Some(Encounter { first_inside: Some(0), first_outside: None }));
    assert_eq!(
        s.encounter(&"U".to_string()),
        Some(Encounter { first_inside: None, first_outside: Some(0) })
    );
}

#[test]
fn a_train_out_of_range_loses_its_encounter() {
    let stations = vec![Some(0)];
    let t = "T".to_string();
    let s1 = advance(&PresenceState::at_station(0), 0, &stations, &vec![train("T", 100)]).unwrap();
    let s2 = advance(&s1, 15 * SEC, &stations, &vec![train("T", 400)]).unwrap();
    assert_eq!(s2.station(), Some(0));
    assert_eq!(s2.encounter(&t), None);
    let s3 = advance(&s2, 30 * SEC, &stations, &vec![train("T", 300)]).unwrap();
    assert_eq!(s3.station(), Some(0));
    assert_eq!(s3.encounter(&t), Some(Encounter { first_inside: None, first_outside: Some(30 * SEC) }));
}

#[test]
fn the_first_matching_train_of_the_feed_wins() {
    let stations = vec![Some(0)];
    let feed1 = vec![train("A", 100), train("B", 50)];
    let feed2 = vec![train("A", 390), train("B", 210)];
    let s1 = advance(&PresenceState::at_station(0), 0, &stations, &feed1).unwrap();
    let s2 = advance(&s1, 15 * SEC, &stations, &feed2).unwrap();
    assert_eq!(s2.train(), Some("A".to_string()));
}

#[test]
fn scenario_train_gone_from_the_feed() {
    let stations = vec![Some(0)];
    for now in [0, SEC, 1000 * SEC] {
        let s = PresenceState::on_train("T".to_string(), 0);
        let next = advance(&s, now, &stations, &vec![train("U", 10)]).unwrap();
        assert!(next.is_no_status());
        assert_eq!(next.first_seen(0), None);
    }
    let s = PresenceState::on_train("T".to_string(), 0);
    let next = advance(&s, 5, &stations, &Vec::new()).unwrap();
    assert!(next.is_no_status());
}

#[test]
fn scenario_leaving_a_station() {
    let trains: Vec<TrainSighting> = Vec::new();
    let outside = vec![Some(250 * METER)];
    let mut s = PresenceState::at_station(0);
    for now in [0, 15 * SEC, 30 * SEC, 45 * SEC, 60 * SEC] {
        s = advance(&s, now, &outside, &trains).unwrap();
        assert_eq!(s.station(), Some(0));
        assert_eq!(s.left_at(), Some(0));
    }
    let s = advance(&s, 61 * SEC, &outside, &trains).unwrap();
    assert!(s.is_no_status());
    assert_eq!(s.first_seen(0), None);
}

#[test]
fn coming_back_clears_the_leave_instant() {
    let trains: Vec<TrainSighting> = Vec::new();
    let s1 = advance(&PresenceState::at_station(0), 0, &vec![Some(250 * METER)], &trains).unwrap();
    assert_eq!(s1.left_at(), Some(0));
    let s2 = advance(&s1, 50 * SEC, &vec![Some(199 * METER)], &trains).unwrap();
    assert_eq!(s2.left_at(), None);
    let s3 = advance(&s2, 100 * SEC, &vec![Some(250 * METER)], &trains).unwrap();
    assert_eq!(s3.station(), Some(0));
    assert_eq!(s3.left_at(), Some(100 * SEC));
}

#[test]
fn ride_goes_on_near_the_train() {
    let stations = vec![Some(0)];
    let s = PresenceState::on_train("T".to_string(), 0);
    let next = advance(&s, 1000 * SEC, &stations, &vec![train("U", 0), train("T", 399)]).unwrap();
    assert_eq!(next.train(), Some("T".to_string()));
    assert_eq!(next.last_seen(), Some(1000 * SEC));
}

#[test]
fn ride_goes_on_away_from_the_train_while_contact_is_not_ahead() {
    let stations = vec![Some(0)];
    let s = PresenceState::on_train("T".to_string(), 10 * SEC);
    for now in [10 * SEC, 200 * SEC, 311 * SEC, 5000 * SEC] {
        let next = advance(&s, now, &stations, &vec![train("T", 400)]).unwrap();
        assert_eq!(next.train(), Some("T".to_string()));
        assert_eq!(next.last_seen(), Some(10 * SEC));
    }
}

#[test]
fn stale_ride_ends_at_the_first_station_around() {
    let s = PresenceState::on_train("T".to_string(), 400 * SEC);
    let held = advance(&s, 100 * SEC, &vec![Some(0)], &vec![train("T", 900)]).unwrap();
    assert_eq!(held.train(), Some("T".to_string()));
    let stations = vec![Some(300 * METER), Some(150 * METER), Some(10 * METER)];
    let next = advance(&s, 100 * SEC - 1, &stations, &vec![train("T", 900)]).unwrap();
    assert_eq!(next.station(), Some(1));
    assert_eq!(next.left_at(), None);
    assert_eq!(next.encounter(&"T".to_string()), None);
    let nowhere = vec![Some(300 * METER), Some(200 * METER)];
    let next = advance(&s, 0, &nowhere, &vec![train("T", 900)]).unwrap();
    assert!(next.is_no_status());
}

#[test]
fn unresolved_station_fails_the_tick_of_an_idle_person() {
    let trains: Vec<TrainSighting> = Vec::new();
    let r = advance(&PresenceState::new(), 0, &vec![Some(0), None], &trains);
    assert_eq!(r.err(), Some(GeoResolutionError));
    let r = advance(&PresenceState::new(), 0, &vec![Some(0)], &vec![lost("T")]);
    assert!(r.is_ok());
}

#[test]
fn unresolved_distances_fail_the_tick_at_a_station() {
    let trains: Vec<TrainSighting> = Vec::new();
    let r = advance(&PresenceState::at_station(1), 0, &vec![Some(0), None], &trains);
    assert_eq!(r.err(), Some(GeoResolutionError));
    let r = advance(&PresenceState::at_station(5), 0, &vec![Some(0), None], &trains);
    assert_eq!(r.err(), Some(GeoResolutionError));
    let r = advance(&PresenceState::at_station(0), 0, &vec![Some(0), None], &trains);
    assert!(r.is_ok());
    let r = advance(&PresenceState::at_station(0), 0, &vec![Some(0)], &vec![train("A", 1), lost("T")]);
    assert_eq!(r.err(), Some(GeoResolutionError));
}

#[test]
fn unresolved_distances_fail_the_tick_on_a_train() {
    let s = PresenceState::on_train("T".to_string(), 400 * SEC);
    let r = advance(&s, 0, &vec![Some(0)], &vec![lost("T")]);
    assert_eq!(r.err(), Some(GeoResolutionError));
    let r = advance(&s, 0, &vec![None, Some(0)], &vec![train("T", 900)]);
    assert_eq!(r.err(), Some(GeoResolutionError));
    let r = advance(&s, 0, &vec![Some(0), None], &vec![train("T", 900)]).unwrap();
    assert_eq!(r.station(), Some(0));
    let r = advance(&s, 0, &vec![None], &vec![lost("U"), train("T", 10)]).unwrap();
    assert_eq!(r.train(), Some("T".to_string()));
}

#[test]
fn the_same_tick_twice_gives_the_same_presence() {
    let stations = vec![Some(100 * METER), Some(50 * METER)];
    let feed = vec![train("A", 100), train("B", 300)];
    let s0 = PresenceState::at_station(0);
    let s1 = advance(&s0, 7 * SEC, &stations, &feed).unwrap();
    let again = advance(&s0, 7 * SEC, &stations, &feed).unwrap();
    for id in ["A", "B", "C"] {
        assert_eq!(s1.encounter(&id.to_string()), again.encounter(&id.to_string()));
    }
    assert_eq!(s1.station(), again.station());
    assert_eq!(s1.left_at(), again.left_at());
    let s2 = advance(&s1, 7 * SEC, &stations, &feed).unwrap();
    for id in ["A", "B", "C"] {
        assert_eq!(s1.encounter(&id.to_string()), s2.encounter(&id.to_string()));
    }
    assert_eq!(s2.station(), Some(0));
    assert_eq!(s2.left_at(), None);
}

#[test]
fn searches_find_the_first() {
    let feed = vec![train("A", 1), train("B", 2), train("A", 3)];
    assert_eq!(find_train(&feed, &"A".to_string()), Some(0));
    assert_eq!(find_train(&feed, &"B".to_string()), Some(1));
    assert_eq!(find_train(&feed, &"C".to_string()), None);
    assert_eq!(find_station(&vec![Some(200 * METER), Some(5), Some(1)]), Ok(Some(1)));
    assert_eq!(find_station(&vec![Some(200 * METER)]), Ok(None));
    assert_eq!(find_station(&vec![None, Some(0)]), Err(GeoResolutionError));
    assert_eq!(find_station(&vec![Some(0), None]), Ok(Some(0)));
}

#[test]
fn duplicate_keeps_the_value() {
    let s1 = advance(&PresenceState::at_station(3), 0, &vec![None, None, None, Some(250 * METER)], &vec![train("T", 100)])
        .unwrap();
    let copy = s1.duplicate();
    assert_eq!(copy.station(), Some(3));
    assert_eq!(copy.left_at(), Some(0));
    assert_eq!(
        copy.encounter(&"T".to_string()),
        Some(Encounter { first_inside: Some(0), first_outside: None })
    );
    let idle = advance(&PresenceState::new(), 4, &vec![Some(0)], &Vec::new()).unwrap().duplicate();
    assert_eq!(idle.first_seen(0), Some(4));
    let ride = PresenceState::on_train("T".to_string(), 9).duplicate();
    assert_eq!(ride.train(), Some("T".to_string()));
    assert_eq!(ride.last_seen(), Some(9));
    assert_eq!(ride.station(), None);
    assert_eq!(ride.left_at(), None);
    assert_eq!(ride.first_seen(0), None);
}
