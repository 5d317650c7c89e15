use transpors::calendar::CustomCalendar;
use transpors::calendar::Date;
use transpors::calendar::Weekday;
use transpors::config::build_stops_database;
use transpors::config::remove_stop_by_id;
use transpors::db::Database;
use transpors::feed::FeedCalendar;
use transpors::feed::FeedRoute;
use transpors::feed::FeedSnapshot;
use transpors::feed::FeedStop;
use transpors::feed::FeedStopTime;
use transpors::feed::FeedTrip;
use transpors::timetables::query;
use transpors::timetables::Moment;
use transpors::wizard::attach_terminating_stops;
use transpors::wizard::get_terminating_trip_stop_for_stop;
use transpors::wizard::seek_stops;
use transpors::wizard::FoundStop;

fn date(year: u32, month: u32, day: u32) -> Date {
    Date { year, month, day }
}

fn all_days_calendar(start: Date, end: Date) -> CustomCalendar {
    CustomCalendar {
        monday: true,
        tuesday: true,
        wednesday: true,
        thursday: true,
        friday: true,
        saturday: true,
        sunday: true,
        start_date: start,
        end_date: end,
    }
}

fn stop_time(stop_id: &str, stop_name: &str, arrival: Option<u32>) -> FeedStopTime {
    FeedStopTime {
        stop_id: stop_id.to_string(),
        stop_name: stop_name.to_string(),
        arrival_time: arrival,
    }
}

/// Route R1, trip T1 on service s1 (every day of 2024), stop-times
/// [Stop A @ 28800, Stop B @ 32400].
fn sample_feed() -> FeedSnapshot {
    FeedSnapshot {
        routes: vec![FeedRoute { id: "r1".to_string(), short_name: "R1".to_string() }],
        trips: vec![FeedTrip {
            id: "t1".to_string(),
            route_id: "r1".to_string(),
            service_id: "s1".to_string(),
            stop_times: vec![
                stop_time("a", "Stop A", Some(28800)),
                stop_time("b", "Stop B", Some(32400)),
            ],
        }],
        calendars: vec![FeedCalendar {
            service_id: "s1".to_string(),
            calendar: all_days_calendar(date(2024, 1, 1), date(2024, 12, 31)),
        }],
        stops: vec![
            FeedStop { id: "a".to_string(), name: "Stop A".to_string() },
            FeedStop { id: "b".to_string(), name: "Stop B".to_string() },
        ],
    }
}

fn stop_a() -> FeedStop {
    FeedStop { id: "a".to_string(), name: "Stop A".to_string() }
}

#[test]
fn build_yields_one_record_for_stop_a() {
    let feed = sample_feed();
    let (database, skipped) = Database::from(&feed, &stop_a());
    assert_eq!(database.records.len(), 1);
    assert!(skipped.is_empty());
    let record = &database.records[0];
    assert_eq!(record.route, "R1");
    assert_eq!(record.trip, "s1");
    assert_eq!(record.trip_id, "t1");
    assert_eq!(record.stop_time, Some(28800));
    assert_eq!(record.stop, "Stop A");
    assert_eq!(record.calendar.start_date, date(2024, 1, 1));
    assert_eq!(record.calendar.end_date, date(2024, 12, 31));
    assert!(record.calendar.saturday);
}

#[test]
fn build_is_deterministic() {
    let feed = sample_feed();
    let (first, _) = Database::from(&feed, &stop_a());
    let (second, _) = Database::from(&feed, &stop_a());
    assert_eq!(first.records.len(), second.records.len());
    for (a, b) in first.records.iter().zip(second.records.iter()) {
        assert_eq!(a.route, b.route);
        assert_eq!(a.trip, b.trip);
        assert_eq!(a.trip_id, b.trip_id);
        assert_eq!(a.stop_time, b.stop_time);
        assert_eq!(a.stop, b.stop);
    }
}

#[test]
fn every_record_carries_the_stops_name() {
    let mut feed = sample_feed();
    // A second route and trip that also visit stop A.
    feed.routes.push(FeedRoute { id: "r2".to_string(), short_name: "R2".to_string() });
    feed.trips.push(FeedTrip {
        id: "t2".to_string(),
        route_id: "r2".to_string(),
        service_id: "s1".to_string(),
        stop_times: vec![
            stop_time("c", "Stop C", Some(100)),
            stop_time("a", "Stop A", Some(200)),
        ],
    });
    let (database, _) = Database::from(&feed, &stop_a());
    assert_eq!(database.records.len(), 2);
    for record in database.records.iter() {
        assert_eq!(record.stop, "Stop A");
    }
    // The parallel fan-out hands its buffers back in route-table order.
    assert_eq!(database.records[0].route, "R1");
    assert_eq!(database.records[1].route, "R2");
}

#[test]
fn build_for_unserved_stop_is_empty_not_absent() {
    let feed = sample_feed();
    let lone = FeedStop { id: "z".to_string(), name: "Stop Z".to_string() };
    let (database, skipped) = Database::from(&feed, &lone);
    assert!(database.records.is_empty());
    assert!(skipped.is_empty());
}

#[test]
fn missing_calendar_is_skipped_not_fatal() {
    let mut feed = sample_feed();
    // A trip on the same route whose service has no calendar entry.
    feed.trips.push(FeedTrip {
        id: "t9".to_string(),
        route_id: "r1".to_string(),
        service_id: "ghostly".to_string(),
        stop_times: vec![stop_time("a", "Stop A", Some(40000))],
    });
    let (database, skipped) = Database::from(&feed, &stop_a());
    // The healthy trip still builds; the orphan is reported, not fatal.
    assert_eq!(database.records.len(), 1);
    assert_eq!(database.records[0].trip_id, "t1");
    assert_eq!(skipped.len(), 1);
    assert_eq!(skipped[0].service_id, "ghostly");
}

#[test]
fn terminus_of_stop_a_is_stop_b() {
    let feed = sample_feed();
    let terminus = get_terminating_trip_stop_for_stop(&feed, &stop_a());
    assert_eq!(terminus.id, "b");
    assert_eq!(terminus.name, "Stop B");
}

#[test]
fn terminus_of_unserved_stop_is_itself() {
    let feed = sample_feed();
    let lone = FeedStop { id: "z".to_string(), name: "Stop Z".to_string() };
    let terminus = get_terminating_trip_stop_for_stop(&feed, &lone);
    assert_eq!(terminus.id, "z");
    assert_eq!(terminus.name, "Stop Z");
}

#[test]
fn terminus_picks_the_first_serving_trip() {
    let mut feed = sample_feed();
    // A later trip through stop A that ends elsewhere; the first wins.
    feed.trips.push(FeedTrip {
        id: "t2".to_string(),
        route_id: "r1".to_string(),
        service_id: "s1".to_string(),
        stop_times: vec![
            stop_time("a", "Stop A", Some(100)),
            stop_time("c", "Stop C", Some(200)),
        ],
    });
    let terminus = get_terminating_trip_stop_for_stop(&feed, &stop_a());
    assert_eq!(terminus.id, "b");
}

#[test]
fn seek_stops_matches_by_substring() {
    let feed = sample_feed();
    let found = seek_stops(&feed, &"top A".to_string());
    assert_eq!(found.len(), 1);
    assert_eq!(found[0].id, "a");
    let none = seek_stops(&feed, &"Nowhere".to_string());
    assert!(none.is_empty());
    let both = seek_stops(&feed, &"Stop".to_string());
    assert_eq!(both.len(), 2);
}

#[test]
fn attach_terminating_stops_resolves_each() {
    let feed = sample_feed();
    let found = seek_stops(&feed, &"Stop A".to_string());
    let attached = attach_terminating_stops(&feed, &found);
    assert_eq!(attached.len(), 1);
    assert_eq!(attached[0].id, "a");
    assert_eq!(attached[0].stop.name, "Stop A");
    assert_eq!(attached[0].terminating_stop.name, "Stop B");
}

#[test]
fn build_stops_database_builds_each_chosen_stop() {
    let feed = sample_feed();
    let chosen = vec![FoundStop {
        id: "a".to_string(),
        stop: stop_a(),
        terminating_stop: FeedStop { id: "b".to_string(), name: "Stop B".to_string() },
    }];
    let (stops, skipped) = build_stops_database(&feed, &chosen);
    assert_eq!(stops.len(), 1);
    assert!(skipped.is_empty());
    assert_eq!(stops[0].id, "a");
    assert_eq!(stops[0].name, "Stop A");
    assert_eq!(stops[0].terminating_stop, "Stop B");
    assert_eq!(stops[0].database.records.len(), 1);
}

#[test]
fn full_flow_from_feed_to_departures() {
    let feed = sample_feed();
    // Choose stop A, resolve its terminus, build its schedule, query it.
    let found = seek_stops(&feed, &"Stop A".to_string());
    let chosen = attach_terminating_stops(&feed, &found);
    let (stops, skipped) = build_stops_database(&feed, &chosen);
    assert!(skipped.is_empty());
    assert_eq!(stops[0].terminating_stop, "Stop B");

    // Saturday 2024-06-01 08:00:00.
    let now = Moment {
        date: date(2024, 6, 1),
        weekday: Weekday::Saturday,
        seconds: 28800,
    };
    let departures = query(&stops[0], &now, 5);
    assert_eq!(departures.len(), 1);
    assert_eq!(departures[0].route, "R1");
    assert_eq!(departures[0].stop_time, Some(28800));
}

#[test]
fn remove_stop_by_id_removes_first_match_only() {
    let terminus = FeedStop { id: "b".to_string(), name: "Stop B".to_string() };
    let mut chosen = vec![
        FoundStop { id: "a".to_string(), stop: stop_a(), terminating_stop: terminus.clone() },
        FoundStop {
            id: "b".to_string(),
            stop: terminus.clone(),
            terminating_stop: terminus.clone(),
        },
    ];
    let removed = remove_stop_by_id(&mut chosen, &"a".to_string());
    assert!(removed.is_some());
    assert_eq!(removed.unwrap().id, "a");
    assert_eq!(chosen.len(), 1);
    assert_eq!(chosen[0].id, "b");

    let missing = remove_stop_by_id(&mut chosen, &"zz".to_string());
    assert!(missing.is_none());
    assert_eq!(chosen.len(), 1);
}
