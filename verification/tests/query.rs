use transpors::app::resolve_argument_outcome;
use transpors::app::ArgumentProcessResult;
use transpors::calendar::CustomCalendar;
use transpors::calendar::Date;
use transpors::calendar::Weekday;
use transpors::config::Stop;
use transpors::db::Database;
use transpors::db::Record;
use transpors::prague::parse_record_details;
use transpors::prague::Additional;
use transpors::prague::VehicleReading;
use transpors::timetables::limit_departures;
use transpors::timetables::query;
use transpors::timetables::Moment;
use transpors::timetables::Timetables;

fn date(year: u32, month: u32, day: u32) -> Date {
    Date { year, month, day }
}

fn all_days_calendar(start: Date, end: Date) -> CustomCalendar {
    CustomCalendar {
        monday: true,
        tuesday: true,
        wednesday: true,
        thursday: true,
        friday: true,
        saturday: true,
        sunday: true,
        start_date: start,
        end_date: end,
    }
}

fn year_2024_calendar() -> CustomCalendar {
    all_days_calendar(date(2024, 1, 1), date(2024, 12, 31))
}

fn record(offset: Option<u32>, calendar: CustomCalendar) -> Record {
    Record {
        route: "R1".to_string(),
        trip: "s1".to_string(),
        trip_id: "t1".to_string(),
        calendar,
        stop_time: offset,
        stop: "Stop A".to_string(),
    }
}

fn stop_with(records: Vec<Record>) -> Stop {
    Stop {
        id: "a".to_string(),
        name: "Stop A".to_string(),
        terminating_stop: "Stop B".to_string(),
        database: Database { records },
    }
}

/// Saturday 2024-06-01 at the given second of the day.
fn saturday_at(seconds: u32) -> Moment {
    Moment { date: date(2024, 6, 1), weekday: Weekday::Saturday, seconds }
}

#[test]
fn query_at_eight_returns_the_record() {
    let stop = stop_with(vec![record(Some(28800), year_2024_calendar())]);
    let result = query(&stop, &saturday_at(28800), 5);
    assert_eq!(result.len(), 1);
    assert_eq!(result[0].route, "R1");
    assert_eq!(result[0].stop_time, Some(28800));
}

#[test]
fn query_one_second_past_eight_excludes_the_record() {
    let stop = stop_with(vec![record(Some(28800), year_2024_calendar())]);
    let result = query(&stop, &saturday_at(28801), 5);
    assert!(result.is_empty());
}

#[test]
fn offset_past_one_day_is_kept_regardless_of_time() {
    let stop = stop_with(vec![record(Some(90000), year_2024_calendar())]);
    let result = query(&stop, &saturday_at(86399), 5);
    assert_eq!(result.len(), 1);
    assert_eq!(result[0].stop_time, Some(90000));
}

#[test]
fn saturday_flag_false_excludes_on_saturday() {
    let mut calendar = year_2024_calendar();
    calendar.saturday = false;
    let stop = stop_with(vec![record(Some(28800), calendar)]);
    let result = query(&stop, &saturday_at(0), 5);
    assert!(result.is_empty());
}

#[test]
fn date_range_is_inclusive_on_both_ends() {
    let calendar = all_days_calendar(date(2024, 6, 1), date(2024, 6, 1));
    let stop = stop_with(vec![record(Some(28800), calendar)]);
    assert_eq!(query(&stop, &saturday_at(0), 5).len(), 1);

    let before = Moment { date: date(2024, 5, 31), weekday: Weekday::Friday, seconds: 0 };
    assert!(query(&stop, &before, 5).is_empty());
    let after = Moment { date: date(2024, 6, 2), weekday: Weekday::Sunday, seconds: 0 };
    assert!(query(&stop, &after, 5).is_empty());
}

#[test]
fn absent_offset_is_excluded() {
    let stop = stop_with(vec![record(None, year_2024_calendar())]);
    let result = query(&stop, &saturday_at(0), 5);
    assert!(result.is_empty());
}

#[test]
fn limit_two_returns_the_two_smallest_offsets() {
    let stop = stop_with(vec![
        record(Some(300), year_2024_calendar()),
        record(Some(100), year_2024_calendar()),
        record(Some(500), year_2024_calendar()),
        record(Some(200), year_2024_calendar()),
        record(Some(400), year_2024_calendar()),
    ]);
    let result = query(&stop, &saturday_at(0), 2);
    assert_eq!(result.len(), 2);
    assert_eq!(result[0].stop_time, Some(100));
    assert_eq!(result[1].stop_time, Some(200));
}

#[test]
fn departures_come_out_ordered_by_offset() {
    let stop = stop_with(vec![
        record(Some(32400), year_2024_calendar()),
        record(Some(90000), year_2024_calendar()),
        record(Some(28800), year_2024_calendar()),
    ]);
    let timetables = Timetables::new(vec![stop]);
    let listing = timetables.get_departures(&saturday_at(0));
    assert_eq!(listing.len(), 1);
    assert_eq!(listing[0].stop_name, "Stop A");
    assert_eq!(listing[0].terminating_stop, "Stop B");
    let offsets: Vec<Option<u32>> =
        listing[0].departures.iter().map(|r| r.stop_time).collect();
    assert_eq!(offsets, vec![Some(28800), Some(32400), Some(90000)]);
}

#[test]
fn query_of_empty_schedule_is_empty() {
    let stop = stop_with(Vec::new());
    assert!(query(&stop, &saturday_at(0), 5).is_empty());
}

#[test]
fn limit_larger_than_result_returns_everything() {
    let stop = stop_with(vec![
        record(Some(100), year_2024_calendar()),
        record(Some(200), year_2024_calendar()),
    ]);
    let result = query(&stop, &saturday_at(0), 10);
    assert_eq!(result.len(), 2);
}

#[test]
fn limit_departures_takes_a_prefix() {
    let records = vec![
        record(Some(100), year_2024_calendar()),
        record(Some(200), year_2024_calendar()),
        record(Some(300), year_2024_calendar()),
    ];
    let limited = limit_departures(&records, 2);
    assert_eq!(limited.len(), 2);
    assert_eq!(limited[0].stop_time, Some(100));
    assert_eq!(limited[1].stop_time, Some(200));
    assert!(limit_departures(&records, 0).is_empty());
}

#[test]
fn argument_outcome_stops_only_on_confirmed_wipe() {
    assert_eq!(resolve_argument_outcome(true, true), ArgumentProcessResult::Stop);
    assert_eq!(resolve_argument_outcome(true, false), ArgumentProcessResult::Continue);
    assert_eq!(resolve_argument_outcome(false, true), ArgumentProcessResult::Continue);
    assert_eq!(resolve_argument_outcome(false, false), ArgumentProcessResult::Continue);
}

#[test]
fn parse_record_details_takes_the_first_matching_reading() {
    let readings = vec![
        VehicleReading {
            trip_id: "other".to_string(),
            delay: Some(300),
            is_air_conditioned: Some(false),
        },
        VehicleReading {
            trip_id: "t1".to_string(),
            delay: Some(180),
            is_air_conditioned: Some(true),
        },
        VehicleReading { trip_id: "t1".to_string(), delay: None, is_air_conditioned: None },
    ];
    let found = parse_record_details(&"t1".to_string(), &readings);
    assert!(found.is_some());
    let additional = found.unwrap();
    assert_eq!(additional.delay, Some(180));
    assert_eq!(additional.is_air_conditioned, Some(true));

    let missing = parse_record_details(&"t7".to_string(), &readings);
    assert!(missing.is_none());
}

#[test]
fn delay_is_shown_in_minutes_only_over_one_minute() {
    let short = Additional { is_air_conditioned: None, delay: Some(60) };
    assert_eq!(short.delay_minutes(), None);
    let longer = Additional { is_air_conditioned: None, delay: Some(61) };
    assert_eq!(longer.delay_minutes(), Some(1));
    let three = Additional { is_air_conditioned: Some(true), delay: Some(180) };
    assert_eq!(three.delay_minutes(), Some(3));
    assert!(three.shows_air_conditioning());
    let unknown = Additional { is_air_conditioned: Some(false), delay: None };
    assert!(!unknown.shows_air_conditioning());
    assert_eq!(unknown.delay_minutes(), None);
}
