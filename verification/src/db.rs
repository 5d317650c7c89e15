//! The schedule builder: joins routes, trips, calendars and stop-times into
//! the set of schedule records of one stop.
//!
//! Work is partitioned by route; routes are processed independently and in
//! parallel, each worker filling a local buffer, and the buffers are
//! concatenated afterwards. A trip whose service reference has no matching
//! calendar contributes no record; each such entry is reported back by its
//! service reference instead of aborting the build.

use vstd::prelude::*;

use rayon::iter::IntoParallelRefIterator;
use rayon::iter::ParallelIterator;

use crate::calendar::CustomCalendar;
use crate::feed::spec_calendar_for;
use crate::feed::FeedCalendar;
use crate::feed::FeedRoute;
use crate::feed::FeedSnapshot;
use crate::feed::FeedStop;
use crate::feed::FeedStopTime;
use crate::feed::FeedTrip;

verus! {

/// One scheduled service at a stop: the route's label, the owning trip's
/// service reference and identifier, the resolved calendar, the optional
/// arrival offset in seconds since midnight of the service day, and the
/// stop's display name as recorded in the stop-time entry.
pub struct Record {
    pub route: String,
    pub trip: String,
    pub trip_id: String,
    pub calendar: CustomCalendar,
    pub stop_time: Option<u32>,
    pub stop: String,
}

impl Clone for Record {
    fn clone(&self) -> (r: Self)
        ensures
            r == *self,
    {
        Record {
            route: self.route.clone(),
            trip: self.trip.clone(),
            trip_id: self.trip_id.clone(),
            calendar: self.calendar,
            stop_time: self.stop_time,
            stop: self.stop.clone(),
        }
    }
}

/// A stop's full schedule: an unordered collection of records. The query
/// engine imposes order at read time.
pub struct Database {
    pub records: Vec<Record>,
}

/// A trip's service reference had no matching calendar in the feed; the
/// entry was skipped, not fatal to the build.
pub struct MissingCalendarError {
    pub service_id: String,
}

/// The record made of one matching stop-time entry.
pub open spec fn spec_record(
    route: FeedRoute,
    trip: FeedTrip,
    st: FeedStopTime,
    cal: CustomCalendar,
) -> Record {
    Record {
        route: route.short_name,
        trip: trip.service_id,
        trip_id: trip.id,
        calendar: cal,
        stop_time: st.arrival_time,
        stop: st.stop_name,
    }
}

/// Records contributed by a prefix of one trip's stop-time sequence: one per
/// entry at the queried stop whose service calendar resolves.
pub open spec fn spec_stop_time_records(
    route: FeedRoute,
    trip: FeedTrip,
    sts: Seq<FeedStopTime>,
    cals: Seq<FeedCalendar>,
    stop_id: Seq<char>,
) -> Seq<Record>
    decreases sts.len(),
{
    if sts.len() == 0 {
        Seq::empty()
    } else {
        spec_stop_time_records(route, trip, sts.drop_last(), cals, stop_id) + (
        if sts.last().stop_id@ == stop_id {
            match spec_calendar_for(cals, trip.service_id@) {
                Some(cal) => seq![spec_record(route, trip, sts.last(), cal)],
                None => Seq::empty(),
            }
        } else {
            Seq::empty()
        })
    }
}

/// Service references of the entries skipped for want of a calendar, one per
/// matching stop-time entry of the trip.
pub open spec fn spec_stop_time_skips(
    trip: FeedTrip,
    sts: Seq<FeedStopTime>,
    cals: Seq<FeedCalendar>,
    stop_id: Seq<char>,
) -> Seq<MissingCalendarError>
    decreases sts.len(),
{
    if sts.len() == 0 {
        Seq::empty()
    } else {
        spec_stop_time_skips(trip, sts.drop_last(), cals, stop_id) + (
        if sts.last().stop_id@ == stop_id && spec_calendar_for(cals, trip.service_id@) is None {
            seq![MissingCalendarError { service_id: trip.service_id }]
        } else {
            Seq::empty()
        })
    }
}

/// Records contributed by one route over a prefix of the trip table: the
/// concatenation over the trips that belong to the route.
pub open spec fn spec_trip_records(
    route: FeedRoute,
    trips: Seq<FeedTrip>,
    cals: Seq<FeedCalendar>,
    stop_id: Seq<char>,
) -> Seq<Record>
    decreases trips.len(),
{
    if trips.len() == 0 {
        Seq::empty()
    } else {
        spec_trip_records(route, trips.drop_last(), cals, stop_id) + (
        if trips.last().route_id@ == route.id@ {
            spec_stop_time_records(route, trips.last(), trips.last().stop_times@, cals, stop_id)
        } else {
            Seq::empty()
        })
    }
}

/// Skipped entries contributed by one route over a prefix of the trip table.
pub open spec fn spec_trip_skips(
    route: FeedRoute,
    trips: Seq<FeedTrip>,
    cals: Seq<FeedCalendar>,
    stop_id: Seq<char>,
) -> Seq<MissingCalendarError>
    decreases trips.len(),
{
    if trips.len() == 0 {
        Seq::empty()
    } else {
        spec_trip_skips(route, trips.drop_last(), cals, stop_id) + (
        if trips.last().route_id@ == route.id@ {
            spec_stop_time_skips(trips.last(), trips.last().stop_times@, cals, stop_id)
        } else {
            Seq::empty()
        })
    }
}

/// The full schedule of a stop: the concatenation of the routes' parts, in
/// route-table order.
pub open spec fn spec_build_records(feed: FeedSnapshot, stop_id: Seq<char>) -> Seq<Record> {
    spec_route_records(feed.routes@, feed.trips@, feed.calendars@, stop_id)
}

/// The skipped entries of a build, in route-table order.
pub open spec fn spec_build_skips(feed: FeedSnapshot, stop_id: Seq<char>) -> Seq<MissingCalendarError> {
    spec_route_skips(feed.routes@, feed.trips@, feed.calendars@, stop_id)
}

/// Concatenation of the per-route record contributions over a prefix of the
/// route table.
pub open spec fn spec_route_records(
    routes: Seq<FeedRoute>,
    trips: Seq<FeedTrip>,
    cals: Seq<FeedCalendar>,
    stop_id: Seq<char>,
) -> Seq<Record>
    decreases routes.len(),
{
    if routes.len() == 0 {
        Seq::empty()
    } else {
        spec_route_records(routes.drop_last(), trips, cals, stop_id) + spec_trip_records(
            routes.last(),
            trips,
            cals,
            stop_id,
        )
    }
}

/// Concatenation of the per-route skipped entries over a prefix of the
/// route table.
pub open spec fn spec_route_skips(
    routes: Seq<FeedRoute>,
    trips: Seq<FeedTrip>,
    cals: Seq<FeedCalendar>,
    stop_id: Seq<char>,
) -> Seq<MissingCalendarError>
    decreases routes.len(),
{
    if routes.len() == 0 {
        Seq::empty()
    } else {
        spec_route_skips(routes.drop_last(), trips, cals, stop_id) + spec_trip_skips(
            routes.last(),
            trips,
            cals,
            stop_id,
        )
    }
}

/// One route worker's local buffers: its records and its skipped entries.
pub struct RoutePart {
    pub records: Vec<Record>,
    pub skipped: Vec<MissingCalendarError>,
}

/// Records and skipped entries of one trip at the queried stop.
fn fetch_trip(feed: &FeedSnapshot, route: &FeedRoute, trip: &FeedTrip, stop_id: &String) -> (r: (
    Vec<Record>,
    Vec<MissingCalendarError>,
))
    ensures
        r.0@ == spec_stop_time_records(*route, *trip, trip.stop_times@, feed.calendars@, stop_id@),
        r.1@ == spec_stop_time_skips(*trip, trip.stop_times@, feed.calendars@, stop_id@),
{
    let mut records: Vec<Record> = Vec::new();
    let mut skipped: Vec<MissingCalendarError> = Vec::new();
    let cal = feed.get_calendar(&trip.service_id);
    let n = trip.stop_times.len();
    let mut j: usize = 0;
    assert(trip.stop_times@.take(0) =~= Seq::<FeedStopTime>::empty());
    while j < n
        invariant
            n == trip.stop_times@.len(),
            j <= n,
            cal == spec_calendar_for(feed.calendars@, trip.service_id@),
            records@ == spec_stop_time_records(
                *route,
                *trip,
                trip.stop_times@.take(j as int),
                feed.calendars@,
                stop_id@,
            ),
            skipped@ == spec_stop_time_skips(
                *trip,
                trip.stop_times@.take(j as int),
                feed.calendars@,
                stop_id@,
            ),
        decreases n - j,
    {
        proof {
            assert(trip.stop_times@.take(j as int + 1).drop_last() =~= trip.stop_times@.take(
                j as int,
            ));
            assert(trip.stop_times@.take(j as int + 1).last() == trip.stop_times@[j as int]);
        }
        let st = &trip.stop_times[j];
        if st.stop_id == *stop_id {
            match cal {
                Some(c) => {
                    records.push(
                        Record {
                            route: route.short_name.clone(),
                            trip: trip.service_id.clone(),
                            trip_id: trip.id.clone(),
                            calendar: c,
                            stop_time: st.arrival_time,
                            stop: st.stop_name.clone(),
                        },
                    );
                },
                None => {
                    skipped.push(MissingCalendarError { service_id: trip.service_id.clone() });
                },
            }
        }
        j = j + 1;
    }
    assert(trip.stop_times@.take(n as int) =~= trip.stop_times@);
    (records, skipped)
}

/// One route worker: scans the trip table for the route's trips and collects
/// their records and skipped entries at the queried stop.
fn fetch_route(feed: &FeedSnapshot, route: &FeedRoute, stop_id: &String) -> (part: RoutePart)
    ensures
        part.records@ == spec_trip_records(*route, feed.trips@, feed.calendars@, stop_id@),
        part.skipped@ == spec_trip_skips(*route, feed.trips@, feed.calendars@, stop_id@),
{
    let mut records: Vec<Record> = Vec::new();
    let mut skipped: Vec<MissingCalendarError> = Vec::new();
    let n = feed.trips.len();
    let mut i: usize = 0;
    assert(feed.trips@.take(0) =~= Seq::<FeedTrip>::empty());
    while i < n
        invariant
            n == feed.trips@.len(),
            i <= n,
            records@ == spec_trip_records(
                *route,
                feed.trips@.take(i as int),
                feed.calendars@,
                stop_id@,
            ),
            skipped@ == spec_trip_skips(
                *route,
                feed.trips@.take(i as int),
                feed.calendars@,
                stop_id@,
            ),
        decreases n - i,
    {
        proof {
            assert(feed.trips@.take(i as int + 1).drop_last() =~= feed.trips@.take(i as int));
            assert(feed.trips@.take(i as int + 1).last() == feed.trips@[i as int]);
        }
        let trip = &feed.trips[i];
        if trip.route_id == route.id {
            let (mut r2, mut s2) = fetch_trip(feed, route, trip, stop_id);
            records.append(&mut r2);
            skipped.append(&mut s2);
        }
        i = i + 1;
    }
    assert(feed.trips@.take(n as int) =~= feed.trips@);
    RoutePart { records, skipped }
}

/// Fans the route workers out in parallel, one buffer per route, and hands
/// the buffers back in route-table order.
///
/// Relies on rayon's parallel iterator over a slice: `map` applies the given
/// function to every element, and collecting an indexed parallel iterator
/// into a `Vec` keeps the order of the input.
#[verifier::external_body]
fn par_fetch_routes(feed: &FeedSnapshot, stop_id: &String) -> (parts: Vec<RoutePart>)
    ensures
        parts@.len() == feed.routes@.len(),
        forall|i: int|
            0 <= i < parts@.len() ==> {
                &&& (#[trigger] parts@[i]).records@ == spec_trip_records(
                    feed.routes@[i],
                    feed.trips@,
                    feed.calendars@,
                    stop_id@,
                )
                &&& parts@[i].skipped@ == spec_trip_skips(
                    feed.routes@[i],
                    feed.trips@,
                    feed.calendars@,
                    stop_id@,
                )
            },
{
    feed.routes.par_iter().map(|route| fetch_route(feed, route, stop_id)).collect()
}

/// Concatenation of the workers' record buffers, in worker order.
pub open spec fn spec_concat_records(parts: Seq<RoutePart>) -> Seq<Record>
    decreases parts.len(),
{
    if parts.len() == 0 {
        Seq::empty()
    } else {
        spec_concat_records(parts.drop_last()) + parts.last().records@
    }
}

/// Concatenation of the workers' skip buffers, in worker order.
pub open spec fn spec_concat_skips(parts: Seq<RoutePart>) -> Seq<MissingCalendarError>
    decreases parts.len(),
{
    if parts.len() == 0 {
        Seq::empty()
    } else {
        spec_concat_skips(parts.drop_last()) + parts.last().skipped@
    }
}

/// Per-route buffers that agree with the route table concatenate to the full
/// build result.
proof fn lemma_parts_concat(
    parts: Seq<RoutePart>,
    routes: Seq<FeedRoute>,
    trips: Seq<FeedTrip>,
    cals: Seq<FeedCalendar>,
    stop_id: Seq<char>,
)
    requires
        parts.len() == routes.len(),
        forall|i: int|
            0 <= i < parts.len() ==> {
                &&& (#[trigger] parts[i]).records@ == spec_trip_records(
                    routes[i],
                    trips,
                    cals,
                    stop_id,
                )
                &&& parts[i].skipped@ == spec_trip_skips(routes[i], trips, cals, stop_id)
            },
    ensures
        spec_concat_records(parts) == spec_route_records(routes, trips, cals, stop_id),
        spec_concat_skips(parts) == spec_route_skips(routes, trips, cals, stop_id),
    decreases parts.len(),
{
    if parts.len() > 0 {
        lemma_parts_concat(parts.drop_last(), routes.drop_last(), trips, cals, stop_id);
    }
}

/// Joins the workers' buffers into one record collection plus one skip
/// report.
fn merge_parts(parts: Vec<RoutePart>) -> (r: (Vec<Record>, Vec<MissingCalendarError>))
    ensures
        r.0@ == spec_concat_records(parts@),
        r.1@ == spec_concat_skips(parts@),
{
    let ghost all = parts@;
    let mut rest = parts;
    let mut records: Vec<Record> = Vec::new();
    let mut skipped: Vec<MissingCalendarError> = Vec::new();
    assert(all.take(0) =~= Seq::<RoutePart>::empty());
    assert(all.skip(0) =~= all);
    while rest.len() > 0
        invariant
            rest@.len() <= all.len(),
            rest@ == all.skip(all.len() - rest@.len()),
            records@ == spec_concat_records(all.take(all.len() - rest@.len())),
            skipped@ == spec_concat_skips(all.take(all.len() - rest@.len())),
        decreases rest@.len(),
    {
        let ghost done = all.len() - rest@.len();
        proof {
            assert(all.take(done + 1).drop_last() =~= all.take(done));
            assert(all.skip(done)[0] == all[done]);
            assert(all.take(done + 1).last() == all[done]);
            assert(all.skip(done).drop_first() =~= all.skip(done + 1));
        }
        let mut part = rest.remove(0);
        records.append(&mut part.records);
        skipped.append(&mut part.skipped);
    }
    assert(all.take(all.len() as int) =~= all);
    (records, skipped)
}

impl Database {
    /// Walks the routes in parallel and collects every trip's stop-time
    /// entries at the queried stop, together with the skipped entries.
    fn fetch(feed: &FeedSnapshot, stop: &FeedStop) -> (r: (Vec<Record>, Vec<MissingCalendarError>))
        ensures
            r.0@ == spec_build_records(*feed, stop.id@),
            r.1@ == spec_build_skips(*feed, stop.id@),
    {
        let parts = par_fetch_routes(feed, &stop.id);
        proof {
            lemma_parts_concat(parts@, feed.routes@, feed.trips@, feed.calendars@, stop.id@);
        }
        merge_parts(parts)
    }

    /// Builds the schedule of one stop from the feed snapshot. Never aborts:
    /// entries whose service reference has no calendar are left out of the
    /// schedule and reported by service reference in the second component.
    pub fn from(feed: &FeedSnapshot, stop: &FeedStop) -> (r: (Database, Vec<MissingCalendarError>))
        ensures
            r.0.records@ == spec_build_records(*feed, stop.id@),
            r.1@ == spec_build_skips(*feed, stop.id@),
    {
        let (records, skipped) = Self::fetch(feed, stop);
        (Database { records }, skipped)
    }
}

/// One trip's stop-time entries name the given stop consistently: wherever
/// its identifier occurs, the recorded display name is the stop's name.
pub open spec fn trip_names_stop(trip: FeedTrip, stop_id: Seq<char>, stop_name: Seq<char>) -> bool {
    forall|j: int|
        0 <= j < trip.stop_times@.len() && (#[trigger] trip.stop_times@[j]).stop_id@ == stop_id
            ==> trip.stop_times@[j].stop_name@ == stop_name
}

/// Every trip of the table names the given stop consistently.
pub open spec fn feed_names_stop(trips: Seq<FeedTrip>, stop_id: Seq<char>, stop_name: Seq<char>) -> bool {
    forall|t: int| 0 <= t < trips.len() ==> trip_names_stop(#[trigger] trips[t], stop_id, stop_name)
}

proof fn lemma_stop_time_records_locality(
    route: FeedRoute,
    trip: FeedTrip,
    sts: Seq<FeedStopTime>,
    cals: Seq<FeedCalendar>,
    stop_id: Seq<char>,
    stop_name: Seq<char>,
)
    requires
        forall|j: int|
            0 <= j < sts.len() && (#[trigger] sts[j]).stop_id@ == stop_id ==> sts[j].stop_name@
                == stop_name,
    ensures
        forall|k: int|
            0 <= k < spec_stop_time_records(route, trip, sts, cals, stop_id).len() ==> (
            #[trigger] spec_stop_time_records(route, trip, sts, cals, stop_id)[k]).stop@
                == stop_name,
    decreases sts.len(),
{
    if sts.len() > 0 {
        assert(sts.last() == sts[sts.len() - 1]);
        lemma_stop_time_records_locality(route, trip, sts.drop_last(), cals, stop_id, stop_name);
    }
}

proof fn lemma_trip_records_locality(
    route: FeedRoute,
    trips: Seq<FeedTrip>,
    cals: Seq<FeedCalendar>,
    stop_id: Seq<char>,
    stop_name: Seq<char>,
)
    requires
        feed_names_stop(trips, stop_id, stop_name),
    ensures
        forall|k: int|
            0 <= k < spec_trip_records(route, trips, cals, stop_id).len() ==> (
            #[trigger] spec_trip_records(route, trips, cals, stop_id)[k]).stop@ == stop_name,
    decreases trips.len(),
{
    if trips.len() > 0 {
        assert(trips.last() == trips[trips.len() - 1]);
        lemma_trip_records_locality(route, trips.drop_last(), cals, stop_id, stop_name);
        if trips.last().route_id@ == route.id@ {
            lemma_stop_time_records_locality(
                route,
                trips.last(),
                trips.last().stop_times@,
                cals,
                stop_id,
                stop_name,
            );
        }
    }
}

proof fn lemma_route_records_locality(
    routes: Seq<FeedRoute>,
    trips: Seq<FeedTrip>,
    cals: Seq<FeedCalendar>,
    stop_id: Seq<char>,
    stop_name: Seq<char>,
)
    requires
        feed_names_stop(trips, stop_id, stop_name),
    ensures
        forall|k: int|
            0 <= k < spec_route_records(routes, trips, cals, stop_id).len() ==> (
            #[trigger] spec_route_records(routes, trips, cals, stop_id)[k]).stop@ == stop_name,
    decreases routes.len(),
{
    if routes.len() > 0 {
        lemma_route_records_locality(routes.drop_last(), trips, cals, stop_id, stop_name);
        lemma_trip_records_locality(routes.last(), trips, cals, stop_id, stop_name);
    }
}

/// Record locality: every record of a stop's schedule carries that stop's
/// display name, provided the feed names the stop consistently wherever its
/// identifier occurs in a stop-time entry.
pub proof fn lemma_record_locality(feed: FeedSnapshot, stop: FeedStop)
    requires
        feed_names_stop(feed.trips@, stop.id@, stop.name@),
    ensures
        forall|k: int|
            0 <= k < spec_build_records(feed, stop.id@).len() ==> (#[trigger] spec_build_records(
                feed,
                stop.id@,
            )[k]).stop@ == stop.name@,
{
    lemma_route_records_locality(feed.routes@, feed.trips@, feed.calendars@, stop.id@, stop.name@);
}

/// Determinism: building the same stop's schedule twice from an unchanged
/// feed snapshot yields the same records; in particular the same collection
/// under order-independent equality.
pub proof fn lemma_build_deterministic(
    feed: FeedSnapshot,
    stop_id: Seq<char>,
    r1: Seq<Record>,
    r2: Seq<Record>,
)
    requires
        r1 == spec_build_records(feed, stop_id),
        r2 == spec_build_records(feed, stop_id),
    ensures
        r1 == r2,
        r1.to_multiset() == r2.to_multiset(),
{
}

} // verus!
