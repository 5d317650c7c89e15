//! Read-only snapshot of the transit feed: routes, trips with their ordered
//! stop-time sequences, service calendars and stops, held as plain values.
//!
//! The snapshot is built once per feed load by the feed-parsing collaborator
//! and is never mutated afterwards, so concurrent build workers may share it
//! freely.

use vstd::prelude::*;

use crate::calendar::CustomCalendar;

verus! {

/// One entry of a trip's stop-time sequence: the stop visited, its recorded
/// display name, and the optional arrival offset in seconds since midnight
/// of the service day.
pub struct FeedStopTime {
    pub stop_id: String,
    pub stop_name: String,
    pub arrival_time: Option<u32>,
}

/// One scheduled run of a route, with its ordered stop-time sequence.
pub struct FeedTrip {
    pub id: String,
    pub route_id: String,
    pub service_id: String,
    pub stop_times: Vec<FeedStopTime>,
}

/// A named transit line.
pub struct FeedRoute {
    pub id: String,
    pub short_name: String,
}

/// A service calendar, keyed by its service reference.
pub struct FeedCalendar {
    pub service_id: String,
    pub calendar: CustomCalendar,
}

/// A stop: identifier and display name.
pub struct FeedStop {
    pub id: String,
    pub name: String,
}

/// The feed tables, indexed by position; lookups scan by identifier.
pub struct FeedSnapshot {
    pub routes: Vec<FeedRoute>,
    pub trips: Vec<FeedTrip>,
    pub calendars: Vec<FeedCalendar>,
    pub stops: Vec<FeedStop>,
}

/// The calendar of the first entry whose service reference matches, if any.
pub open spec fn spec_calendar_for(cals: Seq<FeedCalendar>, service_id: Seq<char>) -> Option<
    CustomCalendar,
>
    decreases cals.len(),
{
    if cals.len() == 0 {
        None
    } else if cals[0].service_id@ == service_id {
        Some(cals[0].calendar)
    } else {
        spec_calendar_for(cals.drop_first(), service_id)
    }
}

impl Clone for FeedStopTime {
    fn clone(&self) -> (r: Self)
        ensures
            r == *self,
    {
        FeedStopTime {
            stop_id: self.stop_id.clone(),
            stop_name: self.stop_name.clone(),
            arrival_time: self.arrival_time,
        }
    }
}

impl Clone for FeedStop {
    fn clone(&self) -> (r: Self)
        ensures
            r == *self,
    {
        FeedStop { id: self.id.clone(), name: self.name.clone() }
    }
}

impl FeedSnapshot {
    /// Looks a calendar up by service reference.
    pub fn get_calendar(&self, service_id: &String) -> (r: Option<CustomCalendar>)
        ensures
            r == spec_calendar_for(self.calendars@, service_id@),
    {
        let n = self.calendars.len();
        let mut i: usize = 0;
        assert(self.calendars@.skip(0) =~= self.calendars@);
        while i < n
            invariant
                n == self.calendars@.len(),
                i <= n,
                spec_calendar_for(self.calendars@.skip(i as int), service_id@)
                    == spec_calendar_for(self.calendars@, service_id@),
            decreases n - i,
        {
            assert(self.calendars@.skip(i as int)[0] == self.calendars@[i as int]);
            if self.calendars[i].service_id == *service_id {
                return Some(self.calendars[i].calendar);
            }
            assert(self.calendars@.skip(i as int).drop_first() =~= self.calendars@.skip(
                i as int + 1,
            ));
            i = i + 1;
        }
        assert(self.calendars@.skip(n as int) =~= Seq::<FeedCalendar>::empty());
        None
    }
}

} // verus!
