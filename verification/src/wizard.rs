//! Stop selection support: finding stops by name and resolving, for each
//! stop, the terminating stop of the first trip that serves it.
//!
//! Terminus resolution never fails: a stop served by no trip resolves to
//! itself.

use vstd::prelude::*;

use crate::feed::FeedSnapshot;
use crate::feed::FeedStop;
use crate::feed::FeedTrip;

verus! {

/// A stop chosen by the user, together with its resolved terminating stop.
pub struct FoundStop {
    pub id: String,
    pub stop: FeedStop,
    pub terminating_stop: FeedStop,
}

impl Clone for FoundStop {
    fn clone(&self) -> (r: Self)
        ensures
            r == *self,
    {
        FoundStop {
            id: self.id.clone(),
            stop: self.stop.clone(),
            terminating_stop: self.terminating_stop.clone(),
        }
    }
}

/// Some entry of the trip's stop-time sequence visits the stop.
pub open spec fn spec_trip_serves(trip: FeedTrip, stop_id: Seq<char>) -> bool {
    exists|j: int|
        0 <= j < trip.stop_times@.len() && (#[trigger] trip.stop_times@[j]).stop_id@ == stop_id
}

/// The first trip of the table that serves the stop, if any.
pub open spec fn spec_first_serving(trips: Seq<FeedTrip>, stop_id: Seq<char>) -> Option<FeedTrip>
    decreases trips.len(),
{
    if trips.len() == 0 {
        None
    } else if spec_trip_serves(trips[0], stop_id) {
        Some(trips[0])
    } else {
        spec_first_serving(trips.drop_first(), stop_id)
    }
}

/// The stop where a trip ends: the last entry of its stop-time sequence.
pub open spec fn spec_trip_terminus(trip: FeedTrip) -> FeedStop {
    FeedStop {
        id: trip.stop_times@.last().stop_id,
        name: trip.stop_times@.last().stop_name,
    }
}

/// A stop's terminating stop: where the first trip serving it ends, or the
/// stop itself when no trip serves it.
pub open spec fn spec_terminus(feed: FeedSnapshot, stop: FeedStop) -> FeedStop {
    match spec_first_serving(feed.trips@, stop.id@) {
        Some(trip) => spec_trip_terminus(trip),
        None => stop,
    }
}

proof fn lemma_first_serving_none(trips: Seq<FeedTrip>, stop_id: Seq<char>)
    requires
        forall|t: int| 0 <= t < trips.len() ==> !spec_trip_serves(#[trigger] trips[t], stop_id),
    ensures
        spec_first_serving(trips, stop_id) is None,
    decreases trips.len(),
{
    if trips.len() > 0 {
        assert forall|t: int| 0 <= t < trips.drop_first().len() implies !spec_trip_serves(
            #[trigger] trips.drop_first()[t],
            stop_id,
        ) by {
            assert(trips.drop_first()[t] == trips[t + 1]);
        }
        lemma_first_serving_none(trips.drop_first(), stop_id);
    }
}

/// Terminus fallback: a stop served by no trip of the feed resolves to
/// itself.
pub proof fn lemma_terminus_fallback(feed: FeedSnapshot, stop: FeedStop)
    requires
        forall|t: int|
            0 <= t < feed.trips@.len() ==> !spec_trip_serves(#[trigger] feed.trips@[t], stop.id@),
    ensures
        spec_terminus(feed, stop) == stop,
{
    lemma_first_serving_none(feed.trips@, stop.id@);
}

fn trip_serves(trip: &FeedTrip, stop_id: &String) -> (r: bool)
    ensures
        r == spec_trip_serves(*trip, stop_id@),
{
    let n = trip.stop_times.len();
    let mut j: usize = 0;
    while j < n
        invariant
            n == trip.stop_times@.len(),
            j <= n,
            forall|k: int| 0 <= k < j ==> (#[trigger] trip.stop_times@[k]).stop_id@ != stop_id@,
        decreases n - j,
    {
        if trip.stop_times[j].stop_id == *stop_id {
            assert(spec_trip_serves(*trip, stop_id@)) by {
                assert(trip.stop_times@[j as int].stop_id@ == stop_id@);
            }
            return true;
        }
        j = j + 1;
    }
    false
}

/// Seeks the last stop (terminating station) for the given stop, based on
/// the first trip of the table whose stop-time sequence visits it.
pub fn get_terminating_trip_stop_for_stop(feed: &FeedSnapshot, stop: &FeedStop) -> (r: FeedStop)
    ensures
        r == spec_terminus(*feed, *stop),
{
    let n = feed.trips.len();
    let mut i: usize = 0;
    assert(feed.trips@.skip(0) =~= feed.trips@);
    while i < n
        invariant
            n == feed.trips@.len(),
            i <= n,
            spec_first_serving(feed.trips@.skip(i as int), stop.id@) == spec_first_serving(
                feed.trips@,
                stop.id@,
            ),
        decreases n - i,
    {
        assert(feed.trips@.skip(i as int)[0] == feed.trips@[i as int]);
        let trip = &feed.trips[i];
        if trip_serves(trip, &stop.id) {
            proof {
                let j = choose|j: int|
                    0 <= j < trip.stop_times@.len() && (#[trigger] trip.stop_times@[j]).stop_id@
                        == stop.id@;
            }
            let m = trip.stop_times.len();
            let last = &trip.stop_times[m - 1];
            return FeedStop { id: last.stop_id.clone(), name: last.stop_name.clone() };
        }
        assert(feed.trips@.skip(i as int).drop_first() =~= feed.trips@.skip(i as int + 1));
        i = i + 1;
    }
    assert(feed.trips@.skip(n as int) =~= Seq::<FeedTrip>::empty());
    FeedStop { id: stop.id.clone(), name: stop.name.clone() }
}

/// The query occurs in the name as a contiguous substring.
pub open spec fn spec_name_contains(name: Seq<char>, query: Seq<char>) -> bool {
    exists|i: int|
        0 <= i && i + query.len() <= name.len() && #[trigger] name.subrange(
            i,
            i + query.len() as int,
        ) == query
}

/// Relies on str::contains with a string pattern: true exactly when some
/// contiguous substring of the string equals the pattern.
#[verifier::external_body]
fn name_contains(name: &String, query: &String) -> (r: bool)
    ensures
        r == spec_name_contains(name@, query@),
{
    name.as_str().contains(query.as_str())
}

/// The stops whose display name contains the query, in table order.
pub open spec fn spec_seek_stops(stops: Seq<FeedStop>, query: Seq<char>) -> Seq<FeedStop>
    decreases stops.len(),
{
    if stops.len() == 0 {
        Seq::empty()
    } else {
        spec_seek_stops(stops.drop_last(), query) + (
        if spec_name_contains(stops.last().name@, query) {
            seq![stops.last()]
        } else {
            Seq::empty()
        })
    }
}

/// Finds the stops of the feed whose display name contains the query.
pub fn seek_stops(feed: &FeedSnapshot, query: &String) -> (r: Vec<FeedStop>)
    ensures
        r@ == spec_seek_stops(feed.stops@, query@),
{
    let mut found: Vec<FeedStop> = Vec::new();
    let n = feed.stops.len();
    let mut i: usize = 0;
    assert(feed.stops@.take(0) =~= Seq::<FeedStop>::empty());
    while i < n
        invariant
            n == feed.stops@.len(),
            i <= n,
            found@ == spec_seek_stops(feed.stops@.take(i as int), query@),
        decreases n - i,
    {
        proof {
            assert(feed.stops@.take(i as int + 1).drop_last() =~= feed.stops@.take(i as int));
            assert(feed.stops@.take(i as int + 1).last() == feed.stops@[i as int]);
        }
        let stop = &feed.stops[i];
        if name_contains(&stop.name, query) {
            found.push(stop.clone());
        }
        i = i + 1;
    }
    assert(feed.stops@.take(n as int) =~= feed.stops@);
    found
}

/// Resolves, for each found stop, its terminating stop.
pub fn attach_terminating_stops(feed: &FeedSnapshot, found: &Vec<FeedStop>) -> (r: Vec<FoundStop>)
    ensures
        r@.len() == found@.len(),
        forall|i: int|
            0 <= i < found@.len() ==> (#[trigger] r@[i]) == (FoundStop {
                id: found@[i].id,
                stop: found@[i],
                terminating_stop: spec_terminus(*feed, found@[i]),
            }),
{
    let mut out: Vec<FoundStop> = Vec::new();
    let n = found.len();
    let mut i: usize = 0;
    while i < n
        invariant
            n == found@.len(),
            i <= n,
            out@.len() == i,
            forall|k: int|
                0 <= k < i ==> (#[trigger] out@[k]) == (FoundStop {
                    id: found@[k].id,
                    stop: found@[k],
                    terminating_stop: spec_terminus(*feed, found@[k]),
                }),
        decreases n - i,
    {
        let stop = &found[i];
        let terminus = get_terminating_trip_stop_for_stop(feed, stop);
        out.push(FoundStop { id: stop.id.clone(), stop: stop.clone(), terminating_stop: terminus });
        i = i + 1;
    }
    out
}

} // verus!
