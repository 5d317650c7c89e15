//! Configured stops: each user-chosen stop with its display name, its
//! resolved terminating stop's name, and its built schedule.

use vstd::prelude::*;

use crate::db::spec_build_records;
use crate::db::spec_build_skips;
use crate::db::Database;
use crate::db::MissingCalendarError;
use crate::feed::FeedSnapshot;
use crate::wizard::FoundStop;

verus! {

/// One configured stop: identifier, display name, the display name of the
/// terminating stop, and the stop's schedule.
pub struct Stop {
    pub id: String,
    pub name: String,
    pub terminating_stop: String,
    pub database: Database,
}

/// The skipped entries of building every chosen stop, in stop order.
pub open spec fn spec_stops_skips(feed: FeedSnapshot, stops: Seq<FoundStop>) -> Seq<MissingCalendarError>
    decreases stops.len(),
{
    if stops.len() == 0 {
        Seq::empty()
    } else {
        spec_stops_skips(feed, stops.drop_last()) + spec_build_skips(
            feed,
            stops.last().stop.id@,
        )
    }
}

/// Builds the schedule of every chosen stop from the feed snapshot; the
/// second component reports the skipped entries of all builds together.
pub fn build_stops_database(feed: &FeedSnapshot, stops: &Vec<FoundStop>) -> (r: (
    Vec<Stop>,
    Vec<MissingCalendarError>,
))
    ensures
        r.0@.len() == stops@.len(),
        forall|i: int|
            0 <= i < stops@.len() ==> {
                &&& (#[trigger] r.0@[i]).id@ == stops@[i].id@
                &&& r.0@[i].name@ == stops@[i].stop.name@
                &&& r.0@[i].terminating_stop@ == stops@[i].terminating_stop.name@
                &&& r.0@[i].database.records@ == spec_build_records(*feed, stops@[i].stop.id@)
            },
        r.1@ == spec_stops_skips(*feed, stops@),
{
    let mut processed: Vec<Stop> = Vec::new();
    let mut skipped: Vec<MissingCalendarError> = Vec::new();
    let n = stops.len();
    let mut i: usize = 0;
    assert(stops@.take(0) =~= Seq::<FoundStop>::empty());
    while i < n
        invariant
            n == stops@.len(),
            i <= n,
            processed@.len() == i,
            forall|k: int|
                0 <= k < i ==> {
                    &&& (#[trigger] processed@[k]).id@ == stops@[k].id@
                    &&& processed@[k].name@ == stops@[k].stop.name@
                    &&& processed@[k].terminating_stop@ == stops@[k].terminating_stop.name@
                    &&& processed@[k].database.records@ == spec_build_records(
                        *feed,
                        stops@[k].stop.id@,
                    )
                },
            skipped@ == spec_stops_skips(*feed, stops@.take(i as int)),
        decreases n - i,
    {
        proof {
            assert(stops@.take(i as int + 1).drop_last() =~= stops@.take(i as int));
            assert(stops@.take(i as int + 1).last() == stops@[i as int]);
        }
        let found_stop = &stops[i];
        let (database, mut skips) = Database::from(feed, &found_stop.stop);
        processed.push(
            Stop {
                id: found_stop.id.clone(),
                name: found_stop.stop.name.clone(),
                terminating_stop: found_stop.terminating_stop.name.clone(),
                database,
            },
        );
        skipped.append(&mut skips);
        i = i + 1;
    }
    assert(stops@.take(n as int) =~= stops@);
    (processed, skipped)
}

/// The position of the first stop with the given identifier, if any.
pub open spec fn spec_find_stop(stops: Seq<FoundStop>, id: Seq<char>) -> Option<int>
    decreases stops.len(),
{
    if stops.len() == 0 {
        None
    } else if stops[0].id@ == id {
        Some(0)
    } else {
        match spec_find_stop(stops.drop_first(), id) {
            Some(i) => Some(i + 1),
            None => None,
        }
    }
}

/// Removes the first stop with the given identifier, handing it back; the
/// list is unchanged when no stop carries the identifier.
pub fn remove_stop_by_id(stops: &mut Vec<FoundStop>, id: &String) -> (r: Option<FoundStop>)
    ensures
        match spec_find_stop(old(stops)@, id@) {
            Some(i) => r == Some(old(stops)@[i]) && final(stops)@ == old(stops)@.remove(i),
            None => r is None && final(stops)@ == old(stops)@,
        },
{
    let ghost orig = stops@;
    let n = stops.len();
    let mut i: usize = 0;
    assert(stops@.skip(0) =~= stops@);
    while i < n
        invariant
            orig == old(stops)@,
            n == orig.len(),
            i <= n,
            stops@ == orig,
            forall|k: int| 0 <= k < i ==> (#[trigger] orig[k]).id@ != id@,
            match spec_find_stop(orig.skip(i as int), id@) {
                Some(j) => spec_find_stop(orig, id@) == Some(j + i),
                None => spec_find_stop(orig, id@) is None,
            },
        decreases n - i,
    {
        assert(stops@.skip(i as int)[0] == stops@[i as int]);
        if stops[i].id == *id {
            proof {
                assert(orig.skip(i as int)[0].id@ == id@);
                assert(spec_find_stop(orig.skip(i as int), id@) == Some(0int));
                assert(spec_find_stop(orig, id@) == Some(i as int));
            }
            let removed = stops.remove(i);
            return Some(removed);
        }
        assert(stops@.skip(i as int).drop_first() =~= stops@.skip(i as int + 1));
        i = i + 1;
    }
    assert(stops@.skip(n as int) =~= Seq::<FoundStop>::empty());
    None
}

} // verus!
