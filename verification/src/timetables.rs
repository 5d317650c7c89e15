//! The departure query engine: filters a stop's schedule records by
//! calendar date, weekday and time of day, orders them by scheduled offset,
//! and takes at most a caller-given number from the front.
//!
//! The pipeline is pure and deterministic in the schedule, the query
//! instant, the weekday and the limit; it never fails, and an empty result
//! is a valid outcome.

use vstd::prelude::*;

use crate::calendar::Date;
use crate::calendar::Weekday;
use crate::config::Stop;
use crate::db::Record;

verus! {

/// Seconds in one service day; offsets above it belong to a trip of the
/// previous service day that runs past midnight.
pub const SECONDS_PER_DAY: u32 = 86400;

/// A query instant: the date, its weekday, and the time of day in seconds
/// since midnight.
#[derive(Clone, Copy, PartialEq, Eq, Structural, Debug)]
pub struct Moment {
    pub date: Date,
    pub weekday: Weekday,
    pub seconds: u32,
}

/// A record passes the query filter: its calendar covers the date, its
/// weekday flag is set, and its offset is present and either past one day
/// (kept unconditionally) or at or after the time of day of the instant.
pub open spec fn spec_keeps(r: Record, m: Moment) -> bool {
    &&& r.calendar.covers(m.date)
    &&& r.calendar.spec_runs_on(m.weekday)
    &&& match r.stop_time {
        Some(t) => t > SECONDS_PER_DAY || t >= m.seconds,
        None => false,
    }
}

/// Order on records by scheduled offset; an absent offset sorts first.
pub open spec fn record_le(a: Record, b: Record) -> bool {
    match (a.stop_time, b.stop_time) {
        (Option::None, _) => true,
        (Option::Some(_), Option::None) => false,
        (Option::Some(x), Option::Some(y)) => x <= y,
    }
}

/// Non-decreasing in scheduled offset.
pub open spec fn sorted_by_time(s: Seq<Record>) -> bool {
    forall|i: int, j: int| 0 <= i <= j < s.len() ==> record_le(s[i], s[j])
}

/// The records of the schedule that pass the filter, in schedule order.
pub open spec fn spec_filter_departures(s: Seq<Record>, m: Moment) -> Seq<Record>
    decreases s.len(),
{
    if s.len() == 0 {
        Seq::empty()
    } else {
        spec_filter_departures(s.drop_last(), m) + (
        if spec_keeps(s.last(), m) {
            seq![s.last()]
        } else {
            Seq::empty()
        })
    }
}

/// Insertion after every element that sorts at or before the new record.
pub open spec fn spec_insert_sorted(s: Seq<Record>, r: Record) -> Seq<Record>
    decreases s.len(),
{
    if s.len() > 0 && record_le(s[0], r) {
        seq![s[0]] + spec_insert_sorted(s.drop_first(), r)
    } else {
        seq![r] + s
    }
}

/// Insertion sort of the sequence, stable over equal offsets.
pub open spec fn spec_sort_by_time(s: Seq<Record>) -> Seq<Record>
    decreases s.len(),
{
    if s.len() == 0 {
        Seq::empty()
    } else {
        spec_insert_sorted(spec_sort_by_time(s.drop_last()), s.last())
    }
}

/// The query pipeline before limiting: filter, then order by offset.
pub open spec fn spec_next_departures(s: Seq<Record>, m: Moment) -> Seq<Record> {
    spec_sort_by_time(spec_filter_departures(s, m))
}

proof fn lemma_insert_sorted_keeps_sorted(s: Seq<Record>, r: Record)
    requires
        sorted_by_time(s),
    ensures
        sorted_by_time(spec_insert_sorted(s, r)),
        spec_insert_sorted(s, r).len() == s.len() + 1,
    decreases s.len(),
{
    if s.len() > 0 && record_le(s[0], r) {
        assert(sorted_by_time(s.drop_first())) by {
            assert(forall|i: int, j: int|
                0 <= i <= j < s.drop_first().len() ==> record_le(
                    #[trigger] s.drop_first()[i],
                    #[trigger] s.drop_first()[j],
                ));
        }
        lemma_insert_sorted_keeps_sorted(s.drop_first(), r);
        let out = spec_insert_sorted(s, r);
        let tail = spec_insert_sorted(s.drop_first(), r);
        assert forall|i: int, j: int| 0 <= i <= j < out.len() implies record_le(
            out[i],
            out[j],
        ) by {
            if i == 0 && j > 0 {
                assert(out[j] == tail[j - 1]);
                lemma_insert_sorted_element(s.drop_first(), r, j - 1);
                if tail[j - 1] == r {
                    assert(record_le(s[0], r));
                } else {
                    assert(s.drop_first().contains(tail[j - 1]));
                    let k = choose|k: int|
                        0 <= k < s.drop_first().len() && s.drop_first()[k] == tail[j - 1];
                    assert(record_le(s[0], s[k + 1]));
                }
            } else if i > 0 {
                assert(out[i] == tail[i - 1]);
                assert(out[j] == tail[j - 1]);
            }
        }
    } else {
        let out = spec_insert_sorted(s, r);
        assert forall|i: int, j: int| 0 <= i <= j < out.len() implies record_le(
            out[i],
            out[j],
        ) by {
            if i == 0 && j > 0 {
                assert(out[j] == s[j - 1]);
                assert(record_le(s[0], s[j - 1]));
            } else if i > 0 {
                assert(out[i] == s[i - 1]);
                assert(out[j] == s[j - 1]);
                assert(record_le(s[i - 1], s[j - 1]));
            }
        }
    }
}

/// Every element of the insertion result is the new record or one of the
/// sequence's elements.
proof fn lemma_insert_sorted_element(s: Seq<Record>, r: Record, i: int)
    requires
        0 <= i < spec_insert_sorted(s, r).len(),
    ensures
        spec_insert_sorted(s, r)[i] == r || s.contains(spec_insert_sorted(s, r)[i]),
    decreases s.len(),
{
    if s.len() > 0 && record_le(s[0], r) {
        if i > 0 {
            lemma_insert_sorted_element(s.drop_first(), r, i - 1);
            let x = spec_insert_sorted(s.drop_first(), r)[i - 1];
            if x != r {
                let k = choose|k: int| 0 <= k < s.drop_first().len() && s.drop_first()[k] == x;
                assert(s[k + 1] == x);
            }
        } else {
            assert(s.contains(s[0]));
        }
    } else {
        if i > 0 {
            assert(s.contains(s[i - 1]));
        }
    }
}

proof fn lemma_sort_sorted(s: Seq<Record>)
    ensures
        sorted_by_time(spec_sort_by_time(s)),
        spec_sort_by_time(s).len() == s.len(),
    decreases s.len(),
{
    if s.len() > 0 {
        lemma_sort_sorted(s.drop_last());
        lemma_insert_sorted_keeps_sorted(spec_sort_by_time(s.drop_last()), s.last());
    }
}

/// Every element of the sorted sequence is an element of the input.
proof fn lemma_sort_element(s: Seq<Record>, i: int)
    requires
        0 <= i < spec_sort_by_time(s).len(),
    ensures
        s.contains(spec_sort_by_time(s)[i]),
    decreases s.len(),
{
    if s.len() > 0 {
        lemma_insert_sorted_element(spec_sort_by_time(s.drop_last()), s.last(), i);
        let x = spec_sort_by_time(s)[i];
        if x == s.last() {
            assert(s[s.len() - 1] == x);
        } else {
            let k = choose|k: int|
                0 <= k < spec_sort_by_time(s.drop_last()).len() && spec_sort_by_time(
                    s.drop_last(),
                )[k] == x;
            lemma_sort_element(s.drop_last(), k);
            let k2 = choose|k2: int| 0 <= k2 < s.drop_last().len() && s.drop_last()[k2] == x;
            assert(s[k2] == x);
        }
    }
}

/// Every element of the filtered sequence passes the filter.
proof fn lemma_filter_element(s: Seq<Record>, m: Moment, i: int)
    requires
        0 <= i < spec_filter_departures(s, m).len(),
    ensures
        spec_keeps(spec_filter_departures(s, m)[i], m),
    decreases s.len(),
{
    if s.len() > 0 {
        if i < spec_filter_departures(s.drop_last(), m).len() {
            lemma_filter_element(s.drop_last(), m, i);
        }
    }
}

fn keeps(r: &Record, m: &Moment) -> (b: bool)
    ensures
        b == spec_keeps(*r, *m),
{
    if !r.calendar.covers_date(m.date) {
        return false;
    }
    if !r.calendar.runs_on(m.weekday) {
        return false;
    }
    match r.stop_time {
        Some(t) => t > SECONDS_PER_DAY || t >= m.seconds,
        None => false,
    }
}

fn record_le_exec(a: &Record, b: &Record) -> (r: bool)
    ensures
        r == record_le(*a, *b),
{
    match (a.stop_time, b.stop_time) {
        (Option::None, _) => true,
        (Option::Some(_), Option::None) => false,
        (Option::Some(x), Option::Some(y)) => x <= y,
    }
}

/// The insertion point found by a forward scan realizes the insertion
/// specification.
proof fn lemma_insert_at_position(s: Seq<Record>, r: Record, j: int)
    requires
        0 <= j <= s.len(),
        forall|k: int| 0 <= k < j ==> record_le(#[trigger] s[k], r),
        j < s.len() ==> !record_le(s[j], r),
    ensures
        spec_insert_sorted(s, r) == s.insert(j, r),
    decreases j,
{
    if j == 0 {
        assert(spec_insert_sorted(s, r) =~= s.insert(0, r));
    } else {
        lemma_insert_at_position(s.drop_first(), r, j - 1);
        assert(spec_insert_sorted(s, r) =~= s.insert(j, r));
    }
}

fn insert_sorted(out: &mut Vec<Record>, r: Record)
    ensures
        final(out)@ == spec_insert_sorted(old(out)@, r),
{
    let mut j: usize = 0;
    while j < out.len() && record_le_exec(&out[j], &r)
        invariant
            j <= out@.len(),
            out@ == old(out)@,
            forall|k: int| 0 <= k < j ==> record_le(#[trigger] out@[k], r),
        decreases out@.len() - j,
    {
        j = j + 1;
    }
    proof {
        lemma_insert_at_position(out@, r, j as int);
    }
    out.insert(j, r);
}

/// Insertion sort by scheduled offset; exact down to the placement of equal
/// offsets, which keep their input order.
fn sort_by_time(v: Vec<Record>) -> (r: Vec<Record>)
    ensures
        r@ == spec_sort_by_time(v@),
{
    let ghost all = v@;
    let mut rest = v;
    let mut out: Vec<Record> = Vec::new();
    assert(all.take(0) =~= Seq::<Record>::empty());
    assert(all.skip(0) =~= all);
    while rest.len() > 0
        invariant
            rest@.len() <= all.len(),
            rest@ == all.skip(all.len() - rest@.len()),
            out@ == spec_sort_by_time(all.take(all.len() - rest@.len())),
        decreases rest@.len(),
    {
        let ghost done = all.len() - rest@.len();
        proof {
            assert(all.take(done + 1).drop_last() =~= all.take(done));
            assert(all.take(done + 1).last() == all[done]);
            assert(all.skip(done)[0] == all[done]);
            assert(all.skip(done).drop_first() =~= all.skip(done + 1));
        }
        let r = rest.remove(0);
        insert_sorted(&mut out, r);
    }
    assert(all.take(all.len() as int) =~= all);
    out
}

fn filter_departures(records: &Vec<Record>, m: &Moment) -> (r: Vec<Record>)
    ensures
        r@ == spec_filter_departures(records@, *m),
{
    let mut kept: Vec<Record> = Vec::new();
    let n = records.len();
    let mut i: usize = 0;
    assert(records@.take(0) =~= Seq::<Record>::empty());
    while i < n
        invariant
            n == records@.len(),
            i <= n,
            kept@ == spec_filter_departures(records@.take(i as int), *m),
        decreases n - i,
    {
        proof {
            assert(records@.take(i as int + 1).drop_last() =~= records@.take(i as int));
            assert(records@.take(i as int + 1).last() == records@[i as int]);
        }
        let r = &records[i];
        if keeps(r, m) {
            kept.push(r.clone());
        }
        i = i + 1;
    }
    assert(records@.take(n as int) =~= records@);
    kept
}

/// The filter-and-order pipeline over one schedule's records.
fn next_departures(records: &Vec<Record>, now: &Moment) -> (r: Vec<Record>)
    ensures
        r@ == spec_next_departures(records@, *now),
        sorted_by_time(r@),
        forall|i: int| 0 <= i < r@.len() ==> spec_keeps(#[trigger] r@[i], *now),
{
    let kept = filter_departures(records, now);
    let ordered = sort_by_time(kept);
    proof {
        let filtered = spec_filter_departures(records@, *now);
        lemma_sort_sorted(filtered);
        assert forall|i: int| 0 <= i < ordered@.len() implies spec_keeps(
            #[trigger] ordered@[i],
            *now,
        ) by {
            lemma_sort_element(filtered, i);
            let k = choose|k: int| 0 <= k < filtered.len() && filtered[k] == ordered@[i];
            lemma_filter_element(records@, *now, k);
        }
    }
    ordered
}

/// A departure listing of one stop: the stop's display name, its resolved
/// terminating stop's name, and the filtered and ordered records.
pub struct Departure {
    pub stop_name: String,
    pub terminating_stop: String,
    pub departures: Vec<Record>,
}

/// The timetable reader over the built stop schedules.
pub struct Timetables {
    pub stops: Vec<Stop>,
}

impl Timetables {
    pub fn new(stops: Vec<Stop>) -> (r: Timetables)
        ensures
            r.stops == stops,
    {
        Timetables { stops }
    }

    /// The departures of one stop at the given instant: the schedule's
    /// records that pass the date, weekday and time-of-day filter, ordered
    /// by scheduled offset.
    pub fn get_next_departures(&self, stop: &Stop, now: &Moment) -> (r: Vec<Record>)
        ensures
            r@ == spec_next_departures(stop.database.records@, *now),
            sorted_by_time(r@),
            forall|i: int| 0 <= i < r@.len() ==> spec_keeps(#[trigger] r@[i], *now),
    {
        next_departures(&stop.database.records, now)
    }

    /// One departure listing per configured stop, in configuration order.
    pub fn get_departures(&self, now: &Moment) -> (r: Vec<Departure>)
        ensures
            r@.len() == self.stops@.len(),
            forall|i: int|
                0 <= i < self.stops@.len() ==> {
                    &&& (#[trigger] r@[i]).stop_name@ == self.stops@[i].name@
                    &&& r@[i].terminating_stop@ == self.stops@[i].terminating_stop@
                    &&& r@[i].departures@ == spec_next_departures(
                        self.stops@[i].database.records@,
                        *now,
                    )
                },
    {
        let mut departures: Vec<Departure> = Vec::new();
        let n = self.stops.len();
        let mut i: usize = 0;
        while i < n
            invariant
                n == self.stops@.len(),
                i <= n,
                departures@.len() == i,
                forall|k: int|
                    0 <= k < i ==> {
                        &&& (#[trigger] departures@[k]).stop_name@ == self.stops@[k].name@
                        &&& departures@[k].terminating_stop@ == self.stops@[k].terminating_stop@
                        &&& departures@[k].departures@ == spec_next_departures(
                            self.stops@[k].database.records@,
                            *now,
                        )
                    },
            decreases n - i,
        {
            let stop = &self.stops[i];
            let next = self.get_next_departures(stop, now);
            departures.push(
                Departure {
                    stop_name: stop.name.clone(),
                    terminating_stop: stop.terminating_stop.clone(),
                    departures: next,
                },
            );
            i = i + 1;
        }
        departures
    }
}

/// At most `limit` records from the front, in order: the longest prefix not
/// longer than the limit.
pub fn limit_departures(records: &Vec<Record>, limit: usize) -> (r: Vec<Record>)
    ensures
        r@.len() == if limit <= records@.len() {
            limit as int
        } else {
            records@.len() as int
        },
        r@ == records@.take(r@.len() as int),
        r@.len() <= limit,
{
    let mut out: Vec<Record> = Vec::new();
    let n = if limit < records.len() {
        limit
    } else {
        records.len()
    };
    let mut i: usize = 0;
    while i < n
        invariant
            n <= records@.len(),
            i <= n,
            out@.len() == i,
            out@ == records@.take(i as int),
        decreases n - i,
    {
        proof {
            assert(records@.take(i as int + 1).drop_last() =~= records@.take(i as int));
            assert(records@.take(i as int + 1).last() == records@[i as int]);
        }
        out.push(records[i].clone());
        assert(out@ =~= records@.take(i as int + 1));
        i = i + 1;
    }
    out
}

/// The departure query of one stop's schedule: filter, order, and take at
/// most `limit` records from the front. The result is a prefix of the full
/// filtered-and-ordered sequence and never exceeds the limit.
pub fn query(stop: &Stop, now: &Moment, limit: usize) -> (r: Vec<Record>)
    ensures
        r@ == spec_next_departures(stop.database.records@, *now).take(
            if limit <= spec_next_departures(stop.database.records@, *now).len() {
                limit as int
            } else {
                spec_next_departures(stop.database.records@, *now).len() as int
            },
        ),
        r@.len() <= limit,
        sorted_by_time(r@),
        forall|i: int| 0 <= i < r@.len() ==> spec_keeps(#[trigger] r@[i], *now),
{
    let full = next_departures(&stop.database.records, now);
    let limited = limit_departures(&full, limit);
    proof {
        let whole = spec_next_departures(stop.database.records@, *now);
        assert forall|i: int, j: int| 0 <= i <= j < limited@.len() implies record_le(
            limited@[i],
            limited@[j],
        ) by {
            assert(limited@[i] == whole[i]);
            assert(limited@[j] == whole[j]);
        }
        assert forall|i: int| 0 <= i < limited@.len() implies spec_keeps(
            #[trigger] limited@[i],
            *now,
        ) by {
            assert(limited@[i] == full@[i]);
        }
    }
    limited
}

} // verus!
