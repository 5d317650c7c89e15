//! Calendar windows: the weekdays and date range on which a service runs.

use vstd::prelude::*;

verus! {

/// A calendar date, compared field by field (year, then month, then day).
#[derive(Clone, Copy, PartialEq, Eq, Structural, Debug)]
pub struct Date {
    pub year: u32,
    pub month: u32,
    pub day: u32,
}

/// `a` is on or before `b` in calendar order.
pub open spec fn date_le(a: Date, b: Date) -> bool {
    if a.year != b.year {
        a.year < b.year
    } else if a.month != b.month {
        a.month < b.month
    } else {
        a.day <= b.day
    }
}

impl Date {
    /// Calendar-order comparison, inclusive.
    pub fn le(self, other: Date) -> (r: bool)
        ensures
            r == date_le(self, other),
    {
        if self.year != other.year {
            self.year < other.year
        } else if self.month != other.month {
            self.month < other.month
        } else {
            self.day <= other.day
        }
    }
}

/// A day of the week, as used by the departure query.
#[derive(Clone, Copy, PartialEq, Eq, Structural, Debug)]
pub enum Weekday {
    Monday,
    Tuesday,
    Wednesday,
    Thursday,
    Friday,
    Saturday,
    Sunday,
}

/// The validity window of one service: seven weekday flags plus an
/// inclusive date range.
#[derive(Clone, Copy, PartialEq, Eq, Structural, Debug)]
pub struct CustomCalendar {
    pub monday: bool,
    pub tuesday: bool,
    pub wednesday: bool,
    pub thursday: bool,
    pub friday: bool,
    pub saturday: bool,
    pub sunday: bool,
    pub start_date: Date,
    pub end_date: Date,
}

impl CustomCalendar {
    /// A well-formed window starts no later than it ends.
    pub open spec fn wf(self) -> bool {
        date_le(self.start_date, self.end_date)
    }

    /// The service runs on the given weekday.
    pub open spec fn spec_runs_on(self, day: Weekday) -> bool {
        match day {
            Weekday::Monday => self.monday,
            Weekday::Tuesday => self.tuesday,
            Weekday::Wednesday => self.wednesday,
            Weekday::Thursday => self.thursday,
            Weekday::Friday => self.friday,
            Weekday::Saturday => self.saturday,
            Weekday::Sunday => self.sunday,
        }
    }

    /// The date lies inside the window, both ends inclusive.
    pub open spec fn covers(self, date: Date) -> bool {
        date_le(self.start_date, date) && date_le(date, self.end_date)
    }

    pub fn runs_on(&self, day: Weekday) -> (r: bool)
        ensures
            r == self.spec_runs_on(day),
    {
        match day {
            Weekday::Monday => self.monday,
            Weekday::Tuesday => self.tuesday,
            Weekday::Wednesday => self.wednesday,
            Weekday::Thursday => self.thursday,
            Weekday::Friday => self.friday,
            Weekday::Saturday => self.saturday,
            Weekday::Sunday => self.sunday,
        }
    }

    pub fn covers_date(&self, date: Date) -> (r: bool)
        ensures
            r == self.covers(date),
    {
        self.start_date.le(date) && date.le(self.end_date)
    }
}

/// A window that covers any date at all is well-formed: its start is no
/// later than its end.
pub proof fn lemma_covers_implies_wf(c: CustomCalendar, date: Date)
    requires
        c.covers(date),
    ensures
        c.wf(),
{
}

} // verus!
