//! Days of the week, times of day and the local moment a schedule is checked at.

use chrono::{Datelike, Timelike};
use vstd::prelude::*;

verus! {

/// A day of the week, Monday first.
#[derive(Debug, Clone, Copy, PartialEq, Eq, Structural)]
pub enum Weekday {
    Mon,
    Tue,
    Wed,
    Thu,
    Fri,
    Sat,
    Sun,
}

/// Position of a day counted from Monday (0) to Sunday (6).
pub open spec fn day_number(d: Weekday) -> nat {
    match d {
        Weekday::Mon => 0,
        Weekday::Tue => 1,
        Weekday::Wed => 2,
        Weekday::Thu => 3,
        Weekday::Fri => 4,
        Weekday::Sat => 5,
        Weekday::Sun => 6,
    }
}

/// The day whose position counted from Monday is `i` (Sunday for 6 and above).
pub open spec fn day_from_number(i: nat) -> Weekday {
    if i == 0 {
        Weekday::Mon
    } else if i == 1 {
        Weekday::Tue
    } else if i == 2 {
        Weekday::Wed
    } else if i == 3 {
        Weekday::Thu
    } else if i == 4 {
        Weekday::Fri
    } else if i == 5 {
        Weekday::Sat
    } else {
        Weekday::Sun
    }
}

impl Weekday {
    /// The day whose position counted from Monday is `i`.
    pub fn from_number(i: u32) -> (day: Weekday)
        requires
            i < 7,
        ensures
            day == day_from_number(i as nat),
            day_number(day) == i,
    {
        if i == 0 {
            Weekday::Mon
        } else if i == 1 {
            Weekday::Tue
        } else if i == 2 {
            Weekday::Wed
        } else if i == 3 {
            Weekday::Thu
        } else if i == 4 {
            Weekday::Fri
        } else if i == 5 {
            Weekday::Sat
        } else {
            Weekday::Sun
        }
    }

    /// Position of the day counted from Monday.
    pub fn number(&self) -> (n: u32)
        ensures
            n == day_number(*self),
    {
        match self {
            Weekday::Mon => 0,
            Weekday::Tue => 1,
            Weekday::Wed => 2,
            Weekday::Thu => 3,
            Weekday::Fri => 4,
            Weekday::Sat => 5,
            Weekday::Sun => 6,
        }
    }
}

/// A set of days of the week.
#[derive(Debug, Clone, Copy, PartialEq, Eq, Structural)]
pub struct WeekdaySet {
    mon: bool,
    tue: bool,
    wed: bool,
    thu: bool,
    fri: bool,
    sat: bool,
    sun: bool,
}

impl WeekdaySet {
    /// Whether `d` is in the set.
    pub closed spec fn has(self, d: Weekday) -> bool {
        match d {
            Weekday::Mon => self.mon,
            Weekday::Tue => self.tue,
            Weekday::Wed => self.wed,
            Weekday::Thu => self.thu,
            Weekday::Fri => self.fri,
            Weekday::Sat => self.sat,
            Weekday::Sun => self.sun,
        }
    }
}

impl WeekdaySet {
    /// The set with `d` present or absent as `present` says.
    pub closed spec fn with_day(self, d: Weekday, present: bool) -> WeekdaySet {
        match d {
            Weekday::Mon => WeekdaySet { mon: present, ..self },
            Weekday::Tue => WeekdaySet { tue: present, ..self },
            Weekday::Wed => WeekdaySet { wed: present, ..self },
            Weekday::Thu => WeekdaySet { thu: present, ..self },
            Weekday::Fri => WeekdaySet { fri: present, ..self },
            Weekday::Sat => WeekdaySet { sat: present, ..self },
            Weekday::Sun => WeekdaySet { sun: present, ..self },
        }
    }

    /// Adding or removing a day changes the set of days accordingly.
    pub broadcast proof fn lemma_with_day_view(self, d: Weekday, present: bool)
        ensures
            #[trigger] self.with_day(d, present)@ == if present {
                self@.insert(d)
            } else {
                self@.remove(d)
            },
    {
        assert(self.with_day(d, present)@ =~= if present {
            self@.insert(d)
        } else {
            self@.remove(d)
        });
    }
}

impl WeekdaySet {
    /// Switching a day twice gives back the set.
    pub proof fn lemma_toggle_twice(self, d: Weekday)
        ensures
            self.with_day(d, !self@.contains(d)).with_day(d, self@.contains(d)) == self,
    {
        assert(self@.contains(d) == self.has(d));
    }
}

impl View for WeekdaySet {
    type V = Set<Weekday>;

    open spec fn view(&self) -> Set<Weekday> {
        Set::new(|d: Weekday| self.has(d))
    }
}

impl WeekdaySet {
    /// The set of all seven days.
    pub fn all() -> (s: WeekdaySet)
        ensures
            s@ == Set::<Weekday>::full(),
    {
        let s = WeekdaySet { mon: true, tue: true, wed: true, thu: true, fri: true, sat: true, sun: true };
        assert(s@ =~= Set::<Weekday>::full());
        s
    }

    /// The empty set of days.
    pub fn none() -> (s: WeekdaySet)
        ensures
            s@ == Set::<Weekday>::empty(),
    {
        let s = WeekdaySet {
            mon: false,
            tue: false,
            wed: false,
            thu: false,
            fri: false,
            sat: false,
            sun: false,
        };
        assert(s@ =~= Set::<Weekday>::empty());
        s
    }

    /// Whether `day` is in the set.
    pub fn contains(&self, day: Weekday) -> (b: bool)
        ensures
            b == self@.contains(day),
    {
        match day {
            Weekday::Mon => self.mon,
            Weekday::Tue => self.tue,
            Weekday::Wed => self.wed,
            Weekday::Thu => self.thu,
            Weekday::Fri => self.fri,
            Weekday::Sat => self.sat,
            Weekday::Sun => self.sun,
        }
    }

    /// Sets whether `day` is in the set.
    fn put(&mut self, day: Weekday, present: bool)
        ensures
            *final(self) == old(self).with_day(day, present),
            final(self)@ == if present { old(self)@.insert(day) } else { old(self)@.remove(day) },
    {
        proof {
            old(self).lemma_with_day_view(day, present);
        }
        match day {
            Weekday::Mon => self.mon = present,
            Weekday::Tue => self.tue = present,
            Weekday::Wed => self.wed = present,
            Weekday::Thu => self.thu = present,
            Weekday::Fri => self.fri = present,
            Weekday::Sat => self.sat = present,
            Weekday::Sun => self.sun = present,
        }
    }

    /// Adds `day`; returns whether it was absent before.
    pub fn insert(&mut self, day: Weekday) -> (added: bool)
        ensures
            *final(self) == old(self).with_day(day, true),
            final(self)@ == old(self)@.insert(day),
            added == !old(self)@.contains(day),
    {
        let was = self.contains(day);
        self.put(day, true);
        !was
    }

    /// Removes `day`; returns whether it was present before.
    pub fn remove(&mut self, day: Weekday) -> (removed: bool)
        ensures
            *final(self) == old(self).with_day(day, false),
            final(self)@ == old(self)@.remove(day),
            removed == old(self)@.contains(day),
    {
        let was = self.contains(day);
        self.put(day, false);
        was
    }

    /// Removes every day.
    pub fn clear(&mut self)
        ensures
            final(self)@ == Set::<Weekday>::empty(),
    {
        *self = WeekdaySet::none();
    }
}

/// A time of day: whole seconds past midnight and the nanoseconds within that second
/// (from 1_000_000_000 on, the nanoseconds stand for a leap second).
#[derive(Debug, Clone, Copy, PartialEq, Eq, Structural)]
pub struct ClockTime {
    pub secs: u32,
    pub nanos: u32,
}

/// Times of day in this range are the ones a clock can show.
pub open spec fn clock_time_wf(t: ClockTime) -> bool {
    t.secs < 86400 && t.nanos < 2_000_000_000
}

/// `a` comes strictly before `b` in the day (seconds first, then nanoseconds).
pub open spec fn earlier(a: ClockTime, b: ClockTime) -> bool {
    a.secs < b.secs || (a.secs == b.secs && a.nanos < b.nanos)
}

/// What parsing `text` as `hours:minutes` gives: seconds past midnight and nanoseconds.
pub uninterp spec fn parsed_hour_minute(text: Seq<char>) -> Option<(u32, u32)>;

/// Reads `text` with chrono's `NaiveTime::parse_from_str(text, "%H:%M")`.
/// Trusted: the result is the one the name `parsed_hour_minute` gives for the text
/// (the time's `num_seconds_from_midnight()` and `nanosecond()` on success), and a
/// time that chrono builds lies in the range of a valid time of day.
#[verifier::external_body]
fn chrono_parse_hour_minute(text: &str) -> (r: Option<(u32, u32)>)
    ensures
        r == parsed_hour_minute(text@),
        r matches Some(t) ==> t.0 < 86400 && t.1 < 2_000_000_000,
{
    match chrono::NaiveTime::parse_from_str(text, "%H:%M") {
        Ok(t) => Some((t.num_seconds_from_midnight(), t.nanosecond())),
        Err(_) => None,
    }
}

/// Reads the local clock with chrono's `Local::now()`: day of the week counted from Monday,
/// seconds past midnight and nanoseconds. Trusted: the three lie in the ranges chrono
/// documents (0..7, 0..86400, 0..2_000_000_000); which moment it is, is not stated.
#[verifier::external_body]
fn chrono_local_clock() -> (r: (u32, u32, u32))
    ensures
        r.0 < 7,
        r.1 < 86400,
        r.2 < 2_000_000_000,
{
    let now = chrono::Local::now();
    (now.weekday().num_days_from_monday(), now.num_seconds_from_midnight(), now.nanosecond())
}

impl ClockTime {
    /// The time `hour:minute:00`, if `hour` and `minute` are in range.
    pub fn from_hm(hour: u32, minute: u32) -> (t: Option<ClockTime>)
        ensures
            t is Some <==> hour < 24 && minute < 60,
            t matches Some(t) ==> t.secs == hour * 3600 + minute * 60 && t.nanos == 0,
    {
        if hour < 24 && minute < 60 {
            Some(ClockTime { secs: hour * 3600 + minute * 60, nanos: 0 })
        } else {
            None
        }
    }

    /// Whether `self` comes strictly before `other` in the day.
    pub fn is_before(&self, other: &ClockTime) -> (b: bool)
        ensures
            b == earlier(*self, *other),
    {
        self.secs < other.secs || (self.secs == other.secs && self.nanos < other.nanos)
    }

    /// Parses `hours:minutes` (the `%H:%M` format of chrono).
    pub fn parse_hour_minute(text: &str) -> (t: Option<ClockTime>)
        ensures
            t is Some <==> parsed_hour_minute(text@) is Some,
            t matches Some(t) ==> {
                &&& (t.secs, t.nanos) == parsed_hour_minute(text@)->Some_0
                &&& clock_time_wf(t)
            },
    {
        match chrono_parse_hour_minute(text) {
            Some((secs, nanos)) => Some(ClockTime { secs, nanos }),
            None => None,
        }
    }
}

/// The local moment at which a schedule is evaluated: the day of the week and the time of day.
#[derive(Debug, Clone, Copy, PartialEq, Eq, Structural)]
pub struct LocalMoment {
    pub weekday: Weekday,
    pub time: ClockTime,
}

impl LocalMoment {
    /// The current local moment, read from the system clock.
    pub fn now() -> (m: LocalMoment)
        ensures
            clock_time_wf(m.time),
    {
        let (day, secs, nanos) = chrono_local_clock();
        LocalMoment { weekday: Weekday::from_number(day), time: ClockTime { secs, nanos } }
    }
}

} // verus!
