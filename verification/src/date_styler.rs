use vstd::prelude::*;
use crate::dates::{MAX_DAY, iso_date_of, parse_iso_date};

verus! {

/// How a calendar day is displayed: unmarked, completed, or part of the
/// active (hot) streak.
#[derive(Clone, Copy, Debug, PartialEq, Eq, Structural)]
pub enum DateClass {
    Plain,
    Completed,
    ActiveStreak,
}

/// The day numbers that a list of ISO 8601 date strings denotes, with
/// strings that do not parse — or denote a day outside the representable
/// range — dropped silently: one corrupt record must not make the
/// calendar unusable.
pub open spec fn parsed_days(strings: Seq<Seq<char>>) -> Seq<u32>
    decreases strings.len(),
{
    if strings.len() == 0 {
        Seq::empty()
    } else {
        parsed_days(strings.drop_last()) + match iso_date_of(strings.last()) {
            Some(j) => if 0 <= j <= MAX_DAY {
                seq![j as u32]
            } else {
                Seq::empty()
            },
            None => Seq::empty(),
        }
    }
}

/// The display classification of one day: an active-streak day wins over
/// a merely completed day, and everything else is plain. Streak days are
/// completed days by construction, so the order only decides which style
/// wins.
pub open spec fn classify_spec(date: u32, completed: Seq<u32>, streak: Seq<u32>) -> DateClass {
    if streak.contains(date) {
        DateClass::ActiveStreak
    } else if completed.contains(date) {
        DateClass::Completed
    } else {
        DateClass::Plain
    }
}

/// Classifies calendar days for display from a habit's completed days
/// and its active-streak days.
#[derive(Debug)]
pub struct CompletedDateStyler {
    pub completed_dates: Vec<u32>,
    pub streak_dates: Vec<u32>,
}

/// Whether `v` holds `x`.
fn contains_day(v: &Vec<u32>, x: u32) -> (r: bool)
    ensures
        r == v@.contains(x),
{
    let mut i: usize = 0;
    while i < v.len()
        invariant
            i <= v@.len(),
            forall|k: int| 0 <= k < i ==> v@[k] != x,
        decreases v@.len() - i,
    {
        if v[i] == x {
            return true;
        }
        i = i + 1;
    }
    false
}

/// Parse a batch of stored ISO date strings into day numbers, skipping
/// malformed records.
fn parse_days(dates: &Vec<String>) -> (r: Vec<u32>)
    ensures
        r@ == parsed_days(dates@.map_values(|s: String| s@)),
{
    let ghost strs = dates@.map_values(|s: String| s@);
    let mut r: Vec<u32> = Vec::new();
    let mut i: usize = 0;
    proof {
        assert(strs.take(0) =~= Seq::<Seq<char>>::empty());
    }
    while i < dates.len()
        invariant
            i <= dates@.len(),
            strs == dates@.map_values(|s: String| s@),
            r@ == parsed_days(strs.take(i as int)),
        decreases dates@.len() - i,
    {
        proof {
            assert(strs.take(i + 1).drop_last() =~= strs.take(i as int));
            assert(strs.take(i + 1).last() == strs[i as int]);
            assert(strs[i as int] == dates@[i as int]@);
        }
        let parsed = parse_iso_date(dates[i].as_str());
        match parsed {
            Some(j) => {
                if 0 <= j && j as i64 <= MAX_DAY as i64 {
                    r.push(j as u32);
                } else {
                    proof {
                        assert(r@ + Seq::<u32>::empty() =~= r@);
                    }
                }
            },
            None => {
                proof {
                    assert(r@ + Seq::<u32>::empty() =~= r@);
                }
            },
        }
        i = i + 1;
    }
    proof {
        assert(strs.take(strs.len() as int) =~= strs);
    }
    r
}

impl CompletedDateStyler {
    /// A styler with no completed and no streak days.
    pub fn new() -> (r: Self)
        ensures
            r.completed_dates@ == Seq::<u32>::empty(),
            r.streak_dates@ == Seq::<u32>::empty(),
    {
        CompletedDateStyler { completed_dates: Vec::new(), streak_dates: Vec::new() }
    }

    /// Append the days the given ISO date strings denote to the
    /// completed days, skipping malformed records silently.
    pub fn update_dates(&mut self, dates: Vec<String>)
        ensures
            final(self).completed_dates@ == old(self).completed_dates@ + parsed_days(
                dates@.map_values(|s: String| s@)),
            final(self).streak_dates == old(self).streak_dates,
    {
        let mut parsed = parse_days(&dates);
        self.completed_dates.append(&mut parsed);
    }

    /// Append the days the given ISO date strings denote to the
    /// active-streak days, skipping malformed records silently.
    pub fn update_streak_dates(&mut self, dates: Vec<String>)
        ensures
            final(self).streak_dates@ == old(self).streak_dates@ + parsed_days(
                dates@.map_values(|s: String| s@)),
            final(self).completed_dates == old(self).completed_dates,
    {
        let mut parsed = parse_days(&dates);
        self.streak_dates.append(&mut parsed);
    }

    /// Replace the completed days with day numbers that are already
    /// parsed, as the in-memory store hands them out.
    pub fn set_completed_days(&mut self, days: Vec<u32>)
        ensures
            final(self).completed_dates == days,
            final(self).streak_dates == old(self).streak_dates,
    {
        self.completed_dates = days;
    }

    /// Replace the active-streak days with day numbers that are already
    /// parsed.
    pub fn set_streak_days(&mut self, days: Vec<u32>)
        ensures
            final(self).streak_dates == days,
            final(self).completed_dates == old(self).completed_dates,
    {
        self.streak_dates = days;
    }

    /// The display classification of `date`: `ActiveStreak` beats
    /// `Completed` beats `Plain`.
    pub fn get_style(&self, date: u32) -> (r: DateClass)
        ensures
            r == classify_spec(date, self.completed_dates@, self.streak_dates@),
    {
        if contains_day(&self.streak_dates, date) {
            return DateClass::ActiveStreak;
        }
        if contains_day(&self.completed_dates, date) {
            return DateClass::Completed;
        }
        DateClass::Plain
    }
}

} // verus!
