use vstd::prelude::*;
use crate::dates::{MAX_DAY, year_label, month_label, iso_week_label, year_of_day, month_of_day,
    iso_week_of_day};

verus! {

/// The coarse display buckets that logged hours are aggregated into.
#[derive(Clone, Copy, Debug, PartialEq, Eq, Structural)]
pub enum TimeFrame {
    Week,
    Month,
    Year,
}

impl TimeFrame {
    /// The bucket's display name.
    pub fn label(&self) -> (r: &'static str)
        ensures
            *self == TimeFrame::Week ==> r@ == "Week"@,
            *self == TimeFrame::Month ==> r@ == "Month"@,
            *self == TimeFrame::Year ==> r@ == "Year"@,
    {
        match self {
            TimeFrame::Week => "Week",
            TimeFrame::Month => "Month",
            TimeFrame::Year => "Year",
        }
    }
}

/// One logged completion: a habit, the day it was completed, and the
/// hours of effort recorded for it.
#[derive(Clone, Copy, Debug, PartialEq, Eq, Structural)]
pub struct CompletionEvent {
    pub habit_id: u64,
    pub day: u32,
    pub hours: u32,
}

/// Well-formed event history: at most one event per (habit, day) pair —
/// the store's upsert guarantees this — and every day representable.
pub open spec fn events_wf(events: Seq<CompletionEvent>) -> bool {
    &&& forall|i: int, j: int|
        0 <= i < j < events.len() ==> !(events[i].habit_id == events[j].habit_id
            && events[i].day == events[j].day)
    &&& forall|i: int| 0 <= i < events.len() ==> events[i].day <= MAX_DAY
}

/// Two days fall in the same display bucket: the same ISO week, the same
/// calendar month (of the same year), or the same calendar year. Bucket
/// matching is by label equality, not by a rolling window.
pub open spec fn same_bucket(a: int, b: int, tf: TimeFrame) -> bool {
    match tf {
        TimeFrame::Week => iso_week_label(a) == iso_week_label(b),
        TimeFrame::Month => year_label(a) == year_label(b) && month_label(a) == month_label(b),
        TimeFrame::Year => year_label(a) == year_label(b),
    }
}

/// Whether `e` counts toward habit `habit_id`'s total for the bucket that
/// `today` falls in.
pub open spec fn event_counts(e: CompletionEvent, habit_id: u64, tf: TimeFrame, today: int) -> bool {
    e.habit_id == habit_id && same_bucket(e.day as int, today, tf)
}

/// The sum of hours logged for `habit_id` on days in the same bucket as
/// `today`.
pub open spec fn hours_sum(events: Seq<CompletionEvent>, habit_id: u64, tf: TimeFrame, today: int)
    -> int
    decreases events.len(),
{
    if events.len() == 0 {
        0
    } else {
        hours_sum(events.drop_last(), habit_id, tf, today) + if event_counts(events.last(),
            habit_id, tf, today) {
            events.last().hours as int
        } else {
            0
        }
    }
}

/// The completion days recorded for one habit, in history order.
pub open spec fn days_of(events: Seq<CompletionEvent>, habit_id: u64) -> Seq<u32>
    decreases events.len(),
{
    if events.len() == 0 {
        Seq::empty()
    } else {
        days_of(events.drop_last(), habit_id) + if events.last().habit_id == habit_id {
            seq![events.last().day]
        } else {
            Seq::empty()
        }
    }
}

/// A day appears among a habit's days exactly when some event records it
/// for that habit.
pub proof fn lemma_days_of_contains(events: Seq<CompletionEvent>, habit_id: u64, d: u32)
    ensures
        days_of(events, habit_id).contains(d) <==> exists|i: int|
            0 <= i < events.len() && events[i].habit_id == habit_id && events[i].day == d,
    decreases events.len(),
{
    if events.len() > 0 {
        lemma_days_of_contains(events.drop_last(), habit_id, d);
        let prev = days_of(events.drop_last(), habit_id);
        let cur = days_of(events, habit_id);
        if events.last().habit_id == habit_id && events.last().day == d {
            assert(cur[cur.len() - 1] == d);
            assert(cur.contains(d));
        }
        if cur.contains(d) {
            let j = choose|j: int| 0 <= j < cur.len() && cur[j] == d;
            if j < prev.len() {
                assert(prev[j] == d);
                assert(prev.contains(d));
                let i = choose|i: int|
                    0 <= i < events.drop_last().len() && events.drop_last()[i].habit_id == habit_id
                        && events.drop_last()[i].day == d;
                assert(events[i].habit_id == habit_id && events[i].day == d);
            } else {
                assert(events.last().habit_id == habit_id && events.last().day == d);
                assert(events[events.len() - 1].habit_id == habit_id);
            }
        }
        if exists|i: int| 0 <= i < events.len() && events[i].habit_id == habit_id
            && events[i].day == d {
            let i = choose|i: int|
                0 <= i < events.len() && events[i].habit_id == habit_id && events[i].day == d;
            if i < events.len() - 1 {
                assert(events.drop_last()[i].habit_id == habit_id
                    && events.drop_last()[i].day == d);
                assert(prev.contains(d));
                let j = choose|j: int| 0 <= j < prev.len() && prev[j] == d;
                assert(cur[j] == d);
                assert(cur.contains(d));
            }
        }
    }
}

/// For a well-formed history one habit's days are pairwise distinct and
/// all representable.
pub proof fn lemma_days_of_wf(events: Seq<CompletionEvent>, habit_id: u64)
    requires
        events_wf(events),
    ensures
        days_of(events, habit_id).no_duplicates(),
        forall|i: int| 0 <= i < days_of(events, habit_id).len()
            ==> #[trigger] days_of(events, habit_id)[i] <= MAX_DAY,
    decreases events.len(),
{
    let cur = days_of(events, habit_id);
    if events.len() == 0 {
    } else {
        assert(events_wf(events.drop_last()));
        lemma_days_of_wf(events.drop_last(), habit_id);
        let prev = days_of(events.drop_last(), habit_id);
        if events.last().habit_id == habit_id {
            // The last event's day is new: a duplicate would mean a second
            // event for the same (habit, day) pair.
            if prev.contains(events.last().day) {
                lemma_days_of_contains(events.drop_last(), habit_id, events.last().day);
                let i = choose|i: int|
                    0 <= i < events.drop_last().len() && events.drop_last()[i].habit_id == habit_id
                        && events.drop_last()[i].day == events.last().day;
                assert(events[i].habit_id == habit_id && events[i].day == events.last().day);
                assert(false);
            }
            assert(cur =~= prev.push(events.last().day));
            assert(events[events.len() - 1].day <= MAX_DAY);
            assert forall|i: int| 0 <= i < cur.len() implies #[trigger] cur[i] <= MAX_DAY by {
                if i < prev.len() {
                    assert(prev[i] <= MAX_DAY);
                }
            }
        } else {
            assert(cur =~= prev);
        }
    }
}

/// A duplicate-free sequence of representable day numbers has at most
/// `MAX_DAY + 1` entries.
pub proof fn lemma_distinct_days_len(s: Seq<u32>)
    requires
        s.no_duplicates(),
        forall|i: int| 0 <= i < s.len() ==> #[trigger] s[i] <= MAX_DAY,
    ensures
        s.len() <= MAX_DAY + 1,
{
    broadcast use vstd::set::group_set_axioms;

    let si = s.map_values(|d: u32| d as int);
    assert(si.no_duplicates()) by {
        assert forall|i: int, j: int| 0 <= i < si.len() && 0 <= j < si.len() && i != j
            implies si[i] != si[j] by {
            assert(s[i] != s[j]);
        }
    }
    si.unique_seq_to_set();
    let range = vstd::set_lib::set_int_range(0, MAX_DAY + 1);
    vstd::set_lib::lemma_int_range(0, MAX_DAY + 1);
    assert(si.to_set().subset_of(range)) by {
        assert forall|x: int| si.to_set().contains(x) implies range.contains(x) by {
            assert(si.contains(x));
            let i = choose|i: int| 0 <= i < si.len() && si[i] == x;
            assert(s[i] <= MAX_DAY);
        }
    }
    vstd::set_lib::lemma_len_subset(si.to_set(), range);
}

/// The number of events recorded for one habit.
pub open spec fn habit_event_count(events: Seq<CompletionEvent>, habit_id: u64) -> int
    decreases events.len(),
{
    if events.len() == 0 {
        0
    } else {
        habit_event_count(events.drop_last(), habit_id) + if events.last().habit_id == habit_id {
            1int
        } else {
            0int
        }
    }
}

proof fn lemma_days_of_len(events: Seq<CompletionEvent>, habit_id: u64)
    ensures
        days_of(events, habit_id).len() == habit_event_count(events, habit_id),
        habit_event_count(events, habit_id) >= 0,
    decreases events.len(),
{
    if events.len() > 0 {
        lemma_days_of_len(events.drop_last(), habit_id);
    }
}

proof fn lemma_hours_sum_le_count(events: Seq<CompletionEvent>, habit_id: u64, tf: TimeFrame,
    today: int)
    ensures
        0 <= hours_sum(events, habit_id, tf, today),
        hours_sum(events, habit_id, tf, today)
            <= habit_event_count(events, habit_id) * (u32::MAX as int),
    decreases events.len(),
{
    if events.len() > 0 {
        lemma_hours_sum_le_count(events.drop_last(), habit_id, tf, today);
    }
}

/// For a well-formed history the bucketed total fits comfortably in a
/// `u64`: one habit has at most `MAX_DAY + 1` events, each of at most
/// `u32::MAX` hours.
pub proof fn lemma_hours_sum_bound(events: Seq<CompletionEvent>, habit_id: u64, tf: TimeFrame,
    today: int)
    requires
        events_wf(events),
    ensures
        0 <= hours_sum(events, habit_id, tf, today),
        hours_sum(events, habit_id, tf, today) <= (MAX_DAY + 1) * (u32::MAX as int),
        (MAX_DAY + 1) * (u32::MAX as int) < u64::MAX,
{
    lemma_days_of_wf(events, habit_id);
    lemma_days_of_len(events, habit_id);
    lemma_distinct_days_len(days_of(events, habit_id));
    lemma_hours_sum_le_count(events, habit_id, tf, today);
    let c = habit_event_count(events, habit_id);
    assert(c * (u32::MAX as int) <= (MAX_DAY + 1) * (u32::MAX as int))
        by (nonlinear_arith)
        requires 0 <= c <= MAX_DAY + 1,
    {}
}

/// Law: when no event of the habit falls in today's bucket, the total is
/// exactly 0.
pub proof fn lemma_hours_sum_no_match(events: Seq<CompletionEvent>, habit_id: u64, tf: TimeFrame,
    today: int)
    requires
        forall|i: int| 0 <= i < events.len()
            ==> !event_counts(#[trigger] events[i], habit_id, tf, today),
    ensures
        hours_sum(events, habit_id, tf, today) == 0,
    decreases events.len(),
{
    if events.len() > 0 {
        assert(forall|i: int| 0 <= i < events.drop_last().len()
            ==> events.drop_last()[i] == events[i]);
        lemma_hours_sum_no_match(events.drop_last(), habit_id, tf, today);
        assert(!event_counts(events[events.len() - 1], habit_id, tf, today));
    }
}

/// Whether two days fall in the same display bucket.
pub fn in_same_bucket(a: u32, b: u32, tf: TimeFrame) -> (r: bool)
    requires
        a <= MAX_DAY,
        b <= MAX_DAY,
    ensures
        r == same_bucket(a as int, b as int, tf),
{
    match tf {
        TimeFrame::Week => {
            let wa = iso_week_of_day(a);
            let wb = iso_week_of_day(b);
            wa.0 == wb.0 && wa.1 == wb.1
        },
        TimeFrame::Month => year_of_day(a) == year_of_day(b) && month_of_day(a) == month_of_day(b),
        TimeFrame::Year => year_of_day(a) == year_of_day(b),
    }
}

/// Total hours logged for `habit_id` over the completion events whose
/// date falls in the same calendar bucket (ISO week, month, or year) as
/// `today`; 0 when none match. A display-only aggregate: bucket labels
/// must match, a completion just outside the current bucket does not
/// count however recent it is.
pub fn hours_for_timeframe(events: &Vec<CompletionEvent>, habit_id: u64, tf: TimeFrame, today: u32)
    -> (r: u64)
    requires
        events_wf(events@),
        today <= MAX_DAY,
    ensures
        r as int == hours_sum(events@, habit_id, tf, today as int),
{
    let mut acc: u64 = 0;
    let mut i: usize = 0;
    proof {
        assert(events@.take(0) =~= Seq::<CompletionEvent>::empty());
    }
    while i < events.len()
        invariant
            i <= events.len(),
            events_wf(events@),
            today <= MAX_DAY,
            acc as int == hours_sum(events@.take(i as int), habit_id, tf, today as int),
        decreases events.len() - i,
    {
        let e = events[i];
        proof {
            assert(events@.take(i + 1).drop_last() =~= events@.take(i as int));
            assert(events@.take(i + 1).last() == events@[i as int]);
            assert(events_wf(events@.take(i + 1)));
            lemma_hours_sum_bound(events@.take(i + 1), habit_id, tf, today as int);
        }
        if e.habit_id == habit_id && in_same_bucket(e.day, today, tf) {
            acc = acc + e.hours as u64;
        }
        i = i + 1;
    }
    proof {
        assert(events@.take(events@.len() as int) =~= events@);
    }
    acc
}

} // verus!
