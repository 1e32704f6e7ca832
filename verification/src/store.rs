use vstd::prelude::*;
use vstd::pervasive::VecAdditionalExecFns;
use crate::habits::{HabitItem, HabitV};
use crate::hours::{CompletionEvent, TimeFrame, events_wf, days_of, hours_sum, hours_for_timeframe,
    lemma_days_of_wf, lemma_distinct_days_len};
use crate::streak::{streak_count_spec, streak_dates_spec, HOT_STREAK_THRESHOLD, compute_streak,
    list_streak_dates};
use crate::dates::MAX_DAY;

verus! {

/// The index of the first event for `(habit_id, day)`, or -1 when there
/// is none.
pub open spec fn event_index(events: Seq<CompletionEvent>, habit_id: u64, day: u32) -> int
    decreases events.len(),
{
    if events.len() == 0 {
        -1
    } else if events[0].habit_id == habit_id && events[0].day == day {
        0
    } else {
        let r = event_index(events.drop_first(), habit_id, day);
        if r == -1 {
            -1
        } else {
            r + 1
        }
    }
}

/// What the history looks like after logging `hours` for `(habit_id,
/// day)`: the existing event for that pair is overwritten if there is
/// one, otherwise a new event is appended — never a duplicate.
pub open spec fn upsert_spec(events: Seq<CompletionEvent>, habit_id: u64, day: u32, hours: u32)
    -> Seq<CompletionEvent>
{
    let e = CompletionEvent { habit_id, day, hours };
    let i = event_index(events, habit_id, day);
    if i == -1 {
        events.push(e)
    } else {
        events.update(i, e)
    }
}

/// `event_index` points at the first matching event: it is in range, it
/// matches, nothing before it matches, and -1 means nothing matches.
pub proof fn lemma_event_index(events: Seq<CompletionEvent>, habit_id: u64, day: u32)
    ensures
        -1 <= event_index(events, habit_id, day) < events.len(),
        event_index(events, habit_id, day) >= 0 ==> {
            let i = event_index(events, habit_id, day);
            events[i].habit_id == habit_id && events[i].day == day
        },
        forall|k: int| 0 <= k < event_index(events, habit_id, day)
            ==> !(events[k].habit_id == habit_id && #[trigger] events[k].day == day),
        event_index(events, habit_id, day) == -1 ==> forall|k: int| 0 <= k < events.len()
            ==> !(events[k].habit_id == habit_id && #[trigger] events[k].day == day),
    decreases events.len(),
{
    if events.len() > 0 {
        let s = events.drop_first();
        lemma_event_index(s, habit_id, day);
        let ei = event_index(events, habit_id, day);
        if !(events[0].habit_id == habit_id && events[0].day == day) {
            assert forall|k: int| 0 <= k < ei implies !(events[k].habit_id == habit_id
                && #[trigger] events[k].day == day) by {
                if k > 0 {
                    assert(s[k - 1] == events[k]);
                    assert(!(s[k - 1].habit_id == habit_id && s[k - 1].day == day));
                }
            }
            if ei == -1 {
                assert forall|k: int| 0 <= k < events.len() implies !(events[k].habit_id
                    == habit_id && #[trigger] events[k].day == day) by {
                    if k > 0 {
                        assert(s[k - 1] == events[k]);
                        assert(!(s[k - 1].habit_id == habit_id && s[k - 1].day == day));
                    }
                }
            }
        }
    }
}

/// The index of the first habit with id `id`, or -1 when there is none.
pub open spec fn habit_index(habits: Seq<HabitV>, id: u64) -> int
    decreases habits.len(),
{
    if habits.len() == 0 {
        -1
    } else if habits[0].id == id {
        0
    } else {
        let r = habit_index(habits.drop_first(), id);
        if r == -1 {
            -1
        } else {
            r + 1
        }
    }
}

/// `habit_index` points at the first habit with the given id.
pub proof fn lemma_habit_index(habits: Seq<HabitV>, id: u64)
    ensures
        -1 <= habit_index(habits, id) < habits.len(),
        habit_index(habits, id) >= 0 ==> habits[habit_index(habits, id)].id == id,
        forall|k: int| 0 <= k < habit_index(habits, id) ==> (#[trigger] habits[k].id) != id,
        habit_index(habits, id) == -1 ==> forall|k: int| 0 <= k < habits.len()
            ==> (#[trigger] habits[k].id) != id,
    decreases habits.len(),
{
    if habits.len() > 0 {
        let s = habits.drop_first();
        lemma_habit_index(s, id);
        let hi = habit_index(habits, id);
        if habits[0].id != id {
            assert forall|k: int| 0 <= k < hi implies (#[trigger] habits[k].id) != id by {
                if k > 0 {
                    assert(s[k - 1] == habits[k]);
                    assert(s[k - 1].id != id);
                }
            }
            if hi == -1 {
                assert forall|k: int| 0 <= k < habits.len() implies (#[trigger] habits[k].id)
                    != id by {
                    if k > 0 {
                        assert(s[k - 1] == habits[k]);
                        assert(s[k - 1].id != id);
                    }
                }
            }
        }
    }
}

/// The index of the first habit whose name is `name`, or -1.
pub open spec fn name_index(habits: Seq<HabitV>, name: Seq<char>) -> int
    decreases habits.len(),
{
    if habits.len() == 0 {
        -1
    } else if habits[0].name == name {
        0
    } else {
        let r = name_index(habits.drop_first(), name);
        if r == -1 {
            -1
        } else {
            r + 1
        }
    }
}

/// `name_index` points at the first habit with the given name.
pub proof fn lemma_name_index(habits: Seq<HabitV>, name: Seq<char>)
    ensures
        -1 <= name_index(habits, name) < habits.len(),
        name_index(habits, name) >= 0 ==> habits[name_index(habits, name)].name == name,
        forall|k: int| 0 <= k < name_index(habits, name) ==> (#[trigger] habits[k].name) != name,
        name_index(habits, name) == -1 ==> forall|k: int| 0 <= k < habits.len()
            ==> (#[trigger] habits[k].name) != name,
    decreases habits.len(),
{
    if habits.len() > 0 {
        let s = habits.drop_first();
        lemma_name_index(s, name);
        let ni = name_index(habits, name);
        if habits[0].name != name {
            assert forall|k: int| 0 <= k < ni implies (#[trigger] habits[k].name) != name by {
                if k > 0 {
                    assert(s[k - 1] == habits[k]);
                    assert(s[k - 1].name != name);
                }
            }
            if ni == -1 {
                assert forall|k: int| 0 <= k < habits.len() implies (#[trigger] habits[k].name)
                    != name by {
                    if k > 0 {
                        assert(s[k - 1] == habits[k]);
                        assert(s[k - 1].name != name);
                    }
                }
            }
        }
    }
}

/// An in-memory habit store: the reference model of what the persistent
/// database holds. Habit ids are assigned by the store on insert and
/// never reused; completion events are kept unique per (habit, day).
#[derive(Debug)]
pub struct HabitStore {
    pub habits: Vec<HabitItem>,
    pub events: Vec<CompletionEvent>,
    pub next_id: u64,
}

impl HabitStore {
    /// The sequence of habit views.
    pub open spec fn habits_v(&self) -> Seq<HabitV> {
        self.habits@.map_values(|h: HabitItem| h@)
    }

    /// Store invariant: habit ids are pairwise distinct and below the
    /// next id to be assigned, and the event history is well-formed.
    pub open spec fn wf(&self) -> bool {
        &&& forall|i: int, j: int| 0 <= i < j < self.habits@.len()
            ==> self.habits@[i]@.id != self.habits@[j]@.id
        &&& forall|i: int| 0 <= i < self.habits@.len()
            ==> (#[trigger] self.habits@[i]@.id) < self.next_id
        &&& events_wf(self.events@)
    }

    /// An empty store; ids start at 1.
    pub fn new() -> (r: Self)
        ensures
            r.wf(),
            r.habits@.len() == 0,
            r.events@.len() == 0,
            r.next_id == 1,
    {
        HabitStore { habits: Vec::new(), events: Vec::new(), next_id: 1 }
    }

    /// Insert a new habit with the submitted name and frequency. The
    /// store assigns the id; the habit starts active with both streak
    /// caches at 0. Frequency 0 is an undefined cadence and is rejected
    /// before this call.
    pub fn add_habit(&mut self, name: String, frequency: u32) -> (r: HabitItem)
        requires
            old(self).wf(),
            frequency >= 1,
            old(self).next_id < u64::MAX,
        ensures
            final(self).wf(),
            r@ == (HabitV {
                id: old(self).next_id,
                name: name@,
                active: true,
                frequency,
                current_streak: 0,
                max_streak: 0,
            }),
            final(self).habits_v() == old(self).habits_v().push(r@),
            final(self).events == old(self).events,
            final(self).next_id == old(self).next_id + 1,
    {
        let item = HabitItem {
            id: self.next_id,
            name,
            active: true,
            frequency,
            current_streak: 0,
            max_streak: 0,
        };
        let ret = HabitItem {
            id: item.id,
            name: item.name.clone(),
            active: item.active,
            frequency: item.frequency,
            current_streak: item.current_streak,
            max_streak: item.max_streak,
        };
        self.habits.push(item);
        self.next_id = self.next_id + 1;
        proof {
            assert(self.habits_v() =~= old(self).habits_v().push(ret@));
        }
        ret
    }

    /// All habits, with each current streak freshly recomputed from the
    /// event history as of `today`; nothing else about a habit changes.
    pub fn get_habits(&self, today: u32) -> (r: Vec<HabitItem>)
        requires
            self.wf(),
        ensures
            r@.len() == self.habits@.len(),
            forall|i: int| 0 <= i < r@.len() ==> (#[trigger] r@[i]@) == (HabitV {
                current_streak: streak_count_spec(days_of(self.events@, self.habits@[i]@.id),
                    self.habits@[i]@.frequency, today) as u32,
                ..self.habits@[i]@
            }),
    {
        let mut r: Vec<HabitItem> = Vec::new();
        let mut i: usize = 0;
        while i < self.habits.len()
            invariant
                self.wf(),
                i <= self.habits@.len(),
                r@.len() == i,
                forall|k: int| 0 <= k < i ==> (#[trigger] r@[k]@) == (HabitV {
                    current_streak: streak_count_spec(days_of(self.events@,
                        self.habits@[k]@.id), self.habits@[k]@.frequency, today) as u32,
                    ..self.habits@[k]@
                }),
            decreases self.habits@.len() - i,
        {
            let h = &self.habits[i];
            let streak = self.compute_streak(h.id, h.frequency, today);
            let item = HabitItem {
                id: h.id,
                name: h.name.clone(),
                active: h.active,
                frequency: h.frequency,
                current_streak: streak,
                max_streak: h.max_streak,
            };
            proof {
                assert(item@ =~= (HabitV {
                    current_streak: streak_count_spec(days_of(self.events@,
                        self.habits@[i as int]@.id), self.habits@[i as int]@.frequency,
                        today) as u32,
                    ..self.habits@[i as int]@
                }));
            }
            r.push(item);
            i = i + 1;
        }
        r
    }

    /// Log `hours` for `habit_id` on `day`, upserting: a second log for
    /// the same habit and day overwrites the hours value instead of
    /// adding a duplicate event. Habits are never touched.
    pub fn add_completed(&mut self, habit_id: u64, day: u32, hours: u32)
        requires
            old(self).wf(),
            day <= MAX_DAY,
        ensures
            final(self).wf(),
            final(self).events@ == upsert_spec(old(self).events@, habit_id, day, hours),
            final(self).habits == old(self).habits,
            final(self).next_id == old(self).next_id,
    {
        let e = CompletionEvent { habit_id, day, hours };
        let ghost orig = old(self).events@;
        let mut i: usize = 0;
        while i < self.events.len()
            invariant
                *self == *old(self),
                day <= MAX_DAY,
                old(self).wf(),
                e == (CompletionEvent { habit_id, day, hours }),
                orig == old(self).events@,
                i <= orig.len(),
                forall|k: int| 0 <= k < i ==> !(orig[k].habit_id == habit_id
                    && #[trigger] orig[k].day == day),
            decreases orig.len() - i,
        {
            if self.events[i].habit_id == habit_id && self.events[i].day == day {
                proof {
                    lemma_event_index(orig, habit_id, day);
                    let ei = event_index(orig, habit_id, day);
                    assert(orig[i as int].habit_id == habit_id && orig[i as int].day == day);
                    if ei == -1 {
                        assert(false);
                    }
                    if 0 <= ei < i {
                        assert(!(orig[ei].habit_id == habit_id && orig[ei].day == day));
                        assert(orig[ei].habit_id == habit_id && orig[ei].day == day);
                        assert(false);
                    }
                    if ei > i {
                        assert(!(orig[i as int].habit_id == habit_id
                            && orig[i as int].day == day));
                        assert(false);
                    }
                    assert(ei == i);
                }
                self.events.set(i, e);
                proof {
                    let upd = orig.update(i as int, e);
                    assert(self.events@ == upd);
                    assert(events_wf(upd)) by {
                        assert forall|a: int, b: int| 0 <= a < b < upd.len() implies !(
                            upd[a].habit_id == upd[b].habit_id && upd[a].day == upd[b].day) by {
                            assert(!(orig[a].habit_id == orig[b].habit_id
                                && orig[a].day == orig[b].day));
                            if a != i {
                                assert(upd[a] == orig[a]);
                            }
                            if b != i {
                                assert(upd[b] == orig[b]);
                            }
                        }
                        assert forall|k: int| 0 <= k < upd.len() implies #[trigger] upd[k].day
                            <= MAX_DAY by {
                            if k != i {
                                assert(upd[k] == orig[k]);
                            }
                        }
                    }
                }
                return ;
            }
            i = i + 1;
        }
        proof {
            lemma_event_index(orig, habit_id, day);
            let ei = event_index(orig, habit_id, day);
            if ei >= 0 {
                assert(orig[ei].habit_id == habit_id && orig[ei].day == day);
                assert(false);
            }
        }
        self.events.push(e);
        proof {
            let upd = orig.push(e);
            assert(self.events@ == upd);
            assert(events_wf(upd)) by {
                assert forall|a: int, b: int| 0 <= a < b < upd.len() implies !(upd[a].habit_id
                    == upd[b].habit_id && upd[a].day == upd[b].day) by {
                    if b < orig.len() {
                        assert(upd[a] == orig[a] && upd[b] == orig[b]);
                        assert(!(orig[a].habit_id == orig[b].habit_id
                            && orig[a].day == orig[b].day));
                    } else {
                        assert(upd[b] == e);
                        assert(upd[a] == orig[a]);
                        assert(!(orig[a].habit_id == habit_id && orig[a].day == day));
                    }
                }
                assert forall|k: int| 0 <= k < upd.len() implies #[trigger] upd[k].day
                    <= MAX_DAY by {
                    if k < orig.len() {
                        assert(upd[k] == orig[k]);
                    }
                }
            }
        }
    }

    /// The id of the first habit carrying `name`, if any habit does.
    pub fn get_id_from_name(&self, name: String) -> (r: Option<u64>)
        ensures
            (r is Some) == (name_index(self.habits_v(), name@) >= 0),
            r matches Some(id) ==> id == self.habits_v()[name_index(self.habits_v(), name@)].id,
    {
        proof {
            lemma_name_index(self.habits_v(), name@);
        }
        let mut i: usize = 0;
        while i < self.habits.len()
            invariant
                i <= self.habits@.len(),
                forall|k: int| 0 <= k < i ==> (#[trigger] self.habits_v()[k].name) != name@,
            decreases self.habits@.len() - i,
        {
            if self.habits[i].name == name {
                proof {
                    lemma_name_index(self.habits_v(), name@);
                    let hv = self.habits_v();
                    let ni = name_index(hv, name@);
                    assert(hv[i as int] == self.habits@[i as int]@);
                    assert(hv[i as int].name == name@);
                    if ni == -1 {
                        assert(hv[i as int].name != name@);
                        assert(false);
                    }
                    if 0 <= ni < i {
                        assert(hv[ni].name != name@);
                        assert(hv[ni].name == name@);
                        assert(false);
                    }
                    if ni > i {
                        assert(hv[i as int].name != name@);
                        assert(false);
                    }
                    assert(ni == i);
                }
                return Some(self.habits[i].id);
            }
            i = i + 1;
        }
        proof {
            lemma_name_index(self.habits_v(), name@);
            let ni = name_index(self.habits_v(), name@);
            if ni >= 0 {
                assert(self.habits_v()[ni].name == name@);
            }
        }
        None
    }

    /// The completion days recorded for `habit_id`, in history order.
    pub fn list_completed_dates(&self, habit_id: u64) -> (r: Vec<u32>)
        ensures
            r@ == days_of(self.events@, habit_id),
    {
        let mut r: Vec<u32> = Vec::new();
        let mut i: usize = 0;
        proof {
            assert(self.events@.take(0) =~= Seq::<CompletionEvent>::empty());
        }
        while i < self.events.len()
            invariant
                i <= self.events@.len(),
                r@ == days_of(self.events@.take(i as int), habit_id),
            decreases self.events@.len() - i,
        {
            proof {
                assert(self.events@.take(i + 1).drop_last() =~= self.events@.take(i as int));
                assert(self.events@.take(i + 1).last() == self.events@[i as int]);
            }
            if self.events[i].habit_id == habit_id {
                r.push(self.events[i].day);
            }
            i = i + 1;
        }
        proof {
            assert(self.events@.take(self.events@.len() as int) =~= self.events@);
        }
        r
    }

    /// The habit's current streak, computed from its recorded completion
    /// days as of `today`.
    pub fn compute_streak(&self, habit_id: u64, frequency: u32, today: u32) -> (r: u32)
        requires
            self.wf(),
        ensures
            r as nat == streak_count_spec(days_of(self.events@, habit_id), frequency, today),
    {
        let days = self.list_completed_dates(habit_id);
        proof {
            lemma_days_of_wf(self.events@, habit_id);
            lemma_distinct_days_len(days@);
        }
        compute_streak(&days, frequency, today)
    }

    /// The habit's active-streak dates for calendar highlighting: empty
    /// unless the streak is hot (longer than `HOT_STREAK_THRESHOLD`).
    pub fn list_streak_dates(&self, habit_id: u64, frequency: u32, current_streak: u32,
        today: u32) -> (r: Vec<u32>)
        requires
            self.wf(),
        ensures
            current_streak <= HOT_STREAK_THRESHOLD ==> r@ == Seq::<u32>::empty(),
            current_streak > HOT_STREAK_THRESHOLD ==> r@ == streak_dates_spec(days_of(
                self.events@, habit_id), frequency, today),
    {
        let days = self.list_completed_dates(habit_id);
        proof {
            lemma_days_of_wf(self.events@, habit_id);
        }
        list_streak_dates(&days, frequency, current_streak, today)
    }

    /// Hours logged for the habit in the bucket (ISO week, month or year)
    /// that `today` falls in.
    pub fn get_hours(&self, habit_id: u64, tf: TimeFrame, today: u32) -> (r: u64)
        requires
            self.wf(),
            today <= MAX_DAY,
        ensures
            r as int == hours_sum(self.events@, habit_id, tf, today as int),
    {
        hours_for_timeframe(&self.events, habit_id, tf, today)
    }

    /// Delete the habit with id `habit_id`, reporting how many habits
    /// were removed: 1 when it existed, 0 when it did not (a soft
    /// failure, not an error). Its completion events are left in place,
    /// as the persistent store leaves them.
    pub fn delete_habit(&mut self, habit_id: u64) -> (r: usize)
        requires
            old(self).wf(),
        ensures
            final(self).wf(),
            habit_index(old(self).habits_v(), habit_id) == -1 ==> r == 0
                && final(self).habits == old(self).habits,
            habit_index(old(self).habits_v(), habit_id) >= 0 ==> r == 1
                && final(self).habits_v() == old(self).habits_v().remove(habit_index(
                old(self).habits_v(), habit_id)),
            final(self).events == old(self).events,
            final(self).next_id == old(self).next_id,
    {
        let ghost orig = old(self).habits_v();
        let mut i: usize = 0;
        while i < self.habits.len()
            invariant
                *self == *old(self),
                old(self).wf(),
                orig == old(self).habits_v(),
                i <= orig.len(),
                forall|k: int| 0 <= k < i ==> (#[trigger] orig[k].id) != habit_id,
            decreases orig.len() - i,
        {
            if self.habits[i].id == habit_id {
                proof {
                    lemma_habit_index(orig, habit_id);
                    let hi = habit_index(orig, habit_id);
                    assert(orig[i as int].id == habit_id);
                    if hi == -1 {
                        assert(false);
                    }
                    if 0 <= hi < i {
                        assert(orig[hi].id != habit_id);
                        assert(orig[hi].id == habit_id);
                        assert(false);
                    }
                    if hi > i {
                        assert(orig[i as int].id != habit_id);
                        assert(false);
                    }
                    assert(hi == i);
                }
                self.habits.remove(i);
                proof {
                    let upd = orig.remove(i as int);
                    assert(self.habits_v() =~= upd);
                    assert forall|a: int, b: int| 0 <= a < b < upd.len() implies
                        self.habits@[a]@.id != self.habits@[b]@.id by {
                        let a0: int = if a < i { a } else { a + 1 };
                        let b0: int = if b < i { b } else { b + 1 };
                        assert(upd[a] == orig[a0] && upd[b] == orig[b0]);
                        assert(orig[a0].id != orig[b0].id);
                    }
                    assert forall|k: int| 0 <= k < upd.len() implies
                        (#[trigger] self.habits@[k]@.id) < self.next_id by {
                        let k0: int = if k < i { k } else { k + 1 };
                        assert(upd[k] == orig[k0]);
                        assert(orig[k0].id < old(self).next_id);
                    }
                }
                return 1;
            }
            i = i + 1;
        }
        proof {
            lemma_habit_index(orig, habit_id);
            let hi = habit_index(orig, habit_id);
            if hi >= 0 {
                assert(orig[hi].id == habit_id);
                assert(false);
            }
        }
        0
    }
}

/// Law: upserting is idempotent in the keyed sense — logging the same
/// (habit, day) twice, with any two hour values, leaves the history
/// exactly as if only the second log had happened: one event for the
/// pair, carrying the latest hours.
pub proof fn lemma_upsert_latest_wins(events: Seq<CompletionEvent>, habit_id: u64, day: u32,
    hours1: u32, hours2: u32)
    ensures
        upsert_spec(upsert_spec(events, habit_id, day, hours1), habit_id, day, hours2)
            == upsert_spec(events, habit_id, day, hours2),
{
    lemma_event_index(events, habit_id, day);
    let ei = event_index(events, habit_id, day);
    let e1 = CompletionEvent { habit_id, day, hours: hours1 };
    let e2 = CompletionEvent { habit_id, day, hours: hours2 };
    if ei == -1 {
        let mid = events.push(e1);
        lemma_event_index(mid, habit_id, day);
        let mi = event_index(mid, habit_id, day);
        assert(mid[events.len() as int].habit_id == habit_id
            && mid[events.len() as int].day == day);
        if mi == -1 {
            assert(!(mid[events.len() as int].habit_id == habit_id
                && mid[events.len() as int].day == day));
            assert(false);
        }
        if 0 <= mi < events.len() {
            assert(mid[mi] == events[mi]);
            assert(mid[mi].habit_id == habit_id && mid[mi].day == day);
            assert(!(events[mi].habit_id == habit_id && events[mi].day == day));
            assert(false);
        }
        assert(mi == events.len());
        assert(mid.update(mi, e2) =~= events.push(e2));
    } else {
        let mid = events.update(ei, e1);
        lemma_event_index(mid, habit_id, day);
        let mi = event_index(mid, habit_id, day);
        assert(mid[ei].habit_id == habit_id && mid[ei].day == day);
        if mi == -1 {
            assert(!(mid[ei].habit_id == habit_id && mid[ei].day == day));
            assert(false);
        }
        if 0 <= mi < ei {
            assert(mid[mi] == events[mi]);
            assert(mid[mi].habit_id == habit_id && mid[mi].day == day);
            assert(!(events[mi].habit_id == habit_id && events[mi].day == day));
            assert(false);
        }
        if mi > ei {
            assert(!(mid[ei].habit_id == habit_id && mid[ei].day == day));
            assert(false);
        }
        assert(mi == ei);
        assert(mid.update(mi, e2) =~= events.update(ei, e2));
    }
}

/// Law: after an upsert on a well-formed history the history is still
/// well-formed, exactly one event exists for the pair, and it carries the
/// hours just logged.
pub proof fn lemma_upsert_exactly_one(events: Seq<CompletionEvent>, habit_id: u64, day: u32,
    hours: u32)
    requires
        events_wf(events),
        day <= MAX_DAY,
    ensures
        events_wf(upsert_spec(events, habit_id, day, hours)),
        exists|i: int| 0 <= i < upsert_spec(events, habit_id, day, hours).len()
            && #[trigger] upsert_spec(events, habit_id, day, hours)[i]
                == (CompletionEvent { habit_id, day, hours }),
        forall|i: int| 0 <= i < upsert_spec(events, habit_id, day, hours).len()
            && (#[trigger] upsert_spec(events, habit_id, day, hours)[i]).habit_id == habit_id
            && upsert_spec(events, habit_id, day, hours)[i].day == day
            ==> upsert_spec(events, habit_id, day, hours)[i].hours == hours,
{
    lemma_event_index(events, habit_id, day);
    let ei = event_index(events, habit_id, day);
    let e = CompletionEvent { habit_id, day, hours };
    let r = upsert_spec(events, habit_id, day, hours);
    if ei == -1 {
        assert(r[events.len() as int] == e);
    } else {
        assert(r[ei] == e);
        assert forall|i: int| 0 <= i < r.len() && (#[trigger] r[i]).habit_id == habit_id
            && r[i].day == day implies r[i].hours == hours by {
            if i != ei {
                assert(r[i] == events[i]);
                if i < ei {
                    assert(!(events[i].habit_id == habit_id && events[i].day == day));
                } else {
                    assert(!(events[ei].habit_id == events[i].habit_id
                        && events[ei].day == events[i].day));
                }
            }
        }
    }
}

} // verus!
