use vstd::prelude::*;

verus! {

/// Streaks longer than this are highlighted ("hot streaks"); streaks of
/// this length or shorter get no special calendar styling.
pub const HOT_STREAK_THRESHOLD: u32 = 5;

/// Insert `x` into a descending-sorted sequence, keeping it sorted.
pub open spec fn insert_desc_spec(x: u32, s: Seq<u32>) -> Seq<u32>
    decreases s.len(),
{
    if s.len() == 0 {
        seq![x]
    } else if x >= s[0] {
        seq![x] + s
    } else {
        seq![s[0]] + insert_desc_spec(x, s.drop_first())
    }
}

/// The descending insertion sort of `s`.
pub open spec fn sort_desc_spec(s: Seq<u32>) -> Seq<u32>
    decreases s.len(),
{
    if s.len() == 0 {
        Seq::empty()
    } else {
        insert_desc_spec(s.last(), sort_desc_spec(s.drop_last()))
    }
}

/// `s` is sorted in descending order.
pub open spec fn sorted_desc(s: Seq<u32>) -> bool {
    forall|i: int, j: int| 0 <= i <= j < s.len() ==> s[i] >= s[j]
}

/// The walk at the heart of the streak engine: consume dates (given most
/// recent first) while each one falls inside the window of `frequency`
/// days before the expected date, anchoring the next expected date
/// `frequency` days before the completion actually made. The consumed
/// dates are returned; the walk stops at the first date outside its
/// window, since older dates cannot extend a streak past a break.
pub open spec fn streak_walk_spec(dates: Seq<u32>, frequency: u32, expected: int) -> Seq<u32>
    decreases dates.len(),
{
    if dates.len() == 0 {
        Seq::empty()
    } else {
        let d = dates[0];
        let gap = expected - d;
        if 0 <= gap && gap <= frequency {
            seq![d] + streak_walk_spec(dates.drop_first(), frequency, d - frequency)
        } else {
            Seq::empty()
        }
    }
}

/// The dates of the active streak: the walk over the completion dates,
/// sorted most recent first, starting from `today`.
pub open spec fn streak_dates_spec(dates: Seq<u32>, frequency: u32, today: u32) -> Seq<u32> {
    streak_walk_spec(sort_desc_spec(dates), frequency, today as int)
}

/// The current streak length: how many dates the walk consumes.
pub open spec fn streak_count_spec(dates: Seq<u32>, frequency: u32, today: u32) -> nat {
    streak_dates_spec(dates, frequency, today).len()
}

/// `insert_desc_spec` inserts at the first position whose element does not
/// exceed `x`: the result is the input split around `x` at that point.
proof fn lemma_insert_desc_at(x: u32, s: Seq<u32>, i: int)
    requires
        0 <= i <= s.len(),
        forall|j: int| 0 <= j < i ==> s[j] > x,
        i < s.len() ==> x >= s[i],
    ensures
        insert_desc_spec(x, s) == s.take(i) + seq![x] + s.skip(i),
    decreases i,
{
    if i == 0 {
        assert(insert_desc_spec(x, s) =~= s.take(0) + seq![x] + s.skip(0));
    } else {
        assert(s[0] > x);
        lemma_insert_desc_at(x, s.drop_first(), i - 1);
        assert(seq![s[0]] + (s.drop_first().take(i - 1) + seq![x] + s.drop_first().skip(i - 1))
            =~= s.take(i) + seq![x] + s.skip(i));
    }
}

/// Inserting into a descending-sorted sequence keeps it sorted and adds
/// exactly the new element to its multiset.
proof fn lemma_insert_desc_sorted(x: u32, s: Seq<u32>)
    requires
        sorted_desc(s),
    ensures
        sorted_desc(insert_desc_spec(x, s)),
        insert_desc_spec(x, s).to_multiset() == s.to_multiset().insert(x),
        insert_desc_spec(x, s).len() == s.len() + 1,
    decreases s.len(),
{
    broadcast use vstd::seq_lib::group_to_multiset_ensures;

    if s.len() == 0 {
        assert(seq![x] =~= Seq::<u32>::empty().push(x));
        assert(seq![x].to_multiset() == s.to_multiset().insert(x));
    } else if x >= s[0] {
        assert(seq![x] + s =~= s.insert(0, x));
        assert((seq![x] + s).to_multiset() == s.to_multiset().insert(x));
    } else {
        assert(sorted_desc(s.drop_first()));
        lemma_insert_desc_sorted(x, s.drop_first());
        let t = seq![s[0]] + insert_desc_spec(x, s.drop_first());
        assert(t =~= insert_desc_spec(x, s.drop_first()).insert(0, s[0]));
        assert(forall|i: int| 0 <= i < insert_desc_spec(x, s.drop_first()).len()
            ==> insert_desc_spec(x, s.drop_first()).to_multiset().contains(
                #[trigger] insert_desc_spec(x, s.drop_first())[i]));
        assert forall|i: int, j: int| 0 <= i <= j < t.len() implies t[i] >= t[j] by {
            if i == 0 && j > 0 {
                let e = insert_desc_spec(x, s.drop_first())[j - 1];
                assert(insert_desc_spec(x, s.drop_first()).to_multiset().contains(e));
                assert(s.drop_first().to_multiset().insert(x).contains(e));
                if e == x {
                    assert(s[0] >= e);
                } else {
                    assert(s.drop_first().to_multiset().contains(e));
                    let k = choose|k: int| 0 <= k < s.drop_first().len()
                        && s.drop_first()[k] == e;
                    assert(s[k + 1] == e);
                    assert(s[0] >= e);
                }
            }
        }
        assert(t.to_multiset() == s.drop_first().to_multiset().insert(x).insert(s[0]));
        assert(s =~= s.drop_first().insert(0, s[0]));
        assert(s.to_multiset() == s.drop_first().to_multiset().insert(s[0]));
        assert(s.drop_first().to_multiset().insert(x).insert(s[0])
            =~= s.drop_first().to_multiset().insert(s[0]).insert(x));
    }
}

/// Sorting yields a descending-sorted sequence with the same multiset of
/// elements (hence the same length).
pub proof fn lemma_sort_desc_spec(s: Seq<u32>)
    ensures
        sorted_desc(sort_desc_spec(s)),
        sort_desc_spec(s).to_multiset() == s.to_multiset(),
        sort_desc_spec(s).len() == s.len(),
    decreases s.len(),
{
    broadcast use vstd::seq_lib::group_to_multiset_ensures;

    if s.len() == 0 {
    } else {
        lemma_sort_desc_spec(s.drop_last());
        lemma_insert_desc_sorted(s.last(), sort_desc_spec(s.drop_last()));
        assert(s =~= s.drop_last().push(s.last()));
        assert(s.to_multiset() == s.drop_last().to_multiset().insert(s.last()));
    }
}

/// The walk consumes a prefix of the sequence it is given.
pub proof fn lemma_walk_is_prefix(dates: Seq<u32>, frequency: u32, expected: int)
    ensures
        streak_walk_spec(dates, frequency, expected).len() <= dates.len(),
        streak_walk_spec(dates, frequency, expected)
            == dates.take(streak_walk_spec(dates, frequency, expected).len() as int),
    decreases dates.len(),
{
    let w = streak_walk_spec(dates, frequency, expected);
    if dates.len() == 0 {
        assert(w =~= dates.take(0));
    } else {
        let d = dates[0];
        let gap = expected - d;
        if 0 <= gap && gap <= frequency {
            lemma_walk_is_prefix(dates.drop_first(), frequency, d - frequency);
            let wr = streak_walk_spec(dates.drop_first(), frequency, d - frequency);
            assert(seq![d] + wr =~= dates.take(wr.len() as int + 1));
        } else {
            assert(w =~= dates.take(0));
        }
    }
}

/// Law: a habit with no completion history has a streak of 0, whatever
/// the frequency and the current date.
pub proof fn lemma_streak_empty(frequency: u32, today: u32)
    ensures
        streak_count_spec(Seq::empty(), frequency, today) == 0,
{
}

/// Law: a single completion no more than `frequency` days ago (and not in
/// the future) is a streak of exactly 1.
pub proof fn lemma_streak_single(d: u32, frequency: u32, today: u32)
    requires
        d <= today,
        today - d <= frequency,
    ensures
        streak_count_spec(seq![d], frequency, today) == 1,
{
    let s = seq![d];
    assert(s.drop_last() =~= Seq::<u32>::empty());
    assert(sort_desc_spec(Seq::<u32>::empty()) == Seq::<u32>::empty());
    assert(sort_desc_spec(s) == insert_desc_spec(d, Seq::<u32>::empty()));
    assert(sort_desc_spec(s) == seq![d]);
    assert(streak_walk_spec(seq![d], frequency, today as int)
        == seq![d] + streak_walk_spec(seq![d].drop_first(), frequency, d - frequency));
    assert(seq![d].drop_first() =~= Seq::<u32>::empty());
}

/// Law: when even the most recent completion lies more than `frequency`
/// days in the past, the streak is 0 regardless of earlier history — a
/// broken streak resets to zero rather than keeping partial credit.
pub proof fn lemma_streak_broken(dates: Seq<u32>, frequency: u32, today: u32)
    requires
        forall|i: int| 0 <= i < dates.len() ==> dates[i] + frequency < today,
    ensures
        streak_count_spec(dates, frequency, today) == 0,
{
    broadcast use vstd::seq_lib::group_to_multiset_ensures;

    lemma_sort_desc_spec(dates);
    let s = sort_desc_spec(dates);
    if s.len() > 0 {
        assert(s.to_multiset().contains(s[0]));
        assert(dates.to_multiset().contains(s[0]));
        assert(dates.contains(s[0]));
        let k = choose|k: int| 0 <= k < dates.len() && dates[k] == s[0];
        assert(s[0] + frequency < today);
        assert(streak_walk_spec(s, frequency, today as int) =~= Seq::<u32>::empty());
    }
}

/// Law: logging a completion on today's date, when every existing
/// completion is at least `frequency` days old, never shortens the streak.
/// If the most recent completion is exactly `frequency` days old — the
/// streak was "due" today — the streak grows by exactly 1; if the streak
/// was already broken (every completion overdue), it restarts at 1 or
/// more.
///
/// When the most recent completion is *less* than `frequency` days old the
/// walk re-anchors on today and the streak can shrink, so that case is
/// deliberately outside this law.
pub proof fn lemma_streak_log_today(dates: Seq<u32>, frequency: u32, today: u32)
    requires
        frequency >= 1,
        forall|i: int| 0 <= i < dates.len() ==> dates[i] + frequency <= today,
    ensures
        (exists|i: int| 0 <= i < dates.len() && dates[i] + frequency == today)
            ==> streak_count_spec(dates.push(today), frequency, today)
                == streak_count_spec(dates, frequency, today) + 1,
        (forall|i: int| 0 <= i < dates.len() ==> dates[i] + frequency < today)
            ==> streak_count_spec(dates, frequency, today) == 0
                && streak_count_spec(dates.push(today), frequency, today) >= 1,
{
    broadcast use vstd::seq_lib::group_to_multiset_ensures;

    lemma_sort_desc_spec(dates);
    let s = sort_desc_spec(dates);

    // Sorting the history with today appended puts today in front.
    assert(dates.push(today).drop_last() =~= dates);
    assert(dates.push(today).last() == today);
    assert(sort_desc_spec(dates.push(today)) == insert_desc_spec(today, s));
    if s.len() > 0 {
        assert(s.to_multiset().contains(s[0]));
        assert(dates.to_multiset().contains(s[0]));
        assert(dates.contains(s[0]));
        let k = choose|k: int| 0 <= k < dates.len() && dates[k] == s[0];
        assert(s[0] + frequency <= today);
        assert(today >= s[0]);
    }
    assert(insert_desc_spec(today, s) == seq![today] + s);

    // The walk consumes today first and then expects a completion around
    // `frequency` days earlier.
    assert((seq![today] + s)[0] == today);
    assert((seq![today] + s).drop_first() =~= s);
    assert(streak_walk_spec(seq![today] + s, frequency, today as int)
        == seq![today] + streak_walk_spec(s, frequency, today - frequency));

    if s.len() > 0 {
        let m = s[0];
        if exists|i: int| 0 <= i < dates.len() && dates[i] + frequency == today {
            // The most recent completion was exactly on schedule: both
            // walks consume it and then agree step for step.
            let w = choose|i: int| 0 <= i < dates.len() && dates[i] + frequency == today;
            let dw = dates[w];
            assert(dates.to_multiset().contains(dw));
            assert(s.to_multiset().contains(dw));
            assert(s.contains(dw));
            let jw = choose|j: int| 0 <= j < s.len() && s[j] == dw;
            assert(s[0] >= s[jw]);
            assert(m + frequency >= today);
            assert(m + frequency == today);
            assert(streak_walk_spec(s, frequency, today as int)
                == seq![m] + streak_walk_spec(s.drop_first(), frequency, m - frequency));
            assert(streak_walk_spec(s, frequency, (today - frequency) as int)
                == seq![m] + streak_walk_spec(s.drop_first(), frequency, m - frequency));
        }
        if forall|i: int| 0 <= i < dates.len() ==> dates[i] + frequency < today {
            assert(s.to_multiset().contains(s[0]));
            assert(dates.to_multiset().contains(s[0]));
            assert(dates.contains(s[0]));
            let k0 = choose|k: int| 0 <= k < dates.len() && dates[k] == s[0];
            assert(m + frequency < today);
            assert(streak_walk_spec(s, frequency, today as int) =~= Seq::<u32>::empty());
        }
    }
}

/// Law: the qualifying streak dates are exactly the dates the streak walk
/// consumes — their number is the streak length — and every one of them
/// is a completion date; they come out most recent first.
pub proof fn lemma_streak_dates_qualify(dates: Seq<u32>, frequency: u32, today: u32)
    ensures
        streak_dates_spec(dates, frequency, today).len()
            == streak_count_spec(dates, frequency, today),
        forall|i: int| 0 <= i < streak_dates_spec(dates, frequency, today).len()
            ==> dates.contains(#[trigger] streak_dates_spec(dates, frequency, today)[i]),
        sorted_desc(streak_dates_spec(dates, frequency, today)),
{
    broadcast use vstd::seq_lib::group_to_multiset_ensures;

    lemma_sort_desc_spec(dates);
    let s = sort_desc_spec(dates);
    lemma_walk_is_prefix(s, frequency, today as int);
    let w = streak_dates_spec(dates, frequency, today);
    assert forall|i: int| 0 <= i < w.len() implies dates.contains(w[i]) by {
        assert(w[i] == s.take(w.len() as int)[i]);
        assert(w[i] == s[i]);
        assert(s.to_multiset().contains(s[i]));
        assert(dates.to_multiset().contains(s[i]));
    }
    assert forall|i: int, j: int| 0 <= i <= j < w.len() implies w[i] >= w[j] by {
        assert(w[i] == s[i] && w[j] == s[j]);
    }
}

/// Sort the completion dates most recent first.
pub fn sort_desc(dates: &Vec<u32>) -> (r: Vec<u32>)
    ensures
        r@ == sort_desc_spec(dates@),
{
    let mut out: Vec<u32> = Vec::new();
    let mut i: usize = 0;
    while i < dates.len()
        invariant
            i <= dates.len(),
            out@ == sort_desc_spec(dates@.take(i as int)),
        decreases dates.len() - i,
    {
        let x = dates[i];
        let mut j: usize = 0;
        while j < out.len() && out[j] > x
            invariant
                j <= out.len(),
                forall|k: int| 0 <= k < j ==> out@[k] > x,
            decreases out.len() - j,
        {
            j = j + 1;
        }
        proof {
            lemma_insert_desc_at(x, out@, j as int);
            assert(dates@.take(i + 1).drop_last() =~= dates@.take(i as int));
            assert(dates@.take(i + 1).last() == dates@[i as int]);
        }
        out.insert(j, x);
        proof {
            assert(out@ =~= sort_desc_spec(dates@.take(i as int)).take(j as int) + seq![x]
                + sort_desc_spec(dates@.take(i as int)).skip(j as int));
        }
        i = i + 1;
    }
    proof {
        assert(dates@.take(dates@.len() as int) =~= dates@);
    }
    out
}

/// Walk the sorted dates, collecting the ones that belong to the active
/// streak.
fn walk_collect(sorted: &Vec<u32>, frequency: u32, today: u32) -> (r: Vec<u32>)
    ensures
        r@ == streak_walk_spec(sorted@, frequency, today as int),
        r@.len() <= sorted@.len(),
{
    let mut r: Vec<u32> = Vec::new();
    let mut expected: i64 = today as i64;
    let mut i: usize = 0;
    let mut stopped: bool = false;
    proof {
        assert(sorted@.skip(0) =~= sorted@);
        assert(Seq::<u32>::empty() + sorted@ =~= sorted@);
    }
    while i < sorted.len() && !stopped
        invariant
            i <= sorted.len(),
            r@.len() == i,
            -(u32::MAX as int) <= expected as int <= u32::MAX as int,
            streak_walk_spec(sorted@, frequency, today as int) == r@ + (if stopped {
                Seq::<u32>::empty()
            } else {
                streak_walk_spec(sorted@.skip(i as int), frequency, expected as int)
            }),
            stopped ==> r@ == streak_walk_spec(sorted@, frequency, today as int),
        decreases sorted.len() - i + (if stopped { 0int } else { 1int }),
    {
        let d = sorted[i];
        let gap: i64 = expected - d as i64;
        if 0 <= gap && gap <= frequency as i64 {
            proof {
                assert(sorted@.skip(i as int)[0] == sorted@[i as int]);
                assert(sorted@.skip(i as int).drop_first() =~= sorted@.skip(i + 1));
                assert(streak_walk_spec(sorted@.skip(i as int), frequency, expected as int)
                    == seq![d] + streak_walk_spec(sorted@.skip(i + 1), frequency, d - frequency));
                assert(r@ + (seq![d] + streak_walk_spec(sorted@.skip(i + 1), frequency,
                    d - frequency)) =~= r@.push(d) + streak_walk_spec(sorted@.skip(i + 1),
                    frequency, d - frequency));
            }
            r.push(d);
            expected = d as i64 - frequency as i64;
            i = i + 1;
        } else {
            proof {
                assert(streak_walk_spec(sorted@.skip(i as int), frequency, expected as int)
                    =~= Seq::<u32>::empty());
                assert(r@ + Seq::<u32>::empty() =~= r@);
            }
            stopped = true;
        }
    }
    proof {
        if !stopped {
            assert(sorted@.skip(i as int) =~= Seq::<u32>::empty());
            assert(r@ + Seq::<u32>::empty() =~= r@);
        }
    }
    r
}

/// The current unbroken streak length for a habit.
///
/// `dates` is the habit's set of completion dates as day numbers, in any
/// order but without duplicates (the store's upsert guarantees that);
/// `today` is supplied by the caller so the function stays pure. An empty
/// history, or a most recent completion more than `frequency` days ago,
/// gives a streak of 0.
pub fn compute_streak(dates: &Vec<u32>, frequency: u32, today: u32) -> (r: u32)
    requires
        dates@.no_duplicates(),
        dates@.len() <= u32::MAX,
    ensures
        r as nat == streak_count_spec(dates@, frequency, today),
        dates@.len() == 0 ==> r == 0,
{
    let sorted = sort_desc(dates);
    proof {
        lemma_sort_desc_spec(dates@);
    }
    let walked = walk_collect(&sorted, frequency, today);
    walked.len() as u32
}

/// The dates that make up the habit's active streak, most recent first,
/// for calendar highlighting.
///
/// Short streaks are not highlighted: whenever `current_streak` is at most
/// `HOT_STREAK_THRESHOLD` the result is empty by policy. Otherwise the
/// result is exactly the dates consumed by the same walk that
/// `compute_streak` counts.
pub fn list_streak_dates(dates: &Vec<u32>, frequency: u32, current_streak: u32, today: u32) -> (r:
    Vec<u32>)
    requires
        dates@.no_duplicates(),
    ensures
        current_streak <= HOT_STREAK_THRESHOLD ==> r@ == Seq::<u32>::empty(),
        current_streak > HOT_STREAK_THRESHOLD ==> r@ == streak_dates_spec(dates@, frequency,
            today),
{
    if current_streak <= HOT_STREAK_THRESHOLD {
        return Vec::new();
    }
    let sorted = sort_desc(dates);
    walk_collect(&sorted, frequency, today)
}

} // verus!
