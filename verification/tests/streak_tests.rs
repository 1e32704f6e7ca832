use habit_tracker::streak::{compute_streak, list_streak_dates, sort_desc, HOT_STREAK_THRESHOLD};

const T: u32 = 20000;

#[test]
fn empty_history_has_zero_streak() {
    let dates: Vec<u32> = vec![];
    assert_eq!(compute_streak(&dates, 1, T), 0);
    assert_eq!(compute_streak(&dates, 7, T), 0);
    assert_eq!(compute_streak(&dates, 365, 0), 0);
}

#[test]
fn single_recent_completion_is_streak_of_one() {
    for f in [1u32, 3, 7] {
        for gap in 0..=f {
            let dates = vec![T - gap];
            assert_eq!(compute_streak(&dates, f, T), 1);
        }
    }
}

#[test]
fn overdue_most_recent_resets_to_zero() {
    // A long unbroken run whose most recent completion is overdue gives
    // no partial credit.
    let dates = vec![T - 2, T - 3, T - 4, T - 5];
    assert_eq!(compute_streak(&dates, 1, T), 0);
    let dates = vec![T - 10, T - 17, T - 24];
    assert_eq!(compute_streak(&dates, 7, T), 0);
}

#[test]
fn daily_streak_of_three() {
    // Frequency 1, completions on T, T-1, T-2.
    let dates = vec![T, T - 1, T - 2];
    assert_eq!(compute_streak(&dates, 1, T), 3);
}

#[test]
fn gap_past_frequency_stops_the_walk() {
    // Frequency 1, completions on T and T-3: after T the next expected
    // slot is T-1, and T-3 is more than a day before it, so only T
    // counts.
    let dates = vec![T, T - 3];
    assert_eq!(compute_streak(&dates, 1, T), 1);
}

#[test]
fn anchored_window_reaches_two_frequencies_back() {
    // The walk anchors each expected slot on the completion actually
    // made, so after T (frequency 1) a completion on T-2 still falls
    // inside the window around the expected T-1.
    let dates = vec![T, T - 2];
    assert_eq!(compute_streak(&dates, 1, T), 2);
}

#[test]
fn unsorted_input_is_sorted_first() {
    let dates = vec![T - 2, T, T - 1];
    assert_eq!(compute_streak(&dates, 1, T), 3);
}

#[test]
fn weekly_streak_counts_within_windows() {
    let dates = vec![T, T - 7, T - 14];
    assert_eq!(compute_streak(&dates, 7, T), 3);
    // A completion later in its window re-anchors the following window
    // on itself.
    let dates = vec![T, T - 8, T - 15];
    assert_eq!(compute_streak(&dates, 7, T), 3);
    // A completion ahead of the next expected slot breaks the walk.
    let dates = vec![T, T - 6, T - 13];
    assert_eq!(compute_streak(&dates, 7, T), 1);
}

#[test]
fn short_streak_gets_no_highlight_dates() {
    let dates = vec![T, T - 1, T - 2];
    let streak = compute_streak(&dates, 1, T);
    assert_eq!(streak, 3);
    assert!(streak <= HOT_STREAK_THRESHOLD);
    let hot = list_streak_dates(&dates, 1, streak, T);
    assert!(hot.is_empty());
}

#[test]
fn threshold_streak_gets_no_highlight_dates() {
    let dates = vec![T, T - 1, T - 2, T - 3, T - 4];
    assert_eq!(compute_streak(&dates, 1, T), 5);
    assert!(list_streak_dates(&dates, 1, 5, T).is_empty());
}

#[test]
fn hot_streak_highlights_exactly_the_walked_dates() {
    let dates = vec![T - 3, T - 1, T - 5, T, T - 2, T - 4];
    let streak = compute_streak(&dates, 1, T);
    assert_eq!(streak, 6);
    let hot = list_streak_dates(&dates, 1, streak, T);
    assert_eq!(hot.len() as u32, streak);
    assert_eq!(hot, vec![T, T - 1, T - 2, T - 3, T - 4, T - 5]);
    // Every highlighted date is a completion date.
    for d in &hot {
        assert!(dates.contains(d));
    }
}

#[test]
fn broken_tail_is_not_highlighted() {
    // Six recent dates then a break, then older history.
    let dates = vec![T, T - 1, T - 2, T - 3, T - 4, T - 5, T - 9, T - 10];
    let streak = compute_streak(&dates, 1, T);
    assert_eq!(streak, 6);
    let hot = list_streak_dates(&dates, 1, streak, T);
    assert_eq!(hot, vec![T, T - 1, T - 2, T - 3, T - 4, T - 5]);
}

#[test]
fn logging_today_when_due_extends_streak_by_one() {
    let dates = vec![T - 1, T - 2, T - 3];
    let before = compute_streak(&dates, 1, T);
    let with_today = vec![T, T - 1, T - 2, T - 3];
    let after = compute_streak(&with_today, 1, T);
    assert_eq!(after, before + 1);
}

#[test]
fn sort_desc_orders_most_recent_first() {
    let dates = vec![5u32, 900, 17, 0, 900_000];
    let sorted = sort_desc(&dates);
    assert_eq!(sorted, vec![900_000u32, 900, 17, 5, 0]);
}
