use habit_tracker::date_styler::{CompletedDateStyler, DateClass};
use habit_tracker::hours::{CompletionEvent, TimeFrame, hours_for_timeframe, in_same_bucket};
use habit_tracker::store::HabitStore;
use time::{Date, Month};

fn day(year: i32, month: Month, d: u8) -> u32 {
    Date::from_calendar_date(year, month, d)
        .unwrap()
        .to_julian_day() as u32
}

#[test]
fn month_total_counts_only_the_current_month() {
    // Events: 3 hours this month, 5 hours last month; the monthly total
    // as of today is 3.
    let today = day(2026, Month::October, 11);
    let this_month = day(2026, Month::October, 5);
    let last_month = day(2026, Month::September, 5);
    let events = vec![
        CompletionEvent { habit_id: 1, day: this_month, hours: 3 },
        CompletionEvent { habit_id: 1, day: last_month, hours: 5 },
    ];
    assert_eq!(hours_for_timeframe(&events, 1, TimeFrame::Month, today), 3);
}

#[test]
fn year_total_sums_the_whole_calendar_year() {
    let today = day(2026, Month::October, 11);
    let events = vec![
        CompletionEvent { habit_id: 1, day: day(2026, Month::January, 2), hours: 3 },
        CompletionEvent { habit_id: 1, day: day(2026, Month::September, 5), hours: 5 },
        CompletionEvent { habit_id: 1, day: day(2025, Month::December, 31), hours: 11 },
    ];
    assert_eq!(hours_for_timeframe(&events, 1, TimeFrame::Year, today), 8);
}

#[test]
fn week_total_uses_iso_weeks() {
    // 2026-10-05 is a Monday and 2026-10-11 the Sunday of the same ISO
    // week; 2026-10-12 falls in the next week.
    let monday = day(2026, Month::October, 5);
    let sunday = day(2026, Month::October, 11);
    let next_monday = day(2026, Month::October, 12);
    assert!(in_same_bucket(monday, sunday, TimeFrame::Week));
    assert!(!in_same_bucket(sunday, next_monday, TimeFrame::Week));

    let events = vec![
        CompletionEvent { habit_id: 1, day: monday, hours: 2 },
        CompletionEvent { habit_id: 1, day: next_monday, hours: 9 },
    ];
    assert_eq!(hours_for_timeframe(&events, 1, TimeFrame::Week, sunday), 2);
}

#[test]
fn totals_are_per_habit() {
    let today = day(2026, Month::October, 11);
    let events = vec![
        CompletionEvent { habit_id: 1, day: today, hours: 3 },
        CompletionEvent { habit_id: 2, day: today, hours: 5 },
    ];
    assert_eq!(hours_for_timeframe(&events, 1, TimeFrame::Month, today), 3);
    assert_eq!(hours_for_timeframe(&events, 2, TimeFrame::Month, today), 5);
    assert_eq!(hours_for_timeframe(&events, 3, TimeFrame::Month, today), 0);
}

#[test]
fn bucket_labels_not_rolling_windows() {
    // The last day of September and the first day of October are a day
    // apart but in different month buckets.
    let sep30 = day(2026, Month::September, 30);
    let oct1 = day(2026, Month::October, 1);
    assert!(!in_same_bucket(sep30, oct1, TimeFrame::Month));
    assert!(in_same_bucket(sep30, oct1, TimeFrame::Year));
}

#[test]
fn store_hours_follow_upserts() {
    let today = day(2026, Month::October, 11);
    let mut store = HabitStore::new();
    let habit = store.add_habit(String::from("Gym"), 1);
    store.add_completed(habit.id, day(2026, Month::October, 5), 3);
    store.add_completed(habit.id, day(2026, Month::September, 5), 5);
    assert_eq!(store.get_hours(habit.id, TimeFrame::Month, today), 3);
    assert_eq!(store.get_hours(habit.id, TimeFrame::Year, today), 8);
    // Re-logging the same day replaces its hours in the totals.
    store.add_completed(habit.id, day(2026, Month::October, 5), 4);
    assert_eq!(store.get_hours(habit.id, TimeFrame::Month, today), 4);
}

#[test]
fn timeframe_labels() {
    assert_eq!(TimeFrame::Week.label(), "Week");
    assert_eq!(TimeFrame::Month.label(), "Month");
    assert_eq!(TimeFrame::Year.label(), "Year");
}

#[test]
fn iso_strings_parse_to_their_day_numbers() {
    let mut styler = CompletedDateStyler::new();
    styler.update_dates(vec![String::from("2026-10-11"), String::from("2000-01-01")]);
    assert_eq!(styler.completed_dates, vec![day(2026, Month::October, 11), 2_451_545]);
}

#[test]
fn malformed_date_records_are_skipped() {
    let mut styler = CompletedDateStyler::new();
    styler.update_dates(vec![
        String::from("2026-10-11"),
        String::from("not a date"),
        String::from("2026-13-40"),
        String::from("2026-10-12"),
    ]);
    assert_eq!(
        styler.completed_dates,
        vec![day(2026, Month::October, 11), day(2026, Month::October, 12)]
    );
}

#[test]
fn classification_priority_is_streak_over_completed() {
    let mut styler = CompletedDateStyler::new();
    let d1 = day(2026, Month::October, 5);
    let d2 = day(2026, Month::October, 6);
    let d3 = day(2026, Month::October, 7);
    styler.set_completed_days(vec![d1, d2]);
    styler.set_streak_days(vec![d1]);
    assert_eq!(styler.get_style(d1), DateClass::ActiveStreak);
    assert_eq!(styler.get_style(d2), DateClass::Completed);
    assert_eq!(styler.get_style(d3), DateClass::Plain);
}

#[test]
fn streak_strings_parse_like_completed_strings() {
    let mut styler = CompletedDateStyler::new();
    styler.update_streak_dates(vec![String::from("2026-10-11"), String::from("bad")]);
    assert_eq!(styler.streak_dates, vec![day(2026, Month::October, 11)]);
}
