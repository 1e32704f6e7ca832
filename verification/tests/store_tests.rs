use habit_tracker::store::HabitStore;
use habit_tracker::hours::TimeFrame;

const T: u32 = 2_460_000;

#[test]
fn add_habit_assigns_fresh_ids() {
    let mut store = HabitStore::new();
    let a = store.add_habit(String::from("Gym"), 2);
    let b = store.add_habit(String::from("Read"), 1);
    assert_eq!(a.name, "Gym");
    assert_eq!(a.frequency, 2);
    assert!(a.active);
    assert_eq!(a.current_streak, 0);
    assert_eq!(a.max_streak, 0);
    assert_ne!(a.id, b.id);
    assert_eq!(store.habits.len(), 2);
}

#[test]
fn upsert_keeps_one_event_with_latest_hours() {
    // Logging the same (habit, date) twice with different hours leaves
    // exactly one event, carrying the second value.
    let mut store = HabitStore::new();
    let habit = store.add_habit(String::from("Gym"), 1);
    store.add_completed(habit.id, T, 5);
    store.add_completed(habit.id, T, 9);
    assert_eq!(store.events.len(), 1);
    assert_eq!(store.events[0].habit_id, habit.id);
    assert_eq!(store.events[0].day, T);
    assert_eq!(store.events[0].hours, 9);
}

#[test]
fn upsert_distinguishes_days_and_habits() {
    let mut store = HabitStore::new();
    let a = store.add_habit(String::from("Gym"), 1);
    let b = store.add_habit(String::from("Read"), 1);
    store.add_completed(a.id, T, 1);
    store.add_completed(a.id, T - 1, 2);
    store.add_completed(b.id, T, 3);
    assert_eq!(store.events.len(), 3);
    store.add_completed(a.id, T, 7);
    assert_eq!(store.events.len(), 3);
}

#[test]
fn list_completed_dates_filters_by_habit() {
    let mut store = HabitStore::new();
    let a = store.add_habit(String::from("Gym"), 1);
    let b = store.add_habit(String::from("Read"), 1);
    store.add_completed(a.id, T, 1);
    store.add_completed(b.id, T - 1, 1);
    store.add_completed(a.id, T - 2, 1);
    assert_eq!(store.list_completed_dates(a.id), vec![T, T - 2]);
    assert_eq!(store.list_completed_dates(b.id), vec![T - 1]);
}

#[test]
fn get_habits_recomputes_current_streak() {
    let mut store = HabitStore::new();
    let habit = store.add_habit(String::from("Gym"), 1);
    store.add_completed(habit.id, T, 0);
    store.add_completed(habit.id, T - 1, 0);
    let listed = store.get_habits(T);
    assert_eq!(listed.len(), 1);
    assert_eq!(listed[0].current_streak, 2);
    assert_eq!(listed[0].name, "Gym");
    // A later "today" breaks the streak without any new write.
    let listed = store.get_habits(T + 5);
    assert_eq!(listed[0].current_streak, 0);
}

#[test]
fn store_compute_streak_matches_history() {
    let mut store = HabitStore::new();
    let habit = store.add_habit(String::from("Gym"), 7);
    store.add_completed(habit.id, T, 0);
    store.add_completed(habit.id, T - 7, 0);
    store.add_completed(habit.id, T - 14, 0);
    assert_eq!(store.compute_streak(habit.id, 7, T), 3);
    assert_eq!(store.compute_streak(habit.id, 7, T + 8), 0);
}

#[test]
fn store_streak_dates_respect_threshold() {
    let mut store = HabitStore::new();
    let habit = store.add_habit(String::from("Gym"), 1);
    for k in 0..6u32 {
        store.add_completed(habit.id, T - k, 0);
    }
    let streak = store.compute_streak(habit.id, 1, T);
    assert_eq!(streak, 6);
    let hot = store.list_streak_dates(habit.id, 1, streak, T);
    assert_eq!(hot, vec![T, T - 1, T - 2, T - 3, T - 4, T - 5]);
    assert!(store.list_streak_dates(habit.id, 1, 5, T).is_empty());
}

#[test]
fn delete_habit_reports_rows_affected() {
    let mut store = HabitStore::new();
    let a = store.add_habit(String::from("Gym"), 1);
    let b = store.add_habit(String::from("Read"), 1);
    assert_eq!(store.delete_habit(a.id), 1);
    assert_eq!(store.habits.len(), 1);
    assert_eq!(store.habits[0].id, b.id);
    // Deleting an id that does not exist is a no-op, not an error.
    assert_eq!(store.delete_habit(a.id), 0);
    assert_eq!(store.habits.len(), 1);
}

#[test]
fn get_id_from_name_finds_first_match() {
    let mut store = HabitStore::new();
    let a = store.add_habit(String::from("Gym"), 1);
    store.add_habit(String::from("Read"), 1);
    assert_eq!(store.get_id_from_name(String::from("Gym")), Some(a.id));
    assert_eq!(store.get_id_from_name(String::from("Swim")), None);
}

#[test]
fn get_hours_of_empty_history_is_zero() {
    let store = HabitStore::new();
    assert_eq!(store.get_hours(1, TimeFrame::Week, T), 0);
    assert_eq!(store.get_hours(1, TimeFrame::Month, T), 0);
    assert_eq!(store.get_hours(1, TimeFrame::Year, T), 0);
}
