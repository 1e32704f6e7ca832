use habit_tracker::habits::HabitItem;
use habit_tracker::input_mode::InputMode;
use habit_tracker::keys::{Key, KeyEvent};
use habit_tracker::session::{App, StoreAction};
use habit_tracker::store::HabitStore;

const T: u32 = 2_460_000;

fn press(app: &mut App, code: Key) -> StoreAction {
    app.on_key_event(KeyEvent::plain(code), T)
}

fn type_text(app: &mut App, text: &str) {
    for c in text.chars() {
        let act = press(app, Key::Char(c));
        assert_eq!(act, StoreAction::Idle);
    }
}

#[test]
fn advance_then_cancel_returns_to_normal_with_nothing_created() {
    let mut app = App::new();
    assert_eq!(app.input_mode, InputMode::Normal);

    let act = press(&mut app, Key::Char('a'));
    assert_eq!(act, StoreAction::Idle);
    assert_eq!(app.input_mode, InputMode::EnteringName);
    assert!(app.habits.show_add_habit);

    type_text(&mut app, "Gym");
    assert_eq!(app.habit_name_buffer.content, vec!['G', 'y', 'm']);

    let act = press(&mut app, Key::Esc);
    assert_eq!(act, StoreAction::Idle);
    assert_eq!(app.input_mode, InputMode::Normal);
    assert!(app.habit_name_buffer.content.is_empty());
    assert!(!app.habits.show_add_habit);
    assert!(app.habits.items.is_empty());
}

#[test]
fn full_entry_sequence_creates_exactly_one_habit() {
    let mut app = App::new();
    let mut store = HabitStore::new();

    assert_eq!(press(&mut app, Key::Char('a')), StoreAction::Idle);
    type_text(&mut app, "Gym");
    assert_eq!(press(&mut app, Key::Enter), StoreAction::Idle);
    assert_eq!(app.input_mode, InputMode::EnteringFrequency);

    type_text(&mut app, "3");
    let act = press(&mut app, Key::Enter);
    assert_eq!(app.input_mode, InputMode::Normal);
    match act {
        StoreAction::AddHabit { name, frequency } => {
            assert_eq!(name, vec!['G', 'y', 'm']);
            assert_eq!(frequency, 3);
            let habit = store.add_habit(name.into_iter().collect(), frequency);
            app.apply_added_habit(habit);
        },
        other => panic!("expected an AddHabit action, got {:?}", other),
    }
    assert_eq!(app.habits.items.len(), 1);
    assert_eq!(app.habits.items[0].name, "Gym");
    assert_eq!(app.habits.items[0].frequency, 3);
    assert_eq!(store.habits.len(), 1);
}

#[test]
fn zero_frequency_commit_creates_no_habit() {
    let mut app = App::new();
    assert_eq!(press(&mut app, Key::Char('a')), StoreAction::Idle);
    type_text(&mut app, "Gym");
    assert_eq!(press(&mut app, Key::Enter), StoreAction::Idle);
    type_text(&mut app, "0");
    let act = press(&mut app, Key::Enter);
    assert_eq!(act, StoreAction::Idle);
    assert_eq!(app.input_mode, InputMode::Normal);
    assert!(app.habits.items.is_empty());
}

#[test]
fn unparseable_frequency_commit_creates_no_habit() {
    let mut app = App::new();
    assert_eq!(press(&mut app, Key::Char('a')), StoreAction::Idle);
    type_text(&mut app, "Gym");
    assert_eq!(press(&mut app, Key::Enter), StoreAction::Idle);
    type_text(&mut app, "often");
    let act = press(&mut app, Key::Enter);
    assert_eq!(act, StoreAction::Idle);
    assert!(app.habits.items.is_empty());
}

#[test]
fn frequency_backtab_steps_back_and_clears_buffer() {
    let mut app = App::new();
    assert_eq!(press(&mut app, Key::Char('a')), StoreAction::Idle);
    type_text(&mut app, "Gym");
    assert_eq!(press(&mut app, Key::Enter), StoreAction::Idle);
    type_text(&mut app, "3");
    let act = press(&mut app, Key::BackTab);
    assert_eq!(act, StoreAction::Idle);
    assert_eq!(app.input_mode, InputMode::EnteringName);
    assert!(app.habit_freq_buffer.content.is_empty());
    // The name survives for a second try.
    assert_eq!(app.habit_name_buffer.content, vec!['G', 'y', 'm']);
}

#[test]
fn hours_entry_commits_for_selected_habit() {
    let mut app = App::new();
    app.habits.items.push(HabitItem {
        id: 42,
        name: String::from("Gym"),
        active: true,
        frequency: 1,
        current_streak: 0,
        max_streak: 0,
    });
    app.habits.selected = Some(0);

    assert_eq!(press(&mut app, Key::Tab), StoreAction::Idle);
    assert_eq!(app.input_mode, InputMode::MarkingDone);
    assert_eq!(press(&mut app, Key::Enter), StoreAction::Idle);
    assert_eq!(app.input_mode, InputMode::EnteringHours);
    type_text(&mut app, "2");
    let act = press(&mut app, Key::Enter);
    assert_eq!(app.input_mode, InputMode::Normal);
    assert_eq!(act, StoreAction::AddCompleted { habit_id: 42, day: T, hours: 2 });
}

#[test]
fn hours_entry_without_selection_commits_nothing() {
    let mut app = App::new();
    assert_eq!(press(&mut app, Key::Tab), StoreAction::Idle);
    assert_eq!(press(&mut app, Key::Enter), StoreAction::Idle);
    type_text(&mut app, "2");
    let act = press(&mut app, Key::Enter);
    assert_eq!(act, StoreAction::Idle);
    assert_eq!(app.input_mode, InputMode::Normal);
}

#[test]
fn unparseable_hours_commit_as_zero() {
    let mut app = App::new();
    app.habits.items.push(HabitItem {
        id: 7,
        name: String::from("Gym"),
        active: true,
        frequency: 1,
        current_streak: 0,
        max_streak: 0,
    });
    app.habits.selected = Some(0);
    assert_eq!(press(&mut app, Key::Tab), StoreAction::Idle);
    assert_eq!(press(&mut app, Key::Enter), StoreAction::Idle);
    type_text(&mut app, "2h");
    let act = press(&mut app, Key::Enter);
    assert_eq!(act, StoreAction::AddCompleted { habit_id: 7, day: T, hours: 0 });
}

#[test]
fn hours_cancel_returns_to_marking_done() {
    let mut app = App::new();
    assert_eq!(press(&mut app, Key::Tab), StoreAction::Idle);
    assert_eq!(press(&mut app, Key::Enter), StoreAction::Idle);
    type_text(&mut app, "5");
    let act = press(&mut app, Key::BackTab);
    assert_eq!(act, StoreAction::Idle);
    assert_eq!(app.input_mode, InputMode::MarkingDone);
    assert!(app.habit_hours_buffer.content.is_empty());
}

#[test]
fn delete_key_asks_for_selected_habit() {
    let mut app = App::new();
    app.habits.items.push(HabitItem {
        id: 9,
        name: String::from("Gym"),
        active: true,
        frequency: 1,
        current_streak: 0,
        max_streak: 0,
    });
    // No selection: nothing to delete.
    assert_eq!(press(&mut app, Key::Char('d')), StoreAction::Idle);
    app.habits.selected = Some(0);
    assert_eq!(press(&mut app, Key::Char('d')), StoreAction::DeleteHabit { habit_id: 9 });
    // A selection past the end of the list is treated as no habit.
    app.habits.selected = Some(5);
    assert_eq!(press(&mut app, Key::Char('d')), StoreAction::Idle);
}

#[test]
fn selection_keys_follow_list_state_semantics() {
    let mut app = App::new();
    assert_eq!(app.habits.selected, None);
    assert_eq!(press(&mut app, Key::Down), StoreAction::Idle);
    assert_eq!(app.habits.selected, Some(0));
    assert_eq!(press(&mut app, Key::Char('j')), StoreAction::Idle);
    assert_eq!(app.habits.selected, Some(1));
    assert_eq!(press(&mut app, Key::Char('k')), StoreAction::Idle);
    assert_eq!(app.habits.selected, Some(0));
    assert_eq!(press(&mut app, Key::Up), StoreAction::Idle);
    assert_eq!(app.habits.selected, Some(0));
    assert_eq!(press(&mut app, Key::Char('h')), StoreAction::Idle);
    assert_eq!(app.habits.selected, None);
    assert_eq!(press(&mut app, Key::Char('G')), StoreAction::Idle);
    assert_eq!(app.habits.selected, Some(usize::MAX));
    assert_eq!(press(&mut app, Key::Char('g')), StoreAction::Idle);
    assert_eq!(app.habits.selected, Some(0));
}

#[test]
fn quit_is_ignored_while_add_panel_is_open() {
    let mut app = App::new();
    app.running = true;
    assert_eq!(press(&mut app, Key::Char('a')), StoreAction::Idle);
    // In name entry, 'q' is just a character.
    assert_eq!(press(&mut app, Key::Char('q')), StoreAction::Idle);
    assert_eq!(app.habit_name_buffer.content, vec!['q']);
    assert!(app.running);
    // Back in normal mode with the panel closed, 'q' quits.
    assert_eq!(press(&mut app, Key::Esc), StoreAction::Idle);
    assert_eq!(app.input_mode, InputMode::Normal);
    assert_eq!(press(&mut app, Key::Char('q')), StoreAction::Idle);
    assert!(!app.running);
}

#[test]
fn ctrl_c_quits_in_normal_mode() {
    let mut app = App::new();
    app.running = true;
    let act = app.on_key_event(KeyEvent { ctrl: true, code: Key::Char('c') }, T);
    assert_eq!(act, StoreAction::Idle);
    assert!(!app.running);
}

#[test]
fn input_mode_next_walks_the_workflows() {
    let mut mode = InputMode::default();
    assert_eq!(mode, InputMode::Normal);
    mode.next(Key::Char('a'));
    assert_eq!(mode, InputMode::EnteringName);
    mode.next(Key::Enter);
    assert_eq!(mode, InputMode::EnteringFrequency);
    mode.next(Key::Enter);
    assert_eq!(mode, InputMode::Normal);
    mode.next(Key::Tab);
    assert_eq!(mode, InputMode::MarkingDone);
    mode.next(Key::Enter);
    assert_eq!(mode, InputMode::EnteringHours);
    mode.next(Key::Enter);
    assert_eq!(mode, InputMode::Normal);
    // Keys without a binding leave normal mode alone.
    mode.next(Key::Char('x'));
    assert_eq!(mode, InputMode::Normal);
}

#[test]
fn input_mode_prev_steps_back() {
    let mut mode = InputMode::EnteringFrequency;
    mode.prev();
    assert_eq!(mode, InputMode::EnteringName);
    mode.prev();
    assert_eq!(mode, InputMode::Normal);
    let mut mode = InputMode::EnteringHours;
    mode.prev();
    assert_eq!(mode, InputMode::MarkingDone);
    mode.prev();
    assert_eq!(mode, InputMode::Normal);
}
