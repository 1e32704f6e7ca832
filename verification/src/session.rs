use vstd::prelude::*;
use crate::habits::{HabitItem, HabitV, UserHabits, UserHabitsV};
use crate::input_mode::{InputMode, mode_next, mode_prev};
use crate::keys::{Key, KeyEvent};
use crate::text_input::{TextInput, TextBufV, buffer_after, parse_or_zero_spec, parse_u32_or_zero};

verus! {

/// What the application asks the persistent store to do as the outcome
/// of one input event. The interaction loop performs the action against
/// the database and, for `AddHabit`, hands the inserted habit back
/// through `apply_added_habit`.
#[derive(Debug, PartialEq)]
pub enum StoreAction {
    /// Nothing to do.
    Idle,
    /// Insert a habit with this name and frequency.
    AddHabit { name: Vec<char>, frequency: u32 },
    /// Upsert a completion: `hours` for `habit_id` on `day`.
    AddCompleted { habit_id: u64, day: u32, hours: u32 },
    /// Delete the habit with this id.
    DeleteHabit { habit_id: u64 },
}

/// The spec-level image of a `StoreAction`.
#[verifier::ext_equal]
pub enum ActionV {
    Idle,
    AddHabit { name: Seq<char>, frequency: u32 },
    AddCompleted { habit_id: u64, day: u32, hours: u32 },
    DeleteHabit { habit_id: u64 },
}

impl View for StoreAction {
    type V = ActionV;

    open spec fn view(&self) -> ActionV {
        match self {
            StoreAction::Idle => ActionV::Idle,
            StoreAction::AddHabit { name, frequency } => ActionV::AddHabit {
                name: name@,
                frequency: *frequency,
            },
            StoreAction::AddCompleted { habit_id, day, hours } => ActionV::AddCompleted {
                habit_id: *habit_id,
                day: *day,
                hours: *hours,
            },
            StoreAction::DeleteHabit { habit_id } => ActionV::DeleteHabit {
                habit_id: *habit_id,
            },
        }
    }
}

/// The application's interaction state: the modal input mode, the three
/// entry buffers, the habit list and its panel flags, and the running
/// flag for the event loop.
#[derive(Debug)]
pub struct App {
    pub running: bool,
    pub habits: UserHabits,
    pub input_mode: InputMode,
    pub habit_name_buffer: TextInput,
    pub habit_freq_buffer: TextInput,
    pub habit_hours_buffer: TextInput,
}

/// The spec-level image of the whole application state.
#[verifier::ext_equal]
pub struct AppModel {
    pub running: bool,
    pub habits: UserHabitsV,
    pub input_mode: InputMode,
    pub name_buf: TextBufV,
    pub freq_buf: TextBufV,
    pub hours_buf: TextBufV,
}

impl View for App {
    type V = AppModel;

    open spec fn view(&self) -> AppModel {
        AppModel {
            running: self.running,
            habits: self.habits@,
            input_mode: self.input_mode,
            name_buf: self.habit_name_buffer@,
            freq_buf: self.habit_freq_buffer@,
            hours_buf: self.habit_hours_buffer@,
        }
    }
}

impl App {
    /// All entry buffers have their cursors in range.
    pub open spec fn wf(&self) -> bool {
        &&& self.habit_name_buffer.wf()
        &&& self.habit_freq_buffer.wf()
        &&& self.habit_hours_buffer.wf()
    }
}

/// The id of the currently selected habit, if the selection points at an
/// existing list entry.
pub open spec fn current_habit_spec(m: AppModel) -> Option<u64> {
    match m.habits.selected {
        Some(i) => if 0 <= i < m.habits.items.len() {
            Some(m.habits.items[i].id)
        } else {
            None
        },
        None => None,
    }
}

/// The state after one key in `Normal` mode, and the store action it
/// triggers. `q` (or control-c) quits unless the add-habit panel is
/// open; `h j k g G` and the arrow keys drive the list selection with
/// the same saturating semantics the rendering layer's list state uses;
/// `a` opens habit creation, `Tab` starts completion logging, `d` asks
/// for deletion of the selected habit, and `Esc` closes the add-habit
/// panel.
pub open spec fn normal_step(m: AppModel, key: KeyEvent) -> (AppModel, ActionV) {
    let running_after_quit = if m.habits.show_add_habit {
        m.running
    } else {
        false
    };
    match key.code {
        Key::Char(c) => if c == 'q' || (key.ctrl && (c == 'c' || c == 'C')) {
            (AppModel { running: running_after_quit, ..m }, ActionV::Idle)
        } else if c == 'h' {
            (AppModel { habits: UserHabitsV { selected: None, ..m.habits }, ..m }, ActionV::Idle)
        } else if c == 'j' {
            (AppModel { habits: UserHabitsV { selected: sel_next(m.habits.selected),
                ..m.habits }, ..m }, ActionV::Idle)
        } else if c == 'k' {
            (AppModel { habits: UserHabitsV { selected: sel_prev(m.habits.selected),
                ..m.habits }, ..m }, ActionV::Idle)
        } else if c == 'g' {
            (AppModel { habits: UserHabitsV { selected: Some(0), ..m.habits }, ..m },
                ActionV::Idle)
        } else if c == 'G' {
            (AppModel { habits: UserHabitsV { selected: Some(usize::MAX as int), ..m.habits },
                ..m }, ActionV::Idle)
        } else if c == 'a' {
            (AppModel { input_mode: InputMode::EnteringName, habits: UserHabitsV {
                show_add_habit: true, ..m.habits }, ..m }, ActionV::Idle)
        } else if c == 'd' {
            (m, match current_habit_spec(m) {
                Some(id) => ActionV::DeleteHabit { habit_id: id },
                None => ActionV::Idle,
            })
        } else {
            (m, ActionV::Idle)
        },
        Key::Left => (AppModel { habits: UserHabitsV { selected: None, ..m.habits }, ..m },
            ActionV::Idle),
        Key::Down => (AppModel { habits: UserHabitsV { selected: sel_next(m.habits.selected),
            ..m.habits }, ..m }, ActionV::Idle),
        Key::Up => (AppModel { habits: UserHabitsV { selected: sel_prev(m.habits.selected),
            ..m.habits }, ..m }, ActionV::Idle),
        Key::Home => (AppModel { habits: UserHabitsV { selected: Some(0), ..m.habits }, ..m },
            ActionV::Idle),
        Key::End => (AppModel { habits: UserHabitsV { selected: Some(usize::MAX as int),
            ..m.habits }, ..m }, ActionV::Idle),
        Key::Esc => (AppModel { habits: UserHabitsV { show_add_habit: false, ..m.habits }, ..m },
            ActionV::Idle),
        Key::Tab => (AppModel { input_mode: InputMode::MarkingDone, ..m }, ActionV::Idle),
        _ => (m, ActionV::Idle),
    }
}

/// Selection after "next": one past the current entry (saturating), or
/// the first entry when nothing is selected.
pub open spec fn sel_next(sel: Option<int>) -> Option<int> {
    match sel {
        Some(i) => if i < usize::MAX {
            Some(i + 1)
        } else {
            Some(i)
        },
        None => Some(0),
    }
}

/// Selection after "previous": one before the current entry (saturating),
/// or the last possible entry when nothing is selected.
pub open spec fn sel_prev(sel: Option<int>) -> Option<int> {
    match sel {
        Some(i) => if i > 0 {
            Some(i - 1)
        } else {
            Some(0)
        },
        None => Some(usize::MAX as int),
    }
}

/// The state after one key while entering a habit name: the key edits
/// the name buffer; advance moves on to frequency entry; cancel returns
/// to `Normal` (the buffer edit has already cleared the name) and closes
/// the add-habit panel. No store action ever results.
pub open spec fn name_step(m: AppModel, key: KeyEvent) -> (AppModel, ActionV) {
    let b = buffer_after(m.name_buf, key.code);
    let m1 = AppModel { name_buf: b, ..m };
    match key.code {
        Key::Enter | Key::Tab => (AppModel {
            input_mode: mode_next(InputMode::EnteringName, key.code),
            ..m1
        }, ActionV::Idle),
        Key::BackTab | Key::Esc => (AppModel {
            input_mode: mode_prev(InputMode::EnteringName),
            habits: UserHabitsV { show_add_habit: false, ..m1.habits },
            ..m1
        }, ActionV::Idle),
        _ => (m1, ActionV::Idle),
    }
}

/// The state after one key while entering a frequency, and the commit it
/// may trigger. Advance returns to `Normal`, closes the panel and asks
/// the store to insert a habit built from the name and frequency
/// buffers — unless the frequency parses to 0 (an undefined cadence,
/// also the fate of an unparseable buffer), in which case nothing is
/// submitted. Cancel steps back to name entry; the buffer edit has
/// already cleared the frequency.
pub open spec fn freq_step(m: AppModel, key: KeyEvent) -> (AppModel, ActionV) {
    let b = buffer_after(m.freq_buf, key.code);
    let m1 = AppModel { freq_buf: b, ..m };
    match key.code {
        Key::Enter | Key::Tab => {
            let parsed = parse_or_zero_spec(b.text);
            (AppModel {
                input_mode: mode_next(InputMode::EnteringFrequency, key.code),
                habits: UserHabitsV { show_add_habit: false, ..m1.habits },
                ..m1
            }, if parsed >= 1 {
                ActionV::AddHabit { name: m.name_buf.text, frequency: parsed }
            } else {
                ActionV::Idle
            })
        },
        Key::BackTab => (AppModel {
            input_mode: mode_prev(InputMode::EnteringFrequency),
            ..m1
        }, ActionV::Idle),
        Key::Esc => (AppModel {
            input_mode: mode_prev(InputMode::EnteringFrequency),
            habits: UserHabitsV { show_add_habit: false, ..m1.habits },
            ..m1
        }, ActionV::Idle),
        _ => (m1, ActionV::Idle),
    }
}

/// The state after one key in `MarkingDone`: advance moves on to hours
/// entry, cancel returns to `Normal`; no buffer is live here and no
/// store action results.
pub open spec fn done_step(m: AppModel, key: KeyEvent) -> (AppModel, ActionV) {
    match key.code {
        Key::Enter | Key::Tab => (AppModel {
            input_mode: mode_next(InputMode::MarkingDone, key.code),
            ..m
        }, ActionV::Idle),
        Key::BackTab | Key::Esc => (AppModel { input_mode: InputMode::Normal, ..m },
            ActionV::Idle),
        _ => (m, ActionV::Idle),
    }
}

/// The state after one key while entering hours, and the commit it may
/// trigger. The key edits the hours buffer; advance returns to `Normal`
/// and, when a habit is selected, asks the store to upsert a completion
/// for it on `today` with the hours the buffer parses to (unparseable
/// counts as 0). Cancel steps back to `MarkingDone`; the buffer edit has
/// already cleared the hours.
pub open spec fn hours_step(m: AppModel, key: KeyEvent, today: u32) -> (AppModel, ActionV) {
    let b = buffer_after(m.hours_buf, key.code);
    let m1 = AppModel { hours_buf: b, ..m };
    match key.code {
        Key::Enter | Key::Tab => (AppModel {
            input_mode: mode_next(InputMode::EnteringHours, key.code),
            ..m1
        }, match current_habit_spec(m) {
            Some(id) => ActionV::AddCompleted {
                habit_id: id,
                day: today,
                hours: parse_or_zero_spec(b.text),
            },
            None => ActionV::Idle,
        }),
        Key::BackTab | Key::Esc => (AppModel {
            input_mode: mode_prev(InputMode::EnteringHours),
            ..m1
        }, ActionV::Idle),
        _ => (m1, ActionV::Idle),
    }
}

/// One full step of the modal input machine: dispatch the key to the
/// handler of the current mode.
pub open spec fn app_step(m: AppModel, key: KeyEvent, today: u32) -> (AppModel, ActionV) {
    match m.input_mode {
        InputMode::Normal => normal_step(m, key),
        InputMode::EnteringName => name_step(m, key),
        InputMode::EnteringFrequency => freq_step(m, key),
        InputMode::MarkingDone => done_step(m, key),
        InputMode::EnteringHours => hours_step(m, key, today),
    }
}

/// The habit list after the store reports a successful insert: the new
/// habit is appended; nothing else changes.
pub open spec fn apply_added_spec(m: AppModel, habit: HabitV) -> AppModel {
    AppModel {
        habits: UserHabitsV { items: m.habits.items.push(habit), ..m.habits },
        ..m
    }
}

impl App {
    /// A fresh application: not running, everything empty, `Normal` mode.
    pub fn new() -> (r: Self)
        ensures
            r.wf(),
            r@.running == false,
            r@.input_mode == InputMode::Normal,
            r@.name_buf.text == Seq::<char>::empty(),
            r@.freq_buf.text == Seq::<char>::empty(),
            r@.hours_buf.text == Seq::<char>::empty(),
            r@.habits.items == Seq::<HabitV>::empty(),
            r@.habits.selected is None,
    {
        App {
            running: false,
            habits: UserHabits::default(),
            input_mode: InputMode::Normal,
            habit_name_buffer: TextInput::default(),
            habit_freq_buffer: TextInput::default(),
            habit_hours_buffer: TextInput::default(),
        }
    }

    /// The id of the selected habit, when the selection points at a real
    /// entry.
    pub fn get_current_habit(&self) -> (r: Option<u64>)
        ensures
            r == current_habit_spec(self@),
    {
        match self.habits.selected {
            Some(idx) => {
                if idx < self.habits.items.len() {
                    Some(self.habits.items[idx].id)
                } else {
                    None
                }
            },
            None => None,
        }
    }

    /// Clear the selection.
    pub fn select_none(&mut self)
        ensures
            final(self)@ == (AppModel { habits: UserHabitsV { selected: None,
                ..old(self)@.habits }, ..old(self)@ }),
    {
        self.habits.selected = None;
        proof {
            assert(self@ =~= (AppModel { habits: UserHabitsV { selected: None,
                ..old(self)@.habits }, ..old(self)@ }));
        }
    }

    /// Move the selection down one entry (saturating), or to the first
    /// entry when nothing is selected.
    pub fn select_next(&mut self)
        ensures
            final(self)@ == (AppModel { habits: UserHabitsV { selected: sel_next(
                old(self)@.habits.selected), ..old(self)@.habits }, ..old(self)@ }),
    {
        let next: usize = match self.habits.selected {
            Some(i) => if i < usize::MAX {
                i + 1
            } else {
                i
            },
            None => 0,
        };
        self.habits.selected = Some(next);
        proof {
            assert(self@ =~= (AppModel { habits: UserHabitsV { selected: sel_next(
                old(self)@.habits.selected), ..old(self)@.habits }, ..old(self)@ }));
        }
    }

    /// Move the selection up one entry (saturating), or to the last
    /// possible entry when nothing is selected.
    pub fn select_previous(&mut self)
        ensures
            final(self)@ == (AppModel { habits: UserHabitsV { selected: sel_prev(
                old(self)@.habits.selected), ..old(self)@.habits }, ..old(self)@ }),
    {
        let prev: usize = match self.habits.selected {
            Some(i) => if i > 0 {
                i - 1
            } else {
                0
            },
            None => usize::MAX,
        };
        self.habits.selected = Some(prev);
        proof {
            assert(self@ =~= (AppModel { habits: UserHabitsV { selected: sel_prev(
                old(self)@.habits.selected), ..old(self)@.habits }, ..old(self)@ }));
        }
    }

    /// Select the first entry.
    pub fn select_first(&mut self)
        ensures
            final(self)@ == (AppModel { habits: UserHabitsV { selected: Some(0),
                ..old(self)@.habits }, ..old(self)@ }),
    {
        self.habits.selected = Some(0);
        proof {
            assert(self@ =~= (AppModel { habits: UserHabitsV { selected: Some(0),
                ..old(self)@.habits }, ..old(self)@ }));
        }
    }

    /// Select the last possible entry; readers clamp it to the list.
    pub fn select_last(&mut self)
        ensures
            final(self)@ == (AppModel { habits: UserHabitsV { selected: Some(usize::MAX as int),
                ..old(self)@.habits }, ..old(self)@ }),
    {
        self.habits.selected = Some(usize::MAX);
        proof {
            assert(self@ =~= (AppModel { habits: UserHabitsV { selected: Some(usize::MAX as int),
                ..old(self)@.habits }, ..old(self)@ }));
        }
    }

    /// Stop the event loop — unless the add-habit panel is open, in
    /// which case the quit key is ignored.
    pub fn quit(&mut self)
        ensures
            final(self)@ == (AppModel { running: if old(self)@.habits.show_add_habit {
                old(self)@.running
            } else {
                false
            }, ..old(self)@ }),
    {
        if !self.habits.show_add_habit {
            self.running = false;
        }
        proof {
            assert(self@ =~= (AppModel { running: if old(self)@.habits.show_add_habit {
                old(self)@.running
            } else {
                false
            }, ..old(self)@ }));
        }
    }

    /// Handle one key in `Normal` mode.
    pub fn handle_normal_mode(&mut self, key: KeyEvent) -> (act: StoreAction)
        requires
            old(self).wf(),
            old(self)@.input_mode == InputMode::Normal,
        ensures
            final(self).wf(),
            final(self)@ == normal_step(old(self)@, key).0,
            act@ == normal_step(old(self)@, key).1,
    {
        match key.code {
            Key::Char(c) => {
                if c == 'q' || (key.ctrl && (c == 'c' || c == 'C')) {
                    self.quit();
                } else if c == 'h' {
                    self.select_none();
                } else if c == 'j' {
                    self.select_next();
                } else if c == 'k' {
                    self.select_previous();
                } else if c == 'g' {
                    self.select_first();
                } else if c == 'G' {
                    self.select_last();
                } else if c == 'a' {
                    self.input_mode.next(key.code);
                    self.habits.show_add_habit = true;
                    proof {
                        assert(self@ =~= normal_step(old(self)@, key).0);
                    }
                } else if c == 'd' {
                    let idx = self.get_current_habit();
                    proof {
                        assert(self@ =~= normal_step(old(self)@, key).0);
                    }
                    match idx {
                        Some(id) => {
                            return StoreAction::DeleteHabit { habit_id: id };
                        },
                        None => {
                            return StoreAction::Idle;
                        },
                    }
                } else {
                    proof {
                        assert(self@ =~= normal_step(old(self)@, key).0);
                    }
                }
            },
            Key::Left => {
                self.select_none();
            },
            Key::Down => {
                self.select_next();
            },
            Key::Up => {
                self.select_previous();
            },
            Key::Home => {
                self.select_first();
            },
            Key::End => {
                self.select_last();
            },
            Key::Esc => {
                self.habits.show_add_habit = false;
                proof {
                    assert(self@ =~= normal_step(old(self)@, key).0);
                }
            },
            Key::Tab => {
                self.input_mode.next(key.code);
                proof {
                    assert(self@ =~= normal_step(old(self)@, key).0);
                }
            },
            _ => {
                proof {
                    assert(self@ =~= normal_step(old(self)@, key).0);
                }
            },
        }
        StoreAction::Idle
    }

    /// Handle one key while entering a habit name.
    pub fn handle_name_input(&mut self, key: KeyEvent) -> (act: StoreAction)
        requires
            old(self).wf(),
            old(self)@.input_mode == InputMode::EnteringName,
        ensures
            final(self).wf(),
            final(self)@ == name_step(old(self)@, key).0,
            act@ == name_step(old(self)@, key).1,
    {
        self.habit_name_buffer.handle_key(key.code);
        match key.code {
            Key::Enter | Key::Tab => {
                self.input_mode.next(key.code);
            },
            Key::BackTab | Key::Esc => {
                self.input_mode.prev();
                self.habits.show_add_habit = false;
            },
            _ => {},
        }
        proof {
            assert(self@ =~= name_step(old(self)@, key).0);
        }
        StoreAction::Idle
    }

    /// Handle one key while entering a frequency; on commit, hand back
    /// the habit to insert.
    pub fn handle_freq_input(&mut self, key: KeyEvent) -> (act: StoreAction)
        requires
            old(self).wf(),
            old(self)@.input_mode == InputMode::EnteringFrequency,
        ensures
            final(self).wf(),
            final(self)@ == freq_step(old(self)@, key).0,
            act@ == freq_step(old(self)@, key).1,
    {
        self.habit_freq_buffer.handle_key(key.code);
        match key.code {
            Key::Enter | Key::Tab => {
                self.input_mode.next(key.code);
                self.habits.show_add_habit = false;
                let parsed = parse_u32_or_zero(&self.habit_freq_buffer.content);
                proof {
                    assert(self@ =~= freq_step(old(self)@, key).0);
                }
                if parsed >= 1 {
                    let name = copy_chars(&self.habit_name_buffer.content);
                    return StoreAction::AddHabit { name, frequency: parsed };
                }
            },
            Key::BackTab => {
                self.input_mode.prev();
                proof {
                    assert(self@ =~= freq_step(old(self)@, key).0);
                }
            },
            Key::Esc => {
                self.input_mode.prev();
                self.habits.show_add_habit = false;
                proof {
                    assert(self@ =~= freq_step(old(self)@, key).0);
                }
            },
            _ => {
                proof {
                    assert(self@ =~= freq_step(old(self)@, key).0);
                }
            },
        }
        StoreAction::Idle
    }

    /// Handle one key in `MarkingDone`.
    pub fn handle_input_done(&mut self, key: KeyEvent) -> (act: StoreAction)
        requires
            old(self).wf(),
            old(self)@.input_mode == InputMode::MarkingDone,
        ensures
            final(self).wf(),
            final(self)@ == done_step(old(self)@, key).0,
            act@ == done_step(old(self)@, key).1,
    {
        match key.code {
            Key::Enter | Key::Tab => {
                self.input_mode.next(key.code);
            },
            Key::BackTab | Key::Esc => {
                self.input_mode.prev();
            },
            _ => {},
        }
        proof {
            assert(self@ =~= done_step(old(self)@, key).0);
        }
        StoreAction::Idle
    }

    /// Handle one key while entering hours; on commit, hand back the
    /// completion to upsert for the selected habit on `today`.
    pub fn handle_hours_input(&mut self, key: KeyEvent, today: u32) -> (act: StoreAction)
        requires
            old(self).wf(),
            old(self)@.input_mode == InputMode::EnteringHours,
        ensures
            final(self).wf(),
            final(self)@ == hours_step(old(self)@, key, today).0,
            act@ == hours_step(old(self)@, key, today).1,
    {
        let selected = self.get_current_habit();
        self.habit_hours_buffer.handle_key(key.code);
        match key.code {
            Key::Enter | Key::Tab => {
                self.input_mode.next(key.code);
                let hours = parse_u32_or_zero(&self.habit_hours_buffer.content);
                proof {
                    assert(self@ =~= hours_step(old(self)@, key, today).0);
                }
                match selected {
                    Some(id) => {
                        return StoreAction::AddCompleted { habit_id: id, day: today, hours };
                    },
                    None => {
                        return StoreAction::Idle;
                    },
                }
            },
            Key::BackTab | Key::Esc => {
                self.input_mode.prev();
            },
            _ => {},
        }
        proof {
            assert(self@ =~= hours_step(old(self)@, key, today).0);
        }
        StoreAction::Idle
    }

    /// Handle one input event: dispatch it to the current mode's handler
    /// and return the store action it produced.
    pub fn on_key_event(&mut self, key: KeyEvent, today: u32) -> (act: StoreAction)
        requires
            old(self).wf(),
        ensures
            final(self).wf(),
            final(self)@ == app_step(old(self)@, key, today).0,
            act@ == app_step(old(self)@, key, today).1,
    {
        match self.input_mode {
            InputMode::Normal => self.handle_normal_mode(key),
            InputMode::EnteringName => self.handle_name_input(key),
            InputMode::EnteringFrequency => self.handle_freq_input(key),
            InputMode::MarkingDone => self.handle_input_done(key),
            InputMode::EnteringHours => self.handle_hours_input(key, today),
        }
    }

    /// Record a habit that the store reports as inserted: append it to
    /// the in-memory list. A failed insertion is simply never applied,
    /// leaving the list — and the user's buffers — untouched.
    pub fn apply_added_habit(&mut self, habit: HabitItem)
        ensures
            final(self)@ == apply_added_spec(old(self)@, habit@),
    {
        self.habits.items.push(habit);
        proof {
            assert(self@.habits.items =~= old(self)@.habits.items.push(habit@));
            assert(self@ =~= apply_added_spec(old(self)@, habit@));
        }
    }
}

/// Law: opening name entry from `Normal` and cancelling straight away
/// returns to `Normal` with the name buffer cleared, no store action
/// issued, and the habit list exactly as it was — an abandoned workflow
/// leaves no trace.
pub proof fn lemma_cancel_leaves_no_trace(m: AppModel, today: u32)
    requires
        m.input_mode == InputMode::Normal,
    ensures
        ({
            let (m1, a1) = app_step(m, KeyEvent { ctrl: false, code: Key::Char('a') }, today);
            let (m2, a2) = app_step(m1, KeyEvent { ctrl: false, code: Key::Esc }, today);
            &&& a1 == ActionV::Idle
            &&& a2 == ActionV::Idle
            &&& m1.input_mode == InputMode::EnteringName
            &&& m2.input_mode == InputMode::Normal
            &&& m2.name_buf.text == Seq::<char>::empty()
            &&& m2.habits.items == m.habits.items
            &&& !m2.habits.show_add_habit
        }),
{
}

/// Law: completing the name–frequency entry sequence with a commit asks
/// the store for exactly one habit, carrying the submitted name and the
/// parsed frequency, and returns to `Normal`; applying the store's
/// answer grows the habit list by exactly that one habit.
pub proof fn lemma_commit_creates_one_habit(m: AppModel, today: u32, habit: HabitV)
    requires
        m.input_mode == InputMode::EnteringName,
        parse_or_zero_spec(m.freq_buf.text) >= 1,
        habit.name == m.name_buf.text,
        habit.frequency == parse_or_zero_spec(m.freq_buf.text),
    ensures
        ({
            let (m1, a1) = app_step(m, KeyEvent { ctrl: false, code: Key::Enter }, today);
            let (m2, a2) = app_step(m1, KeyEvent { ctrl: false, code: Key::Enter }, today);
            let m3 = apply_added_spec(m2, habit);
            &&& a1 == ActionV::Idle
            &&& m1.input_mode == InputMode::EnteringFrequency
            &&& a2 == (ActionV::AddHabit { name: m.name_buf.text,
                frequency: habit.frequency })
            &&& m2.input_mode == InputMode::Normal
            &&& m3.habits.items == m.habits.items.push(habit)
            &&& m3.habits.items.len() == m.habits.items.len() + 1
        }),
{
    let (m1, a1) = app_step(m, KeyEvent { ctrl: false, code: Key::Enter }, today);
    assert(buffer_after(m.name_buf, Key::Enter) == m.name_buf);
    assert(buffer_after(m1.freq_buf, Key::Enter) == m1.freq_buf);
    assert(m1.freq_buf == m.freq_buf);
    assert(m1.name_buf == m.name_buf);
}

/// An element-for-element copy of a character buffer.
fn copy_chars(v: &Vec<char>) -> (r: Vec<char>)
    ensures
        r@ == v@,
{
    let mut r: Vec<char> = Vec::new();
    let mut i: usize = 0;
    while i < v.len()
        invariant
            i <= v@.len(),
            r@ == v@.take(i as int),
        decreases v@.len() - i,
    {
        r.push(v[i]);
        proof {
            assert(v@.take(i + 1) =~= v@.take(i as int).push(v@[i as int]));
        }
        i = i + 1;
    }
    proof {
        assert(v@.take(v@.len() as int) =~= v@);
    }
    r
}

} // verus!
