use vstd::prelude::*;

verus! {

/// One habit as the store keeps it: a stable id, a name, whether it is
/// active, the required completion frequency in days (the largest allowed
/// gap between consecutive completions), and the cached streak figures.
#[derive(Debug, PartialEq)]
pub struct HabitItem {
    pub id: u64,
    pub name: String,
    pub active: bool,
    pub frequency: u32,
    pub current_streak: u32,
    pub max_streak: u32,
}

/// The spec-level image of a `HabitItem`, with the name as a character
/// sequence.
#[verifier::ext_equal]
pub struct HabitV {
    pub id: u64,
    pub name: Seq<char>,
    pub active: bool,
    pub frequency: u32,
    pub current_streak: u32,
    pub max_streak: u32,
}

impl View for HabitItem {
    type V = HabitV;

    open spec fn view(&self) -> HabitV {
        HabitV {
            id: self.id,
            name: self.name@,
            active: self.active,
            frequency: self.frequency,
            current_streak: self.current_streak,
            max_streak: self.max_streak,
        }
    }
}

/// The habit list as the interaction layer sees it: which panels are
/// shown, the habits themselves, and which list entry is selected.
/// `selected` may point past the end of `items`; readers treat such a
/// selection as the last entry not existing (the rendering layer clamps
/// it the same way).
#[derive(Debug)]
pub struct UserHabits {
    pub show_habit_list: bool,
    pub show_add_habit: bool,
    pub habit_calendar_track: bool,
    pub habit_stats: bool,
    pub items: Vec<HabitItem>,
    pub selected: Option<usize>,
}

/// The spec-level image of `UserHabits`.
#[verifier::ext_equal]
pub struct UserHabitsV {
    pub show_habit_list: bool,
    pub show_add_habit: bool,
    pub habit_calendar_track: bool,
    pub habit_stats: bool,
    pub items: Seq<HabitV>,
    pub selected: Option<int>,
}

impl View for UserHabits {
    type V = UserHabitsV;

    open spec fn view(&self) -> UserHabitsV {
        UserHabitsV {
            show_habit_list: self.show_habit_list,
            show_add_habit: self.show_add_habit,
            habit_calendar_track: self.habit_calendar_track,
            habit_stats: self.habit_stats,
            items: self.items@.map_values(|h: HabitItem| h@),
            selected: match self.selected {
                Some(i) => Some(i as int),
                None => None,
            },
        }
    }
}

impl Default for UserHabits {
    fn default() -> (r: Self)
        ensures
            r@ == (UserHabitsV {
                show_habit_list: false,
                show_add_habit: false,
                habit_calendar_track: false,
                habit_stats: false,
                items: Seq::empty(),
                selected: None,
            }),
    {
        let r = UserHabits {
            show_habit_list: false,
            show_add_habit: false,
            habit_calendar_track: false,
            habit_stats: false,
            items: Vec::new(),
            selected: None,
        };
        proof {
            assert(r@.items =~= Seq::<HabitV>::empty());
            assert(r@ =~= (UserHabitsV {
                show_habit_list: false,
                show_add_habit: false,
                habit_calendar_track: false,
                habit_stats: false,
                items: Seq::empty(),
                selected: None,
            }));
        }
        r
    }
}

} // verus!
