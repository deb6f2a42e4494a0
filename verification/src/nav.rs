use vstd::prelude::*;

use crate::calendar::Calendar;
use crate::date::Date;
use crate::item::CalendarItem;

verus! {

/// What one key press asks of the application.
#[derive(Clone, Copy, PartialEq, Eq, Structural, Debug)]
pub enum Action {
    Quit,
    PreviousDate,
    NextDate,
    SelectDown,
    SelectUp,
    OpenSelected,
}

/// The key binding: `q` quits, `h`/`l` walk the populated dates, `j`/`k` move
/// the cursor within the date, `o` opens the selected item. Anything else is
/// ignored.
pub open spec fn spec_key_action(key: char) -> Option<Action> {
    if key == 'q' {
        Some(Action::Quit)
    } else if key == 'h' {
        Some(Action::PreviousDate)
    } else if key == 'l' {
        Some(Action::NextDate)
    } else if key == 'j' {
        Some(Action::SelectDown)
    } else if key == 'k' {
        Some(Action::SelectUp)
    } else if key == 'o' {
        Some(Action::OpenSelected)
    } else {
        None
    }
}

pub fn key_action(key: char) -> (r: Option<Action>)
    ensures
        r == spec_key_action(key),
{
    match key {
        'q' => Some(Action::Quit),
        'h' => Some(Action::PreviousDate),
        'l' => Some(Action::NextDate),
        'j' => Some(Action::SelectDown),
        'k' => Some(Action::SelectUp),
        'o' => Some(Action::OpenSelected),
        _ => None,
    }
}

/// The cursor over the calendar: the date the user is looking at, which need
/// not be a stored key (today may have no items), and the operations that walk
/// across populated dates and within the current date's bucket.
#[derive(Debug)]
pub struct NavigationController {
    pub calendar: Calendar,
    pub current_date: Date,
}

impl NavigationController {
    pub open spec fn wf(self) -> bool {
        self.calendar.wf()
    }

    /// Initial-date resolution: land on the smallest stored date at or after
    /// `today`; failing that, on the largest stored date before `today`;
    /// failing that (no items at all), on `today` itself.
    pub fn new(calendar: Calendar, today: Date) -> (c: NavigationController)
        requires
            calendar.wf(),
        ensures
            c.wf(),
            c.calendar == calendar,
            calendar.has_key_at_or_after(today) ==> calendar.is_first_key_at_or_after(
                today,
                c.current_date,
            ),
            !calendar.has_key_at_or_after(today) && calendar.has_key_before(today)
                ==> calendar.is_last_key_before(today, c.current_date),
            !calendar.has_key_at_or_after(today) && !calendar.has_key_before(today)
                ==> c.current_date == today,
    {
        let current_date = match calendar.first_date_at_or_after(today) {
            Some(d) => d,
            None => match calendar.first_date_before(today) {
                Some(d) => d,
                None => today,
            },
        };
        NavigationController { calendar, current_date }
    }

    /// Jump to the next populated date; a no-op from the last one.
    pub fn move_to_next_date(&mut self)
        requires
            old(self).wf(),
        ensures
            final(self).wf(),
            final(self).calendar == old(self).calendar,
            old(self).calendar.has_key_after(old(self).current_date) ==> old(self).calendar.is_first_key_after(old(self).current_date, final(self).current_date),
            !old(self).calendar.has_key_after(old(self).current_date) ==> *final(self) == *old(self),
    {
        match self.calendar.next_key_after(self.current_date) {
            Some(d) => {
                self.current_date = d;
            },
            None => {},
        }
    }

    /// Jump to the previous populated date; a no-op from the first one.
    pub fn move_to_previous_date(&mut self)
        requires
            old(self).wf(),
        ensures
            final(self).wf(),
            final(self).calendar == old(self).calendar,
            old(self).calendar.has_key_before(old(self).current_date) ==> old(self).calendar.is_last_key_before(old(self).current_date, final(self).current_date),
            !old(self).calendar.has_key_before(old(self).current_date) ==> *final(self) == *old(self),
    {
        match self.calendar.prev_key_before(self.current_date) {
            Some(d) => {
                self.current_date = d;
            },
            None => {},
        }
    }

    /// Move the cursor down within the current date's bucket; a no-op when the
    /// current date has no bucket.
    pub fn select_down(&mut self)
        requires
            old(self).wf(),
        ensures
            final(self).wf(),
            final(self).current_date == old(self).current_date,
            !old(self).calendar.contains_date(old(self).current_date) ==> *final(self) == *old(self),
            old(self).calendar.contains_date(old(self).current_date) ==> final(self).calendar.date_map@ == old(self).calendar.date_map@.update(
                old(self).calendar.spec_index_of(old(self).current_date),
                old(self).calendar.date_map@[old(self).calendar.spec_index_of(
                    old(self).current_date,
                )].spec_select_next(),
            ),
    {
        match self.calendar.index_of(self.current_date) {
            Some(u) => {
                self.calendar.select_next_at(u);
            },
            None => {},
        }
    }

    /// Move the cursor up within the current date's bucket; a no-op when the
    /// current date has no bucket.
    pub fn select_up(&mut self)
        requires
            old(self).wf(),
        ensures
            final(self).wf(),
            final(self).current_date == old(self).current_date,
            !old(self).calendar.contains_date(old(self).current_date) ==> *final(self) == *old(self),
            old(self).calendar.contains_date(old(self).current_date) ==> final(self).calendar.date_map@ == old(self).calendar.date_map@.update(
                old(self).calendar.spec_index_of(old(self).current_date),
                old(self).calendar.date_map@[old(self).calendar.spec_index_of(
                    old(self).current_date,
                )].spec_select_previous(),
            ),
    {
        match self.calendar.index_of(self.current_date) {
            Some(u) => {
                self.calendar.select_previous_at(u);
            },
            None => {},
        }
    }

    /// The item under the cursor of the current date's bucket, making sure a
    /// non-empty bucket has a cursor first. A date with no bucket, or a bucket
    /// with no items, yields `None` and leaves everything untouched.
    pub fn current_selected_item(&mut self) -> (r: Option<CalendarItem>)
        requires
            old(self).wf(),
        ensures
            final(self).wf(),
            final(self).current_date == old(self).current_date,
            !old(self).calendar.contains_date(old(self).current_date) ==> (*final(self) == *old(self) && r is None),
            old(self).calendar.contains_date(old(self).current_date) && old(self).calendar.date_map@[old(self).calendar.spec_index_of(old(self).current_date)].items@.len()
                == 0 ==> (*final(self) == *old(self) && r is None),
            old(self).calendar.contains_date(old(self).current_date) && old(self).calendar.date_map@[old(self).calendar.spec_index_of(old(self).current_date)].items@.len()
                > 0 ==> ({
                let i = old(self).calendar.spec_index_of(old(self).current_date);
                let b = old(self).calendar.date_map@[i].spec_ensure_selection();
                &&& final(self).calendar.date_map@ == old(self).calendar.date_map@.update(i, b)
                &&& r == b.spec_selected_item()
                &&& r is Some
            }),
    {
        match self.calendar.index_of(self.current_date) {
            Some(u) => {
                if self.calendar.date_map[u].items.len() == 0 {
                    None
                } else {
                    self.calendar.ensure_selection_at(u);
                    let b = &self.calendar.date_map[u];
                    match b.selected_item() {
                        Some(it) => Some(it.clone()),
                        None => None,
                    }
                }
            },
            None => None,
        }
    }
}

} // verus!
