use vstd::prelude::*;

use crate::date::Date;
use crate::item::CalendarItem;

verus! {

/// All items that fall on one calendar date, in the order the feed gave them,
/// together with the cursor over them.
///
/// The cursor starts out unset; it is set to the first item the first time the
/// bucket is displayed or queried, and from then on moves one step at a time,
/// clamped at both ends (no wraparound).
#[derive(Debug)]
pub struct DateItems {
    pub date: Date,
    pub items: Vec<CalendarItem>,
    pub selected: Option<usize>,
}

impl DateItems {
    /// The cursor invariant: an empty bucket has no selection, and a set
    /// cursor always points at an item.
    pub open spec fn wf(self) -> bool {
        &&& (self.items@.len() == 0 ==> self.selected is None)
        &&& (match self.selected {
            Some(i) => i < self.items@.len(),
            None => true,
        })
    }

    pub fn new(date: Date) -> (b: DateItems)
        ensures
            b.date == date,
            b.items@ =~= Seq::<CalendarItem>::empty(),
            b.selected is None,
            b.wf(),
    {
        DateItems { date, items: Vec::new(), selected: None }
    }

    /// The bucket after one downward cursor move: a first move selects the
    /// first item, later moves step forward, clamped at the last item. An
    /// empty bucket is left alone.
    pub open spec fn spec_select_next(self) -> DateItems {
        if self.items@.len() == 0 {
            self
        } else {
            let last = (self.items@.len() - 1) as usize;
            match self.selected {
                None => DateItems { selected: Some(0usize), ..self },
                Some(i) => if i < last {
                    DateItems { selected: Some((i + 1) as usize), ..self }
                } else {
                    DateItems { selected: Some(last), ..self }
                },
            }
        }
    }

    /// The bucket after one upward cursor move: a first move selects the first
    /// item, later moves step backward, clamped at the first item.
    pub open spec fn spec_select_previous(self) -> DateItems {
        if self.items@.len() == 0 {
            self
        } else {
            match self.selected {
                None => DateItems { selected: Some(0usize), ..self },
                Some(i) => if i > 0 {
                    DateItems { selected: Some((i - 1) as usize), ..self }
                } else {
                    DateItems { selected: Some(0usize), ..self }
                },
            }
        }
    }

    /// The bucket once a selection is guaranteed: a non-empty bucket without a
    /// cursor gets one on its first item; anything else is left alone.
    pub open spec fn spec_ensure_selection(self) -> DateItems {
        if self.items@.len() > 0 && self.selected is None {
            DateItems { selected: Some(0usize), ..self }
        } else {
            self
        }
    }

    /// The item under the cursor, if any.
    pub open spec fn spec_selected_item(self) -> Option<CalendarItem> {
        match self.selected {
            Some(i) => if i < self.items@.len() {
                Some(self.items@[i as int])
            } else {
                None
            },
            None => None,
        }
    }

    pub fn select_next(&mut self)
        requires
            old(self).wf(),
        ensures
            *final(self) == old(self).spec_select_next(),
            final(self).wf(),
    {
        if self.items.len() > 0 {
            let last = self.items.len() - 1;
            self.selected = match self.selected {
                None => Some(0),
                Some(i) => if i < last {
                    Some(i + 1)
                } else {
                    Some(last)
                },
            };
        }
    }

    pub fn select_previous(&mut self)
        requires
            old(self).wf(),
        ensures
            *final(self) == old(self).spec_select_previous(),
            final(self).wf(),
    {
        if self.items.len() > 0 {
            self.selected = match self.selected {
                None => Some(0),
                Some(i) => if i > 0 {
                    Some(i - 1)
                } else {
                    Some(0)
                },
            };
        }
    }

    pub fn ensure_selection(&mut self)
        requires
            old(self).wf(),
        ensures
            *final(self) == old(self).spec_ensure_selection(),
            final(self).wf(),
    {
        if self.items.len() > 0 && self.selected.is_none() {
            self.selected = Some(0);
        }
    }

    pub fn selected_item(&self) -> (r: Option<&CalendarItem>)
        ensures
            match r {
                Some(it) => self.spec_selected_item() == Some(*it),
                None => self.spec_selected_item() is None,
            },
    {
        match self.selected {
            Some(i) => if i < self.items.len() {
                Some(&self.items[i])
            } else {
                None
            },
            None => None,
        }
    }
}

/// Law: cursor moves stay in bounds. From any well-formed bucket, one downward
/// or upward move leaves the items alone and yields a cursor that is again
/// within the item count, so any chain of moves keeps the cursor below the
/// item count and never below zero.
pub proof fn lemma_select_moves_stay_in_bounds(b: DateItems)
    requires
        b.wf(),
    ensures
        b.spec_select_next().wf(),
        b.spec_select_previous().wf(),
        b.spec_select_next().items == b.items,
        b.spec_select_previous().items == b.items,
        b.spec_select_next().date == b.date,
        b.spec_select_previous().date == b.date,
        b.items@.len() > 0 ==> (b.spec_select_next().selected matches Some(i) && i
            < b.items@.len()),
        b.items@.len() > 0 ==> (b.spec_select_previous().selected matches Some(i) && i
            < b.items@.len()),
{
}

} // verus!
