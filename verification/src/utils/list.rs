//! A list with at most one item selected.

use vstd::prelude::*;

verus! {

pub struct StatefulList<T> {
    /// The position of the selected item, if one is selected.
    pub selected: Option<usize>,
    pub items: Vec<T>,
}

impl<T> StatefulList<T> {
    pub fn new() -> (list: StatefulList<T>)
        ensures
            list.selected is None,
            list.items@ == Seq::<T>::empty(),
    {
        StatefulList { selected: None, items: Vec::new() }
    }

    pub fn with_items(items: Vec<T>) -> (list: StatefulList<T>)
        ensures
            list.selected is None,
            list.items == items,
    {
        StatefulList { selected: None, items }
    }

    /// The selected item. One must be selected.
    pub fn get_item(&self) -> (item: &T)
        requires
            self.selected is Some,
            self.selected->Some_0 < self.items.len(),
        ensures
            *item == self.items[self.selected->Some_0 as int],
    {
        match self.selected {
            Some(i) => &self.items[i],
            None => vstd::pervasive::unreached(),
        }
    }

    /// The position that `next` selects.
    pub open spec fn spec_next(&self) -> usize {
        match self.selected {
            Some(i) => if i >= self.items.len() - 1 {
                0
            } else {
                (i + 1) as usize
            },
            None => 0,
        }
    }

    /// Selects the item behind the selected one, the first behind the last,
    /// and the first if none is selected. With an item selected the list
    /// must not be empty.
    pub fn next(&mut self)
        requires
            old(self).selected is Some ==> old(self).items.len() > 0,
        ensures
            final(self).selected == Some(old(self).spec_next()),
            final(self).items == old(self).items,
    {
        let i = match self.selected {
            Some(i) => {
                if i >= self.items.len() - 1 {
                    0
                } else {
                    i + 1
                }
            },
            None => 0,
        };
        self.selected = Some(i);
    }

    /// The position that `previous` selects.
    pub open spec fn spec_previous(&self) -> usize {
        match self.selected {
            Some(i) => if i == 0 {
                (self.items.len() - 1) as usize
            } else {
                (i - 1) as usize
            },
            None => 0,
        }
    }

    /// Selects the item before the selected one, the last before the first,
    /// and the first if none is selected. With an item selected the list
    /// must not be empty.
    pub fn previous(&mut self)
        requires
            old(self).selected is Some ==> old(self).items.len() > 0,
        ensures
            final(self).selected == Some(old(self).spec_previous()),
            final(self).items == old(self).items,
    {
        let i = match self.selected {
            Some(i) => {
                if i == 0 {
                    self.items.len() - 1
                } else {
                    i - 1
                }
            },
            None => 0,
        };
        self.selected = Some(i);
    }

    pub fn unselect(&mut self)
        ensures
            final(self).selected is None,
            final(self).items == old(self).items,
    {
        self.selected = None;
    }

    /// Selects the item at a position, or none.
    pub fn select(&mut self, position: Option<usize>)
        ensures
            final(self).selected == position,
            final(self).items == old(self).items,
    {
        self.selected = position;
    }
}

/// With a selection inside the list, `next` and `previous` keep it inside and
/// take each other back.
pub proof fn lemma_next_previous<T>(list: StatefulList<T>)
    requires
        list.selected is Some,
        list.selected->Some_0 < list.items.len(),
    ensures
        list.spec_next() < list.items.len(),
        list.spec_previous() < list.items.len(),
        (StatefulList { selected: Some(list.spec_next()), items: list.items }).spec_previous()
            == list.selected->Some_0,
        (StatefulList { selected: Some(list.spec_previous()), items: list.items }).spec_next()
            == list.selected->Some_0,
{
}

} // verus!
