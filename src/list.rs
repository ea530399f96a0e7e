use ratatui::widgets::ListState;
use vstd::prelude::*;

verus! {

/// ratatui's `ListState`, the selection and scroll offset of a list widget,
/// carried as an opaque value.
#[verifier::external_type_specification]
#[verifier::external_body]
pub struct ExListState(ListState);

/// The item that a `ListState` marks as selected.
pub uninterp spec fn selection_of(s: ListState) -> Option<usize>;

/// Relies on ratatui's derived `Default` for `ListState`: nothing is selected.
pub assume_specification[ <ListState as core::default::Default>::default ]() -> (r: ListState)
    ensures
        selection_of(r) == None::<usize>,
;

/// Relies on `ListState::selected`: it returns the stored selection.
pub assume_specification[ ListState::selected ](s: &ListState) -> (r: Option<usize>)
    ensures
        r == selection_of(*s),
;

/// Relies on `ListState::select`: it stores the given selection.
pub assume_specification[ ListState::select ](s: &mut ListState, index: Option<usize>)
    ensures
        selection_of(*final(s)) == index,
;

/// A list of display lines with one selected entry.
pub struct StatefulList {
    pub state: ListState,
    pub items: Vec<String>,
}

/// Index that follows `i` in a list of `n` entries, wrapping to the front.
pub open spec fn wrap_next(i: int, n: int) -> int {
    if i + 1 >= n { 0 } else { i + 1 }
}

/// Index that precedes `i` in a list of `n` entries, wrapping to the back.
pub open spec fn wrap_previous(i: int, n: int) -> int {
    if i <= 0 { n - 1 } else { i - 1 }
}

/// Selection after moving down in a list of `n` entries.
pub open spec fn sel_next(sel: Option<usize>, n: int) -> Option<usize> {
    if n <= 0 {
        None
    } else {
        match sel {
            Some(i) => Some(wrap_next(i as int, n) as usize),
            None => Some(0),
        }
    }
}

/// Selection after moving up in a list of `n` entries.
pub open spec fn sel_previous(sel: Option<usize>, n: int) -> Option<usize> {
    if n <= 0 {
        None
    } else {
        match sel {
            Some(i) => Some(wrap_previous(i as int, n) as usize),
            None => Some(0),
        }
    }
}

/// Selection of a fresh list of `n` entries: the first one, if any.
pub open spec fn first_sel(n: int) -> Option<usize> {
    if n > 0 {
        Some(0)
    } else {
        None
    }
}

/// The selected index, with "nothing selected" read as the first entry.
pub open spec fn cursor_of(sel: Option<usize>) -> int {
    match sel {
        Some(i) => i as int,
        None => 0,
    }
}

/// A selection that points at an existing entry of a list of `n`, or at none.
pub open spec fn sel_fits(sel: Option<usize>, n: int) -> bool {
    match sel {
        Some(i) => i < n,
        None => true,
    }
}

/// Moving down from the last entry selects the first one, and moving up
/// from the first entry selects the last one, for every length from one on.
pub proof fn lemma_wraparound(n: usize)
    requires
        n >= 1,
    ensures
        sel_next(Some((n - 1) as usize), n as int) == Some(0usize),
        sel_previous(Some(0usize), n as int) == Some((n - 1) as usize),
{
}

impl StatefulList {
    /// The selected index, if any.
    pub open spec fn selection(&self) -> Option<usize> {
        selection_of(self.state)
    }

    /// The selected index, with "nothing selected" read as the first entry.
    pub open spec fn cursor(&self) -> int {
        cursor_of(self.selection())
    }

    /// A selection, when present, points at an existing entry.
    pub open spec fn wf(&self) -> bool {
        sel_fits(self.selection(), self.items@.len() as int)
    }

    /// A list over `items` with the first entry selected (nothing when empty).
    pub fn new_with_items(items: Vec<String>) -> (r: StatefulList)
        ensures
            r.items@ == items@,
            r.selection() == first_sel(items@.len() as int),
            r.wf(),
    {
        let mut state = ListState::default();
        if items.len() > 0 {
            state.select(Some(0));
        }
        StatefulList { state, items }
    }

    /// The selected index, with "nothing selected" read as the first entry.
    pub fn selected_index(&self) -> (r: usize)
        ensures
            r as int == self.cursor(),
    {
        match self.state.selected() {
            Some(i) => i,
            None => 0,
        }
    }

    /// Replaces the entries and selects the first one (nothing when empty).
    pub fn reset_items(&mut self, items: Vec<String>)
        ensures
            final(self).items@ == items@,
            final(self).selection() == first_sel(items@.len() as int),
            final(self).wf(),
    {
        if items.len() > 0 {
            self.state.select(Some(0));
        } else {
            self.state.select(None);
        }
        self.items = items;
    }

    /// Moves the selection one entry down, from the last entry to the first.
    pub fn next(&mut self)
        requires
            old(self).wf(),
        ensures
            final(self).items == old(self).items,
            final(self).wf(),
            final(self).selection() == sel_next(old(self).selection(), old(self).items@.len() as int),
    {
        let n = self.items.len();
        if n == 0 {
            self.state.select(None);
        } else {
            let next = match self.state.selected() {
                Some(i) => if i + 1 >= n { 0 } else { i + 1 },
                None => 0,
            };
            self.state.select(Some(next));
        }
    }

    /// Moves the selection one entry up, from the first entry to the last.
    pub fn previous(&mut self)
        requires
            old(self).wf(),
        ensures
            final(self).items == old(self).items,
            final(self).wf(),
            final(self).selection() == sel_previous(
                old(self).selection(),
                old(self).items@.len() as int,
            ),
    {
        let n = self.items.len();
        if n == 0 {
            self.state.select(None);
        } else {
            let previous = match self.state.selected() {
                Some(i) => if i == 0 { n - 1 } else { i - 1 },
                None => 0,
            };
            self.state.select(Some(previous));
        }
    }
}

/// The titles of the tabs and the index of the one shown.
pub struct TabsState {
    pub titles: Vec<String>,
    pub index: usize,
}

impl TabsState {
    /// The shown tab is one of the tabs.
    pub open spec fn wf(&self) -> bool {
        self.index < self.titles@.len()
    }

    /// Tabs with the given titles, the first one shown.
    pub fn new(titles: Vec<String>) -> (r: TabsState)
        requires
            titles@.len() > 0,
        ensures
            r.titles@ == titles@,
            r.index == 0,
            r.wf(),
    {
        TabsState { titles, index: 0 }
    }

    /// Shows the next tab, from the last one back to the first.
    pub fn next(&mut self)
        requires
            old(self).wf(),
        ensures
            final(self).titles == old(self).titles,
            final(self).index == wrap_next(old(self).index as int, old(self).titles@.len() as int),
            final(self).wf(),
    {
        let n = self.titles.len();
        self.index = if self.index + 1 >= n {
            0
        } else {
            self.index + 1
        };
    }

    /// Shows the previous tab, from the first one to the last.
    pub fn previous(&mut self)
        requires
            old(self).wf(),
        ensures
            final(self).titles == old(self).titles,
            final(self).index == wrap_previous(old(self).index as int, old(self).titles@.len() as int),
            final(self).wf(),
    {
        self.index = if self.index == 0 {
            self.titles.len() - 1
        } else {
            self.index - 1
        };
    }
}

} // verus!
