//! The selected row of a table.
use vstd::prelude::*;

verus! {

/// Which row of a table is selected, if any.
#[derive(Clone, Copy)]
pub struct Selection {
    pub selected: Option<usize>,
}

impl Selection {
    /// No row selected.
    pub fn new() -> (s: Selection)
        ensures
            s.selected is None,
    {
        Selection { selected: None }
    }

    /// The row `i` selected.
    pub fn at(i: usize) -> (s: Selection)
        ensures
            s.selected == Some(i),
    {
        Selection { selected: Some(i) }
    }

    pub fn selected(&self) -> (r: Option<usize>)
        ensures
            r == self.selected,
    {
        self.selected
    }

    pub fn select(&mut self, i: Option<usize>)
        ensures
            final(self).selected == i,
    {
        self.selected = i;
    }
}

/// The row after the selected one in a table of `len` rows, wrapping to the
/// first; with no selection the row after the first.
pub open spec fn next_of(sel: Option<usize>, len: usize) -> Option<usize> {
    if len == 0 {
        sel
    } else {
        let i = match sel {
            Some(i) => i,
            None => 0,
        };
        Some(((i + 1) % (len as int)) as usize)
    }
}

/// The row before the selected one in a table of `len` rows, wrapping to the
/// last; with no selection the last row.
pub open spec fn previous_of(sel: Option<usize>, len: usize) -> Option<usize> {
    if len == 0 {
        sel
    } else {
        let i = match sel {
            Some(i) => i,
            None => 0,
        };
        Some(
            if i == 0 {
                (len - 1) as usize
            } else {
                (i - 1) as usize
            },
        )
    }
}

/// Moves the selection of a table of `len` rows one row down, wrapping
/// around; an empty table keeps its selection.
pub fn next_index(state: &mut Selection, len: usize)
    requires
        old(state).selected != Some(usize::MAX),
    ensures
        final(state).selected == next_of(old(state).selected, len),
{
    if len == 0 {
        return ;
    }
    let i = match state.selected() {
        Some(i) => i,
        None => 0,
    };
    let next = (i + 1) % len;
    state.select(Some(next));
}

/// Moves the selection of a table of `len` rows one row up, wrapping around;
/// an empty table keeps its selection.
pub fn previous_index(state: &mut Selection, len: usize)
    ensures
        final(state).selected == previous_of(old(state).selected, len),
{
    if len == 0 {
        return ;
    }
    let i = match state.selected() {
        Some(i) => i,
        None => 0,
    };
    let prev = if i == 0 {
        len - 1
    } else {
        i - 1
    };
    state.select(Some(prev));
}

/// Moving down then up, or up then down, comes back to a selected row of
/// the table.
pub proof fn lemma_next_previous_inverse(i: usize, len: usize)
    requires
        i < len,
    ensures
        previous_of(next_of(Some(i), len), len) == Some(i),
        next_of(previous_of(Some(i), len), len) == Some(i),
{
    if i + 1 < len {
        vstd::arithmetic::div_mod::lemma_small_mod((i + 1) as nat, len as nat);
    } else {
        vstd::arithmetic::div_mod::lemma_mod_self_0(len as int);
    }
    if i == 0 {
        vstd::arithmetic::div_mod::lemma_mod_self_0(len as int);
    } else {
        vstd::arithmetic::div_mod::lemma_small_mod(i as nat, len as nat);
    }
}

/// Moving down keeps the selection inside a non-empty table.
pub proof fn lemma_next_in_range(sel: Option<usize>, len: usize)
    requires
        len > 0,
    ensures
        next_of(sel, len) matches Some(j) && j < len,
        previous_of(sel, len) matches Some(k) && (sel matches Some(i) && i < len ==> k < len),
{
}

} // verus!
