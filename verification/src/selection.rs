use vstd::prelude::*;

verus! {

/// Which row of a list is selected, if any (the part of a list widget's state that the
/// screens decide on).
#[derive(Debug, Clone, Copy, PartialEq, Eq, Structural)]
pub struct ListSelection {
    selected: Option<usize>,
}

impl View for ListSelection {
    type V = Option<usize>;

    open spec fn view(&self) -> Option<usize> {
        self.spec_selected()
    }
}

impl ListSelection {
    /// The selected row.
    pub closed spec fn spec_selected(&self) -> Option<usize> {
        self.selected
    }

    /// Nothing selected.
    pub fn new() -> (r: ListSelection)
        ensures
            r@ == None::<usize>,
    {
        ListSelection { selected: None }
    }

    /// The selected row.
    pub fn selected(&self) -> (r: Option<usize>)
        ensures
            r == self@,
    {
        self.selected
    }

    /// Selects `index` (or nothing).
    pub fn select(&mut self, index: Option<usize>)
        ensures
            final(self)@ == index,
    {
        self.selected = index;
    }
}

} // verus!
