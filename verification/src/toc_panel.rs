//! The outline panel: the extracted entries and a single selection that
//! moves one step at a time and saturates at the ends.

use vstd::prelude::*;

use crate::text::lines_of;
use crate::toc::{entry_view, parse_toc, parse_toc_model, toc_view, TocEntry};

verus! {

/// Panel state over an extracted outline.
pub struct TocPanel {
    entries: Vec<TocEntry>,
    selected: Option<usize>,
}

impl TocPanel {
    /// The entry views, in order.
    pub closed spec fn entries_view(&self) -> Seq<(Seq<char>, int)> {
        toc_view(self.entries@)
    }

    /// The selected index.
    pub closed spec fn sel(&self) -> Option<int> {
        match self.selected {
            Some(i) => Some(i as int),
            None => None,
        }
    }

    /// The selection exists exactly when entries do, and then indexes one.
    pub open spec fn wf(&self) -> bool {
        match self.sel() {
            Some(i) => 0 <= i < self.entries_view().len(),
            None => self.entries_view().len() == 0,
        }
    }

    /// Every entry's line number lies below `n`.
    pub open spec fn in_range(&self, n: int) -> bool {
        forall|k: int|
            0 <= k < self.entries_view().len() ==> 0 <= (#[trigger] self.entries_view()[k]).1 < n
    }

    /// Builds the panel for a document text: parses the outline and selects
    /// the first entry when one exists.
    pub fn new(content: &str) -> (p: TocPanel)
        ensures
            p.wf(),
            p.entries_view() == parse_toc_model(lines_of(content@)),
            p.in_range(lines_of(content@).len() as int),
            p.sel() == if p.entries_view().len() > 0 {
                Some(0int)
            } else {
                None::<int>
            },
    {
        let entries = parse_toc(content);
        let selected: Option<usize> = if entries.len() > 0 {
            Some(0)
        } else {
            None
        };
        let p = TocPanel { entries, selected };
        proof {
            assert forall|k: int| 0 <= k < p.entries_view().len() implies 0 <= (
            #[trigger] p.entries_view()[k]).1 < lines_of(content@).len() by {
                assert(p.entries_view()[k] == entry_view(p.entries@[k]));
            }
        }
        p
    }

    /// Read-only access to the entries.
    pub fn entries(&self) -> (r: &Vec<TocEntry>)
        ensures
            toc_view(r@) == self.entries_view(),
    {
        &self.entries
    }

    /// Moves the selection one entry down, saturating at the last entry;
    /// does nothing on an empty outline.
    pub fn next(&mut self)
        requires
            old(self).wf(),
        ensures
            final(self).wf(),
            final(self).entries_view() == old(self).entries_view(),
            final(self).sel() == sel_next(*old(self)),
            old(self).sel() == Some(old(self).entries_view().len() - 1) ==> final(self).sel()
                == old(self).sel(),
    {
        let len = self.entries.len();
        proof {
            assert(self.entries_view().len() == self.entries@.len());
        }
        match self.selected {
            Some(i) => {
                if i < len && i + 1 < len {
                    self.selected = Some(i + 1);
                }
            },
            None => {},
        }
    }

    /// Moves the selection one entry up, saturating at the first entry;
    /// does nothing on an empty outline.
    pub fn previous(&mut self)
        requires
            old(self).wf(),
        ensures
            final(self).wf(),
            final(self).entries_view() == old(self).entries_view(),
            final(self).sel() == sel_prev(*old(self)),
            old(self).sel() == Some(0int) ==> final(self).sel() == old(self).sel(),
    {
        match self.selected {
            Some(i) => {
                if i > 0 {
                    self.selected = Some(i - 1);
                }
            },
            None => {},
        }
    }

    /// The selected entry's index, or `None` when nothing is selected.
    pub fn selected_index(&self) -> (r: Option<usize>)
        ensures
            r is Some <==> self.sel() is Some,
            r is Some ==> r->Some_0 as int == self.sel()->Some_0,
    {
        self.selected
    }

    /// The line number of the selected entry, or `None` when nothing is
    /// selected.
    pub fn selected_line(&self) -> (r: Option<usize>)
        requires
            self.wf(),
        ensures
            match self.sel() {
                Some(i) => r is Some && r->Some_0 as int == self.entries_view()[i].1,
                None => r is None,
            },
    {
        if self.entries.len() == 0 {
            return None;
        }
        match self.selected {
            Some(i) => {
                proof {
                    assert(self.entries_view()[i as int] == entry_view(self.entries@[i as int]));
                }
                Some(self.entries[i].line_number)
            },
            None => None,
        }
    }

    /// Whether some entry points at line `line_number`: the renderer marks
    /// such lines as titles.
    pub fn is_title_line(&self, line_number: usize) -> (r: bool)
        ensures
            r == exists|k: int|
                0 <= k < self.entries_view().len() && (#[trigger] self.entries_view()[k]).1
                    == line_number,
    {
        let n = self.entries.len();
        let mut i: usize = 0;
        while i < n
            invariant
                0 <= i <= n,
                n == self.entries@.len(),
                forall|k: int| 0 <= k < i ==> (#[trigger] self.entries_view()[k]).1 != line_number,
            decreases n - i,
        {
            proof {
                assert(self.entries_view()[i as int] == entry_view(self.entries@[i as int]));
            }
            if self.entries[i].line_number == line_number {
                assert((self.entries_view()[i as int]).1 == line_number);
                return true;
            }
            i += 1;
        }
        false
    }
}

/// The selection after one step down: one past the current entry,
/// saturating at the last.
pub open spec fn sel_next(p: TocPanel) -> Option<int> {
    match p.sel() {
        Some(i) => if i + 1 < p.entries_view().len() {
            Some(i + 1)
        } else {
            Some(i)
        },
        None => None,
    }
}

/// The selection after one step up: one before the current entry,
/// saturating at the first.
pub open spec fn sel_prev(p: TocPanel) -> Option<int> {
    match p.sel() {
        Some(i) => if i > 0 {
            Some(i - 1)
        } else {
            Some(i)
        },
        None => None,
    }
}

} // verus!
