//! The document model: an immutable, line-indexed view over a loaded text.

use vstd::prelude::*;

use crate::text::{lines_of, lines_view, split_lines};

verus! {

/// An ordered, zero-indexed sequence of lines, fixed once loaded.
pub struct Document {
    lines: Vec<String>,
}

impl View for Document {
    type V = Seq<Seq<char>>;

    closed spec fn view(&self) -> Seq<Seq<char>> {
        lines_view(self.lines@)
    }
}

impl Document {
    /// Loads a document from its full text; an empty text yields no lines.
    pub fn new(text: &str) -> (d: Document)
        ensures
            d@ == lines_of(text@),
    {
        Document { lines: split_lines(text) }
    }

    /// The number of lines.
    pub fn line_count(&self) -> (n: usize)
        ensures
            n == self@.len(),
    {
        self.lines.len()
    }

    /// Read-only access to the line at `i`.
    pub fn line(&self, i: usize) -> (l: &str)
        requires
            i < self@.len(),
        ensures
            l@ == self@[i as int],
    {
        self.lines[i].as_str()
    }

    /// All lines, in order.
    pub fn lines(&self) -> (r: &Vec<String>)
        ensures
            lines_view(r@) == self@,
    {
        &self.lines
    }
}

} // verus!
