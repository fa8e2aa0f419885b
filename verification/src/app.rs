//! The viewer state and its commands: bounded scrolling, the exclusive
//! UI-mode machine, outline navigation, and the search engine's state.

use std::collections::HashMap;

use vstd::prelude::*;

use crate::document::Document;
use crate::search::{
    first_ge, first_gt, last_lt, lemma_first_ge_at, lemma_first_gt_at, lemma_last_lt_at,
    lemma_matching_lines_sorted, lemma_push_contains, line_matches, match_starts, matching_lines,
    nums_view, spans_of,
    spans_view, find_matches_in_line, MatchSpan,
};
use crate::event::KeyPress;
use crate::numfmt::{dec_chars, usize_to_dec};
use crate::text::lines_of;
use crate::toc::parse_toc_model;
use crate::toc_panel::{sel_next, sel_prev, TocPanel};

verus! {

broadcast use vstd::std_specs::hash::group_hash_axioms;

/// The exclusive UI mode: what is displayed and how input is read.
#[derive(Debug, Clone, Copy, PartialEq, Eq, Structural)]
pub enum AppMode {
    /// Normal reading mode, the default.
    Normal,
    /// The help overlay stands open.
    Help,
    /// A search query is being typed.
    Search,
}

/// A strictly increasing sequence whose values index lines of a document
/// of `n` lines.
pub open spec fn sorted_in_range(s: Seq<int>, n: int) -> bool {
    &&& forall|a: int, b: int| 0 <= a < b < s.len() ==> s[a] < s[b]
    &&& forall|a: int| 0 <= a < s.len() ==> 0 <= #[trigger] s[a] < n
}

/// The viewer state over one loaded document.
pub struct App {
    /// The loaded document.
    pub rfc_content: Document,
    /// The number of the loaded document.
    pub rfc_number: u16,
    /// The outline panel for the document.
    pub rfc_toc_panel: TocPanel,
    /// The document's line count.
    pub rfc_line_number: usize,
    /// The scroll position, bounded by the document.
    pub current_scroll_pos: usize,
    /// The UI mode.
    pub mode: AppMode,
    /// Whether the session keeps running.
    pub should_run: bool,
    /// Whether the outline panel is shown.
    pub show_toc: bool,
    /// Whether the last search came back empty.
    pub has_no_results: bool,
    /// The query text being typed or last submitted.
    pub query_text: String,
    /// The line numbers holding matches, in increasing order.
    pub query_match_line_nums: Vec<usize>,
    /// The position of the current match within the match-line list.
    pub current_query_match_index: usize,
    /// The match spans of each matching line.
    pub query_matches: HashMap<usize, Vec<MatchSpan>>,
}

impl App {
    /// The span map's key set is exactly the match-line list.
    pub open spec fn spans_keyed_by_lines(&self) -> bool {
        forall|l: usize|
            #[trigger] self.query_matches@.contains_key(l) <==> nums_view(
                self.query_match_line_nums@,
            ).contains(l as int)
    }

    /// Well-formedness: the line count fits the document, the scroll
    /// position and all match lines stay inside it, the outline panel is
    /// sound, and the match index never passes the end of the list.
    pub open spec fn wf(&self) -> bool {
        &&& self.rfc_line_number == self.rfc_content@.len()
        &&& self.current_scroll_pos == 0 || self.current_scroll_pos < self.rfc_line_number
        &&& self.rfc_toc_panel.wf()
        &&& self.rfc_toc_panel.in_range(self.rfc_line_number as int)
        &&& sorted_in_range(nums_view(self.query_match_line_nums@), self.rfc_line_number as int)
        &&& self.query_match_line_nums@.len() > 0 ==> self.current_query_match_index
            <= self.query_match_line_nums@.len()
        &&& self.spans_keyed_by_lines()
    }

    /// Builds the viewer state for a document text: loads the document,
    /// extracts the outline, and starts at the top in normal mode with an
    /// empty search.
    pub fn new(rfc_number: u16, rfc_content: &str) -> (app: App)
        ensures
            app.wf(),
            app.rfc_content@ == lines_of(rfc_content@),
            app.rfc_number == rfc_number,
            app.rfc_line_number == lines_of(rfc_content@).len(),
            app.current_scroll_pos == 0,
            app.mode == AppMode::Normal,
            app.should_run,
            !app.show_toc,
            !app.has_no_results,
            app.query_text@ == Seq::<char>::empty(),
            app.query_match_line_nums@ == Seq::<usize>::empty(),
            app.current_query_match_index == 0,
            app.query_matches@ == Map::<usize, Vec<MatchSpan>>::empty(),
            app.rfc_toc_panel.entries_view() == parse_toc_model(lines_of(rfc_content@)),
            app.rfc_toc_panel.sel() == if app.rfc_toc_panel.entries_view().len() > 0 {
                Some(0int)
            } else {
                None::<int>
            },
    {
        let document = Document::new(rfc_content);
        let rfc_toc_panel = TocPanel::new(rfc_content);
        let rfc_line_number = document.line_count();
        let app = App {
            rfc_content: document,
            rfc_number,
            rfc_toc_panel,
            rfc_line_number,
            current_scroll_pos: 0,
            mode: AppMode::Normal,
            should_run: true,
            show_toc: false,
            has_no_results: false,
            query_text: String::new(),
            query_match_line_nums: Vec::new(),
            current_query_match_index: 0,
            query_matches: HashMap::new(),
        };
        proof {
            assert(nums_view(app.query_match_line_nums@) =~= Seq::<int>::empty());
        }
        app
    }

    /// Scrolls up by `amount`, stopping at the top.
    pub fn scroll_up(&mut self, amount: usize)
        ensures
            only_scrolled(*old(self), *final(self), scrolled_up(*old(self), amount as int)),
            final(self).current_scroll_pos <= old(self).current_scroll_pos,
            old(self).wf() ==> final(self).wf(),
    {
        self.current_scroll_pos = if self.current_scroll_pos >= amount {
            self.current_scroll_pos - amount
        } else {
            0
        };
    }

    /// Scrolls down by `amount`, stopping at the last line; a document
    /// without lines pins the position at zero.
    pub fn scroll_down(&mut self, amount: usize)
        requires
            old(self).wf(),
        ensures
            final(self).wf(),
            only_scrolled(*old(self), *final(self), scrolled_down(*old(self), amount as int)),
            old(self).rfc_line_number > 0 ==> final(self).current_scroll_pos < old(self).rfc_line_number,
            old(self).rfc_line_number == 0 ==> final(self).current_scroll_pos == 0,
    {
        let last: usize = if self.rfc_line_number > 0 {
            self.rfc_line_number - 1
        } else {
            0
        };
        let room = last - self.current_scroll_pos;
        self.current_scroll_pos = if amount <= room {
            self.current_scroll_pos + amount
        } else {
            last
        };
    }

    /// Scrolls to the selected outline entry's line; does nothing when no
    /// entry is selected.
    pub fn jump_to_toc_entry(&mut self)
        requires
            old(self).wf(),
        ensures
            final(self).wf(),
            jumped_to_selection(*old(self), *final(self)),
    {
        let line = self.rfc_toc_panel.selected_line();
        match line {
            Some(l) => {
                self.current_scroll_pos = l;
            },
            None => {},
        }
    }

    /// Opens the help overlay, or closes it when it stands open.
    pub fn toggle_help(&mut self)
        ensures
            *final(self) == (App { mode: final(self).mode, ..*old(self) }),
            final(self).mode == if old(self).mode == AppMode::Help {
                AppMode::Normal
            } else {
                AppMode::Help
            },
            old(self).wf() ==> final(self).wf(),
    {
        self.mode = if self.mode == AppMode::Help {
            AppMode::Normal
        } else {
            AppMode::Help
        };
    }

    /// Shows the outline panel, or hides it when it is shown.
    pub fn toggle_toc(&mut self)
        ensures
            *final(self) == (App { show_toc: final(self).show_toc, ..*old(self) }),
            final(self).show_toc == !old(self).show_toc,
            old(self).wf() ==> final(self).wf(),
    {
        self.show_toc = !self.show_toc;
    }

    /// Enters search mode with an empty query.
    pub fn enter_search_mode(&mut self)
        ensures
            *final(self) == (App {
                mode: AppMode::Search,
                query_text: final(self).query_text,
                ..*old(self)
            }),
            final(self).mode == AppMode::Search,
            final(self).query_text@ == Seq::<char>::empty(),
            old(self).wf() ==> final(self).wf(),
    {
        self.mode = AppMode::Search;
        self.query_text = String::new();
    }

    /// Leaves search mode for normal mode after a submission; the
    /// submitted query text stays, so match data and counter remain tied
    /// to it.
    pub fn exit_search_mode(&mut self)
        ensures
            *final(self) == (App { mode: AppMode::Normal, ..*old(self) }),
            old(self).wf() ==> final(self).wf(),
    {
        self.mode = AppMode::Normal;
    }

    /// Cancels the search: returns to normal mode and discards the
    /// in-progress query buffer without submitting it; match data of an
    /// earlier submission stays untouched.
    pub fn cancel_search(&mut self)
        ensures
            *final(self) == (App {
                mode: AppMode::Normal,
                query_text: final(self).query_text,
                ..*old(self)
            }),
            final(self).query_text@ == Seq::<char>::empty(),
            old(self).wf() ==> final(self).wf(),
    {
        self.mode = AppMode::Normal;
        self.query_text = String::new();
    }

    /// Whether a submitted query found anything: a non-empty query with a
    /// non-empty match-line list.
    pub open spec fn spec_has_search_results(&self) -> bool {
        self.query_text@.len() > 0 && self.query_match_line_nums@.len() > 0
    }

    /// Decides `spec_has_search_results`.
    pub fn has_search_results(&self) -> (r: bool)
        ensures
            r == self.spec_has_search_results(),
    {
        self.query_text.as_str().unicode_len() > 0 && self.query_match_line_nums.len() > 0
    }

    /// Appends a character to the query text.
    pub fn add_search_char(&mut self, ch: char)
        ensures
            *final(self) == (App { query_text: final(self).query_text, ..*old(self) }),
            final(self).query_text@ == old(self).query_text@.push(ch),
            old(self).wf() ==> final(self).wf(),
    {
        self.query_text.push(ch);
    }

    /// Removes the last character of the query text, if any.
    pub fn remove_search_char(&mut self)
        ensures
            *final(self) == (App { query_text: final(self).query_text, ..*old(self) }),
            old(self).query_text@.len() == 0 ==> final(self).query_text@ == old(self).query_text@,
            old(self).query_text@.len() > 0 ==> final(self).query_text@ == old(self).query_text@.drop_last(),
            old(self).wf() ==> final(self).wf(),
    {
        self.query_text.pop();
    }

    /// Scrolls to the current match's line; does nothing when the match
    /// index stands past the end of the list.
    fn jump_to_search_result(&mut self)
        requires
            old(self).wf(),
        ensures
            final(self).wf(),
            *final(self) == (App { current_scroll_pos: final(self).current_scroll_pos, ..*old(self) }),
            old(self).current_query_match_index < old(self).query_match_line_nums@.len() ==> final(self).current_scroll_pos == old(self).query_match_line_nums@[old(self).current_query_match_index as int],
            old(self).current_query_match_index >= old(self).query_match_line_nums@.len() ==> final(self).current_scroll_pos == old(self).current_scroll_pos,
    {
        if self.current_query_match_index < self.query_match_line_nums.len() {
            proof {
                assert(nums_view(self.query_match_line_nums@)[self.current_query_match_index as int]
                    == self.query_match_line_nums@[self.current_query_match_index as int] as int);
            }
            self.current_scroll_pos = self.query_match_line_nums[self.current_query_match_index];
        }
    }

    /// Submits the current query: clears the old match data; an empty
    /// query stops there. Otherwise every line is scanned in order, the
    /// span map is filled for exactly the matching lines, the no-results
    /// flag is set exactly when nothing matched, and on a hit the view
    /// jumps to the first match line at or after the scroll position —
    /// when every match lies above it, the match index stands past the
    /// end and the view stays.
    #[verifier::loop_isolation(false)]
    pub fn perform_search(&mut self)
        requires
            old(self).wf(),
        ensures
            final(self).wf(),
            search_submitted(*old(self), *final(self)),
    {
        self.query_match_line_nums = Vec::new();
        self.query_matches = HashMap::new();
        proof {
            assert(nums_view(self.query_match_line_nums@) =~= Seq::<int>::empty());
        }
        let qlen = self.query_text.as_str().unicode_len();
        if qlen == 0 {
            return;
        }
        let ghost doc = self.rfc_content@;
        let ghost q = self.query_text@;
        let ghost full = matching_lines(doc, q, 0);
        let n = self.rfc_content.line_count();
        let mut line_num: usize = 0;
        while line_num < n
            invariant
                0 <= line_num <= n,
                self.rfc_content == old(self).rfc_content,
                self.rfc_number == old(self).rfc_number,
                self.rfc_toc_panel == old(self).rfc_toc_panel,
                self.rfc_line_number == old(self).rfc_line_number,
                self.mode == old(self).mode,
                self.should_run == old(self).should_run,
                self.show_toc == old(self).show_toc,
                self.has_no_results == old(self).has_no_results,
                self.current_scroll_pos == old(self).current_scroll_pos,
                self.current_query_match_index == old(self).current_query_match_index,
                self.query_text == old(self).query_text,
                nums_view(self.query_match_line_nums@) + matching_lines(doc, q, line_num as int)
                    == full,
                self.spans_keyed_by_lines(),
                forall|l: usize|
                    #[trigger] self.query_matches@.contains_key(l) ==> spans_view(
                        self.query_matches@[l]@,
                    ) == spans_of(match_starts(doc[l as int], q, 0), q.len() as int),
            decreases n - line_num,
        {
            let ghost ml_here = matching_lines(doc, q, line_num as int);
            let line = self.rfc_content.line(line_num);
            let matches_in_line = find_matches_in_line(line, self.query_text.as_str());
            if matches_in_line.len() > 0 {
                proof {
                    assert(line_matches(doc[line_num as int], q));
                    assert(ml_here == seq![line_num as int] + matching_lines(
                        doc,
                        q,
                        line_num + 1,
                    ));
                }
                let ghost before_lines = self.query_match_line_nums@;
                let ghost before_map = self.query_matches@;
                self.query_match_line_nums.push(line_num);
                self.query_matches.insert(line_num, matches_in_line);
                proof {
                    assert(nums_view(self.query_match_line_nums@) =~= nums_view(before_lines)
                        + seq![line_num as int]);
                    assert(nums_view(self.query_match_line_nums@) + matching_lines(
                        doc,
                        q,
                        line_num + 1,
                    ) =~= full);
                    assert forall|l: usize| #[trigger] self.query_matches@.contains_key(l)
                        <==> nums_view(self.query_match_line_nums@).contains(l as int) by {
                        lemma_push_contains(nums_view(before_lines), line_num as int, l as int);
                    }
                }
            } else {
                proof {
                    assert(!line_matches(doc[line_num as int], q));
                    assert(ml_here == matching_lines(doc, q, line_num + 1));
                }
            }
            line_num += 1;
        }
        proof {
            assert(matching_lines(doc, q, n as int) =~= Seq::<int>::empty());
            assert(nums_view(self.query_match_line_nums@) =~= full);
            lemma_matching_lines_sorted(doc, q, 0);
        }
        if self.query_match_line_nums.len() == 0 {
            self.has_no_results = true;
        } else {
            self.has_no_results = false;
            let pos = self.current_scroll_pos;
            let len = self.query_match_line_nums.len();
            let mut idx: usize = 0;
            while idx < len && self.query_match_line_nums[idx] < pos
                invariant
                    0 <= idx <= len,
                    forall|j: int| 0 <= j < idx ==> nums_view(self.query_match_line_nums@)[j] < pos,
                decreases len - idx,
            {
                proof {
                    assert(nums_view(self.query_match_line_nums@)[idx as int]
                        == self.query_match_line_nums@[idx as int] as int);
                }
                idx += 1;
            }
            proof {
                if idx < len {
                    assert(nums_view(self.query_match_line_nums@)[idx as int]
                        == self.query_match_line_nums@[idx as int] as int);
                }
                lemma_first_ge_at(nums_view(self.query_match_line_nums@), pos as int, idx as int);
            }
            self.current_query_match_index = idx;
            self.jump_to_search_result();
        }
    }

    /// Moves to the first match strictly below the scroll position in the
    /// document order; does nothing without results or past the last
    /// match — the search never wraps around.
    #[verifier::loop_isolation(false)]
    pub fn next_search_result(&mut self)
        requires
            old(self).wf(),
        ensures
            final(self).wf(),
            advanced_next(*old(self), *final(self)),
    {
        if !self.has_search_results() {
            return;
        }
        let len = self.query_match_line_nums.len();
        let pos = self.current_scroll_pos;
        let mut j: usize = 0;
        while j < len && self.query_match_line_nums[j] <= pos
            invariant
                0 <= j <= len,
                forall|k: int| 0 <= k < j ==> nums_view(self.query_match_line_nums@)[k] <= pos,
            decreases len - j,
        {
            proof {
                assert(nums_view(self.query_match_line_nums@)[j as int]
                    == self.query_match_line_nums@[j as int] as int);
            }
            j += 1;
        }
        proof {
            if j < len {
                assert(nums_view(self.query_match_line_nums@)[j as int]
                    == self.query_match_line_nums@[j as int] as int);
            }
            lemma_first_gt_at(nums_view(self.query_match_line_nums@), pos as int, j as int);
        }
        if j < len {
            self.current_query_match_index = j;
            self.jump_to_search_result();
        }
    }

    /// Moves to the last match strictly above the scroll position in the
    /// document order; does nothing without results or before the first
    /// match — the search never wraps around.
    #[verifier::loop_isolation(false)]
    pub fn prev_search_result(&mut self)
        requires
            old(self).wf(),
        ensures
            final(self).wf(),
            advanced_prev(*old(self), *final(self)),
    {
        if !self.has_search_results() {
            return;
        }
        let len = self.query_match_line_nums.len();
        let pos = self.current_scroll_pos;
        let mut j: usize = len;
        while j > 0 && self.query_match_line_nums[j - 1] >= pos
            invariant
                0 <= j <= len,
                forall|k: int| j <= k < len ==> nums_view(self.query_match_line_nums@)[k] >= pos,
            decreases j,
        {
            proof {
                assert(nums_view(self.query_match_line_nums@)[j - 1]
                    == self.query_match_line_nums@[j - 1] as int);
            }
            j -= 1;
        }
        proof {
            if j > 0 {
                assert(nums_view(self.query_match_line_nums@)[j - 1]
                    == self.query_match_line_nums@[j - 1] as int);
            }
            lemma_last_lt_at(nums_view(self.query_match_line_nums@), pos as int, j - 1);
        }
        if j > 0 {
            self.current_query_match_index = j - 1;
            self.jump_to_search_result();
        }
    }

    /// Clears the whole search: the query text, the match lines and spans,
    /// the match index, and the no-results flag all return to their
    /// initial values, whatever was submitted before — so a submit
    /// followed by a reset shows exactly the initial search state.
    pub fn reset_search_highlights(&mut self)
        ensures
            search_reset(*old(self), *final(self)),
            old(self).wf() ==> final(self).wf(),
    {
        self.query_text = String::new();
        self.query_match_line_nums = Vec::new();
        self.query_matches = HashMap::new();
        self.current_query_match_index = 0;
        self.has_no_results = false;
        proof {
            assert(nums_view(self.query_match_line_nums@) =~= Seq::<int>::empty());
        }
    }

    /// The match spans recorded for a line, or `None` when the line holds
    /// no match.
    pub fn matches_for_line(&self, line_number: usize) -> (r: Option<&Vec<MatchSpan>>)
        ensures
            match r {
                Some(v) => self.query_matches@.contains_key(line_number) && *v
                    == self.query_matches@[line_number],
                None => !self.query_matches@.contains_key(line_number),
            },
    {
        self.query_matches.get(&line_number)
    }

    /// The mode word of the status line.
    pub fn get_mode_text(&self) -> (r: &'static str)
        ensures
            self.mode == AppMode::Normal && self.show_toc ==> r@ == "NORMAL (ToC)"@,
            self.mode == AppMode::Normal && !self.show_toc ==> r@ == "NORMAL"@,
            self.mode == AppMode::Help ==> r@ == "HELP"@,
            self.mode == AppMode::Search ==> r@ == "SEARCH"@,
    {
        match self.mode {
            AppMode::Normal => if self.show_toc {
                "NORMAL (ToC)"
            } else {
                "NORMAL"
            },
            AppMode::Help => "HELP",
            AppMode::Search => "SEARCH",
        }
    }

    /// The key-hint text of the status line, by mode, panel and results.
    pub fn get_help_text(&self) -> (r: &'static str)
        ensures
            self.mode == AppMode::Normal && self.show_toc ==> r@
                == "t:toggle ToC  w/s:nav  Enter:jump  q:quit"@,
            self.mode == AppMode::Normal && !self.show_toc && self.spec_has_search_results() ==> r@
                == "n/N:next/prev  Esc:clear"@,
            self.mode == AppMode::Normal && !self.show_toc && !self.spec_has_search_results()
                ==> r@ == "up/down:scroll  /:search  ?:help  q:quit"@,
            self.mode == AppMode::Help ==> r@ == "?/Esc:close"@,
            self.mode == AppMode::Search ==> r@ == "Enter:search  Esc:cancel"@,
    {
        match self.mode {
            AppMode::Normal => if self.show_toc {
                "t:toggle ToC  w/s:nav  Enter:jump  q:quit"
            } else if self.has_search_results() {
                "n/N:next/prev  Esc:clear"
            } else {
                "up/down:scroll  /:search  ?:help  q:quit"
            },
            AppMode::Help => "?/Esc:close",
            AppMode::Search => "Enter:search  Esc:cancel",
        }
    }

    /// The match counter of the status line: the shown match index, pinned
    /// to the last match, over the match count.
    pub open spec fn search_info_chars(&self) -> Seq<char> {
        let total = self.query_match_line_nums@.len() as int;
        let shown: int = if self.current_query_match_index as int <= total - 1 {
            self.current_query_match_index as int
        } else {
            total - 1
        };
        " | M "@ + dec_chars(shown + 1) + "/"@ + dec_chars(total)
    }

    /// Writes the match counter, or `None` when no search stands.
    pub fn build_search_info(&self) -> (r: Option<String>)
        ensures
            !self.spec_has_search_results() ==> r is None,
            self.spec_has_search_results() ==> r is Some && r->Some_0@ == self.search_info_chars(),
    {
        if !self.has_search_results() {
            return None;
        }
        let total = self.query_match_line_nums.len();
        let shown: usize = if self.current_query_match_index <= total - 1 {
            self.current_query_match_index
        } else {
            total - 1
        };
        let r = String::from_str(" | M ").concat(usize_to_dec(shown + 1).as_str()).concat(
            "/",
        ).concat(usize_to_dec(total).as_str());
        proof {
            assert(r@ =~= self.search_info_chars());
        }
        Some(r)
    }

    /// The reading-progress percentage: hundredths of the document passed,
    /// rounded down; zero on an empty document.
    pub open spec fn progress_pct(&self) -> int {
        if self.rfc_line_number > 0 {
            (self.current_scroll_pos * 100) / (self.rfc_line_number as int)
        } else {
            0
        }
    }

    /// Writes the position part of the status line: the one-based current
    /// line over the line count, the progress percentage, and the match
    /// counter where a search stands.
    pub fn build_progress_text(&self) -> (r: String)
        requires
            self.wf(),
        ensures
            r@ == "L "@ + dec_chars(self.current_scroll_pos + 1) + "/"@ + dec_chars(
                self.rfc_line_number as int,
            ) + " ("@ + dec_chars(self.progress_pct()) + "%)"@ + (
            if self.spec_has_search_results() {
                self.search_info_chars()
            } else {
                Seq::<char>::empty()
            }),
    {
        let pct: usize = if self.rfc_line_number > 0 {
            proof {
                assert((self.current_scroll_pos as int * 100) / (self.rfc_line_number as int)
                    < 100) by (nonlinear_arith)
                    requires
                        self.current_scroll_pos < self.rfc_line_number || self.current_scroll_pos
                            == 0,
                        self.rfc_line_number > 0,
                ;
            }
            ((self.current_scroll_pos as u128 * 100) / (self.rfc_line_number as u128)) as usize
        } else {
            0
        };
        let mut r = String::from_str("L ").concat(
            usize_to_dec(self.current_scroll_pos + 1).as_str(),
        ).concat("/").concat(usize_to_dec(self.rfc_line_number).as_str()).concat(" (").concat(
            usize_to_dec(pct).as_str(),
        ).concat("%)");
        let info = self.build_search_info();
        match info {
            Some(i) => {
                r.append(i.as_str());
            },
            None => {},
        }
        proof {
            assert(r@ =~= "L "@ + dec_chars(self.current_scroll_pos + 1) + "/"@ + dec_chars(
                self.rfc_line_number as int,
            ) + " ("@ + dec_chars(self.progress_pct()) + "%)"@ + (
            if self.spec_has_search_results() {
                self.search_info_chars()
            } else {
                Seq::<char>::empty()
            }));
        }
        r
    }

    /// What one key does in each mode: the whole dispatch of the consuming
    /// loop, pinned arm by arm by `dispatch_step`. The mode moves as
    /// `mode_after` says; the session stops exactly on `q` in normal mode;
    /// the document and the outline entries never change; the panel
    /// toggles exactly on `t` in normal mode.
    pub fn handle_key(&mut self, key: KeyPress, page_rows: usize)
        requires
            old(self).wf(),
        ensures
            final(self).wf(),
            dispatch_step(*old(self), *final(self), key, page_rows as int),
            final(self).mode == mode_after(old(self).mode, key),
            final(self).should_run == (old(self).should_run && !(old(self).mode == AppMode::Normal
                && key == KeyPress::Char('q'))),
            final(self).rfc_content == old(self).rfc_content,
            final(self).rfc_number == old(self).rfc_number,
            final(self).rfc_line_number == old(self).rfc_line_number,
            final(self).rfc_toc_panel.entries_view() == old(self).rfc_toc_panel.entries_view(),
            final(self).show_toc == if old(self).mode == AppMode::Normal && key == KeyPress::Char(
                't',
            ) {
                !old(self).show_toc
            } else {
                old(self).show_toc
            },
    {
        match (self.mode, key) {
            (AppMode::Normal, KeyPress::Char('q')) => {
                self.should_run = false;
            },
            (AppMode::Normal, KeyPress::Char('?'))
            | (AppMode::Help, KeyPress::Char('?'))
            | (AppMode::Help, KeyPress::Esc) => {
                self.toggle_help();
            },
            (AppMode::Normal, KeyPress::Char('t')) => {
                self.toggle_toc();
            },
            (AppMode::Normal, KeyPress::Char('j')) | (AppMode::Normal, KeyPress::Down) => {
                self.scroll_down(1);
            },
            (AppMode::Normal, KeyPress::Char('k')) | (AppMode::Normal, KeyPress::Up) => {
                self.scroll_up(1);
            },
            (AppMode::Normal, KeyPress::Char('f')) | (AppMode::Normal, KeyPress::PageDown) => {
                self.scroll_down(page_rows);
            },
            (AppMode::Normal, KeyPress::Char('b')) | (AppMode::Normal, KeyPress::PageUp) => {
                self.scroll_up(page_rows);
            },
            (AppMode::Normal, KeyPress::Char('g')) => {
                let n = self.rfc_line_number;
                self.scroll_up(n);
            },
            (AppMode::Normal, KeyPress::Char('G')) => {
                let n = self.rfc_line_number;
                self.scroll_down(n);
            },
            (AppMode::Normal, KeyPress::Char('/')) => {
                self.enter_search_mode();
            },
            (AppMode::Search, KeyPress::Enter) => {
                self.perform_search();
                let ghost mid = *self;
                self.exit_search_mode();
                proof {
                    assert((App { mode: old(self).mode, ..*self }) == mid);
                }
            },
            (AppMode::Search, KeyPress::Esc) => {
                self.cancel_search();
            },
            (AppMode::Search, KeyPress::Backspace) => {
                self.remove_search_char();
            },
            (AppMode::Search, KeyPress::Char(ch)) => {
                self.add_search_char(ch);
            },
            (AppMode::Normal, KeyPress::Char('n')) => {
                self.next_search_result();
            },
            (AppMode::Normal, KeyPress::Char('N')) => {
                self.prev_search_result();
            },
            (AppMode::Normal, KeyPress::Esc) => {
                self.reset_search_highlights();
            },
            (AppMode::Normal, KeyPress::Char('w')) => {
                if self.show_toc {
                    self.rfc_toc_panel.previous();
                }
            },
            (AppMode::Normal, KeyPress::Char('s')) => {
                if self.show_toc {
                    self.rfc_toc_panel.next();
                }
            },
            (AppMode::Normal, KeyPress::Enter) => {
                if self.show_toc {
                    self.jump_to_toc_entry();
                }
            },
            _ => {},
        }
    }
}

/// The smallest terminal width, in columns, the UI lays out properly in.
pub const MIN_TERMINAL_WIDTH: u16 = 94;

/// The smallest terminal height, in rows, the UI lays out properly in.
pub const MIN_TERMINAL_HEIGHT: u16 = 15;

/// Whether a terminal of the given size is too small for the UI.
pub fn is_terminal_too_small(width: u16, height: u16) -> (r: bool)
    ensures
        r == (width < MIN_TERMINAL_WIDTH || height < MIN_TERMINAL_HEIGHT),
{
    width < MIN_TERMINAL_WIDTH || height < MIN_TERMINAL_HEIGHT
}

/// Only the scroll position changed, and it moved to `target`.
pub open spec fn only_scrolled(pre: App, post: App, target: int) -> bool {
    &&& post == (App { current_scroll_pos: post.current_scroll_pos, ..pre })
    &&& post.current_scroll_pos as int == target
}

/// The scroll position after an upward step of `amount`: stopped at the
/// top.
pub open spec fn scrolled_up(pre: App, amount: int) -> int {
    if pre.current_scroll_pos >= amount {
        pre.current_scroll_pos - amount
    } else {
        0
    }
}

/// The scroll position after a downward step of `amount`: stopped at the
/// last line, and pinned at zero on a document without lines.
pub open spec fn scrolled_down(pre: App, amount: int) -> int {
    let last: int = if pre.rfc_line_number > 0 {
        pre.rfc_line_number - 1
    } else {
        0
    };
    if pre.current_scroll_pos + amount <= last {
        pre.current_scroll_pos + amount
    } else {
        last
    }
}

/// Only the scroll position changed, moved to the selected outline
/// entry's line — or nothing changed when no entry is selected.
pub open spec fn jumped_to_selection(pre: App, post: App) -> bool {
    &&& post == (App { current_scroll_pos: post.current_scroll_pos, ..pre })
    &&& match pre.rfc_toc_panel.sel() {
        Some(i) => post.current_scroll_pos as int == pre.rfc_toc_panel.entries_view()[i].1,
        None => post.current_scroll_pos == pre.current_scroll_pos,
    }
}

/// What submitting the query does to the state. An empty query only
/// clears the match data. Otherwise the match-line list holds exactly the
/// matching lines in order, the span map holds exactly their occurrence
/// spans, the no-results flag is set exactly when nothing matched, and on
/// a hit the view jumps to the first match line at or after the scroll
/// position — when every match lies above it, the match index stands past
/// the end of the list and the view stays.
pub open spec fn search_submitted(pre: App, post: App) -> bool {
    &&& post == (App {
        current_scroll_pos: post.current_scroll_pos,
        has_no_results: post.has_no_results,
        query_match_line_nums: post.query_match_line_nums,
        current_query_match_index: post.current_query_match_index,
        query_matches: post.query_matches,
        ..pre
    })
    &&& pre.query_text@.len() == 0 ==> ({
        &&& post.query_match_line_nums@ == Seq::<usize>::empty()
        &&& post.query_matches@ == Map::<usize, Vec<MatchSpan>>::empty()
        &&& post.current_scroll_pos == pre.current_scroll_pos
        &&& post.current_query_match_index == pre.current_query_match_index
        &&& post.has_no_results == pre.has_no_results
    })
    &&& pre.query_text@.len() > 0 ==> ({
        let doc = pre.rfc_content@;
        let q = pre.query_text@;
        let mls = matching_lines(doc, q, 0);
        &&& nums_view(post.query_match_line_nums@) == mls
        &&& (forall|l: usize|
            #[trigger] post.query_matches@.contains_key(l) <==> mls.contains(l as int))
        &&& (forall|l: usize|
            #[trigger] post.query_matches@.contains_key(l) ==> spans_view(
                post.query_matches@[l]@,
            ) == spans_of(match_starts(doc[l as int], q, 0), q.len() as int))
        &&& post.has_no_results == (mls.len() == 0)
        &&& mls.len() == 0 ==> post.current_scroll_pos == pre.current_scroll_pos
            && post.current_query_match_index == pre.current_query_match_index
        &&& mls.len() > 0 ==> ({
            let idx = first_ge(mls, pre.current_scroll_pos as int);
            &&& post.current_query_match_index == idx
            &&& post.current_scroll_pos as int == if idx < mls.len() {
                mls[idx]
            } else {
                pre.current_scroll_pos as int
            }
        })
    })
}

/// What stepping to the next match does: nothing without results; else
/// the first match line strictly below the scroll position becomes
/// current and the view moves there, and nothing changes when no such
/// line exists — no wraparound.
pub open spec fn advanced_next(pre: App, post: App) -> bool {
    &&& post == (App {
        current_scroll_pos: post.current_scroll_pos,
        current_query_match_index: post.current_query_match_index,
        ..pre
    })
    &&& !pre.spec_has_search_results() ==> post == pre
    &&& pre.spec_has_search_results() ==> match first_gt(
        nums_view(pre.query_match_line_nums@),
        pre.current_scroll_pos as int,
    ) {
        Some(j) => post.current_query_match_index == j && post.current_scroll_pos as int
            == nums_view(pre.query_match_line_nums@)[j],
        None => post == pre,
    }
}

/// What stepping to the previous match does: nothing without results;
/// else the last match line strictly above the scroll position becomes
/// current and the view moves there, and nothing changes when no such
/// line exists — no wraparound.
pub open spec fn advanced_prev(pre: App, post: App) -> bool {
    &&& post == (App {
        current_scroll_pos: post.current_scroll_pos,
        current_query_match_index: post.current_query_match_index,
        ..pre
    })
    &&& !pre.spec_has_search_results() ==> post == pre
    &&& pre.spec_has_search_results() ==> match last_lt(
        nums_view(pre.query_match_line_nums@),
        pre.current_scroll_pos as int,
    ) {
        Some(j) => post.current_query_match_index == j && post.current_scroll_pos as int
            == nums_view(pre.query_match_line_nums@)[j],
        None => post == pre,
    }
}

/// What resetting the search does: the query text, match lines, spans,
/// match index and no-results flag all return to their initial values,
/// whatever was submitted before; everything else stays.
pub open spec fn search_reset(pre: App, post: App) -> bool {
    &&& post == (App {
        query_text: post.query_text,
        query_match_line_nums: post.query_match_line_nums,
        current_query_match_index: 0,
        query_matches: post.query_matches,
        has_no_results: false,
        ..pre
    })
    &&& post.query_text@ == Seq::<char>::empty()
    &&& post.query_match_line_nums@ == Seq::<usize>::empty()
    &&& post.query_matches@ == Map::<usize, Vec<MatchSpan>>::empty()
}

/// Only the outline selection moved, one entry down with saturation; the
/// entries themselves never change.
pub open spec fn panel_stepped_next(pre: App, post: App) -> bool {
    &&& post == (App { rfc_toc_panel: post.rfc_toc_panel, ..pre })
    &&& post.rfc_toc_panel.entries_view() == pre.rfc_toc_panel.entries_view()
    &&& post.rfc_toc_panel.sel() == sel_next(pre.rfc_toc_panel)
}

/// Only the outline selection moved, one entry up with saturation; the
/// entries themselves never change.
pub open spec fn panel_stepped_prev(pre: App, post: App) -> bool {
    &&& post == (App { rfc_toc_panel: post.rfc_toc_panel, ..pre })
    &&& post.rfc_toc_panel.entries_view() == pre.rfc_toc_panel.entries_view()
    &&& post.rfc_toc_panel.sel() == sel_prev(pre.rfc_toc_panel)
}

/// The whole dispatch relation, arm by arm: what each key does to the
/// state in each mode. Scroll, outline, search-result and quit commands
/// act in normal mode only; in search mode keys edit the query buffer,
/// submit it, or cancel it; in help mode only the toggle back acts; any
/// other key leaves the state untouched.
pub open spec fn dispatch_step(pre: App, post: App, key: KeyPress, page_rows: int) -> bool {
    match (pre.mode, key) {
        (AppMode::Normal, KeyPress::Char('q')) => post == (App { should_run: false, ..pre }),
        (AppMode::Normal, KeyPress::Char('?'))
        | (AppMode::Help, KeyPress::Char('?'))
        | (AppMode::Help, KeyPress::Esc) => post == (App {
            mode: if pre.mode == AppMode::Help {
                AppMode::Normal
            } else {
                AppMode::Help
            },
            ..pre
        }),
        (AppMode::Normal, KeyPress::Char('t')) => post == (App { show_toc: !pre.show_toc, ..pre }),
        (AppMode::Normal, KeyPress::Char('j')) | (AppMode::Normal, KeyPress::Down) => only_scrolled(
            pre,
            post,
            scrolled_down(pre, 1),
        ),
        (AppMode::Normal, KeyPress::Char('k')) | (AppMode::Normal, KeyPress::Up) => only_scrolled(
            pre,
            post,
            scrolled_up(pre, 1),
        ),
        (AppMode::Normal, KeyPress::Char('f'))
        | (AppMode::Normal, KeyPress::PageDown) => only_scrolled(
            pre,
            post,
            scrolled_down(pre, page_rows),
        ),
        (AppMode::Normal, KeyPress::Char('b'))
        | (AppMode::Normal, KeyPress::PageUp) => only_scrolled(
            pre,
            post,
            scrolled_up(pre, page_rows),
        ),
        (AppMode::Normal, KeyPress::Char('g')) => only_scrolled(
            pre,
            post,
            scrolled_up(pre, pre.rfc_line_number as int),
        ),
        (AppMode::Normal, KeyPress::Char('G')) => only_scrolled(
            pre,
            post,
            scrolled_down(pre, pre.rfc_line_number as int),
        ),
        (AppMode::Normal, KeyPress::Char('/')) => post == (App {
            mode: AppMode::Search,
            query_text: post.query_text,
            ..pre
        }) && post.query_text@ == Seq::<char>::empty(),
        (AppMode::Search, KeyPress::Enter) => post.mode == AppMode::Normal && search_submitted(
            pre,
            (App { mode: pre.mode, ..post }),
        ),
        (AppMode::Search, KeyPress::Esc) => post == (App {
            mode: AppMode::Normal,
            query_text: post.query_text,
            ..pre
        }) && post.query_text@ == Seq::<char>::empty(),
        (AppMode::Search, KeyPress::Backspace) => post == (App {
            query_text: post.query_text,
            ..pre
        }) && post.query_text@ == (if pre.query_text@.len() > 0 {
            pre.query_text@.drop_last()
        } else {
            pre.query_text@
        }),
        (AppMode::Search, KeyPress::Char(ch)) => post == (App {
            query_text: post.query_text,
            ..pre
        }) && post.query_text@ == pre.query_text@.push(ch),
        (AppMode::Normal, KeyPress::Char('n')) => advanced_next(pre, post),
        (AppMode::Normal, KeyPress::Char('N')) => advanced_prev(pre, post),
        (AppMode::Normal, KeyPress::Esc) => search_reset(pre, post),
        (AppMode::Normal, KeyPress::Char('w')) => if pre.show_toc {
            panel_stepped_prev(pre, post)
        } else {
            post == pre
        },
        (AppMode::Normal, KeyPress::Char('s')) => if pre.show_toc {
            panel_stepped_next(pre, post)
        } else {
            post == pre
        },
        (AppMode::Normal, KeyPress::Enter) => if pre.show_toc {
            jumped_to_selection(pre, post)
        } else {
            post == pre
        },
        _ => post == pre,
    }
}

/// Where one key takes the mode: search opens from normal mode only, help
/// toggles between normal and help, and submitting or cancelling a search
/// returns to normal mode — help and search never reach each other
/// directly.
pub open spec fn mode_after(mode: AppMode, key: KeyPress) -> AppMode {
    match (mode, key) {
        (AppMode::Normal, KeyPress::Char(c)) => if c == '?' {
            AppMode::Help
        } else if c == '/' {
            AppMode::Search
        } else {
            AppMode::Normal
        },
        (AppMode::Help, KeyPress::Char(c)) => if c == '?' {
            AppMode::Normal
        } else {
            AppMode::Help
        },
        (AppMode::Help, KeyPress::Esc) => AppMode::Normal,
        (AppMode::Search, KeyPress::Enter) => AppMode::Normal,
        (AppMode::Search, KeyPress::Esc) => AppMode::Normal,
        _ => mode,
    }
}

} // verus!
