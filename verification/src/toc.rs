//! Table-of-contents extraction: a structured pass over an explicit
//! contents region, with a line-shape heuristic as fallback.
//!
//! The structured pass finds the first contents-header line, then walks the
//! region after it: each line that has an entry shape is resolved by
//! searching the body below it for the first line that locates the entry;
//! unresolved candidates are dropped. The walk stops at a body section
//! heading once entries exist, at two consecutive blank lines once
//! entries exist, or after more than thirty lines without any entry.

use vstd::prelude::*;

use crate::patterns::{
    entry_captures, is_contents_header, is_section_heading, locator_match, heuristic_numbered,
    heuristic_upper, match_toc_entry, contents_header_line, section_heading_line,
    locator_match_line, heuristic_numbered_line, heuristic_upper_line,
};
use crate::text::{lines_view, lines_of, trim_both, trim_end, trim_str, trim_end_str, split_lines};

verus! {

/// An entry of the outline: a section title and the line where the section
/// starts in the document.
pub struct TocEntry {
    /// The title text of the section.
    pub title: String,
    /// The line number where the section appears in the document.
    pub line_number: usize,
}

/// The mathematical shadow of an entry: title characters and line index.
pub open spec fn entry_view(e: TocEntry) -> (Seq<char>, int) {
    (e.title@, e.line_number as int)
}

/// The views of a sequence of entries.
pub open spec fn toc_view(s: Seq<TocEntry>) -> Seq<(Seq<char>, int)> {
    s.map_values(|e: TocEntry| entry_view(e))
}

/// The first line index `>= from` whose line locates `(num, title)`.
pub open spec fn first_locator(
    lines: Seq<Seq<char>>,
    from: int,
    num: Seq<char>,
    title: Seq<char>,
) -> Option<int>
    decreases lines.len() - from,
{
    if from < 0 || from >= lines.len() {
        None
    } else if locator_match(lines[from], num, title) {
        Some(from)
    } else {
        first_locator(lines, from + 1, num, title)
    }
}

pub proof fn lemma_first_locator_range(
    lines: Seq<Seq<char>>,
    from: int,
    num: Seq<char>,
    title: Seq<char>,
)
    ensures
        first_locator(lines, from, num, title) is Some ==> from <= first_locator(
            lines,
            from,
            num,
            title,
        )->Some_0 < lines.len(),
    decreases lines.len() - from,
{
    if 0 <= from && from < lines.len() && !locator_match(lines[from], num, title) {
        lemma_first_locator_range(lines, from + 1, num, title);
    }
}

/// A scan that saw no locator on `[from, k)` and one at `k` (or ran out)
/// pins `first_locator`.
pub proof fn lemma_first_locator_at(
    lines: Seq<Seq<char>>,
    from: int,
    k: int,
    num: Seq<char>,
    title: Seq<char>,
)
    requires
        0 <= from <= k <= lines.len(),
        forall|j: int| from <= j < k ==> !locator_match(lines[j], num, title),
        k < lines.len() ==> locator_match(lines[k], num, title),
    ensures
        first_locator(lines, from, num, title) == if k < lines.len() {
            Some(k)
        } else {
            None::<int>
        },
    decreases k - from,
{
    if from < k {
        lemma_first_locator_at(lines, from + 1, k, num, title);
    }
}

/// The entry that candidate line `i` with right-trimmed text `t` yields:
/// its captures, resolved against the first locating body line after `i`;
/// `None` when the shape does not match or nothing locates it.
pub open spec fn resolved_entry(lines: Seq<Seq<char>>, i: int, t: Seq<char>) -> Option<
    (Seq<char>, int),
> {
    match entry_captures(t) {
        Some((num, title)) => match first_locator(lines, i + 1, num, title) {
            Some(k) => Some((num + seq![' '] + title, k)),
            None => None,
        },
        None => None,
    }
}

/// The first line index `>= i` whose trimmed line is a contents header.
pub open spec fn first_header(lines: Seq<Seq<char>>, i: int) -> Option<int>
    decreases lines.len() - i,
{
    if i < 0 || i >= lines.len() {
        None
    } else if is_contents_header(trim_both(lines[i])) {
        Some(i)
    } else {
        first_header(lines, i + 1)
    }
}

pub proof fn lemma_first_header_at(lines: Seq<Seq<char>>, from: int, k: int)
    requires
        0 <= from <= k <= lines.len(),
        forall|j: int| from <= j < k ==> !is_contents_header(trim_both(lines[j])),
        k < lines.len() ==> is_contents_header(trim_both(lines[k])),
    ensures
        first_header(lines, from) == if k < lines.len() {
            Some(k)
        } else {
            None::<int>
        },
    decreases k - from,
{
    if from < k {
        lemma_first_header_at(lines, from + 1, k);
    }
}

/// Finds the start of the contents region: the line right after the first
/// contents-header line, or `None` when no header exists.
pub fn find_toc_start(lines: &Vec<String>) -> (r: Option<usize>)
    ensures
        r is Some <==> first_header(lines_view(lines@), 0) is Some,
        r is Some ==> r->Some_0 == first_header(lines_view(lines@), 0)->Some_0 + 1,
{
    let n = lines.len();
    let mut i: usize = 0;
    while i < n
        invariant
            0 <= i <= n,
            n == lines@.len(),
            forall|j: int| 0 <= j < i ==> !is_contents_header(trim_both(lines_view(lines@)[j])),
        decreases n - i,
    {
        let t = trim_str(lines[i].as_str());
        assert(lines_view(lines@)[i as int] == lines@[i as int]@);
        if contents_header_line(t) {
            proof {
                lemma_first_header_at(lines_view(lines@), 0, i as int);
            }
            return Some(i + 1);
        }
        i += 1;
    }
    proof {
        lemma_first_header_at(lines_view(lines@), 0, n as int);
    }
    None
}

/// Tries to turn the right-trimmed candidate line `trimmed_line`, standing
/// at `index`, into a resolved entry, as `resolved_entry` describes.
pub fn try_extract_entry(trimmed_line: &str, lines: &Vec<String>, index: usize) -> (r: Option<
    TocEntry,
>)
    requires
        index < lines@.len(),
    ensures
        match resolved_entry(lines_view(lines@), index as int, trimmed_line@) {
            Some(ev) => r is Some && entry_view(r->Some_0) == ev,
            None => r is None,
        },
{
    let caps = match_toc_entry(trimmed_line);
    match caps {
        None => None,
        Some((num, title)) => {
            let ghost num0 = num@;
            let ghost title0 = title@;
            assert((num0, title0) == entry_captures(trimmed_line@)->Some_0);
            let n = lines.len();
            let mut k = index + 1;
            while k < n
                invariant
                    index + 1 <= k <= n,
                    n == lines@.len(),
                    num@ == num0,
                    title@ == title0,
                    (num0, title0) == entry_captures(trimmed_line@)->Some_0,
                    entry_captures(trimmed_line@) is Some,
                    forall|j: int|
                        index + 1 <= j < k ==> !locator_match(lines_view(lines@)[j], num0, title0),
                decreases n - k,
            {
                assert(lines_view(lines@)[k as int] == lines@[k as int]@);
                let found_here = locator_match_line(lines[k].as_str(), num.as_str(), title.as_str());
                if found_here {
                    proof {
                        lemma_first_locator_at(
                            lines_view(lines@),
                            index + 1,
                            k as int,
                            num0,
                            title0,
                        );
                    }
                    let mut full = num;
                    full.append(" ");
                    full.append(title.as_str());
                    proof {
                        reveal_strlit(" ");
                        assert(" "@ =~= seq![' ']);
                        assert(full@ =~= num0 + seq![' '] + title0);
                    }
                    return Some(TocEntry { title: full, line_number: k });
                }
                k += 1;
            }
            proof {
                lemma_first_locator_at(lines_view(lines@), index + 1, n as int, num0, title0);
            }
            None
        },
    }
}

/// The consecutive-blank-line count after seeing trimmed line `t`.
pub open spec fn next_empties(t: Seq<char>, e: int) -> int {
    if t.len() == 0 {
        e + 1
    } else {
        0
    }
}

/// The count of lines walked without any accepted entry after one more
/// line, given whether an entry exists yet.
pub open spec fn next_dry(found: bool, d: int) -> int {
    if found {
        0
    } else {
        d + 1
    }
}

/// Stop rule: a body section heading that is no entry, once entries exist.
pub open spec fn section_stop(t: Seq<char>, found: bool) -> bool {
    is_section_heading(t) && entry_captures(t) is None && found
}

/// Stop rule: the second consecutive blank line, once entries exist.
pub open spec fn empty_stop(t: Seq<char>, found: bool, e: int) -> bool {
    t.len() == 0 && next_empties(t, e) >= 2 && found
}

/// Stop rule: more than thirty lines without any accepted entry.
pub open spec fn dry_stop(found: bool, d: int) -> bool {
    !found && next_dry(found, d) > 30
}

/// Whether the walk over the contents region stops at a line with trimmed
/// text `t`, given the entry flag and the two counters.
pub open spec fn stop_verdict(t: Seq<char>, found: bool, e: int, d: int) -> bool {
    section_stop(t, found) || empty_stop(t, found, e) || dry_stop(found, d)
}

/// Decides whether the walk stops at `trimmed_line`, updating the two
/// counters exactly as far as the check order reaches them.
pub fn should_stop_parsing(
    trimmed_line: &str,
    has_found_entries: bool,
    consecutive_empty_lines: &mut u8,
    lines_without_entries: &mut u8,
) -> (stop: bool)
    requires
        *old(consecutive_empty_lines) < 250,
        *old(lines_without_entries) < 250,
    ensures
        stop == stop_verdict(
            trimmed_line@,
            has_found_entries,
            *old(consecutive_empty_lines) as int,
            *old(lines_without_entries) as int,
        ),
        *final(consecutive_empty_lines) as int == if section_stop(
            trimmed_line@,
            has_found_entries,
        ) {
            *old(consecutive_empty_lines) as int
        } else {
            next_empties(trimmed_line@, *old(consecutive_empty_lines) as int)
        },
        *final(lines_without_entries) as int == if section_stop(trimmed_line@, has_found_entries)
            || empty_stop(
            trimmed_line@,
            has_found_entries,
            *old(consecutive_empty_lines) as int,
        ) {
            *old(lines_without_entries) as int
        } else {
            next_dry(has_found_entries, *old(lines_without_entries) as int)
        },
{
    let looks_like_section = section_heading_line(trimmed_line);
    let entry = match_toc_entry(trimmed_line);
    if looks_like_section && entry.is_none() && has_found_entries {
        return true;
    }
    if trimmed_line.unicode_len() == 0 {
        *consecutive_empty_lines += 1;
        if *consecutive_empty_lines >= 2 && has_found_entries {
            return true;
        }
    } else {
        *consecutive_empty_lines = 0;
    }
    if has_found_entries {
        *lines_without_entries = 0;
    } else {
        *lines_without_entries += 1;
        if *lines_without_entries > 30 {
            return true;
        }
    }
    false
}

/// The entries of the contents region from line `i` on, carrying the blank
/// counter `e`, the entry flag `found`, and the dry counter `d`.
pub open spec fn extract_model(
    lines: Seq<Seq<char>>,
    i: int,
    e: int,
    found: bool,
    d: int,
) -> Seq<(Seq<char>, int)>
    decreases lines.len() - i,
{
    if i < 0 || i >= lines.len() {
        Seq::empty()
    } else {
        let t = trim_end(lines[i]);
        if stop_verdict(t, found, e, d) {
            Seq::empty()
        } else {
            let e1 = next_empties(t, e);
            let d1 = next_dry(found, d);
            match resolved_entry(lines, i, t) {
                Some(entry) => seq![entry] + extract_model(lines, i + 1, e1, true, d1),
                None => extract_model(lines, i + 1, e1, found, d1),
            }
        }
    }
}

/// Every line number in the extracted region model indexes a document line
/// below the candidate that produced it.
pub proof fn lemma_extract_model_in_range(lines: Seq<Seq<char>>, i: int, e: int, found: bool, d: int)
    ensures
        forall|k: int|
            0 <= k < extract_model(lines, i, e, found, d).len() ==> 0 <= #[trigger] extract_model(
                lines,
                i,
                e,
                found,
                d,
            )[k].1 < lines.len(),
    decreases lines.len() - i,
{
    if 0 <= i && i < lines.len() {
        let t = trim_end(lines[i]);
        if !stop_verdict(t, found, e, d) {
            let e1 = next_empties(t, e);
            let d1 = next_dry(found, d);
            let whole = extract_model(lines, i, e, found, d);
            match resolved_entry(lines, i, t) {
                Some(entry) => {
                    let caps = entry_captures(t)->Some_0;
                    lemma_first_locator_range(lines, i + 1, caps.0, caps.1);
                    lemma_extract_model_in_range(lines, i + 1, e1, true, d1);
                    let rest = extract_model(lines, i + 1, e1, true, d1);
                    assert forall|k: int| 0 <= k < whole.len() implies 0 <= (#[trigger] whole[k]).1
                        < lines.len() by {
                        if k == 0 {
                            assert(whole[0] == entry);
                        } else {
                            assert(whole[k] == rest[k - 1]);
                        }
                    }
                },
                None => {
                    lemma_extract_model_in_range(lines, i + 1, e1, found, d1);
                    let rest = extract_model(lines, i + 1, e1, found, d1);
                    assert forall|k: int| 0 <= k < whole.len() implies 0 <= (#[trigger] whole[k]).1
                        < lines.len() by {
                        assert(whole[k] == rest[k]);
                    }
                },
            }
        }
    }
}

/// Walks the contents region from `start_index` and collects the resolved
/// entries, as `extract_model` describes.
pub fn extract_toc_entries(lines: &Vec<String>, start_index: usize) -> (entries: Vec<TocEntry>)
    ensures
        toc_view(entries@) == extract_model(lines_view(lines@), start_index as int, 0, false, 0),
{
    let ghost v = lines_view(lines@);
    let ghost full = extract_model(v, start_index as int, 0, false, 0);
    let n = lines.len();
    let mut entries: Vec<TocEntry> = Vec::new();
    let mut consecutive_empty_lines: u8 = 0;
    let mut lines_without_entries: u8 = 0;
    let mut has_found_entries = false;
    let mut i = start_index;
    while i < n
        invariant
            start_index <= i,
            i <= n || i == start_index,
            n == lines@.len(),
            v == lines_view(lines@),
            full == extract_model(v, start_index as int, 0, false, 0),
            i < n ==> has_found_entries ==> consecutive_empty_lines <= 1,
            i < n ==> !has_found_entries ==> consecutive_empty_lines <= lines_without_entries,
            i < n ==> lines_without_entries <= 30,
            toc_view(entries@) + extract_model(
                v,
                i as int,
                consecutive_empty_lines as int,
                has_found_entries,
                lines_without_entries as int,
            ) == full,
        decreases n - i,
    {
        let ghost e0 = consecutive_empty_lines as int;
        let ghost d0 = lines_without_entries as int;
        let ghost f0 = has_found_entries;
        let trimmed_line = trim_end_str(lines[i].as_str());
        assert(v[i as int] == lines@[i as int]@);
        assert(trimmed_line@ == trim_end(v[i as int]));
        let stop = should_stop_parsing(
            trimmed_line,
            has_found_entries,
            &mut consecutive_empty_lines,
            &mut lines_without_entries,
        );
        if stop {
            proof {
                assert(extract_model(v, i as int, e0, f0, d0) =~= Seq::<(Seq<char>, int)>::empty());
                assert(toc_view(entries@) =~= full);
            }
            i = n;
            proof {
                assert(extract_model(
                    v,
                    n as int,
                    consecutive_empty_lines as int,
                    has_found_entries,
                    lines_without_entries as int,
                ) =~= Seq::<(Seq<char>, int)>::empty());
                assert(toc_view(entries@) + Seq::<(Seq<char>, int)>::empty() =~= toc_view(
                    entries@,
                ));
            }
        } else {
            let entry = try_extract_entry(trimmed_line, lines, i);
            match entry {
                Some(entry) => {
                    proof {
                        let ev = resolved_entry(v, i as int, trimmed_line@)->Some_0;
                        assert(extract_model(v, i as int, e0, f0, d0) == seq![ev] + extract_model(
                            v,
                            i + 1,
                            next_empties(trimmed_line@, e0),
                            true,
                            next_dry(f0, d0),
                        ));
                        // an accepted entry line is never blank, so the
                        // blank counter stands at zero past this line
                        crate::patterns::lemma_entry_captures_nonempty(trimmed_line@);
                    }
                    let ghost before = entries@;
                    entries.push(entry);
                    has_found_entries = true;
                    proof {
                        assert(toc_view(entries@) =~= toc_view(before) + seq![
                            entry_view(entries@[before.len() as int]),
                        ]);
                    }
                },
                None => {
                    proof {
                        assert(extract_model(v, i as int, e0, f0, d0) == extract_model(
                            v,
                            i + 1,
                            next_empties(trimmed_line@, e0),
                            f0,
                            next_dry(f0, d0),
                        ));
                    }
                },
            }
            proof {
                assert(toc_view(entries@) + extract_model(
                    v,
                    i + 1,
                    consecutive_empty_lines as int,
                    has_found_entries,
                    lines_without_entries as int,
                ) =~= full);
            }
            i += 1;
        }
    }
    proof {
        assert(extract_model(
            v,
            i as int,
            consecutive_empty_lines as int,
            has_found_entries,
            lines_without_entries as int,
        ) =~= Seq::<(Seq<char>, int)>::empty());
        assert(toc_view(entries@) =~= full);
    }
    entries
}

/// The structured pass as a whole: the region entries after the first
/// contents header, or `None` when no header exists or nothing resolves.
pub open spec fn structured_model(lines: Seq<Seq<char>>) -> Option<Seq<(Seq<char>, int)>> {
    match first_header(lines, 0) {
        Some(h) => {
            let entries = extract_model(lines, h + 1, 0, false, 0);
            if entries.len() == 0 {
                None
            } else {
                Some(entries)
            }
        },
        None => None,
    }
}

/// Parses the document by its explicit contents region, as
/// `structured_model` describes.
pub fn parse_toc_existing(lines: &Vec<String>) -> (r: Option<Vec<TocEntry>>)
    ensures
        match structured_model(lines_view(lines@)) {
            Some(m) => r is Some && toc_view(r->Some_0@) == m,
            None => r is None,
        },
{
    let start_index = find_toc_start(lines);
    match start_index {
        None => None,
        Some(start) => {
            let entries = extract_toc_entries(lines, start);
            if entries.len() == 0 {
                None
            } else {
                Some(entries)
            }
        },
    }
}

/// The fallback heuristic: every line whose right-trimmed text has the
/// numbered shape is an entry, and — until the first numbered entry — so is
/// every longer-than-three-characters line without lower-case letters.
pub open spec fn heuristic_model(lines: Seq<Seq<char>>, i: int, numbered_seen: bool) -> Seq<
    (Seq<char>, int),
>
    decreases lines.len() - i,
{
    if i < 0 || i >= lines.len() {
        Seq::empty()
    } else {
        let t = trim_end(lines[i]);
        if heuristic_numbered(t) {
            seq![(t, i)] + heuristic_model(lines, i + 1, true)
        } else if !numbered_seen && heuristic_upper(t) {
            seq![(t, i)] + heuristic_model(lines, i + 1, false)
        } else {
            heuristic_model(lines, i + 1, numbered_seen)
        }
    }
}

/// Every line number in the heuristic model indexes a document line.
pub proof fn lemma_heuristic_model_in_range(lines: Seq<Seq<char>>, i: int, numbered_seen: bool)
    ensures
        forall|k: int|
            0 <= k < heuristic_model(lines, i, numbered_seen).len() ==> 0
                <= (#[trigger] heuristic_model(lines, i, numbered_seen)[k]).1 < lines.len(),
    decreases lines.len() - i,
{
    if 0 <= i && i < lines.len() {
        let t = trim_end(lines[i]);
        let whole = heuristic_model(lines, i, numbered_seen);
        if heuristic_numbered(t) {
            lemma_heuristic_model_in_range(lines, i + 1, true);
            let rest = heuristic_model(lines, i + 1, true);
            assert forall|k: int| 0 <= k < whole.len() implies 0 <= (#[trigger] whole[k]).1
                < lines.len() by {
                if k > 0 {
                    assert(whole[k] == rest[k - 1]);
                }
            }
        } else if !numbered_seen && heuristic_upper(t) {
            lemma_heuristic_model_in_range(lines, i + 1, false);
            let rest = heuristic_model(lines, i + 1, false);
            assert forall|k: int| 0 <= k < whole.len() implies 0 <= (#[trigger] whole[k]).1
                < lines.len() by {
                if k > 0 {
                    assert(whole[k] == rest[k - 1]);
                }
            }
        } else {
            lemma_heuristic_model_in_range(lines, i + 1, numbered_seen);
            let rest = heuristic_model(lines, i + 1, numbered_seen);
            assert forall|k: int| 0 <= k < whole.len() implies 0 <= (#[trigger] whole[k]).1
                < lines.len() by {
                assert(whole[k] == rest[k]);
            }
        }
    }
}

/// The fallback outline is strictly ordered by line number: each accepted
/// line is its own entry, in document order. (The structured pass instead
/// appends entries in the scan order of the contents region, without
/// re-sorting by the resolved line number.)
pub proof fn lemma_heuristic_model_sorted(lines: Seq<Seq<char>>, i: int, numbered_seen: bool)
    ensures
        forall|a: int|
            0 <= a < heuristic_model(lines, i, numbered_seen).len() ==> (#[trigger] heuristic_model(
                lines,
                i,
                numbered_seen,
            )[a]).1 >= i,
        forall|a: int, b: int|
            0 <= a < b < heuristic_model(lines, i, numbered_seen).len() ==> (
            #[trigger] heuristic_model(lines, i, numbered_seen)[a]).1 < (#[trigger] heuristic_model(
                lines,
                i,
                numbered_seen,
            )[b]).1,
    decreases lines.len() - i,
{
    if 0 <= i && i < lines.len() {
        let t = trim_end(lines[i]);
        let whole = heuristic_model(lines, i, numbered_seen);
        if heuristic_numbered(t) || (!numbered_seen && heuristic_upper(t)) {
            let ns = if heuristic_numbered(t) {
                true
            } else {
                numbered_seen
            };
            lemma_heuristic_model_sorted(lines, i + 1, ns);
            let rest = heuristic_model(lines, i + 1, ns);
            assert forall|a: int| 0 <= a < whole.len() implies (#[trigger] whole[a]).1 >= i by {
                if a > 0 {
                    assert(whole[a] == rest[a - 1]);
                }
            }
            assert forall|a: int, b: int| 0 <= a < b < whole.len() implies (#[trigger] whole[a]).1
                < (#[trigger] whole[b]).1 by {
                if a > 0 {
                    assert(whole[a] == rest[a - 1]);
                }
                assert(whole[b] == rest[b - 1]);
            }
        } else {
            lemma_heuristic_model_sorted(lines, i + 1, numbered_seen);
            let rest = heuristic_model(lines, i + 1, numbered_seen);
            assert forall|a: int| 0 <= a < whole.len() implies (#[trigger] whole[a]).1 >= i by {
                assert(whole[a] == rest[a]);
            }
            assert forall|a: int, b: int| 0 <= a < b < whole.len() implies (#[trigger] whole[a]).1
                < (#[trigger] whole[b]).1 by {
                assert(whole[a] == rest[a]);
                assert(whole[b] == rest[b]);
            }
        }
    }
}

/// Parses the document heuristically, as `heuristic_model` describes. A
/// last resort for documents without a usable contents region.
pub fn parse_toc_heuristic(lines: &Vec<String>) -> (entries: Vec<TocEntry>)
    ensures
        toc_view(entries@) == heuristic_model(lines_view(lines@), 0, false),
{
    let ghost v = lines_view(lines@);
    let ghost full = heuristic_model(v, 0, false);
    let n = lines.len();
    let mut entries: Vec<TocEntry> = Vec::new();
    let mut section_pattern = false;
    let mut i: usize = 0;
    while i < n
        invariant
            0 <= i <= n,
            n == lines@.len(),
            v == lines_view(lines@),
            full == heuristic_model(v, 0, false),
            toc_view(entries@) + heuristic_model(v, i as int, section_pattern) == full,
        decreases n - i,
    {
        let ghost sp0 = section_pattern;
        let line = trim_end_str(lines[i].as_str());
        assert(v[i as int] == lines@[i as int]@);
        assert(line@ == trim_end(v[i as int]));
        let mut accepted = false;
        if heuristic_numbered_line(line) {
            accepted = true;
            section_pattern = true;
        } else if !section_pattern && heuristic_upper_line(line) {
            accepted = true;
        }
        if accepted {
            proof {
                assert(heuristic_model(v, i as int, sp0) == seq![(line@, i as int)]
                    + heuristic_model(v, i + 1, section_pattern));
            }
            let ghost before = entries@;
            entries.push(TocEntry { title: line.to_owned(), line_number: i });
            proof {
                assert(toc_view(entries@) =~= toc_view(before) + seq![
                    entry_view(entries@[before.len() as int]),
                ]);
            }
        } else {
            proof {
                assert(heuristic_model(v, i as int, sp0) == heuristic_model(
                    v,
                    i + 1,
                    section_pattern,
                ));
            }
        }
        proof {
            assert(toc_view(entries@) + heuristic_model(v, i + 1, section_pattern) =~= full);
        }
        i += 1;
    }
    proof {
        assert(toc_view(entries@) =~= full);
    }
    entries
}

/// What parsing a whole text yields: the structured pass where it finds
/// anything, else the heuristic pass.
pub open spec fn parse_toc_model(lines: Seq<Seq<char>>) -> Seq<(Seq<char>, int)> {
    match structured_model(lines) {
        Some(entries) => entries,
        None => heuristic_model(lines, 0, false),
    }
}

/// Parses a document text into its outline, as `parse_toc_model`
/// describes. Every entry's `line_number` indexes a line of the text.
pub fn parse_toc(content: &str) -> (entries: Vec<TocEntry>)
    ensures
        toc_view(entries@) == parse_toc_model(lines_of(content@)),
        forall|k: int|
            0 <= k < entries@.len() ==> 0 <= (#[trigger] entries@[k]).line_number < lines_of(
                content@,
            ).len(),
{
    let lines = split_lines(content);
    let ghost v = lines_view(lines@);
    let existing = parse_toc_existing(&lines);
    let entries = match existing {
        Some(entries) => entries,
        None => parse_toc_heuristic(&lines),
    };
    proof {
        if structured_model(v) is Some {
            let h = first_header(v, 0)->Some_0;
            lemma_extract_model_in_range(v, h + 1, 0, false, 0);
        } else {
            lemma_heuristic_model_in_range(v, 0, false);
        }
        assert forall|k: int| 0 <= k < entries@.len() implies 0 <= (#[trigger] entries@[k]).line_number
            < lines_of(content@).len() by {
            assert(toc_view(entries@)[k] == entry_view(entries@[k]));
            if structured_model(v) is Some {
                let h = first_header(v, 0)->Some_0;
                assert(toc_view(entries@)[k] == extract_model(v, h + 1, 0, false, 0)[k]);
                assert(0 <= extract_model(v, h + 1, 0, false, 0)[k].1 < v.len());
            } else {
                assert(toc_view(entries@)[k] == heuristic_model(v, 0, false)[k]);
                assert(0 <= heuristic_model(v, 0, false)[k].1 < v.len());
            }
        }
    }
    entries
}

// Concrete readings of the scenario literals, used by
// `lemma_structured_scenario` below.
proof fn lemma_header_literal()
    ensures
        trim_both("Table of Contents"@) == "Table of Contents"@,
        is_contents_header("Table of Contents"@),
{
    let t = "Table of Contents"@;
    reveal_strlit("Table of Contents");
    crate::text::lemma_trim_end_len_at(t, t.len() as int);
    assert(trim_end(t) =~= t);
    crate::text::lemma_run_len_at(t, 0, 0, |c: char| crate::text::is_space(c));
    assert(trim_both(t) =~= t);
}

proof fn lemma_outline_literal()
    ensures
        trim_end("1. Introduction .......... 3"@) == "1. Introduction .......... 3"@,
        entry_captures("1. Introduction .......... 3"@) == Some(("1."@, "Introduction"@)),
{
    let t = "1. Introduction .......... 3"@;
    reveal_strlit("1. Introduction .......... 3");
    reveal_strlit("1.");
    reveal_strlit("Introduction");
    assert(t.len() == 28);
    crate::text::lemma_trim_end_len_at(t, 28);
    assert(trim_end(t) =~= t);
    assert(crate::text::space_run(t, 0) == 0 && crate::text::digit_run(t, 0) == 1
        && crate::patterns::dotted_tail_end(t, 1) == 1 && crate::text::space_run(t, 2) == 1) by {
        reveal_with_fuel(crate::text::run_len, 4);
        reveal_with_fuel(crate::patterns::dotted_tail_end, 2);
    }
    assert(crate::patterns::number_group_end(t, 0) == 2);
    assert(crate::patterns::title_end(t, 3) == 16) by {
        reveal_with_fuel(crate::patterns::title_end, 15);
        reveal_with_fuel(crate::text::run_len, 13);
    }
    let title_raw = t.subrange(3, 16);
    assert(title_raw.len() == 13);
    crate::text::lemma_trim_end_len_at(title_raw, 12);
    assert(trim_end(title_raw) =~= "Introduction"@);
    crate::text::lemma_run_len_at(
        trim_end(title_raw),
        0,
        0,
        |c: char| crate::text::is_space(c),
    );
    assert(trim_both(title_raw) =~= "Introduction"@);
    assert(t.subrange(0, 2) =~= "1."@);
    assert(crate::patterns::numbered_captures(t) == Some(("1."@, "Introduction"@)));
}

proof fn lemma_body_literal()
    ensures
        trim_end("1. Introduction"@) == "1. Introduction"@,
        entry_captures("1. Introduction"@) == Some(("1."@, "Introduction"@)),
        locator_match("1. Introduction"@, "1."@, "Introduction"@),
{
    let t = "1. Introduction"@;
    reveal_strlit("1. Introduction");
    reveal_strlit("1.");
    reveal_strlit("Introduction");
    assert(t.len() == 15);
    crate::text::lemma_trim_end_len_at(t, 15);
    assert(trim_end(t) =~= t);
    assert(crate::text::space_run(t, 0) == 0 && crate::text::digit_run(t, 0) == 1
        && crate::patterns::dotted_tail_end(t, 1) == 1 && crate::text::space_run(t, 2) == 1) by {
        reveal_with_fuel(crate::text::run_len, 4);
        reveal_with_fuel(crate::patterns::dotted_tail_end, 2);
    }
    assert(crate::patterns::number_group_end(t, 0) == 2);
    assert(crate::patterns::title_end(t, 3) == 15) by {
        reveal_with_fuel(crate::patterns::title_end, 14);
        reveal_with_fuel(crate::text::run_len, 4);
    }
    let title_raw = t.subrange(3, 15);
    assert(title_raw.len() == 12);
    crate::text::lemma_trim_end_len_at(title_raw, 12);
    assert(trim_end(title_raw) =~= "Introduction"@);
    crate::text::lemma_run_len_at(
        trim_end(title_raw),
        0,
        0,
        |c: char| crate::text::is_space(c),
    );
    assert(trim_both(title_raw) =~= "Introduction"@);
    assert(t.subrange(0, 2) =~= "1."@);
    assert(crate::patterns::numbered_captures(t) == Some(("1."@, "Introduction"@)));
    assert(crate::text::has_at(t, 0, "1."@)) by {
        assert(t.subrange(0, 2) =~= "1."@);
    }
    assert(crate::text::has_at(t, 3, "Introduction"@)) by {
        assert(t.subrange(3, 15) =~= "Introduction"@);
    }
    assert(locator_match(t, "1."@, "Introduction"@));
}

/// A region walk that starts after an accepted entry and meets no further
/// resolvable candidate yields nothing, wherever it stops.
proof fn lemma_extract_no_entries(lines: Seq<Seq<char>>, i: int, e: int, d: int)
    requires
        forall|j: int|
            i <= j < lines.len() ==> resolved_entry(lines, j, trim_end(#[trigger] lines[j]))
                is None,
    ensures
        extract_model(lines, i, e, true, d) == Seq::<(Seq<char>, int)>::empty(),
    decreases lines.len() - i,
{
    if 0 <= i && i < lines.len() {
        let t = trim_end(lines[i]);
        if !stop_verdict(t, true, e, d) {
            lemma_extract_no_entries(lines, i + 1, next_empties(t, e), next_dry(true, d));
        }
    }
}

/// The structured scenario in general: a document whose line `h` reads
/// `Table of Contents`, whose next line is the outline line
/// `1. Introduction .......... 3`, and whose line `b` further down reads
/// `1. Introduction` — no earlier line a contents header, no other line
/// entry-shaped, and no other line locating the entry — yields exactly
/// one entry: the title `1. Introduction` pointing at line `b`, the body
/// heading's index resolved by the forward search, not the outline
/// line's own.
pub proof fn lemma_structured_scenario(lines: Seq<Seq<char>>, h: int, b: int)
    requires
        0 <= h,
        h + 1 < b < lines.len(),
        lines[h] == "Table of Contents"@,
        lines[h + 1] == "1. Introduction .......... 3"@,
        lines[b] == "1. Introduction"@,
        forall|j: int| 0 <= j < h ==> !is_contents_header(trim_both(#[trigger] lines[j])),
        forall|j: int|
            0 <= j < lines.len() && j != h + 1 && j != b ==> entry_captures(
                trim_end(#[trigger] lines[j]),
            ) is None,
        forall|j: int|
            h + 1 < j < lines.len() && j != b ==> !locator_match(
                #[trigger] lines[j],
                "1."@,
                "Introduction"@,
            ),
    ensures
        parse_toc_model(lines) == seq![("1. Introduction"@, b)],
{
    lemma_header_literal();
    lemma_outline_literal();
    lemma_body_literal();
    reveal_strlit("1. Introduction .......... 3");
    reveal_strlit("1. Introduction");
    reveal_strlit("1.");
    reveal_strlit("Introduction");

    lemma_first_header_at(lines, 0, h);
    assert(first_header(lines, 0) == Some(h));

    lemma_first_locator_at(lines, h + 2, b, "1."@, "Introduction"@);
    let t1 = trim_end(lines[h + 1]);
    assert(t1 == lines[h + 1]);
    assert(t1.len() == 28);
    assert("1."@ + seq![' '] + "Introduction"@ =~= "1. Introduction"@);
    assert(resolved_entry(lines, h + 1, t1) == Some(("1. Introduction"@, b)));

    assert(!stop_verdict(t1, false, 0, 0));
    assert(extract_model(lines, h + 1, 0, false, 0) == seq![("1. Introduction"@, b)]
        + extract_model(lines, h + 2, 0, true, 1));

    assert forall|j: int| h + 2 <= j < lines.len() implies resolved_entry(
        lines,
        j,
        trim_end(#[trigger] lines[j]),
    ) is None by {
        if j == b {
            assert(trim_end(lines[b]) == lines[b]);
            assert(entry_captures(trim_end(lines[b])) == Some(("1."@, "Introduction"@)));
            lemma_first_locator_at(lines, b + 1, lines.len() as int, "1."@, "Introduction"@);
        }
    }
    lemma_extract_no_entries(lines, h + 2, 0, 1);
    assert(extract_model(lines, h + 1, 0, false, 0) =~= seq![("1. Introduction"@, b)]);
    assert(structured_model(lines) == Some(seq![("1. Introduction"@, b)]));
}

} // verus!
