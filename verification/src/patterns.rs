//! The outline grammar: the line shapes that mark a contents header, an
//! outline entry (numbered or appendix form), a body section heading, and
//! the locator that ties an outline entry to its section in the body.
//!
//! All shapes are stated over character sequences; the executable checks are
//! proved equal to the stated shapes. The alphabet is ASCII-oriented: digits,
//! letters and blanks are the ASCII ones.

use vstd::prelude::*;

use crate::text::{
    digit_run, dot_run, has_at, is_digit, is_lower, is_upper, is_word, run_len,
    space_run, str_eq_str, str_has_at, str_tail_eq, trim_both, trim_str, digit_run_at, dot_run_at,
    space_run_at, lemma_run_len, word_char, upper_char, digit_char,
};

verus! {

/// A numbered contents header: one or more digits, an optional full stop,
/// at least one blank, then exactly `Table of Contents`.
pub open spec fn is_numbered_contents_header(t: Seq<char>) -> bool {
    let d = digit_run(t, 0) as int;
    let p = if d < t.len() && t[d] == '.' {
        d + 1
    } else {
        d
    };
    let w = space_run(t, p) as int;
    d >= 1 && w >= 1 && t.skip(p + w) == "Table of Contents"@
}

/// A contents header, checked against a line trimmed on both ends: one of
/// the literal header forms, or the numbered form.
pub open spec fn is_contents_header(t: Seq<char>) -> bool {
    ||| t == "Table of Contents"@
    ||| t == "Contents"@
    ||| t == "TABLE OF CONTENTS"@
    ||| is_numbered_contents_header(t)
}

/// Decides `is_contents_header` for a trimmed line.
pub fn contents_header_line(t: &str) -> (r: bool)
    ensures
        r == is_contents_header(t@),
{
    if str_eq_str(t, "Table of Contents") || str_eq_str(t, "Contents") || str_eq_str(
        t,
        "TABLE OF CONTENTS",
    ) {
        return true;
    }
    let n = t.unicode_len();
    let d = digit_run_at(t, 0);
    if d == 0 {
        return false;
    }
    let p = if d < n && t.get_char(d) == '.' {
        d + 1
    } else {
        d
    };
    let w = space_run_at(t, p);
    if w == 0 {
        return false;
    }
    str_tail_eq(t, p + w, "Table of Contents")
}

/// A body section heading shape: digits, a full stop, at least one blank,
/// then a word character.
pub open spec fn is_section_heading(t: Seq<char>) -> bool {
    let d = digit_run(t, 0) as int;
    let w = space_run(t, d + 1) as int;
    &&& d >= 1
    &&& d < t.len()
    &&& t[d] == '.'
    &&& w >= 1
    &&& d + 1 + w < t.len()
    &&& is_word(t[d + 1 + w])
}

/// Decides `is_section_heading`.
pub fn section_heading_line(t: &str) -> (r: bool)
    ensures
        r == is_section_heading(t@),
{
    let n = t.unicode_len();
    let d = digit_run_at(t, 0);
    if d == 0 || d >= n || t.get_char(d) != '.' {
        return false;
    }
    let w = space_run_at(t, d + 1);
    if w == 0 || d + 1 + w >= n {
        return false;
    }
    word_char(t.get_char(d + 1 + w))
}

/// A page reference filling `t` from `m` to the end: two or more full
/// stops, then blanks, then at least one digit.
pub open spec fn page_suffix_at(t: Seq<char>, m: int) -> bool {
    let dd = dot_run(t, m) as int;
    let sp = space_run(t, m + dd) as int;
    let dg = digit_run(t, m + dd + sp) as int;
    dd >= 2 && dg >= 1 && m + dd + sp + dg == t.len()
}

/// Where a title that starts at `m` ends: the first position from which the
/// rest of the line is a page reference, or the end of the line.
pub open spec fn title_end(t: Seq<char>, m: int) -> int
    decreases t.len() - m,
{
    if m >= t.len() {
        t.len() as int
    } else if page_suffix_at(t, m) {
        m
    } else {
        title_end(t, m + 1)
    }
}

/// Decides `page_suffix_at`.
pub fn page_suffix_check(t: &str, m: usize) -> (r: bool)
    requires
        m <= t@.len(),
    ensures
        r == page_suffix_at(t@, m as int),
{
    let n = t.unicode_len();
    let dd = dot_run_at(t, m);
    if dd < 2 {
        return false;
    }
    let sp = space_run_at(t, m + dd);
    let dg = digit_run_at(t, m + dd + sp);
    dg >= 1 && m + dd + sp + dg == n
}

pub proof fn lemma_title_end_at(t: Seq<char>, ts: int, m: int)
    requires
        0 <= ts <= m <= t.len(),
        forall|j: int| ts <= j < m ==> !page_suffix_at(t, j),
        m < t.len() ==> page_suffix_at(t, m),
    ensures
        title_end(t, ts) == m,
    decreases m - ts,
{
    if ts < m {
        lemma_title_end_at(t, ts + 1, m);
    }
}

/// Finds `title_end` for a title starting at `ts`.
pub fn find_title_end(t: &str, ts: usize) -> (te: usize)
    requires
        ts <= t@.len(),
    ensures
        te == title_end(t@, ts as int),
        ts <= te <= t@.len(),
{
    let n = t.unicode_len();
    let mut m = ts;
    while m < n && !page_suffix_check(t, m)
        invariant
            ts <= m <= n,
            n == t@.len(),
            forall|j: int| ts <= j < m ==> !page_suffix_at(t@, j),
        decreases n - m,
    {
        m += 1;
    }
    proof {
        lemma_title_end_at(t@, ts as int, m as int);
    }
    m
}

/// End of the dotted continuation of a section number: from `from` on,
/// repeatedly a full stop followed by at least one digit.
pub open spec fn dotted_tail_end(t: Seq<char>, from: int) -> int
    decreases t.len() - from,
    via dotted_tail_end_decreases
{
    if 0 <= from && from < t.len() && t[from] == '.' && digit_run(t, from + 1) >= 1 {
        dotted_tail_end(t, from + 1 + digit_run(t, from + 1))
    } else {
        from
    }
}

#[via_fn]
proof fn dotted_tail_end_decreases(t: Seq<char>, from: int) {
    if 0 <= from && from < t.len() && t[from] == '.' && digit_run(t, from + 1) >= 1 {
        lemma_run_len(t, from + 1, |c: char| is_digit(c));
    }
}

/// End of the whole section-number group that starts right after the
/// leading blanks `a`: the digits, the dotted continuation, and one
/// optional trailing full stop.
pub open spec fn number_group_end(t: Seq<char>, a: int) -> int {
    let e = dotted_tail_end(t, a + digit_run(t, a));
    if e < t.len() && t[e] == '.' {
        e + 1
    } else {
        e
    }
}

/// The captures of the numbered entry form: a section number such as
/// `3.`, `1.2.3` or `10` after optional indentation, at least one blank,
/// then the title, an optional page reference discounted and blanks
/// trimmed. `None` when the line does not have this shape.
pub open spec fn numbered_captures(t: Seq<char>) -> Option<(Seq<char>, Seq<char>)> {
    let a = space_run(t, 0) as int;
    if digit_run(t, a) == 0 {
        None
    } else {
        let ne = number_group_end(t, a);
        let w = space_run(t, ne) as int;
        if w == 0 {
            None
        } else {
            let ts = ne + w;
            let te = title_end(t, ts);
            Some((t.subrange(a, ne), trim_both(t.subrange(ts, te))))
        }
    }
}

/// The captures of the appendix entry form: the word `Appendix`, blanks, an
/// upper-case letter with an optional full stop, at least one blank, then
/// the title as in the numbered form.
pub open spec fn appendix_captures(t: Seq<char>) -> Option<(Seq<char>, Seq<char>)> {
    let a = space_run(t, 0) as int;
    if !has_at(t, a, "Appendix"@) {
        None
    } else {
        let w1 = space_run(t, a + 8) as int;
        let p = a + 8 + w1;
        if w1 == 0 || p >= t.len() || !is_upper(t[p]) {
            None
        } else {
            let q = if p + 1 < t.len() && t[p + 1] == '.' {
                p + 2
            } else {
                p + 1
            };
            let w2 = space_run(t, q) as int;
            if w2 == 0 {
                None
            } else {
                let ts = q + w2;
                let te = title_end(t, ts);
                Some((t.subrange(a, q), trim_both(t.subrange(ts, te))))
            }
        }
    }
}

/// An entry-shaped line is never blank.
pub proof fn lemma_entry_captures_nonempty(t: Seq<char>)
    requires
        numbered_captures(t) is Some || appendix_captures(t) is Some,
    ensures
        t.len() > 0,
{
    if numbered_captures(t) is Some {
        let a = space_run(t, 0) as int;
        assert(digit_run(t, a) != 0);
        assert(run_len(t, a, |c: char| is_digit(c)) != 0);
        assert(0 <= a < t.len());
    } else {
        let a = space_run(t, 0) as int;
        let w1 = space_run(t, a + 8) as int;
        let p = a + 8 + w1;
        assert(p < t.len());
    }
}

/// The captures of an outline entry line: the numbered form where it
/// applies, else the appendix form.
pub open spec fn entry_captures(t: Seq<char>) -> Option<(Seq<char>, Seq<char>)> {
    if numbered_captures(t) is Some {
        numbered_captures(t)
    } else {
        appendix_captures(t)
    }
}

/// Extracts the numbered-form captures of `t` as owned strings.
pub fn match_numbered_entry(t: &str) -> (r: Option<(String, String)>)
    ensures
        r is Some <==> numbered_captures(t@) is Some,
        r is Some ==> (r->Some_0.0@, r->Some_0.1@) == numbered_captures(t@)->Some_0,
{
    let n = t.unicode_len();
    let a = space_run_at(t, 0);
    let d = digit_run_at(t, a);
    if d == 0 {
        return None;
    }
    let mut pos = a + d;
    loop
        invariant
            a + d <= pos <= n,
            n == t@.len(),
            dotted_tail_end(t@, (a + d) as int) == dotted_tail_end(t@, pos as int),
        ensures
            pos <= n,
            n == t@.len(),
            pos == dotted_tail_end(t@, (a + d) as int),
        decreases n - pos,
    {
        if pos < n && t.get_char(pos) == '.' {
            let dr = digit_run_at(t, pos + 1);
            if dr >= 1 {
                pos = pos + 1 + dr;
            } else {
                break;
            }
        } else {
            break;
        }
    }
    let ne = if pos < n && t.get_char(pos) == '.' {
        pos + 1
    } else {
        pos
    };
    let w = space_run_at(t, ne);
    if w == 0 {
        return None;
    }
    let ts = ne + w;
    let te = find_title_end(t, ts);
    let num = t.substring_char(a, ne).to_owned();
    let title = trim_str(t.substring_char(ts, te)).to_owned();
    proof {
        assert(num@ =~= t@.subrange(a as int, ne as int));
    }
    Some((num, title))
}

/// Extracts the appendix-form captures of `t` as owned strings.
pub fn match_appendix_entry(t: &str) -> (r: Option<(String, String)>)
    ensures
        r is Some <==> appendix_captures(t@) is Some,
        r is Some ==> (r->Some_0.0@, r->Some_0.1@) == appendix_captures(t@)->Some_0,
{
    proof {
        reveal_strlit("Appendix");
    }
    let n = t.unicode_len();
    let a = space_run_at(t, 0);
    if !str_has_at(t, a, "Appendix") {
        return None;
    }
    let w1 = space_run_at(t, a + 8);
    let p = a + 8 + w1;
    if w1 == 0 || p >= n || !upper_char(t.get_char(p)) {
        return None;
    }
    let q = if p + 1 < n && t.get_char(p + 1) == '.' {
        p + 2
    } else {
        p + 1
    };
    let w2 = space_run_at(t, q);
    if w2 == 0 {
        return None;
    }
    let ts = q + w2;
    let te = find_title_end(t, ts);
    let num = t.substring_char(a, q).to_owned();
    let title = trim_str(t.substring_char(ts, te)).to_owned();
    proof {
        assert(num@ =~= t@.subrange(a as int, q as int));
    }
    Some((num, title))
}

/// Extracts the captures of an outline entry line, trying the numbered
/// form first, as `entry_captures` describes.
pub fn match_toc_entry(t: &str) -> (r: Option<(String, String)>)
    ensures
        r is Some <==> entry_captures(t@) is Some,
        r is Some ==> (r->Some_0.0@, r->Some_0.1@) == entry_captures(t@)->Some_0,
{
    let numbered = match_numbered_entry(t);
    if numbered.is_some() {
        numbered
    } else {
        match_appendix_entry(t)
    }
}

/// Whether body line `d` locates the entry `(num, title)`: optional
/// indentation, the section number verbatim, at least one blank, then the
/// title verbatim; anything may follow.
pub open spec fn locator_match(d: Seq<char>, num: Seq<char>, title: Seq<char>) -> bool {
    let a = space_run(d, 0) as int;
    let w = space_run(d, a + num.len()) as int;
    &&& has_at(d, a, num)
    &&& w >= 1
    &&& has_at(d, a + num.len() + w, title)
}

/// Decides `locator_match`.
pub fn locator_match_line(d: &str, num: &str, title: &str) -> (r: bool)
    ensures
        r == locator_match(d@, num@, title@),
{
    let n = d.unicode_len();
    let a = space_run_at(d, 0);
    if !str_has_at(d, a, num) {
        return false;
    }
    let m = num.unicode_len();
    let w = space_run_at(d, a + m);
    if w == 0 {
        return false;
    }
    str_has_at(d, a + m + w, title)
}

/// The numbered heuristic shape: the line starts with a digit, holds a full
/// stop, and no space stands before the first full stop.
pub open spec fn heuristic_numbered(t: Seq<char>) -> bool {
    let fd = run_len(t, 0, |c: char| c != '.') as int;
    &&& t.len() > 0
    &&& is_digit(t[0])
    &&& fd < t.len()
    &&& forall|j: int| 0 <= j < fd ==> t[j] != ' '
}

/// Decides `heuristic_numbered`.
pub fn heuristic_numbered_line(t: &str) -> (r: bool)
    ensures
        r == heuristic_numbered(t@),
{
    let n = t.unicode_len();
    if n == 0 || !digit_char(t.get_char(0)) {
        return false;
    }
    let mut i: usize = 0;
    let mut clean: bool = true;
    while i < n && t.get_char(i) != '.'
        invariant
            0 <= i <= n,
            n == t@.len(),
            forall|j: int| 0 <= j < i ==> t@[j] != '.',
            clean == (forall|j: int| 0 <= j < i ==> t@[j] != ' '),
        decreases n - i,
    {
        if t.get_char(i) == ' ' {
            clean = false;
        }
        i += 1;
    }
    proof {
        crate::text::lemma_run_len_at(t@, 0, i as int, |c: char| c != '.');
    }
    i < n && clean
}

/// The upper-case heuristic shape: a line longer than three characters with
/// no lower-case letter.
pub open spec fn heuristic_upper(t: Seq<char>) -> bool {
    t.len() > 3 && (forall|j: int| 0 <= j < t.len() ==> !is_lower(t[j]))
}

/// Decides `heuristic_upper`.
pub fn heuristic_upper_line(t: &str) -> (r: bool)
    ensures
        r == heuristic_upper(t@),
{
    let n = t.unicode_len();
    if n <= 3 {
        return false;
    }
    let mut i: usize = 0;
    while i < n
        invariant
            0 <= i <= n,
            n == t@.len(),
            forall|j: int| 0 <= j < i ==> !is_lower(t@[j]),
        decreases n - i,
    {
        if crate::text::lower_char(t.get_char(i)) {
            return false;
        }
        i += 1;
    }
    true
}

} // verus!
