//! Character-level predicates shared by the outline grammar and the search
//! engine, and splitting of a document text into lines.

use vstd::prelude::*;

verus! {

/// Relies on `String::push`: appends the given character to the end of
/// this string.
pub assume_specification[ String::push ](s: &mut String, c: char)
    ensures
        final(s)@ == old(s)@.push(c),
;

/// Relies on `String::pop`: removes the last character from the string and
/// returns it, or returns `None` when the string is empty.
pub assume_specification[ String::pop ](s: &mut String) -> (r: Option<char>)
    ensures
        old(s)@.len() == 0 ==> final(s)@ == old(s)@ && r is None,
        old(s)@.len() > 0 ==> final(s)@ == old(s)@.drop_last() && r == Some(
            old(s)@[old(s)@.len() - 1],
        ),
;

/// Blank characters in the sense of the document grammar: the ASCII
/// whitespace characters a pattern may skip over or trim away.
pub open spec fn is_space(c: char) -> bool {
    c == ' ' || c == '\t' || c == '\n' || c == '\r' || c == '\x0b' || c == '\x0c'
}

pub fn space_char(c: char) -> (r: bool)
    ensures
        r == is_space(c),
{
    c == ' ' || c == '\t' || c == '\n' || c == '\r' || c == '\x0b' || c == '\x0c'
}

/// An ASCII decimal digit.
pub open spec fn is_digit(c: char) -> bool {
    '0' <= c && c <= '9'
}

pub fn digit_char(c: char) -> (r: bool)
    ensures
        r == is_digit(c),
{
    '0' <= c && c <= '9'
}

/// An ASCII upper-case letter.
pub open spec fn is_upper(c: char) -> bool {
    'A' <= c && c <= 'Z'
}

pub fn upper_char(c: char) -> (r: bool)
    ensures
        r == is_upper(c),
{
    'A' <= c && c <= 'Z'
}

/// An ASCII lower-case letter.
pub open spec fn is_lower(c: char) -> bool {
    'a' <= c && c <= 'z'
}

pub fn lower_char(c: char) -> (r: bool)
    ensures
        r == is_lower(c),
{
    'a' <= c && c <= 'z'
}

/// A word character as the section-heading pattern understands it:
/// an ASCII letter, digit, or underscore.
pub open spec fn is_word(c: char) -> bool {
    is_digit(c) || is_upper(c) || is_lower(c) || c == '_'
}

pub fn word_char(c: char) -> (r: bool)
    ensures
        r == is_word(c),
{
    digit_char(c) || upper_char(c) || lower_char(c) || c == '_'
}

/// The code point of `c` with an ASCII upper-case letter folded to its
/// lower-case form. Two characters match case-insensitively exactly when
/// their folded codes are equal.
pub open spec fn fold_code(c: char) -> int {
    if is_upper(c) {
        c as int + 32
    } else {
        c as int
    }
}

/// Case-insensitive character equality (ASCII folding).
pub open spec fn ci_eq(a: char, b: char) -> bool {
    fold_code(a) == fold_code(b)
}

pub fn ci_eq_char(a: char, b: char) -> (r: bool)
    ensures
        r == ci_eq(a, b),
{
    let ac: u32 = if upper_char(a) {
        a as u32 + 32
    } else {
        a as u32
    };
    let bc: u32 = if upper_char(b) {
        b as u32 + 32
    } else {
        b as u32
    };
    ac == bc
}

/// Length of the run of characters satisfying `p` that starts at `from`;
/// zero when `from` is out of range.
pub open spec fn run_len(s: Seq<char>, from: int, p: spec_fn(char) -> bool) -> nat
    decreases s.len() - from,
{
    if from < 0 || from >= s.len() || !p(s[from]) {
        0
    } else {
        1 + run_len(s, from + 1, p)
    }
}

pub proof fn lemma_run_len(s: Seq<char>, from: int, p: spec_fn(char) -> bool)
    requires
        0 <= from <= s.len(),
    ensures
        from + run_len(s, from, p) <= s.len(),
        forall|j: int| from <= j < from + run_len(s, from, p) ==> p(s[j]),
        from + run_len(s, from, p) < s.len() ==> !p(s[from + run_len(s, from, p)]),
    decreases s.len() - from,
{
    if from < s.len() && p(s[from]) {
        lemma_run_len(s, from + 1, p);
    }
}

/// A stretch `[from, to)` of characters satisfying `p`, delimited on the
/// right by the end or a character that fails `p`, is exactly the run at
/// `from`.
pub proof fn lemma_run_len_at(s: Seq<char>, from: int, to: int, p: spec_fn(char) -> bool)
    requires
        0 <= from <= to <= s.len(),
        forall|j: int| from <= j < to ==> p(s[j]),
        to < s.len() ==> !p(s[to]),
    ensures
        run_len(s, from, p) == to - from,
    decreases to - from,
{
    if from < to {
        lemma_run_len_at(s, from + 1, to, p);
    }
}

/// The blank characters at the start of `s`.
pub open spec fn space_run(s: Seq<char>, from: int) -> nat {
    run_len(s, from, |c: char| is_space(c))
}

/// The decimal digits starting at `from`.
pub open spec fn digit_run(s: Seq<char>, from: int) -> nat {
    run_len(s, from, |c: char| is_digit(c))
}

/// The full stops starting at `from`.
pub open spec fn dot_run(s: Seq<char>, from: int) -> nat {
    run_len(s, from, |c: char| c == '.')
}

/// Counts the blank characters of `s` from position `from` on.
pub fn space_run_at(s: &str, from: usize) -> (r: usize)
    requires
        from <= s@.len(),
    ensures
        r == space_run(s@, from as int),
        from + r <= s@.len(),
{
    let n = s.unicode_len();
    let mut i = from;
    while i < n && space_char(s.get_char(i))
        invariant
            from <= i <= n,
            n == s@.len(),
            forall|j: int| from <= j < i ==> is_space(s@[j]),
        decreases n - i,
    {
        i += 1;
    }
    proof {
        lemma_run_len_at(s@, from as int, i as int, |c: char| is_space(c));
    }
    i - from
}

/// Counts the decimal digits of `s` from position `from` on.
pub fn digit_run_at(s: &str, from: usize) -> (r: usize)
    requires
        from <= s@.len(),
    ensures
        r == digit_run(s@, from as int),
        from + r <= s@.len(),
{
    let n = s.unicode_len();
    let mut i = from;
    while i < n && digit_char(s.get_char(i))
        invariant
            from <= i <= n,
            n == s@.len(),
            forall|j: int| from <= j < i ==> is_digit(s@[j]),
        decreases n - i,
    {
        i += 1;
    }
    proof {
        lemma_run_len_at(s@, from as int, i as int, |c: char| is_digit(c));
    }
    i - from
}

/// Counts the full stops of `s` from position `from` on.
pub fn dot_run_at(s: &str, from: usize) -> (r: usize)
    requires
        from <= s@.len(),
    ensures
        r == dot_run(s@, from as int),
        from + r <= s@.len(),
{
    let n = s.unicode_len();
    let mut i = from;
    while i < n && s.get_char(i) == '.'
        invariant
            from <= i <= n,
            n == s@.len(),
            forall|j: int| from <= j < i ==> s@[j] == '.',
        decreases n - i,
    {
        i += 1;
    }
    proof {
        lemma_run_len_at(s@, from as int, i as int, |c: char| c == '.');
    }
    i - from
}

/// Whether `pat` occurs in `s` exactly at position `at`.
pub open spec fn has_at(s: Seq<char>, at: int, pat: Seq<char>) -> bool {
    &&& 0 <= at
    &&& at + pat.len() <= s.len()
    &&& s.subrange(at, at + pat.len() as int) == pat
}

/// Checks whether `pat` stands in `s` exactly at position `at`.
pub fn str_has_at(s: &str, at: usize, pat: &str) -> (r: bool)
    requires
        at <= s@.len(),
    ensures
        r == has_at(s@, at as int, pat@),
{
    let n = s.unicode_len();
    let m = pat.unicode_len();
    if m > n - at {
        return false;
    }
    let mut j: usize = 0;
    while j < m
        invariant
            0 <= j <= m,
            m == pat@.len(),
            n == s@.len(),
            at + m <= n,
            forall|k: int| 0 <= k < j ==> s@[at + k] == pat@[k],
        decreases m - j,
    {
        if s.get_char(at + j) != pat.get_char(j) {
            assert(s@.subrange(at as int, at + m as int)[j as int] != pat@[j as int]);
            return false;
        }
        j += 1;
    }
    assert(s@.subrange(at as int, at + m as int) =~= pat@);
    true
}

/// Checks whether the characters of `a` and `b` are the same.
pub fn str_eq_str(a: &str, b: &str) -> (r: bool)
    ensures
        r == (a@ == b@),
{
    let n = a.unicode_len();
    if n != b.unicode_len() {
        return false;
    }
    let r = str_has_at(a, 0, b);
    proof {
        if has_at(a@, 0, b@) {
            assert(a@ =~= b@);
        } else if a@ == b@ {
            assert(a@.subrange(0, n as int) =~= b@);
        }
    }
    r
}

/// Checks whether the characters of `s` from `from` to the end are exactly
/// those of `pat`.
pub fn str_tail_eq(s: &str, from: usize, pat: &str) -> (r: bool)
    requires
        from <= s@.len(),
    ensures
        r == (s@.skip(from as int) == pat@),
{
    let n = s.unicode_len();
    let m = pat.unicode_len();
    if n - from != m {
        return false;
    }
    let r = str_has_at(s, from, pat);
    proof {
        if has_at(s@, from as int, pat@) {
            assert(s@.skip(from as int) =~= pat@);
        } else if s@.skip(from as int) == pat@ {
            assert(s@.subrange(from as int, from + m as int) =~= s@.skip(from as int));
        }
    }
    r
}

/// Number of characters kept when blanks are trimmed from the end of `s`.
pub open spec fn trim_end_len(s: Seq<char>) -> nat
    decreases s.len(),
{
    if s.len() == 0 {
        0
    } else if is_space(s[s.len() - 1]) {
        trim_end_len(s.drop_last())
    } else {
        s.len()
    }
}

/// `s` with trailing blanks removed.
pub open spec fn trim_end(s: Seq<char>) -> Seq<char> {
    s.take(trim_end_len(s) as int)
}

pub proof fn lemma_trim_end_len(s: Seq<char>)
    ensures
        trim_end_len(s) <= s.len(),
        forall|j: int| trim_end_len(s) <= j < s.len() ==> is_space(s[j]),
        trim_end_len(s) > 0 ==> !is_space(s[trim_end_len(s) - 1]),
    decreases s.len(),
{
    if s.len() > 0 && is_space(s[s.len() - 1]) {
        lemma_trim_end_len(s.drop_last());
        assert forall|j: int| trim_end_len(s) <= j < s.len() implies is_space(s[j]) by {
            if j < s.len() - 1 {
                assert(s.drop_last()[j] == s[j]);
            }
        }
    }
}

/// A cut `k` below which the last character is not blank and above which
/// everything is blank is exactly `trim_end_len`.
pub proof fn lemma_trim_end_len_at(s: Seq<char>, k: int)
    requires
        0 <= k <= s.len(),
        forall|j: int| k <= j < s.len() ==> is_space(s[j]),
        k > 0 ==> !is_space(s[k - 1]),
    ensures
        trim_end_len(s) == k,
    decreases s.len(),
{
    if s.len() > 0 && is_space(s[s.len() - 1]) {
        assert(k < s.len());
        assert forall|j: int| k <= j < s.drop_last().len() implies is_space(s.drop_last()[j]) by {
            assert(s.drop_last()[j] == s[j]);
        }
        lemma_trim_end_len_at(s.drop_last(), k);
    }
}

/// `s` with leading and trailing blanks removed.
pub open spec fn trim_both(s: Seq<char>) -> Seq<char> {
    let t = trim_end(s);
    t.skip(space_run(t, 0) as int)
}

/// Trims trailing blanks from `s`.
pub fn trim_end_str(s: &str) -> (r: &str)
    ensures
        r@ == trim_end(s@),
{
    let n = s.unicode_len();
    let mut k = n;
    while k > 0 && space_char(s.get_char(k - 1))
        invariant
            0 <= k <= n,
            n == s@.len(),
            forall|j: int| k <= j < n ==> is_space(s@[j]),
        decreases k,
    {
        k -= 1;
    }
    proof {
        lemma_trim_end_len_at(s@, k as int);
    }
    s.substring_char(0, k)
}

/// Trims leading and trailing blanks from `s`.
pub fn trim_str(s: &str) -> (r: &str)
    ensures
        r@ == trim_both(s@),
{
    let t = trim_end_str(s);
    let a = space_run_at(t, 0);
    let r = t.substring_char(a, t.unicode_len());
    assert(r@ =~= trim_both(s@));
    r
}

/// The views of a sequence of owned lines.
pub open spec fn lines_view(v: Seq<String>) -> Seq<Seq<char>> {
    v.map_values(|l: String| l@)
}

/// Index of the first line feed in `s`, or `s.len()` when there is none.
pub open spec fn first_nl(s: Seq<char>) -> nat
    decreases s.len(),
{
    if s.len() == 0 {
        0
    } else if s[0] == '\n' {
        0
    } else {
        1 + first_nl(s.drop_first())
    }
}

pub proof fn lemma_first_nl(s: Seq<char>)
    ensures
        first_nl(s) <= s.len(),
        first_nl(s) < s.len() ==> s[first_nl(s) as int] == '\n',
        forall|j: int| 0 <= j < first_nl(s) ==> s[j] != '\n',
    decreases s.len(),
{
    if s.len() == 0 {
    } else if s[0] == '\n' {
    } else {
        lemma_first_nl(s.drop_first());
        assert forall|j: int| 0 <= j < first_nl(s) implies s[j] != '\n' by {
            if j > 0 {
                assert(s.drop_first()[j - 1] == s[j]);
            }
        }
    }
}

/// A position that carries no line feed before it and one at it (or is the
/// end) is exactly `first_nl`.
pub proof fn lemma_first_nl_at(s: Seq<char>, i: int)
    requires
        0 <= i <= s.len(),
        forall|j: int| 0 <= j < i ==> s[j] != '\n',
        i < s.len() ==> s[i] == '\n',
    ensures
        first_nl(s) == if i < s.len() {
            i
        } else {
            s.len() as int
        },
    decreases s.len(),
{
    if s.len() == 0 {
    } else if i == 0 {
    } else {
        assert(s[0] != '\n');
        assert forall|j: int| 0 <= j < i - 1 implies s.drop_first()[j] != '\n' by {
            assert(s.drop_first()[j] == s[j + 1]);
        }
        assert(i - 1 < s.drop_first().len() ==> s.drop_first()[i - 1] == s[i]);
        lemma_first_nl_at(s.drop_first(), i - 1);
    }
}

/// `t` with one trailing carriage return removed, as happens at a line
/// ending of the form `\r\n`.
pub open spec fn chop_cr(t: Seq<char>) -> Seq<char> {
    if t.len() > 0 && t[t.len() - 1] == '\r' {
        t.drop_last()
    } else {
        t
    }
}

/// The lines of a text: split at each line feed, a carriage return
/// immediately before the line feed removed; the last line needs no
/// terminator, and a terminator at the end of the text opens no further
/// empty line.
pub open spec fn lines_of(s: Seq<char>) -> Seq<Seq<char>>
    decreases s.len(),
    via lines_of_decreases
{
    if s.len() == 0 {
        Seq::empty()
    } else {
        let i = first_nl(s) as int;
        if i == s.len() {
            seq![s]
        } else {
            seq![chop_cr(s.subrange(0, i))] + lines_of(s.subrange(i + 1, s.len() as int))
        }
    }
}

#[via_fn]
proof fn lines_of_decreases(s: Seq<char>) {
    lemma_first_nl(s);
}

/// Splits a text into its lines, as `lines_of` describes.
pub fn split_lines(text: &str) -> (lines: Vec<String>)
    ensures
        lines_view(lines@) == lines_of(text@),
    decreases text@.len(),
{
    let n = text.unicode_len();
    if n == 0 {
        let lines: Vec<String> = Vec::new();
        assert(lines_view(lines@) =~= lines_of(text@));
        return lines;
    }
    let mut i: usize = 0;
    while i < n
        invariant
            i <= n,
            n == text@.len(),
            forall|j: int| 0 <= j < i ==> text@[j] != '\n',
        ensures
            i <= n,
            n == text@.len(),
            forall|j: int| 0 <= j < i ==> text@[j] != '\n',
            i < n ==> text@[i as int] == '\n',
        decreases n - i,
    {
        if text.get_char(i) == '\n' {
            break;
        }
        i += 1;
    }
    proof {
        lemma_first_nl_at(text@, i as int);
    }
    if i == n {
        let mut lines: Vec<String> = Vec::new();
        lines.push(text.to_owned());
        assert(lines_view(lines@) =~= lines_of(text@));
        lines
    } else {
        let head_end: usize = if i > 0 && text.get_char(i - 1) == '\r' {
            i - 1
        } else {
            i
        };
        let head = text.substring_char(0, head_end).to_owned();
        let tail = text.substring_char(i + 1, n);
        let mut lines = split_lines(tail);
        lines.insert(0, head);
        proof {
            let s = text@;
            let fi = first_nl(s) as int;
            assert(head@ =~= chop_cr(s.subrange(0, fi)));
            assert(tail@ =~= s.subrange(fi + 1, s.len() as int));
            assert(lines_view(lines@) =~= lines_of(text@));
        }
        lines
    }
}

} // verus!
