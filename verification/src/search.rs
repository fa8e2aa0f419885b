//! Literal, case-insensitive search: per-line matching with the greedy,
//! non-overlapping occurrence list, and the ordering helpers for
//! cursor-relative match navigation.

use vstd::prelude::*;

use crate::text::{ci_eq, ci_eq_char};

verus! {

/// One match on a line: a half-open character range.
#[derive(PartialEq, Eq, Structural, Clone, Copy, Debug)]
pub struct MatchSpan {
    /// First character of the match.
    pub start: usize,
    /// One past the last character of the match.
    pub end: usize,
}

/// The mathematical shadow of a span.
pub open spec fn span_view(s: MatchSpan) -> (int, int) {
    (s.start as int, s.end as int)
}

/// The views of a span list.
pub open spec fn spans_view(v: Seq<MatchSpan>) -> Seq<(int, int)> {
    v.map_values(|s: MatchSpan| span_view(s))
}

/// The views of a line-number list.
pub open spec fn nums_view(v: Seq<usize>) -> Seq<int> {
    v.map_values(|x: usize| x as int)
}

/// Whether the query `q` stands, case-insensitively, at position `i` of
/// `line`.
pub open spec fn matches_at(line: Seq<char>, q: Seq<char>, i: int) -> bool {
    &&& 0 <= i
    &&& i + q.len() <= line.len()
    &&& forall|j: int| 0 <= j < q.len() ==> ci_eq(line[i + j], q[j])
}

/// The greedy, non-overlapping occurrence starts of `q` in `line` from
/// position `from` on: at a match the scan jumps past it, else it moves one
/// character. Empty for an empty query.
pub open spec fn match_starts(line: Seq<char>, q: Seq<char>, from: int) -> Seq<int>
    decreases line.len() - from,
{
    if q.len() == 0 || from < 0 || from + q.len() > line.len() {
        Seq::empty()
    } else if matches_at(line, q, from) {
        seq![from] + match_starts(line, q, from + q.len() as int)
    } else {
        match_starts(line, q, from + 1)
    }
}

/// The spans of the occurrences in `starts`, each of the query's length.
pub open spec fn spans_of(starts: Seq<int>, qlen: int) -> Seq<(int, int)> {
    starts.map_values(|s: int| (s, s + qlen))
}

/// Whether `line` holds at least one occurrence of `q`.
pub open spec fn line_matches(line: Seq<char>, q: Seq<char>) -> bool {
    match_starts(line, q, 0).len() > 0
}

/// Decides `matches_at`.
pub fn query_matches_at(line: &str, q: &str, i: usize) -> (r: bool)
    requires
        i <= line@.len(),
        i + q@.len() <= line@.len(),
    ensures
        r == matches_at(line@, q@, i as int),
{
    let n = line.unicode_len();
    let m = q.unicode_len();
    let mut j: usize = 0;
    while j < m
        invariant
            0 <= j <= m,
            m == q@.len(),
            n == line@.len(),
            i + m <= n,
            forall|k: int| 0 <= k < j ==> ci_eq(line@[i + k], q@[k]),
        decreases m - j,
    {
        if !ci_eq_char(line.get_char(i + j), q.get_char(j)) {
            return false;
        }
        j += 1;
    }
    true
}

/// Collects the occurrence spans of `q` in `line`, as `match_starts` and
/// `spans_of` describe.
pub fn find_matches_in_line(line: &str, q: &str) -> (spans: Vec<MatchSpan>)
    requires
        q@.len() > 0,
    ensures
        spans_view(spans@) == spans_of(match_starts(line@, q@, 0), q@.len() as int),
        spans@.len() == match_starts(line@, q@, 0).len(),
{
    let n = line.unicode_len();
    let m = q.unicode_len();
    let ghost full = spans_of(match_starts(line@, q@, 0), q@.len() as int);
    let mut spans: Vec<MatchSpan> = Vec::new();
    let mut i: usize = 0;
    if m > n {
        proof {
            assert(match_starts(line@, q@, 0) =~= Seq::<int>::empty());
            assert(spans_view(spans@) =~= full);
        }
        return spans;
    }
    while i <= n - m
        invariant
            0 <= i <= n,
            m <= n,
            n == line@.len(),
            m == q@.len(),
            m > 0,
            full == spans_of(match_starts(line@, q@, 0), q@.len() as int),
            spans_view(spans@) + spans_of(match_starts(line@, q@, i as int), m as int) == full,
            spans@.len() + match_starts(line@, q@, i as int).len() == match_starts(
                line@,
                q@,
                0,
            ).len(),
        decreases n - i,
    {
        let ghost starts_here = match_starts(line@, q@, i as int);
        if query_matches_at(line, q, i) {
            proof {
                assert(starts_here == seq![i as int] + match_starts(line@, q@, i + m));
                assert(spans_of(starts_here, m as int) =~= seq![(i as int, i + m)] + spans_of(
                    match_starts(line@, q@, i + m),
                    m as int,
                ));
            }
            let ghost before = spans@;
            spans.push(MatchSpan { start: i, end: i + m });
            proof {
                assert(spans_view(spans@) =~= spans_view(before) + seq![
                    span_view(spans@[before.len() as int]),
                ]);
                assert(spans_view(spans@) + spans_of(match_starts(line@, q@, i + m), m as int)
                    =~= full);
            }
            i += m;
        } else {
            proof {
                assert(starts_here == match_starts(line@, q@, i + 1));
            }
            i += 1;
        }
    }
    proof {
        assert(match_starts(line@, q@, i as int) =~= Seq::<int>::empty());
        assert(spans_of(Seq::<int>::empty(), m as int) =~= Seq::<(int, int)>::empty());
        assert(spans_view(spans@) =~= full);
    }
    spans
}

/// The line numbers, in increasing order, whose line holds a match.
pub open spec fn matching_lines(doc: Seq<Seq<char>>, q: Seq<char>, from: int) -> Seq<int>
    decreases doc.len() - from,
{
    if from < 0 || from >= doc.len() {
        Seq::empty()
    } else if line_matches(doc[from], q) {
        seq![from] + matching_lines(doc, q, from + 1)
    } else {
        matching_lines(doc, q, from + 1)
    }
}

/// The matching-line list is strictly increasing and stays inside the
/// document.
pub proof fn lemma_matching_lines_sorted(doc: Seq<Seq<char>>, q: Seq<char>, from: int)
    ensures
        forall|a: int, b: int|
            0 <= a < b < matching_lines(doc, q, from).len() ==> #[trigger] matching_lines(
                doc,
                q,
                from,
            )[a] < #[trigger] matching_lines(doc, q, from)[b],
        forall|a: int|
            0 <= a < matching_lines(doc, q, from).len() ==> from <= #[trigger] matching_lines(
                doc,
                q,
                from,
            )[a] < doc.len(),
    decreases doc.len() - from,
{
    if 0 <= from && from < doc.len() {
        lemma_matching_lines_sorted(doc, q, from + 1);
        let rest = matching_lines(doc, q, from + 1);
        let whole = matching_lines(doc, q, from);
        if line_matches(doc[from], q) {
            assert forall|a: int| 0 <= a < whole.len() implies from <= #[trigger] whole[a]
                < doc.len() by {
                if a > 0 {
                    assert(whole[a] == rest[a - 1]);
                }
            }
            assert forall|a: int, b: int| 0 <= a < b < whole.len() implies #[trigger] whole[a]
                < #[trigger] whole[b] by {
                if a > 0 {
                    assert(whole[a] == rest[a - 1]);
                }
                assert(whole[b] == rest[b - 1]);
            }
        }
    }
}

/// Membership in a sequence extended by one value.
pub proof fn lemma_push_contains(s: Seq<int>, v: int, x: int)
    ensures
        (s + seq![v]).contains(x) <==> s.contains(x) || x == v,
{
    if s.contains(x) {
        let i = choose|i: int| 0 <= i < s.len() && s[i] == x;
        assert((s + seq![v])[i] == x);
    }
    assert((s + seq![v])[s.len() as int] == v);
    if (s + seq![v]).contains(x) && x != v {
        let i = choose|i: int| 0 <= i < (s + seq![v]).len() && (s + seq![v])[i] == x;
        assert(s[i] == x);
    }
}

/// The first index of `s` whose value is at least `pos`, or the length when
/// every value lies below `pos`.
pub open spec fn first_ge(s: Seq<int>, pos: int) -> int
    decreases s.len(),
{
    if s.len() == 0 {
        0
    } else if s[0] >= pos {
        0
    } else {
        1 + first_ge(s.drop_first(), pos)
    }
}

pub proof fn lemma_first_ge(s: Seq<int>, pos: int)
    ensures
        0 <= first_ge(s, pos) <= s.len(),
        forall|j: int| 0 <= j < first_ge(s, pos) ==> s[j] < pos,
        first_ge(s, pos) < s.len() ==> s[first_ge(s, pos)] >= pos,
    decreases s.len(),
{
    if s.len() > 0 && s[0] < pos {
        lemma_first_ge(s.drop_first(), pos);
        assert forall|j: int| 0 <= j < first_ge(s, pos) implies s[j] < pos by {
            if j > 0 {
                assert(s.drop_first()[j - 1] == s[j]);
            }
        }
        assert(first_ge(s, pos) < s.len() ==> s.drop_first()[first_ge(s, pos) - 1] == s[first_ge(
            s,
            pos,
        )]);
    }
}

/// A scan that saw only values below `pos` on `[0, k)` and one at least
/// `pos` at `k` (or ran out) pins `first_ge`.
pub proof fn lemma_first_ge_at(s: Seq<int>, pos: int, k: int)
    requires
        0 <= k <= s.len(),
        forall|j: int| 0 <= j < k ==> s[j] < pos,
        k < s.len() ==> s[k] >= pos,
    ensures
        first_ge(s, pos) == k,
    decreases s.len(),
{
    if s.len() > 0 && k > 0 {
        assert forall|j: int| 0 <= j < k - 1 implies s.drop_first()[j] < pos by {
            assert(s.drop_first()[j] == s[j + 1]);
        }
        assert(k - 1 < s.drop_first().len() ==> s.drop_first()[k - 1] == s[k]);
        lemma_first_ge_at(s.drop_first(), pos, k - 1);
    }
}

/// The first index of `s` whose value exceeds `pos`, when one exists.
pub open spec fn first_gt(s: Seq<int>, pos: int) -> Option<int>
    decreases s.len(),
{
    if s.len() == 0 {
        None
    } else if s[0] > pos {
        Some(0)
    } else {
        match first_gt(s.drop_first(), pos) {
            Some(j) => Some(j + 1),
            None => None,
        }
    }
}

/// A scan that saw no value above `pos` on `[0, k)` and one at `k` (or ran
/// out) pins `first_gt`.
pub proof fn lemma_first_gt_at(s: Seq<int>, pos: int, k: int)
    requires
        0 <= k <= s.len(),
        forall|j: int| 0 <= j < k ==> s[j] <= pos,
        k < s.len() ==> s[k] > pos,
    ensures
        first_gt(s, pos) == if k < s.len() {
            Some(k)
        } else {
            None::<int>
        },
    decreases s.len(),
{
    if s.len() > 0 && k > 0 {
        assert forall|j: int| 0 <= j < k - 1 implies s.drop_first()[j] <= pos by {
            assert(s.drop_first()[j] == s[j + 1]);
        }
        assert(k - 1 < s.drop_first().len() ==> s.drop_first()[k - 1] == s[k]);
        lemma_first_gt_at(s.drop_first(), pos, k - 1);
    }
}

/// The last index of `s` whose value lies below `pos`, when one exists.
pub open spec fn last_lt(s: Seq<int>, pos: int) -> Option<int>
    decreases s.len(),
{
    if s.len() == 0 {
        None
    } else if s[s.len() - 1] < pos {
        Some(s.len() - 1)
    } else {
        last_lt(s.drop_last(), pos)
    }
}

/// A scan from the end that saw no value below `pos` on `(k, len)` and one
/// at `k` (or ran out) pins `last_lt`.
pub proof fn lemma_last_lt_at(s: Seq<int>, pos: int, k: int)
    requires
        -1 <= k < s.len(),
        forall|j: int| k < j < s.len() ==> s[j] >= pos,
        k >= 0 ==> s[k] < pos,
    ensures
        last_lt(s, pos) == if k >= 0 {
            Some(k)
        } else {
            None::<int>
        },
    decreases s.len(),
{
    if s.len() > 0 && k < s.len() - 1 {
        assert forall|j: int| k < j < s.drop_last().len() implies s.drop_last()[j] >= pos by {
            assert(s.drop_last()[j] == s[j]);
        }
        assert(k >= 0 ==> s.drop_last()[k] == s[k]);
        lemma_last_lt_at(s.drop_last(), pos, k);
    }
}

} // verus!
