//! Splitting a document line into styled segments: the match ranges of the
//! search engine, and the rest in the line's base style (title or plain).
//! The renderer outside this crate maps each segment to its style.

use vstd::prelude::*;

use crate::search::{spans_view, MatchSpan};

verus! {

/// The style class of a segment.
#[derive(Debug, Clone, Copy, PartialEq, Eq, Structural)]
pub enum SegKind {
    /// Ordinary text.
    Plain,
    /// Part of a section-title line.
    Title,
    /// A search match.
    Matched,
}

/// One styled piece of a line.
#[derive(Debug, Clone)]
pub struct Segment {
    /// The text of the piece.
    pub text: String,
    /// Its style class.
    pub kind: SegKind,
}

/// The mathematical shadow of a segment.
pub open spec fn seg_view(s: Segment) -> (Seq<char>, SegKind) {
    (s.text@, s.kind)
}

/// The views of a segment list.
pub open spec fn segs_view(v: Seq<Segment>) -> Seq<(Seq<char>, SegKind)> {
    v.map_values(|s: Segment| seg_view(s))
}

/// A span list fit for a line of `n` characters: each span within bounds
/// and the spans in order without overlap.
pub open spec fn spans_ordered(sp: Seq<(int, int)>, n: int) -> bool {
    &&& forall|i: int| 0 <= i < sp.len() ==> 0 <= (#[trigger] sp[i]).0 <= sp[i].1 <= n
    &&& forall|i: int| 0 <= i < sp.len() - 1 ==> (#[trigger] sp[i]).1 <= sp[i + 1].0
}

/// The segments of a line from position `from` on, given the remaining
/// spans: a base-styled gap up to each span, the span itself as a match
/// segment, and one base-styled tail after the last span. Empty pieces are
/// left out.
pub open spec fn segments_model(
    line: Seq<char>,
    sp: Seq<(int, int)>,
    base: SegKind,
    from: int,
) -> Seq<(Seq<char>, SegKind)>
    decreases sp.len(),
{
    if sp.len() == 0 {
        if from < line.len() {
            seq![(line.skip(from), base)]
        } else {
            Seq::empty()
        }
    } else {
        let gap: Seq<(Seq<char>, SegKind)> = if sp[0].0 > from {
            seq![(line.subrange(from, sp[0].0), base)]
        } else {
            Seq::empty()
        };
        gap + seq![(line.subrange(sp[0].0, sp[0].1), SegKind::Matched)] + segments_model(
            line,
            sp.drop_first(),
            base,
            sp[0].1,
        )
    }
}

/// Splits `line` into styled segments around the given match spans, as
/// `segments_model` describes; the base style is `Title` on a
/// section-title line and `Plain` elsewhere.
pub fn highlight_segments(line: &str, spans: &Vec<MatchSpan>, is_title: bool) -> (segs: Vec<
    Segment,
>)
    requires
        spans_ordered(spans_view(spans@), line@.len() as int),
    ensures
        segs_view(segs@) == segments_model(
            line@,
            spans_view(spans@),
            if is_title {
                SegKind::Title
            } else {
                SegKind::Plain
            },
            0,
        ),
{
    let base = if is_title {
        SegKind::Title
    } else {
        SegKind::Plain
    };
    let ghost sv = spans_view(spans@);
    let ghost full = segments_model(line@, sv, base, 0);
    let n = line.unicode_len();
    let count = spans.len();
    let mut segs: Vec<Segment> = Vec::new();
    let mut last_end: usize = 0;
    let mut k: usize = 0;
    proof {
        assert(sv.skip(0) =~= sv);
        assert(segs_view(segs@) =~= Seq::<(Seq<char>, SegKind)>::empty());
        assert(segs_view(segs@) + segments_model(line@, sv.skip(0), base, 0) =~= full);
    }
    while k < count
        invariant
            0 <= k <= count,
            count == sv.len(),
            sv == spans_view(spans@),
            n == line@.len(),
            full == segments_model(line@, sv, base, 0),
            spans_ordered(sv, n as int),
            last_end <= n,
            k < count ==> last_end <= sv[k as int].0,
            k == 0 ==> last_end == 0,
            k > 0 ==> last_end == sv[k - 1].1,
            segs_view(segs@) + segments_model(line@, sv.skip(k as int), base, last_end as int)
                == full,
        decreases count - k,
    {
        let ghost rest = sv.skip(k as int);
        proof {
            assert(rest[0] == sv[k as int]);
            assert(rest.drop_first() =~= sv.skip(k + 1));
        }
        let s = spans[k].start;
        let e = spans[k].end;
        assert((s as int, e as int) == sv[k as int]);
        if s > last_end {
            let ghost before = segs@;
            let gap_text = line.substring_char(last_end, s).to_owned();
            segs.push(Segment { text: gap_text, kind: base });
            proof {
                assert(segs_view(segs@) =~= segs_view(before) + seq![
                    seg_view(segs@[before.len() as int]),
                ]);
            }
        }
        let ghost mid = segs@;
        let match_text = line.substring_char(s, e).to_owned();
        segs.push(Segment { text: match_text, kind: SegKind::Matched });
        proof {
            assert(segs_view(segs@) =~= segs_view(mid) + seq![seg_view(segs@[mid.len() as int])]);
            assert(segs_view(segs@) + segments_model(line@, sv.skip(k + 1), base, e as int)
                =~= full);
        }
        last_end = e;
        k += 1;
    }
    proof {
        assert(sv.skip(count as int) =~= Seq::<(int, int)>::empty());
    }
    if last_end < n {
        let ghost before = segs@;
        let tail_text = line.substring_char(last_end, n).to_owned();
        segs.push(Segment { text: tail_text, kind: base });
        proof {
            assert(tail_text@ =~= line@.skip(last_end as int));
            assert(segs_view(segs@) =~= segs_view(before) + seq![
                seg_view(segs@[before.len() as int]),
            ]);
            assert(segs_view(segs@) =~= full);
        }
    } else {
        proof {
            assert(segs_view(segs@) + Seq::<(Seq<char>, SegKind)>::empty() =~= segs_view(segs@));
            assert(segs_view(segs@) =~= full);
        }
    }
    segs
}

} // verus!
