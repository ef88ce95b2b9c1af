//! Laws of trimming a path: curves stay curves, and nothing closes.

use vstd::prelude::*;

use crate::contours::{contours_of, SegmentGeometry};
use crate::measure::{
    all_measured, cut_from, larger, no_path, path_measured, piece_given, segment_measured,
    segments_of, smaller, starts_at, stretch_given, stretch_kept, trim_given, with_piece, Calc,
    MeasureTools, MeasuredPath,
};
use crate::path::{trim_step, GeometryError, Path, PathVerb, TrimStep};
use crate::recording::Point;
use crate::scalar::{num, Scalar, ZERO};

verus! {

/// Verbs that draw.
pub open spec fn drawn(verbs: Seq<PathVerb>) -> Seq<PathVerb>
    decreases verbs.len(),
{
    if verbs.len() == 0 {
        Seq::empty()
    } else if verbs.last() == PathVerb::Move {
        drawn(verbs.drop_last())
    } else {
        drawn(verbs.drop_last()).push(verbs.last())
    }
}

/// Verbs of the segments that were picked, in their order.
pub open spec fn picked(segments: Seq<SegmentGeometry>, picks: Seq<bool>) -> Seq<PathVerb>
    decreases picks.len(),
{
    if picks.len() == 0 {
        Seq::empty()
    } else if picks.last() {
        picked(segments, picks.drop_last()).push(segments[picks.len() - 1].verb())
    } else {
        picked(segments, picks.drop_last())
    }
}

/// Whether a path has some of the segments, each of its kind and in their order: it begins with a
/// move and never closes.
pub open spec fn keeps_kinds(segments: Seq<SegmentGeometry>, p: Path) -> bool {
    &&& p.verbs.len() > 0 ==> p.verbs[0] == PathVerb::Move
    &&& forall|k: int| 0 <= k < p.verbs.len() ==> #[trigger] p.verbs[k] != PathVerb::Close
    &&& exists|picks: Seq<bool>| #[trigger]
        picked(segments, picks) == drawn(p.verbs) && picks.len() == segments.len()
}

/// Whether a piece of a segment is a segment of the same kind.
pub open spec fn cuts_evenly<
    C: Fn(&Calc) -> Scalar,
    P: Fn(&SegmentGeometry, Scalar) -> Point,
    T: Fn(&SegmentGeometry, Scalar) -> Point,
    S: Fn(&SegmentGeometry, Scalar, Scalar) -> SegmentGeometry,
>(h: MeasureTools<C, P, T, S>) -> bool {
    forall|g: SegmentGeometry, a: Scalar, b: Scalar, piece: SegmentGeometry| #[trigger]
        call_ensures(*h.piece, (&g, a, b), piece) ==> piece.verb() == g.verb()
}

proof fn pieces_keep_kinds(p: Path, open: bool, s: SegmentGeometry)
    requires
        open ==> p.verbs.len() > 0,
        p.verbs.len() > 0 ==> p.verbs[0] == PathVerb::Move,
        forall|k: int| 0 <= k < p.verbs.len() ==> #[trigger] p.verbs[k] != PathVerb::Close,
    ensures
        ({
            let q = with_piece(p, open, s);
            &&& q.verbs.len() > 0
            &&& q.verbs[0] == PathVerb::Move
            &&& forall|k: int| 0 <= k < q.verbs.len() ==> #[trigger] q.verbs[k] != PathVerb::Close
            &&& drawn(q.verbs) == drawn(p.verbs).push(s.verb())
        }),
{
    let q = with_piece(p, open, s);
    let begun = if open {
        p.verbs
    } else {
        p.verbs.push(PathVerb::Move)
    };
    if !open {
        assert(begun.drop_last() =~= p.verbs);
    }
    assert(drawn(begun) == drawn(p.verbs));
    assert(q.verbs == begun.push(s.verb()));
    assert(q.verbs.drop_last() =~= begun);
    assert forall|k: int| 0 <= k < q.verbs.len() implies #[trigger] q.verbs[k] != PathVerb::Close by {
        if k < p.verbs.len() {
            assert(q.verbs[k] == p.verbs[k]);
        }
    }
}

proof fn cuts_keep_kinds<
    C: Fn(&Calc) -> Scalar,
    P: Fn(&SegmentGeometry, Scalar) -> Point,
    T: Fn(&SegmentGeometry, Scalar) -> Point,
    S: Fn(&SegmentGeometry, Scalar, Scalar) -> SegmentGeometry,
>(
    h: MeasureTools<C, P, T, S>,
    m: MeasuredPath,
    segments: Seq<SegmentGeometry>,
    from: Scalar,
    to: Scalar,
    i: int,
    consumed: Scalar,
    open: bool,
    out: Path,
    r: Path,
    picks: Seq<bool>,
)
    requires
        cuts_evenly(h),
        all_measured(h, segments, m.segments@),
        cut_from(h, m, from, to, i, consumed, open, out, r),
        0 <= i <= m.segments@.len(),
        picks.len() == i,
        picked(segments, picks) == drawn(out.verbs),
        open ==> out.verbs.len() > 0,
        out.verbs.len() > 0 ==> out.verbs[0] == PathVerb::Move,
        forall|k: int| 0 <= k < out.verbs.len() ==> #[trigger] out.verbs[k] != PathVerb::Close,
    ensures
        keeps_kinds(segments, r),
    decreases m.segments@.len() - i,
{
    if i >= m.segments@.len() {
        assert(picked(segments, picks) == drawn(r.verbs) && picks.len() == segments.len());
    } else {
        let seg = m.segments@[i];
        assert(segment_measured(h, segments[i], seg));
        let begun = open && !starts_at(m.starts@, i);
        let through = choose|through: Scalar| #[trigger]
            call_ensures(*h.calc, (&Calc::Sum { a: consumed, b: seg.length },), through) && {
                let low = larger(from, consumed);
                let high = smaller(to, through);
                if seg.length.le_spec(num(ZERO)) || high.le_spec(low) {
                    cut_from(h, m, from, to, i + 1, through, begun, out, r)
                } else {
                    exists|piece: SegmentGeometry| #[trigger]
                        piece_given(h, seg, consumed, low, high, piece) && cut_from(
                            h,
                            m,
                            from,
                            to,
                            i + 1,
                            through,
                            true,
                            with_piece(out, begun, piece),
                            r,
                        )
                }
            };
        let low = larger(from, consumed);
        let high = smaller(to, through);
        if seg.length.le_spec(num(ZERO)) || high.le_spec(low) {
            let now = picks.push(false);
            assert(now.drop_last() =~= picks);
            cuts_keep_kinds(h, m, segments, from, to, i + 1, through, begun, out, r, now);
        } else {
            let piece = choose|piece: SegmentGeometry| #[trigger]
                piece_given(h, seg, consumed, low, high, piece) && cut_from(
                    h,
                    m,
                    from,
                    to,
                    i + 1,
                    through,
                    true,
                    with_piece(out, begun, piece),
                    r,
                );
            assert(piece.verb() == segments[i].verb());
            let now = picks.push(true);
            assert(now.drop_last() =~= picks);
            pieces_keep_kinds(out, begun, piece);
            assert(picked(segments, now) == picked(segments, picks).push(segments[i].verb()));
            cuts_keep_kinds(
                h,
                m,
                segments,
                from,
                to,
                i + 1,
                through,
                true,
                with_piece(out, begun, piece),
                r,
                now,
            );
        }
    }
}

proof fn nothing_is_picked(segments: Seq<SegmentGeometry>, picks: Seq<bool>)
    requires
        forall|k: int| 0 <= k < picks.len() ==> !#[trigger] picks[k],
    ensures
        picked(segments, picks) == Seq::<PathVerb>::empty(),
    decreases picks.len(),
{
    if picks.len() > 0 {
        nothing_is_picked(segments, picks.drop_last());
    }
}

/// A stretch of a path has some of the path's segments, each of its kind and in their order. The edge
/// that closes a contour is a line of its own: the stretch never closes.
pub proof fn trimming_keeps_kinds<
    C: Fn(&Calc) -> Scalar,
    P: Fn(&SegmentGeometry, Scalar) -> Point,
    T: Fn(&SegmentGeometry, Scalar) -> Point,
    S: Fn(&SegmentGeometry, Scalar, Scalar) -> SegmentGeometry,
>(h: MeasureTools<C, P, T, S>, p: Path, start: Scalar, end: Scalar, r: Path)
    requires
        cuts_evenly(h),
        trim_given(h, p, start, end, Ok(r)),
        trim_step(start, end) is Cut,
    ensures
        keeps_kinds(segments_of(contours_of(p), contours_of(p).len()), r),
{
    let segments = segments_of(contours_of(p), contours_of(p).len());
    match trim_step(start, end) {
        TrimStep::Cut(a, b) => {
            let m = choose|m: MeasuredPath| #[trigger]
                path_measured(h, p, m) && stretch_given(h, m, a, b, Ok(r));
            if m.total.le_spec(num(ZERO)) {
                let picks = Seq::new(segments.len(), |i: int| false);
                nothing_is_picked(segments, picks);
                assert(picked(segments, picks) == drawn(r.verbs) && picks.len() == segments.len());
            } else {
                let (from, to, kept) = choose|from: Scalar, to: Scalar, kept: Path|
                    #![trigger stretch_kept(h, m, a, b, from, to, kept)]
                    stretch_kept(h, m, a, b, from, to, kept) && Ok::<Path, GeometryError>(r)
                        == crate::path::checked(kept);
                cuts_keep_kinds(
                    h,
                    m,
                    segments,
                    from,
                    to,
                    0,
                    num(ZERO),
                    false,
                    no_path(),
                    r,
                    Seq::empty(),
                );
            }
        },
        _ => {},
    }
}

} // verus!
