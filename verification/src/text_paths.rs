//! Text along a path: where each glyph of a run stands.

use vstd::prelude::*;

use crate::contours::SegmentGeometry;
use crate::measure::{path_sampled, tools_ready, Calc, MeasureTools, PathSample};
use crate::path::{Path, PathData};
use crate::recording::{Affine, Point};
use crate::scalar::{num, Scalar, ONE, ZERO};

verus! {

/// A path with its length, as long as the text of a node follows it.
pub struct TextPathPlan {
    pub path: PathData,
    pub length: Scalar,
}

/// A glyph on its line: where it stands and where the next one, or the end of the run, does.
#[derive(Clone, Copy, Debug, PartialEq, Eq, Structural)]
pub struct LineGlyph {
    pub at: Point,
    pub next: Scalar,
}

/// What is asked of the host: how far along a path the middle of a glyph's advance lies, as a fraction
/// of the path's length. The text begins at `origin`.
#[derive(Clone, Copy, Debug, PartialEq, Eq, Structural)]
pub struct GlyphProgress {
    pub glyph: LineGlyph,
    pub origin: Scalar,
    pub length: Scalar,
}

/// What is asked of the host: the transform that turns a glyph about the middle of its advance and puts
/// it onto a sample of a path.
#[derive(Clone, Copy, Debug, PartialEq, Eq, Structural)]
pub struct GlyphPlace {
    pub glyph: LineGlyph,
    pub sample: PathSample,
}

/// The glyph at a position of a run.
pub open spec fn line_glyph(glyphs: Seq<Point>, run_end: Scalar, i: int) -> LineGlyph {
    LineGlyph {
        at: glyphs[i],
        next: if i + 1 < glyphs.len() {
            glyphs[i + 1].x
        } else {
            run_end
        },
    }
}

/// Whether `r` is the place of a glyph whose middle lies at a fraction of a path: none beyond its ends.
pub open spec fn placed_at<
    C: Fn(&Calc) -> Scalar,
    P: Fn(&SegmentGeometry, Scalar) -> Point,
    T: Fn(&SegmentGeometry, Scalar) -> Point,
    S: Fn(&SegmentGeometry, Scalar, Scalar) -> SegmentGeometry,
    G: Fn(&GlyphPlace) -> Affine,
>(
    h: MeasureTools<C, P, T, S>,
    place: G,
    path: Path,
    glyph: LineGlyph,
    progress: Scalar,
    r: Option<Affine>,
) -> bool {
    match r {
        Some(t) => progress.within(num(ZERO), num(ONE)) && exists|sample: PathSample| #[trigger]
            path_sampled(h, path, progress, Ok(sample)) && call_ensures(
                place,
                (&GlyphPlace { glyph, sample },),
                t,
            ),
        None => !progress.within(num(ZERO), num(ONE)),
    }
}

/// Whether `r` is the place of a glyph on a path.
pub open spec fn glyph_placed<
    C: Fn(&Calc) -> Scalar,
    P: Fn(&SegmentGeometry, Scalar) -> Point,
    T: Fn(&SegmentGeometry, Scalar) -> Point,
    S: Fn(&SegmentGeometry, Scalar, Scalar) -> SegmentGeometry,
    F: Fn(&GlyphProgress) -> Scalar,
    G: Fn(&GlyphPlace) -> Affine,
>(
    h: MeasureTools<C, P, T, S>,
    progress: F,
    place: G,
    plan: TextPathPlan,
    origin: Scalar,
    glyph: LineGlyph,
    r: Option<Affine>,
) -> bool {
    exists|t: Scalar| #[trigger]
        call_ensures(progress, (&GlyphProgress { glyph, origin, length: plan.length },), t)
            && placed_at(h, place, plan.path@, glyph, t, r)
}

/// Places each glyph of a run at the middle of its advance along a path. A glyph beyond the ends of the
/// path has no place: on an end it would stand over another one. Nothing where the path cannot be
/// sampled.
pub fn path_placements<
    C: Fn(&Calc) -> Scalar,
    P: Fn(&SegmentGeometry, Scalar) -> Point,
    T: Fn(&SegmentGeometry, Scalar) -> Point,
    S: Fn(&SegmentGeometry, Scalar, Scalar) -> SegmentGeometry,
    F: Fn(&GlyphProgress) -> Scalar,
    G: Fn(&GlyphPlace) -> Affine,
>(
    h: &MeasureTools<C, P, T, S>,
    progress: &F,
    place: &G,
    plan: &TextPathPlan,
    origin: Scalar,
    glyphs: &Vec<Point>,
    run_end: Scalar,
) -> (r: Option<Vec<Option<Affine>>>)
    requires
        tools_ready(*h),
        forall|t: GlyphProgress| call_requires(*progress, (&t,)),
        forall|t: GlyphPlace| call_requires(*place, (&t,)),
    ensures
        r is None <==> plan.path@.fault() is Some,
        r matches Some(v) ==> v@.len() == glyphs@.len() && forall|i: int|
            0 <= i < v@.len() ==> glyph_placed(
                *h,
                *progress,
                *place,
                *plan,
                origin,
                line_glyph(glyphs@, run_end, i),
                #[trigger] v@[i],
            ),
{
    let mut asked: Vec<Scalar> = Vec::new();
    let mut line: Vec<LineGlyph> = Vec::new();
    let mut i: usize = 0;
    while i < glyphs.len()
        invariant
            i <= glyphs@.len(),
            forall|t: GlyphProgress| call_requires(*progress, (&t,)),
            asked@.len() == i,
            line@.len() == i,
            forall|k: int|
                0 <= k < i ==> #[trigger] line@[k] == line_glyph(glyphs@, run_end, k)
                    && call_ensures(
                    *progress,
                    (&GlyphProgress { glyph: line@[k], origin, length: plan.length },),
                    asked@[k],
                ),
        decreases glyphs@.len() - i,
    {
        let next: Scalar = if i + 1 < glyphs.len() {
            glyphs[i + 1].x
        } else {
            run_end
        };
        let glyph = LineGlyph { at: glyphs[i], next };
        asked.push(progress(&GlyphProgress { glyph, origin, length: plan.length }));
        line.push(glyph);
        i = i + 1;
    }
    let samples = match plan.path.samples_at(h, &asked) {
        Ok(v) => v,
        Err(_) => {
            return None;
        },
    };
    let zero = Scalar::from_bits(ZERO);
    let one = Scalar::from_bits(ONE);
    let mut out: Vec<Option<Affine>> = Vec::new();
    let mut k: usize = 0;
    while k < glyphs.len()
        invariant
            k <= glyphs@.len(),
            zero == num(ZERO),
            one == num(ONE),
            forall|t: GlyphPlace| call_requires(*place, (&t,)),
            asked@.len() == glyphs@.len(),
            line@.len() == glyphs@.len(),
            samples@.len() == glyphs@.len(),
            forall|j: int|
                0 <= j < glyphs@.len() ==> #[trigger] line@[j] == line_glyph(glyphs@, run_end, j)
                    && call_ensures(
                    *progress,
                    (&GlyphProgress { glyph: line@[j], origin, length: plan.length },),
                    asked@[j],
                ),
            forall|j: int|
                0 <= j < samples@.len() ==> path_sampled(
                    *h,
                    plan.path@,
                    asked@[j],
                    Ok(#[trigger] samples@[j]),
                ),
            out@.len() == k,
            forall|j: int|
                0 <= j < k ==> glyph_placed(
                    *h,
                    *progress,
                    *place,
                    *plan,
                    origin,
                    line_glyph(glyphs@, run_end, j),
                    #[trigger] out@[j],
                ),
        decreases glyphs@.len() - k,
    {
        let glyph = line[k];
        let t = asked[k];
        let sample = samples[k];
        let ghost before = out@;
        if zero.le(t) && t.le(one) {
            assert(path_sampled(*h, plan.path@, asked@[k as int], Ok(samples@[k as int])));
            let at = place(&GlyphPlace { glyph, sample });
            out.push(Some(at));
        } else {
            out.push(None);
        }
        proof {
            assert(line@[k as int] == line_glyph(glyphs@, run_end, k as int));
            assert(placed_at(*h, *place, plan.path@, glyph, t, out@[k as int]));
            assert forall|j: int| 0 <= j < out@.len() implies glyph_placed(
                *h,
                *progress,
                *place,
                *plan,
                origin,
                line_glyph(glyphs@, run_end, j),
                #[trigger] out@[j],
            ) by {
                if j < k {
                    assert(out@[j] == before[j]);
                }
            }
        }
        k = k + 1;
    }
    Some(out)
}

} // verus!
