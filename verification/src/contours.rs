//! The contours of a path: its segments, in drawing order.

use vstd::prelude::*;

use crate::path::{
    point_eq, points_taken, points_taken_grows, same_point, GeometryError, Path, PathData, PathVerb,
};
use crate::recording::Point;
use crate::scalar::{num, Scalar, ZERO};

verus! {

/// One segment of a contour.
#[derive(Clone, Copy, Debug, PartialEq, Eq, Structural)]
pub enum SegmentGeometry {
    Line { from: Point, to: Point },
    Quad { from: Point, control: Point, to: Point },
    Cubic { from: Point, control_1: Point, control_2: Point, to: Point },
}

impl SegmentGeometry {
    pub open spec fn start(self) -> Point {
        match self {
            SegmentGeometry::Line { from, .. } => from,
            SegmentGeometry::Quad { from, .. } => from,
            SegmentGeometry::Cubic { from, .. } => from,
        }
    }

    pub open spec fn end(self) -> Point {
        match self {
            SegmentGeometry::Line { to, .. } => to,
            SegmentGeometry::Quad { to, .. } => to,
            SegmentGeometry::Cubic { to, .. } => to,
        }
    }

    /// Where the segment starts.
    pub fn from(self) -> (r: Point)
        ensures
            r == self.start(),
    {
        match self {
            SegmentGeometry::Line { from, .. } => from,
            SegmentGeometry::Quad { from, .. } => from,
            SegmentGeometry::Cubic { from, .. } => from,
        }
    }

    /// The verb of the segment.
    pub open spec fn verb(self) -> PathVerb {
        match self {
            SegmentGeometry::Line { .. } => PathVerb::Line,
            SegmentGeometry::Quad { .. } => PathVerb::Quad,
            SegmentGeometry::Cubic { .. } => PathVerb::Cubic,
        }
    }

    /// The points that the segment adds to a path.
    pub open spec fn tail(self) -> Seq<Point> {
        match self {
            SegmentGeometry::Line { to, .. } => seq![to],
            SegmentGeometry::Quad { control, to, .. } => seq![control, to],
            SegmentGeometry::Cubic { control_1, control_2, to, .. } => seq![
                control_1,
                control_2,
                to,
            ],
        }
    }

    /// Appends the segment to a path under construction.
    pub fn push_verb_and_points(self, verbs: &mut Vec<PathVerb>, points: &mut Vec<Point>)
        ensures
            final(verbs)@ == old(verbs)@.push(self.verb()),
            final(points)@ == old(points)@ + self.tail(),
            self.tail().len() == self.verb().arity(),
    {
        match self {
            SegmentGeometry::Line { to, .. } => {
                verbs.push(PathVerb::Line);
                points.push(to);
            },
            SegmentGeometry::Quad { control, to, .. } => {
                verbs.push(PathVerb::Quad);
                points.push(control);
                points.push(to);
            },
            SegmentGeometry::Cubic { control_1, control_2, to, .. } => {
                verbs.push(PathVerb::Cubic);
                points.push(control_1);
                points.push(control_2);
                points.push(to);
            },
        }
        assert(points@ =~= old(points)@ + self.tail());
    }
}

/// A contour: where it starts, its segments, and whether it was closed.
#[derive(Debug)]
pub struct Contour {
    pub start: Point,
    pub segments: Vec<SegmentGeometry>,
    pub closed: bool,
}

/// A contour by its contents.
#[verifier::ext_equal]
pub struct ContourShape {
    pub start: Point,
    pub segments: Seq<SegmentGeometry>,
    pub closed: bool,
}

impl View for Contour {
    type V = ContourShape;

    open spec fn view(&self) -> ContourShape {
        ContourShape { start: self.start, segments: self.segments@, closed: self.closed }
    }
}

/// The contours met by the first verbs of a path, the one that is being drawn, and the pen.
#[verifier::ext_equal]
pub struct Walk {
    pub done: Seq<ContourShape>,
    pub open: Option<ContourShape>,
    pub pen: Point,
}

pub open spec fn extended(open: Option<ContourShape>, s: SegmentGeometry) -> Option<ContourShape> {
    match open {
        Some(c) => Some(ContourShape { segments: c.segments.push(s), ..c }),
        None => None,
    }
}

/// The state once a path's first `n` verbs are drawn.
pub open spec fn walked(p: Path, n: nat) -> Walk
    decreases n,
{
    let origin = Point { x: num(ZERO), y: num(ZERO) };
    if n == 0 {
        Walk { done: Seq::empty(), open: None, pen: origin }
    } else {
        let w = walked(p, (n - 1) as nat);
        let at = points_taken(p.verbs, (n - 1) as nat) as int;
        match p.verbs[n - 1] {
            PathVerb::Move => Walk {
                done: match w.open {
                    Some(c) => w.done.push(c),
                    None => w.done,
                },
                open: Some(
                    ContourShape { start: p.points[at], segments: Seq::empty(), closed: false },
                ),
                pen: p.points[at],
            },
            PathVerb::Line => Walk {
                open: extended(
                    w.open,
                    SegmentGeometry::Line { from: w.pen, to: p.points[at] },
                ),
                pen: p.points[at],
                ..w
            },
            PathVerb::Quad => Walk {
                open: extended(
                    w.open,
                    SegmentGeometry::Quad {
                        from: w.pen,
                        control: p.points[at],
                        to: p.points[at + 1],
                    },
                ),
                pen: p.points[at + 1],
                ..w
            },
            PathVerb::Cubic => Walk {
                open: extended(
                    w.open,
                    SegmentGeometry::Cubic {
                        from: w.pen,
                        control_1: p.points[at],
                        control_2: p.points[at + 1],
                        to: p.points[at + 2],
                    },
                ),
                pen: p.points[at + 2],
                ..w
            },
            PathVerb::Close => match w.open {
                None => w,
                Some(c) => Walk {
                    open: Some(
                        ContourShape {
                            start: c.start,
                            segments: if point_eq(w.pen, c.start) {
                                c.segments
                            } else {
                                c.segments.push(
                                    SegmentGeometry::Line { from: w.pen, to: c.start },
                                )
                            },
                            closed: true,
                        },
                    ),
                    pen: c.start,
                    ..w
                },
            },
        }
    }
}

/// The contours of a path.
pub open spec fn contours_of(p: Path) -> Seq<ContourShape> {
    let w = walked(p, p.verbs.len());
    match w.open {
        Some(c) => w.done.push(c),
        None => w.done,
    }
}

pub open spec fn shapes(v: Seq<Contour>) -> Seq<ContourShape> {
    v.map_values(|c: Contour| c@)
}

proof fn open_after_move(p: Path, n: nat)
    requires
        p.valid(),
        0 < n <= p.verbs.len(),
    ensures
        walked(p, n).open is Some,
    decreases n,
{
    if n > 1 {
        open_after_move(p, (n - 1) as nat);
    }
}

/// Splits a valid path into contours.
pub fn contours(path: &PathData) -> (r: Result<Vec<Contour>, GeometryError>)
    ensures
        match r {
            Ok(v) => path@.valid() && shapes(v@) == contours_of(path@),
            Err(e) => path@.fault() == Some(e),
        },
{
    match path.validate() {
        Err(e) => {
            return Err(e);
        },
        Ok(()) => {},
    }
    let zero = Scalar::from_bits(ZERO);
    let mut done: Vec<Contour> = Vec::new();
    if path.verbs.len() == 0 {
        assert(shapes(done@) =~= contours_of(path@));
        return Ok(done);
    }
    proof {
        reveal_with_fuel(points_taken, 2);
        points_taken_grows(path@.verbs, 1, path@.verbs.len());
    }
    let first = path.points[0];
    let mut open = Contour { start: first, segments: Vec::new(), closed: false };
    let mut pen = first;
    let mut at: usize = 1;
    let mut i: usize = 1;
    proof {
        reveal_with_fuel(walked, 2);
        assert(shapes(done@) =~= walked(path@, 1).done);
        assert(walked(path@, 1).open->0 =~= open@);
    }
    while i < path.verbs.len()
        invariant
            path@.valid(),
            1 <= i <= path.verbs@.len(),
            at == points_taken(path@.verbs, i as nat),
            pen == walked(path@, i as nat).pen,
            shapes(done@) == walked(path@, i as nat).done,
            walked(path@, i as nat).open == Some(open@),
        decreases path.verbs@.len() - i,
    {
        proof {
            points_taken_grows(path@.verbs, (i + 1) as nat, path@.verbs.len());
        }
        let verb = path.verbs[i];
        let ghost before = open@;
        match verb {
            PathVerb::Move => {
                let next = Contour { start: path.points[at], segments: Vec::new(), closed: false };
                let ghost old_done = done@;
                done.push(open);
                assert(shapes(done@) =~= shapes(old_done).push(before));
                open = next;
                pen = path.points[at];
                assert(open@ =~= walked(path@, (i + 1) as nat).open->0);
            },
            PathVerb::Line => {
                let to = path.points[at];
                open.segments.push(SegmentGeometry::Line { from: pen, to });
                pen = to;
            },
            PathVerb::Quad => {
                let to = path.points[at + 1];
                open.segments.push(
                    SegmentGeometry::Quad { from: pen, control: path.points[at], to },
                );
                pen = to;
            },
            PathVerb::Cubic => {
                let to = path.points[at + 2];
                open.segments.push(
                    SegmentGeometry::Cubic {
                        from: pen,
                        control_1: path.points[at],
                        control_2: path.points[at + 1],
                        to,
                    },
                );
                pen = to;
            },
            PathVerb::Close => {
                if !same_point(&pen, &open.start) {
                    open.segments.push(SegmentGeometry::Line { from: pen, to: open.start });
                }
                open.closed = true;
                pen = open.start;
            },
        }
        at = at + verb.point_count();
        i = i + 1;
    }
    let ghost last = open@;
    let ghost old_done = done@;
    done.push(open);
    assert(shapes(done@) =~= shapes(old_done).push(last));
    Ok(done)
}

/// Whether segment `k` ends where the next one starts.
pub open spec fn joint(segments: Seq<SegmentGeometry>, k: int) -> bool {
    segments[k].end() == segments[k + 1].start()
}

pub open spec fn connected(c: ContourShape) -> bool {
    &&& c.segments.len() > 0 ==> c.segments[0].start() == c.start
    &&& forall|k: int| 0 <= k < c.segments.len() - 1 ==> #[trigger] joint(c.segments, k)
}

/// Whether a close at verb `i` is followed by a move.
pub open spec fn leaves(verbs: Seq<PathVerb>, i: int) -> bool {
    verbs[i] == PathVerb::Close ==> verbs[i + 1] == PathVerb::Move
}

/// Whether every contour that is closed is also left.
pub open spec fn closes_are_final(p: Path) -> bool {
    forall|i: int| 0 <= i < p.verbs.len() - 1 ==> #[trigger] leaves(p.verbs, i)
}

proof fn connected_push(c: ContourShape, s: SegmentGeometry)
    requires
        connected(c),
        s.start() == (if c.segments.len() == 0 { c.start } else { c.segments.last().end() }),
    ensures
        connected(ContourShape { segments: c.segments.push(s), ..c }),
        connected(ContourShape { segments: c.segments.push(s), closed: true, ..c }),
{
    let more = c.segments.push(s);
    assert forall|k: int| 0 <= k < more.len() - 1 implies #[trigger] joint(more, k) by {
        if k < c.segments.len() - 1 {
            assert(joint(c.segments, k));
        }
    }
}

/// Whether the pen stands at the end of the open contour.
spec fn pen_at_end(w: Walk) -> bool {
    match w.open {
        Some(c) => w.pen == (if c.segments.len() == 0 { c.start } else {
            c.segments.last().end()
        }),
        None => true,
    }
}

proof fn walk_connects(p: Path, n: nat)
    requires
        p.valid(),
        n <= p.verbs.len(),
        closes_are_final(p),
    ensures
        forall|k: int| 0 <= k < walked(p, n).done.len() ==> connected(#[trigger] walked(p, n).done[k]),
        walked(p, n).open matches Some(c) ==> connected(c),
        n > 0 && p.verbs[n - 1] != PathVerb::Close ==> pen_at_end(walked(p, n)),
    decreases n,
{
    if n > 0 {
        walk_connects(p, (n - 1) as nat);
        let w = walked(p, (n - 1) as nat);
        let x = walked(p, n);
        if n > 1 {
            open_after_move(p, (n - 1) as nat);
            assert(leaves(p.verbs, n - 2));
        }
        if p.verbs[n - 1] == PathVerb::Move {
            assert forall|k: int| 0 <= k < x.done.len() implies connected(#[trigger] x.done[k]) by {
                if k < w.done.len() {
                    assert(x.done[k] == w.done[k]);
                }
            }
        } else {
            assert(n > 1);
            assert(x.done == w.done);
            let c = w.open->0;
            let d = x.open->0;
            if d.segments.len() > c.segments.len() {
                connected_push(c, d.segments.last());
            } else {
                assert forall|k: int| 0 <= k < d.segments.len() - 1 implies #[trigger] joint(
                    d.segments,
                    k,
                ) by {
                    assert(joint(c.segments, k));
                }
            }
        }
    }
}

/// In a path where every closed contour is left by a move, each segment starts where the one
/// before it ended, and the first one at the start of its contour.
pub proof fn segments_connect(p: Path, k: int)
    requires
        p.valid(),
        closes_are_final(p),
        0 <= k < contours_of(p).len(),
    ensures
        connected(contours_of(p)[k]),
{
    walk_connects(p, p.verbs.len());
    let w = walked(p, p.verbs.len());
    if k < w.done.len() {
        assert(contours_of(p)[k] == w.done[k]);
    }
}

} // verus!
