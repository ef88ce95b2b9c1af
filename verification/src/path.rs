//! Paths: a verb table over a point table, and the operations that keep or rearrange it.

use vstd::prelude::*;

use crate::recording::Point;
use crate::scalar::{num, Scalar, ONE, ZERO};
use crate::text::{decimal, joined, numeral};

verus! {

/// Maximum authored points in one path value.
pub const MAX_PATH_POINTS: usize = 16_384;

/// Maximum points admitted in a per-frame path expression such as morph.
pub const MAX_FRAME_GEOMETRY_POINTS: usize = 2_048;

/// Maximum number of frames embedded in one precomputed geometry trajectory.
pub const MAX_GEOMETRY_TRAJECTORY_FRAMES: usize = 18_000;

/// Subdivision count of a curve when it is flattened or measured.
pub const PATH_CURVE_STEPS: usize = 16;

/// Number of cubic segments in an arc.
pub const PATH_ARC_SEGMENTS: usize = 4;

/// Number of cubic segments in each arc of a sector.
pub const PATH_SECTOR_ARC_SEGMENTS: usize = PATH_ARC_SEGMENTS;

pub const PATH_SECTOR_VERBS: usize = 8 + 2 * PATH_SECTOR_ARC_SEGMENTS;

pub const PATH_SECTOR_POINTS: usize = 15 + 6 * PATH_SECTOR_ARC_SEGMENTS;

/// A full turn in radians.
pub const TAU: u64 = 0x4019_21fb_5444_2d18;

#[derive(Clone, Copy, Debug, PartialEq, Eq, Structural)]
pub enum PathVerb {
    Move,
    Line,
    Quad,
    Cubic,
    Close,
}

impl PathVerb {
    /// Points that the verb takes from the point table.
    pub open spec fn arity(self) -> nat {
        match self {
            PathVerb::Move => 1,
            PathVerb::Line => 1,
            PathVerb::Quad => 2,
            PathVerb::Cubic => 3,
            PathVerb::Close => 0,
        }
    }

    pub fn point_count(self) -> (r: usize)
        ensures
            r == self.arity(),
            r <= 3,
    {
        match self {
            PathVerb::Move => 1,
            PathVerb::Line => 1,
            PathVerb::Quad => 2,
            PathVerb::Cubic => 3,
            PathVerb::Close => 0,
        }
    }
}

/// How a path expression is evaluated.
#[derive(Clone, Copy, Debug, PartialEq, Eq, Structural)]
pub enum GeometryEvalPolicy {
    PrepareCached,
    FrameExpr,
    PrecomputedTrajectory,
}

/// Polygon set operations.
#[derive(Clone, Copy, Debug, PartialEq, Eq, Structural)]
pub enum PathBooleanOp {
    Union,
    Intersection,
    Difference,
    Xor,
}

#[derive(Clone, Copy, Debug, PartialEq, Eq, Structural)]
pub enum GeometryError {
    MissingMove,
    PointCount { expected: usize, actual: usize },
    NonFinite,
    TooComplex,
    TooFewPoints,
    TopologyMismatch,
    BadTrajectory,
    InvalidArc,
    InvalidSector,
    SingleContourRequired,
    ClosedContourRequired,
    DegenerateContour,
    AreaBandMismatch,
}

impl GeometryError {
    pub open spec fn text(self) -> Seq<char> {
        match self {
            GeometryError::MissingMove => "path must begin with move"@,
            GeometryError::PointCount { expected, actual } => "path expects "@ + numeral(
                expected as nat,
            ) + " points but has "@ + numeral(actual as nat),
            GeometryError::NonFinite => "path geometry must be finite"@,
            GeometryError::TooComplex => "path exceeds the geometry budget of 16384 points"@,
            GeometryError::TooFewPoints => "path constructor needs at least two points"@,
            GeometryError::TopologyMismatch => "path morph inputs must have identical verbs and point counts"@,
            GeometryError::BadTrajectory => "path trajectory frames must be non-empty and topology-compatible"@,
            GeometryError::InvalidArc => "arc needs a positive radius and a sweep no larger than one turn"@,
            GeometryError::InvalidSector => "sector needs finite inner/outer radii with 0 <= inner <= outer, a non-negative corner radius, and a sweep of at most one turn"@,
            GeometryError::SingleContourRequired => "geometry operation requires exactly one contour"@,
            GeometryError::ClosedContourRequired => "path boolean requires one closed contour per operand"@,
            GeometryError::DegenerateContour => "geometry contour is degenerate"@,
            GeometryError::AreaBandMismatch => "areaBand needs two open single-contour paths with matching segment structure and strictly increasing X nodes"@,
        }
    }

    /// The error as a sentence.
    pub fn message(self) -> (r: String)
        ensures
            r@ == self.text(),
    {
        match self {
            GeometryError::MissingMove => "path must begin with move".to_owned(),
            GeometryError::PointCount { expected, actual } => {
                let e = decimal(expected as u64);
                let a = decimal(actual as u64);
                joined(
                    joined(joined("path expects ".to_owned(), e.as_str()), " points but has "),
                    a.as_str(),
                )
            },
            GeometryError::NonFinite => "path geometry must be finite".to_owned(),
            GeometryError::TooComplex =>
                "path exceeds the geometry budget of 16384 points".to_owned(),
            GeometryError::TooFewPoints => "path constructor needs at least two points".to_owned(),
            GeometryError::TopologyMismatch =>
                "path morph inputs must have identical verbs and point counts".to_owned(),
            GeometryError::BadTrajectory =>
                "path trajectory frames must be non-empty and topology-compatible".to_owned(),
            GeometryError::InvalidArc =>
                "arc needs a positive radius and a sweep no larger than one turn".to_owned(),
            GeometryError::InvalidSector =>
                "sector needs finite inner/outer radii with 0 <= inner <= outer, a non-negative corner radius, and a sweep of at most one turn".to_owned(),
            GeometryError::SingleContourRequired =>
                "geometry operation requires exactly one contour".to_owned(),
            GeometryError::ClosedContourRequired =>
                "path boolean requires one closed contour per operand".to_owned(),
            GeometryError::DegenerateContour => "geometry contour is degenerate".to_owned(),
            GeometryError::AreaBandMismatch =>
                "areaBand needs two open single-contour paths with matching segment structure and strictly increasing X nodes".to_owned(),
        }
    }
}

/// A path: verbs, and the points that they take in order.
#[derive(Debug, PartialEq, Eq)]
pub struct PathData {
    pub verbs: Vec<PathVerb>,
    pub points: Vec<Point>,
}

/// A path by its contents.
#[verifier::ext_equal]
pub struct Path {
    pub verbs: Seq<PathVerb>,
    pub points: Seq<Point>,
}

impl View for PathData {
    type V = Path;

    open spec fn view(&self) -> Path {
        Path { verbs: self.verbs@, points: self.points@ }
    }
}

/// Points that the first `n` verbs take.
pub open spec fn points_taken(verbs: Seq<PathVerb>, n: nat) -> nat
    decreases n,
{
    if n == 0 {
        0
    } else {
        points_taken(verbs, (n - 1) as nat) + verbs[n - 1].arity()
    }
}

pub open spec fn finite_point(p: Point) -> bool {
    p.x.finite() && p.y.finite()
}

pub open spec fn all_finite(points: Seq<Point>) -> bool {
    forall|i: int| 0 <= i < points.len() ==> finite_point(#[trigger] points[i])
}

impl Path {
    /// What is wrong with a path, if anything. A path that needs more points than can be counted
    /// is too complex.
    pub open spec fn fault(self) -> Option<GeometryError> {
        let expected = points_taken(self.verbs, self.verbs.len());
        if self.verbs.len() == 0 {
            if self.points.len() == 0 {
                None
            } else {
                Some(
                    GeometryError::PointCount { expected: 0, actual: self.points.len() as usize },
                )
            }
        } else if expected > usize::MAX {
            Some(GeometryError::TooComplex)
        } else if expected != self.points.len() {
            Some(
                GeometryError::PointCount {
                    expected: expected as usize,
                    actual: self.points.len() as usize,
                },
            )
        } else if self.points.len() > MAX_PATH_POINTS {
            Some(GeometryError::TooComplex)
        } else if !all_finite(self.points) {
            Some(GeometryError::NonFinite)
        } else if self.verbs[0] != PathVerb::Move {
            Some(GeometryError::MissingMove)
        } else {
            None
        }
    }

    pub open spec fn valid(self) -> bool {
        self.fault() is None
    }

    pub open spec fn same_topology(self, other: Path) -> bool {
        self.verbs == other.verbs && self.points.len() == other.points.len()
    }

    /// A single open contour of at least two points.
    pub open spec fn is_open_contour(self) -> bool {
        &&& self.verbs.len() > 0 && self.verbs[0] == PathVerb::Move
        &&& forall|i: int| 0 < i < self.verbs.len() ==> (#[trigger] self.verbs[i]) != PathVerb::Move
        &&& forall|i: int| 0 <= i < self.verbs.len() ==> (#[trigger] self.verbs[i])
            != PathVerb::Close
        &&& self.points.len() >= 2
    }
}

/// Having the same topology is an equivalence.
pub proof fn topology_is_an_equivalence(a: Path, b: Path, c: Path)
    ensures
        a.same_topology(a),
        a.same_topology(b) == b.same_topology(a),
        a.same_topology(b) && b.same_topology(c) ==> a.same_topology(c),
{
}

pub proof fn points_taken_grows(verbs: Seq<PathVerb>, m: nat, n: nat)
    requires
        m <= n <= verbs.len(),
    ensures
        points_taken(verbs, m) <= points_taken(verbs, n),
    decreases n - m,
{
    if m < n {
        points_taken_grows(verbs, m, (n - 1) as nat);
    }
}

proof fn points_taken_prefix(a: Seq<PathVerb>, b: Seq<PathVerb>, n: nat)
    requires
        n <= a.len(),
        n <= b.len(),
        forall|i: int| 0 <= i < n ==> a[i] == b[i],
    ensures
        points_taken(a, n) == points_taken(b, n),
    decreases n,
{
    if n > 0 {
        points_taken_prefix(a, b, (n - 1) as nat);
    }
}

/// The verbs of a later stretch take their points after those of an earlier one.
pub proof fn points_taken_append(a: Seq<PathVerb>, b: Seq<PathVerb>)
    ensures
        points_taken(a + b, (a + b).len()) == points_taken(a, a.len()) + points_taken(b, b.len()),
    decreases b.len(),
{
    if b.len() == 0 {
        assert(a + b =~= a);
    } else {
        let c = b.drop_last();
        points_taken_append(a, c);
        assert((a + b).len() == (a + c).len() + 1);
        points_taken_prefix(a + b, a + c, (a + c).len());
        points_taken_prefix(b, c, c.len());
    }
}

pub fn same_verbs(a: &Vec<PathVerb>, b: &Vec<PathVerb>) -> (r: bool)
    ensures
        r == (a@ == b@),
{
    if a.len() != b.len() {
        return false;
    }
    let mut i: usize = 0;
    while i < a.len()
        invariant
            i <= a@.len() == b@.len(),
            forall|k: int| 0 <= k < i ==> a@[k] == b@[k],
        decreases a@.len() - i,
    {
        if a[i] != b[i] {
            return false;
        }
        i = i + 1;
    }
    assert(a@ =~= b@);
    true
}

pub open spec fn point_eq(a: Point, b: Point) -> bool {
    a.x.eq_spec(b.x) && a.y.eq_spec(b.y)
}

/// Numeric equality of two points.
pub fn same_point(a: &Point, b: &Point) -> (r: bool)
    ensures
        r == point_eq(*a, *b),
{
    a.x.eq_value(b.x) && a.y.eq_value(b.y)
}

pub fn copy_verbs(v: &Vec<PathVerb>) -> (r: Vec<PathVerb>)
    ensures
        r@ == v@,
{
    let mut out: Vec<PathVerb> = Vec::new();
    let mut i: usize = 0;
    while i < v.len()
        invariant
            i <= v@.len(),
            out@ == v@.take(i as int),
        decreases v@.len() - i,
    {
        out.push(v[i]);
        i = i + 1;
        assert(out@ =~= v@.take(i as int));
    }
    assert(v@.take(v@.len() as int) =~= v@);
    out
}

pub fn copy_points(v: &Vec<Point>) -> (r: Vec<Point>)
    ensures
        r@ == v@,
{
    let mut out: Vec<Point> = Vec::new();
    let mut i: usize = 0;
    while i < v.len()
        invariant
            i <= v@.len(),
            out@ == v@.take(i as int),
        decreases v@.len() - i,
    {
        out.push(v[i]);
        i = i + 1;
        assert(out@ =~= v@.take(i as int));
    }
    assert(v@.take(v@.len() as int) =~= v@);
    out
}

/// A path result by its contents.
pub open spec fn path_seen(r: Result<PathData, GeometryError>) -> Result<Path, GeometryError> {
    match r {
        Ok(p) => Ok(p@),
        Err(e) => Err(e),
    }
}

/// A path, or what is wrong with it.
pub open spec fn checked(p: Path) -> Result<Path, GeometryError> {
    match p.fault() {
        None => Ok(p),
        Some(e) => Err(e),
    }
}

/// Whether verbs and a number of points fit together, whatever the points are.
pub open spec fn fitting(verbs: Seq<PathVerb>, points: nat) -> bool {
    &&& verbs.len() == 0 ==> points == 0
    &&& verbs.len() > 0 ==> verbs[0] == PathVerb::Move && points_taken(verbs, verbs.len()) == points
        && points <= MAX_PATH_POINTS
}

fn count_points(verbs: &Vec<PathVerb>) -> (r: Option<usize>)
    ensures
        match r {
            Some(n) => n == points_taken(verbs@, verbs@.len()),
            None => points_taken(verbs@, verbs@.len()) > usize::MAX,
        },
{
    let mut total: usize = 0;
    let mut i: usize = 0;
    while i < verbs.len()
        invariant
            i <= verbs@.len(),
            total == points_taken(verbs@, i as nat),
        decreases verbs@.len() - i,
    {
        let n: usize = verbs[i].point_count();
        if total > usize::MAX - n {
            proof {
                points_taken_grows(verbs@, (i + 1) as nat, verbs@.len());
            }
            return None;
        }
        total = total + n;
        i = i + 1;
    }
    Some(total)
}

/// Whether a verb table can carry a number of points.
pub fn topology_fits(verbs: &Vec<PathVerb>, points: usize) -> (r: bool)
    ensures
        r == fitting(verbs@, points as nat),
{
    if verbs.len() == 0 {
        return points == 0;
    }
    match count_points(verbs) {
        None => false,
        Some(n) => n == points && points <= MAX_PATH_POINTS && verbs[0] == PathVerb::Move,
    }
}

fn points_are_finite(points: &Vec<Point>) -> (r: bool)
    ensures
        r == all_finite(points@),
{
    let mut i: usize = 0;
    while i < points.len()
        invariant
            i <= points@.len(),
            forall|k: int| 0 <= k < i ==> finite_point(#[trigger] points@[k]),
        decreases points@.len() - i,
    {
        if !points[i].x.is_finite() || !points[i].y.is_finite() {
            assert(!finite_point(points@[i as int]));
            return false;
        }
        i = i + 1;
    }
    true
}

impl PathData {
    /// A path whose verbs and points fit together.
    pub fn new(verbs: Vec<PathVerb>, points: Vec<Point>) -> (r: Result<PathData, GeometryError>)
        ensures
            path_seen(r) == checked(Path { verbs: verbs@, points: points@ }),
    {
        let value = PathData { verbs, points };
        match value.validate() {
            Ok(()) => Ok(value),
            Err(e) => Err(e),
        }
    }

    pub fn validate(&self) -> (r: Result<(), GeometryError>)
        ensures
            match r {
                Ok(()) => self@.valid(),
                Err(e) => self@.fault() == Some(e),
            },
    {
        if self.verbs.len() == 0 {
            return if self.points.len() == 0 {
                Ok(())
            } else {
                Err(GeometryError::PointCount { expected: 0, actual: self.points.len() })
            };
        }
        let expected: usize = match count_points(&self.verbs) {
            None => {
                return Err(GeometryError::TooComplex);
            },
            Some(n) => n,
        };
        if expected != self.points.len() {
            return Err(GeometryError::PointCount { expected, actual: self.points.len() });
        }
        if self.points.len() > MAX_PATH_POINTS {
            return Err(GeometryError::TooComplex);
        }
        if !points_are_finite(&self.points) {
            return Err(GeometryError::NonFinite);
        }
        if self.verbs[0] != PathVerb::Move {
            return Err(GeometryError::MissingMove);
        }
        Ok(())
    }

    pub fn has_same_topology(&self, other: &PathData) -> (r: bool)
        ensures
            r == self@.same_topology(other@),
    {
        same_verbs(&self.verbs, &other.verbs) && self.points.len() == other.points.len()
    }

    pub fn duplicate(&self) -> (r: PathData)
        ensures
            r@ == self@,
    {
        PathData { verbs: copy_verbs(&self.verbs), points: copy_points(&self.points) }
    }

    /// Blends two paths of one topology. `blend` is the host's linear interpolation.
    pub fn morph<F: Fn(Scalar, Scalar, Scalar) -> Scalar>(
        &self,
        other: &PathData,
        progress: Scalar,
        blend: F,
    ) -> (r: Result<PathData, GeometryError>)
        requires
            forall|a: Scalar, b: Scalar, t: Scalar| call_requires(blend, (a, b, t)),
        ensures
            morphs(blend, self@, other@, progress, path_seen(r)),
    {
        match self.validate() {
            Err(e) => {
                return Err(e);
            },
            Ok(()) => {},
        }
        match other.validate() {
            Err(e) => {
                return Err(e);
            },
            Ok(()) => {},
        }
        if !self.has_same_topology(other) {
            return Err(GeometryError::TopologyMismatch);
        }
        if !progress.is_finite() {
            return Err(GeometryError::NonFinite);
        }
        let t = progress.clamp(Scalar::from_bits(ZERO), Scalar::from_bits(ONE));
        let mut points: Vec<Point> = Vec::new();
        let mut i: usize = 0;
        while i < self.points.len()
            invariant
                i <= self.points@.len() == other.points@.len(),
                forall|a: Scalar, b: Scalar, t: Scalar| call_requires(blend, (a, b, t)),
                points@.len() == i,
                forall|k: int|
                    0 <= k < i ==> blended_point(
                        blend,
                        self.points@[k],
                        other.points@[k],
                        t,
                        #[trigger] points@[k],
                    ),
            decreases self.points@.len() - i,
        {
            let a = self.points[i];
            let b = other.points[i];
            let x = blend(a.x, b.x, t);
            let y = blend(a.y, b.y, t);
            points.push(Point { x, y });
            i = i + 1;
        }
        let ghost out = points@;
        assert(t == progress.clamp_spec(num(ZERO), num(ONE)));
        assert(blended(blend, self@.points, other@.points, t, out)) by {
            assert forall|k: int| 0 <= k < out.len() implies blended_point(
                blend,
                self@.points[k],
                other@.points[k],
                t,
                #[trigger] out[k],
            ) by {}
        }
        let result = PathData::new(copy_verbs(&self.verbs), points);
        assert(path_seen(result) == checked(Path { verbs: self@.verbs, points: out }));
        result
    }

    /// A polyline through at least two points.
    pub fn line(points: Vec<Point>) -> (r: Result<PathData, GeometryError>)
        ensures
            path_seen(r) == (if points@.len() < 2 {
                Err(GeometryError::TooFewPoints)
            } else {
                checked(Path { verbs: line_verbs(points@.len()), points: points@ })
            }),
    {
        if points.len() < 2 {
            return Err(GeometryError::TooFewPoints);
        }
        let mut verbs: Vec<PathVerb> = Vec::new();
        verbs.push(PathVerb::Move);
        let n: usize = points.len();
        let mut i: usize = 1;
        assert(verbs@ =~= line_verbs(1));
        while i < n
            invariant
                1 <= i <= n,
                verbs@ == line_verbs(i as nat),
            decreases n - i,
        {
            verbs.push(PathVerb::Line);
            i = i + 1;
            assert(verbs@ =~= line_verbs(i as nat));
        }
        PathData::new(verbs, points)
    }

    /// One cubic segment.
    pub fn cubic(from: Point, control_1: Point, control_2: Point, to: Point) -> (r: Result<
        PathData,
        GeometryError,
    >)
        ensures
            path_seen(r) == checked(
                Path {
                    verbs: seq![PathVerb::Move, PathVerb::Cubic],
                    points: seq![from, control_1, control_2, to],
                },
            ),
    {
        let mut verbs: Vec<PathVerb> = Vec::new();
        verbs.push(PathVerb::Move);
        verbs.push(PathVerb::Cubic);
        let mut points: Vec<Point> = Vec::new();
        points.push(from);
        points.push(control_1);
        points.push(control_2);
        points.push(to);
        assert(verbs@ =~= seq![PathVerb::Move, PathVerb::Cubic]);
        assert(points@ =~= seq![from, control_1, control_2, to]);
        PathData::new(verbs, points)
    }
}

pub open spec fn blended_point<F: Fn(Scalar, Scalar, Scalar) -> Scalar>(
    blend: F,
    a: Point,
    b: Point,
    t: Scalar,
    out: Point,
) -> bool {
    call_ensures(blend, (a.x, b.x, t), out.x) && call_ensures(blend, (a.y, b.y, t), out.y)
}

/// Whether `out` is the blend of two point tables, point by point.
pub open spec fn blended<F: Fn(Scalar, Scalar, Scalar) -> Scalar>(
    blend: F,
    a: Seq<Point>,
    b: Seq<Point>,
    t: Scalar,
    out: Seq<Point>,
) -> bool {
    out.len() == a.len() && forall|k: int|
        0 <= k < out.len() ==> blended_point(blend, a[k], b[k], t, #[trigger] out[k])
}

/// Whether `r` is the blend of two paths: progress is kept within 0..=1, and every point is blended.
pub open spec fn morphs<F: Fn(Scalar, Scalar, Scalar) -> Scalar>(
    blend: F,
    a: Path,
    b: Path,
    progress: Scalar,
    r: Result<Path, GeometryError>,
) -> bool {
    match morph_fault(a, b, progress) {
        Some(e) => r == Err::<Path, GeometryError>(e),
        None => exists|points: Seq<Point>| #[trigger]
            blended(blend, a.points, b.points, progress.clamp_spec(num(ZERO), num(ONE)), points)
                && r == checked(Path { verbs: a.verbs, points }),
    }
}

/// Progress beyond the ends blends as progress at the ends, and a blend has the verbs of both paths
/// and as many points.
pub proof fn morphing_keeps_topology<F: Fn(Scalar, Scalar, Scalar) -> Scalar>(
    blend: F,
    a: Path,
    b: Path,
    progress: Scalar,
    r: Result<Path, GeometryError>,
)
    requires
        progress.finite(),
        morphs(blend, a, b, progress, r),
    ensures
        morphs(blend, a, b, progress.clamp_spec(num(ZERO), num(ONE)), r),
        r matches Ok(p) ==> p.same_topology(a) && p.same_topology(b),
{
    let clamped = progress.clamp_spec(num(ZERO), num(ONE));
    clamping_twice(progress);
    match morph_fault(a, b, progress) {
        Some(e) => {},
        None => {
            let points = choose|points: Seq<Point>| #[trigger]
                blended(blend, a.points, b.points, clamped, points) && r == checked(
                    Path { verbs: a.verbs, points },
                );
            assert(blended(
                blend,
                a.points,
                b.points,
                clamped.clamp_spec(num(ZERO), num(ONE)),
                points,
            ));
        },
    }
}

proof fn clamping_twice(x: Scalar)
    requires
        x.finite(),
    ensures
        x.clamp_spec(num(ZERO), num(ONE)).finite(),
        x.clamp_spec(num(ZERO), num(ONE)).clamp_spec(num(ZERO), num(ONE)) == x.clamp_spec(
            num(ZERO),
            num(ONE),
        ),
{
}

/// Why two paths cannot be blended, if they cannot.
pub open spec fn morph_fault(a: Path, b: Path, progress: Scalar) -> Option<GeometryError> {
    if a.fault() is Some {
        a.fault()
    } else if b.fault() is Some {
        b.fault()
    } else if !a.same_topology(b) {
        Some(GeometryError::TopologyMismatch)
    } else if !progress.finite() {
        Some(GeometryError::NonFinite)
    } else {
        None
    }
}

/// The verbs of a polyline.
pub open spec fn line_verbs(n: nat) -> Seq<PathVerb> {
    Seq::new(n, |i: int| if i == 0 { PathVerb::Move } else { PathVerb::Line })
}

/// The verb table of an arc.
pub open spec fn arc_verbs() -> Seq<PathVerb> {
    seq![PathVerb::Move, PathVerb::Cubic, PathVerb::Cubic, PathVerb::Cubic, PathVerb::Cubic]
}

/// The verb table of a sector: inner-start corner, start edge, outer-start corner, outer arc,
/// outer-end corner, end edge, inner-end corner, inner arc, close.
pub open spec fn sector_verbs() -> Seq<PathVerb> {
    seq![
        PathVerb::Move,
        PathVerb::Cubic,
        PathVerb::Line,
        PathVerb::Cubic,
        PathVerb::Cubic,
        PathVerb::Cubic,
        PathVerb::Cubic,
        PathVerb::Cubic,
        PathVerb::Cubic,
        PathVerb::Line,
        PathVerb::Cubic,
        PathVerb::Cubic,
        PathVerb::Cubic,
        PathVerb::Cubic,
        PathVerb::Cubic,
        PathVerb::Close,
    ]
}

/// A sector keeps one topology for all parameters.
pub proof fn sector_topology_is_frozen()
    ensures
        sector_verbs().len() == PATH_SECTOR_VERBS,
        points_taken(sector_verbs(), sector_verbs().len()) == PATH_SECTOR_POINTS,
        arc_verbs().len() == PATH_ARC_SEGMENTS + 1,
        points_taken(arc_verbs(), arc_verbs().len()) == 1 + PATH_ARC_SEGMENTS * 3,
{
    reveal_with_fuel(points_taken, 17);
}

/// Whether an arc's parameters are acceptable. `sweep` is the host's difference of the angles.
pub open spec fn arc_fault(
    center: Point,
    radius: Scalar,
    start: Scalar,
    end: Scalar,
    sweep: Scalar,
) -> Option<GeometryError> {
    if !finite_point(center) || !radius.finite() || radius.le_spec(num(ZERO)) || !start.finite()
        || !end.finite() {
        Some(GeometryError::NonFinite)
    } else if num(TAU).lt_spec(sweep.abs_spec()) {
        Some(GeometryError::InvalidArc)
    } else {
        None
    }
}

/// Whether a sector's parameters are acceptable. `sweep` is the host's difference of the angles.
pub open spec fn sector_fault(
    center: Point,
    inner: Scalar,
    outer: Scalar,
    start: Scalar,
    end: Scalar,
    corner: Scalar,
    sweep: Scalar,
) -> Option<GeometryError> {
    if !finite_point(center) || !inner.finite() || !outer.finite() || !start.finite()
        || !end.finite() || !corner.finite() || inner.lt_spec(num(ZERO)) || outer.lt_spec(inner)
        || corner.lt_spec(num(ZERO)) || num(TAU).lt_spec(sweep.abs_spec()) {
        Some(GeometryError::InvalidSector)
    } else {
        None
    }
}

/// The number of elements or the points missing to fill a frozen table.
fn repeat_cubic(verbs: &mut Vec<PathVerb>, n: usize)
    ensures
        final(verbs)@ == old(verbs)@ + Seq::new(n as nat, |i: int| PathVerb::Cubic),
{
    let mut i: usize = 0;
    assert(verbs@ + Seq::new(0, |i: int| PathVerb::Cubic) =~= verbs@);
    while i < n
        invariant
            i <= n,
            verbs@ == old(verbs)@ + Seq::new(i as nat, |k: int| PathVerb::Cubic),
        decreases n - i,
    {
        verbs.push(PathVerb::Cubic);
        i = i + 1;
        assert(verbs@ =~= old(verbs)@ + Seq::new(i as nat, |k: int| PathVerb::Cubic));
    }
}

impl PathData {
    /// Whether an arc can be built. `sweep` is the host's difference of the angles.
    pub fn check_arc(
        center: Point,
        radius: Scalar,
        start: Scalar,
        end: Scalar,
        sweep: Scalar,
    ) -> (r: Result<(), GeometryError>)
        ensures
            match r {
                Ok(()) => arc_fault(center, radius, start, end, sweep) is None,
                Err(e) => arc_fault(center, radius, start, end, sweep) == Some(e),
            },
    {
        if !center.x.is_finite() || !center.y.is_finite() || !radius.is_finite() || radius.le(
            Scalar::from_bits(ZERO),
        ) || !start.is_finite() || !end.is_finite() {
            return Err(GeometryError::NonFinite);
        }
        if Scalar::from_bits(TAU).lt(sweep.abs()) {
            return Err(GeometryError::InvalidArc);
        }
        Ok(())
    }

    /// An arc of fixed topology through the points that the host computed for it.
    pub fn arc(
        center: Point,
        radius: Scalar,
        start: Scalar,
        end: Scalar,
        sweep: Scalar,
        points: Vec<Point>,
    ) -> (r: Result<PathData, GeometryError>)
        ensures
            path_seen(r) == match arc_fault(center, radius, start, end, sweep) {
                Some(e) => Err(e),
                None => checked(Path { verbs: arc_verbs(), points: points@ }),
            },
    {
        match PathData::check_arc(center, radius, start, end, sweep) {
            Err(e) => {
                return Err(e);
            },
            Ok(()) => {},
        }
        let mut verbs: Vec<PathVerb> = Vec::new();
        verbs.push(PathVerb::Move);
        repeat_cubic(&mut verbs, PATH_ARC_SEGMENTS);
        assert(verbs@ =~= arc_verbs());
        PathData::new(verbs, points)
    }

    /// Whether a sector can be built. `sweep` is the host's difference of the angles.
    pub fn check_sector(
        center: Point,
        inner: Scalar,
        outer: Scalar,
        start: Scalar,
        end: Scalar,
        corner_radius: Scalar,
        sweep: Scalar,
    ) -> (r: Result<(), GeometryError>)
        ensures
            match r {
                Ok(()) => sector_fault(center, inner, outer, start, end, corner_radius, sweep)
                    is None,
                Err(e) => sector_fault(center, inner, outer, start, end, corner_radius, sweep)
                    == Some(e),
            },
    {
        let zero = Scalar::from_bits(ZERO);
        if !center.x.is_finite() || !center.y.is_finite() || !inner.is_finite()
            || !outer.is_finite() || !start.is_finite() || !end.is_finite()
            || !corner_radius.is_finite() || inner.lt(zero) || outer.lt(inner) || corner_radius.lt(
            zero,
        ) || Scalar::from_bits(TAU).lt(sweep.abs()) {
            return Err(GeometryError::InvalidSector);
        }
        Ok(())
    }

    /// A filled annular sector of frozen topology through the points that the host computed.
    pub fn sector(
        center: Point,
        inner: Scalar,
        outer: Scalar,
        start: Scalar,
        end: Scalar,
        corner_radius: Scalar,
        sweep: Scalar,
        points: Vec<Point>,
    ) -> (r: Result<PathData, GeometryError>)
        ensures
            path_seen(r) == match sector_fault(
                center,
                inner,
                outer,
                start,
                end,
                corner_radius,
                sweep,
            ) {
                Some(e) => Err(e),
                None => checked(Path { verbs: sector_verbs(), points: points@ }),
            },
    {
        match PathData::check_sector(center, inner, outer, start, end, corner_radius, sweep) {
            Err(e) => {
                return Err(e);
            },
            Ok(()) => {},
        }
        let mut verbs: Vec<PathVerb> = Vec::new();
        verbs.push(PathVerb::Move);
        repeat_cubic(&mut verbs, 1);
        verbs.push(PathVerb::Line);
        repeat_cubic(&mut verbs, 2 + PATH_SECTOR_ARC_SEGMENTS);
        verbs.push(PathVerb::Line);
        repeat_cubic(&mut verbs, 1 + PATH_SECTOR_ARC_SEGMENTS);
        verbs.push(PathVerb::Close);
        assert(verbs@ =~= sector_verbs());
        PathData::new(verbs, points)
    }
}

/// What an area between an open contour and a horizontal baseline looks like.
pub open spec fn area_path(p: Path, baseline: Scalar) -> Path {
    let first = p.points[0];
    let last = p.points.last();
    Path {
        verbs: seq![PathVerb::Move, PathVerb::Line] + p.verbs.skip(1) + seq![
            PathVerb::Line,
            PathVerb::Close,
        ],
        points: seq![Point { x: first.x, y: baseline }] + p.points + seq![
            Point { x: last.x, y: baseline },
        ],
    }
}

/// The on-curve points at which the first `n` verbs end.
pub open spec fn curve_nodes(p: Path, n: nat) -> Seq<Point>
    decreases n,
{
    if n == 0 {
        Seq::empty()
    } else {
        curve_nodes(p, (n - 1) as nat).push(p.points[points_taken(p.verbs, n) - 1])
    }
}

pub open spec fn increasing_x(nodes: Seq<Point>) -> bool {
    forall|i: int|
        0 <= i < nodes.len() - 1 ==> (#[trigger] nodes[i]).x.finite() && nodes[i + 1].x.finite()
            && nodes[i].x.lt_spec(nodes[i + 1].x)
}

/// The last `n` segments of an open contour, walked backwards: each ends where the segment before
/// it ended, and its controls change places.
pub open spec fn reversed_points(p: Path, n: nat) -> Seq<Point>
    decreases n,
{
    if n == 0 {
        Seq::empty()
    } else {
        let at = p.verbs.len() - n;
        let from = points_taken(p.verbs, at as nat) as int;
        let dest = p.points[from - 1];
        let before = reversed_points(p, (n - 1) as nat);
        match p.verbs[at] {
            PathVerb::Quad => before + seq![p.points[from], dest],
            PathVerb::Cubic => before + seq![p.points[from + 1], p.points[from], dest],
            _ => before + seq![dest],
        }
    }
}

/// Whether two open contours can bound a band: the same segments, over the same strictly
/// increasing x positions.
pub open spec fn band_aligned(upper: Path, lower: Path) -> bool {
    let u = curve_nodes(upper, upper.verbs.len());
    let l = curve_nodes(lower, lower.verbs.len());
    &&& upper.verbs == lower.verbs
    &&& increasing_x(u)
    &&& increasing_x(l)
    &&& forall|i: int| 0 <= i < u.len() ==> (#[trigger] u[i]).x.eq_spec(l[i].x)
}

/// The band between two open contours: the upper one forward, the lower one back.
pub open spec fn band_path(upper: Path, lower: Path) -> Path {
    Path {
        verbs: upper.verbs.push(PathVerb::Line) + lower.verbs.skip(1).reverse() + seq![
            PathVerb::Close,
        ],
        points: upper.points.push(lower.points.last()) + reversed_points(
            lower,
            (lower.verbs.len() - 1) as nat,
        ),
    }
}

/// What keeps a path from being an open contour, if anything.
pub open spec fn open_fault(p: Path) -> Option<GeometryError> {
    if p.fault() is Some {
        p.fault()
    } else if !p.is_open_contour() {
        Some(GeometryError::SingleContourRequired)
    } else {
        None
    }
}

fn check_open(path: &PathData) -> (r: Result<(), GeometryError>)
    ensures
        match r {
            Ok(()) => open_fault(path@) is None,
            Err(e) => open_fault(path@) == Some(e),
        },
{
    match path.validate() {
        Err(e) => {
            return Err(e);
        },
        Ok(()) => {},
    }
    if path.verbs.len() == 0 || path.points.len() < 2 || path.verbs[0] != PathVerb::Move {
        return Err(GeometryError::SingleContourRequired);
    }
    let mut i: usize = 1;
    while i < path.verbs.len()
        invariant
            path@.fault() is None,
            1 <= i <= path.verbs@.len(),
            path.verbs@[0] == PathVerb::Move,
            path.points@.len() >= 2,
            forall|k: int| 0 < k < i ==> (#[trigger] path@.verbs[k]) != PathVerb::Move,
            forall|k: int| 0 <= k < i ==> (#[trigger] path@.verbs[k]) != PathVerb::Close,
        decreases path.verbs@.len() - i,
    {
        if path.verbs[i] == PathVerb::Move || path.verbs[i] == PathVerb::Close {
            assert(path@.verbs[i as int] == PathVerb::Move || path@.verbs[i as int]
                == PathVerb::Close);
            return Err(GeometryError::SingleContourRequired);
        }
        i = i + 1;
    }
    Ok(())
}

fn nodes_of(path: &PathData) -> (r: Vec<Point>)
    requires
        open_fault(path@) is None,
    ensures
        r@ == curve_nodes(path@, path@.verbs.len()),
{
    let mut nodes: Vec<Point> = Vec::new();
    let mut taken: usize = 0;
    let mut i: usize = 0;
    while i < path.verbs.len()
        invariant
            open_fault(path@) is None,
            i <= path.verbs@.len(),
            taken == points_taken(path@.verbs, i as nat),
            nodes@ == curve_nodes(path@, i as nat),
        decreases path.verbs@.len() - i,
    {
        proof {
            points_taken_grows(path@.verbs, (i + 1) as nat, path@.verbs.len());
            assert(path@.verbs[i as int] != PathVerb::Close);
        }
        taken = taken + path.verbs[i].point_count();
        nodes.push(path.points[taken - 1]);
        i = i + 1;
    }
    nodes
}

fn x_increases(nodes: &Vec<Point>) -> (r: bool)
    ensures
        r == increasing_x(nodes@),
{
    let mut i: usize = 1;
    while i < nodes.len()
        invariant
            1 <= i,
            i <= nodes@.len() || nodes@.len() == 0,
            forall|k: int|
                0 <= k < i - 1 && k < nodes@.len() - 1 ==> (#[trigger] nodes@[k]).x.finite()
                    && nodes@[k + 1].x.finite() && nodes@[k].x.lt_spec(nodes@[k + 1].x),
        decreases nodes@.len() - i,
    {
        if !(nodes[i - 1].x.is_finite() && nodes[i].x.is_finite() && nodes[i - 1].x.lt(nodes[i].x)) {
            assert(!(nodes@[i - 1].x.finite() && nodes@[i - 1 + 1].x.finite()
                && nodes@[i - 1].x.lt_spec(nodes@[i - 1 + 1].x)));
            return false;
        }
        i = i + 1;
    }
    true
}

fn reversed_of(path: &PathData) -> (r: Vec<Point>)
    requires
        open_fault(path@) is None,
    ensures
        r@ == reversed_points(path@, (path@.verbs.len() - 1) as nat),
{
    let mut out: Vec<Point> = Vec::new();
    let count: usize = path.verbs.len();
    let mut taken: usize = path.points.len();
    let mut n: usize = 0;
    while n < count - 1
        invariant
            open_fault(path@) is None,
            count == path.verbs@.len(),
            n <= count - 1,
            taken == points_taken(path@.verbs, (count - n) as nat),
            taken <= path.points@.len(),
            out@ == reversed_points(path@, n as nat),
        decreases count - n,
    {
        let at: usize = count - n - 1;
        let verb = path.verbs[at];
        proof {
            assert(path@.verbs[at as int] != PathVerb::Move && path@.verbs[at as int]
                != PathVerb::Close);
            points_taken_grows(path@.verbs, 1, at as nat);
            reveal_with_fuel(points_taken, 2);
            assert(points_taken(path@.verbs, 1) == 1);
        }
        let from: usize = taken - verb.point_count();
        let ghost before = out@;
        match verb {
            PathVerb::Quad => {
                out.push(path.points[from]);
            },
            PathVerb::Cubic => {
                out.push(path.points[from + 1]);
                out.push(path.points[from]);
            },
            _ => {},
        }
        out.push(path.points[from - 1]);
        taken = from;
        n = n + 1;
        assert(out@ =~= reversed_points(path@, n as nat));
    }
    out
}

impl PathData {
    /// Closes an open contour against a horizontal baseline, keeping its curve verbs.
    pub fn area(&self, baseline_y: Scalar) -> (r: Result<PathData, GeometryError>)
        ensures
            path_seen(r) == (if !baseline_y.finite() {
                Err(GeometryError::NonFinite)
            } else {
                match open_fault(self@) {
                    Some(e) => Err(e),
                    None => checked(area_path(self@, baseline_y)),
                }
            }),
    {
        if !baseline_y.is_finite() {
            return Err(GeometryError::NonFinite);
        }
        match check_open(self) {
            Err(e) => {
                return Err(e);
            },
            Ok(()) => {},
        }
        let n: usize = self.points.len();
        let mut verbs: Vec<PathVerb> = Vec::new();
        verbs.push(PathVerb::Move);
        verbs.push(PathVerb::Line);
        let mut i: usize = 1;
        assert(verbs@ =~= seq![PathVerb::Move, PathVerb::Line] + self.verbs@.subrange(1, 1));
        while i < self.verbs.len()
            invariant
                1 <= i <= self.verbs@.len(),
                verbs@ == seq![PathVerb::Move, PathVerb::Line] + self.verbs@.subrange(1, i as int),
            decreases self.verbs@.len() - i,
        {
            verbs.push(self.verbs[i]);
            i = i + 1;
            assert(verbs@ =~= seq![PathVerb::Move, PathVerb::Line] + self.verbs@.subrange(
                1,
                i as int,
            ));
        }
        verbs.push(PathVerb::Line);
        verbs.push(PathVerb::Close);
        let mut points: Vec<Point> = Vec::new();
        points.push(Point { x: self.points[0].x, y: baseline_y });
        let mut k: usize = 0;
        let ghost head = seq![Point { x: self.points@[0].x, y: baseline_y }];
        assert(points@ =~= head + self.points@.take(0));
        while k < n
            invariant
                n == self.points@.len(),
                k <= n,
                points@ == head + self.points@.take(k as int),
            decreases n - k,
        {
            points.push(self.points[k]);
            k = k + 1;
            assert(points@ =~= head + self.points@.take(k as int));
        }
        points.push(Point { x: self.points[n - 1].x, y: baseline_y });
        assert(verbs@ =~= area_path(self@, baseline_y).verbs);
        assert(points@ =~= area_path(self@, baseline_y).points);
        PathData::new(verbs, points)
    }

    /// Joins two aligned open contours into a closed band: upper forward, lower reversed.
    pub fn area_band(upper: &PathData, lower: &PathData) -> (r: Result<PathData, GeometryError>)
        ensures
            path_seen(r) == (if open_fault(upper@) is Some {
                Err(open_fault(upper@)->0)
            } else if open_fault(lower@) is Some {
                Err(open_fault(lower@)->0)
            } else if !band_aligned(upper@, lower@) {
                Err(GeometryError::AreaBandMismatch)
            } else {
                checked(band_path(upper@, lower@))
            }),
    {
        match check_open(upper) {
            Err(e) => {
                return Err(e);
            },
            Ok(()) => {},
        }
        match check_open(lower) {
            Err(e) => {
                return Err(e);
            },
            Ok(()) => {},
        }
        if !same_verbs(&upper.verbs, &lower.verbs) {
            return Err(GeometryError::AreaBandMismatch);
        }
        let above = nodes_of(upper);
        let below = nodes_of(lower);
        proof {
            nodes_len(upper@, upper@.verbs.len());
            nodes_len(lower@, lower@.verbs.len());
        }
        if !x_increases(&above) || !x_increases(&below) {
            return Err(GeometryError::AreaBandMismatch);
        }
        let mut i: usize = 0;
        while i < above.len()
            invariant
                open_fault(upper@) is None,
                open_fault(lower@) is None,
                above@ == curve_nodes(upper@, upper@.verbs.len()),
                below@ == curve_nodes(lower@, lower@.verbs.len()),
                i <= above@.len() == below@.len(),
                forall|k: int| 0 <= k < i ==> (#[trigger] above@[k]).x.eq_spec(below@[k].x),
            decreases above@.len() - i,
        {
            if !above[i].x.eq_value(below[i].x) {
                assert(!above@[i as int].x.eq_spec(below@[i as int].x));
                return Err(GeometryError::AreaBandMismatch);
            }
            i = i + 1;
        }
        assert(band_aligned(upper@, lower@));
        let back = reversed_of(lower);
        let mut verbs = copy_verbs(&upper.verbs);
        verbs.push(PathVerb::Line);
        let count: usize = lower.verbs.len();
        let mut k: usize = 0;
        let ghost front = upper.verbs@.push(PathVerb::Line);
        assert(verbs@ =~= front + lower.verbs@.skip(1).reverse().take(0));
        while k < count - 1
            invariant
                count == lower.verbs@.len(),
                count >= 1,
                k <= count - 1,
                verbs@ == front + lower.verbs@.skip(1).reverse().take(k as int),
            decreases count - k,
        {
            verbs.push(lower.verbs[count - 1 - k]);
            k = k + 1;
            assert(verbs@ =~= front + lower.verbs@.skip(1).reverse().take(k as int));
        }
        verbs.push(PathVerb::Close);
        let mut points = copy_points(&upper.points);
        points.push(lower.points[lower.points.len() - 1]);
        let ghost start = points@;
        let mut j: usize = 0;
        assert(start + back@.take(0) =~= start);
        while j < back.len()
            invariant
                j <= back@.len(),
                points@ == start + back@.take(j as int),
            decreases back@.len() - j,
        {
            points.push(back[j]);
            j = j + 1;
            assert(points@ =~= start + back@.take(j as int));
        }
        assert(back@.take(back@.len() as int) =~= back@);
        assert(verbs@ =~= band_path(upper@, lower@).verbs);
        assert(points@ =~= band_path(upper@, lower@).points);
        PathData::new(verbs, points)
    }
}

proof fn nodes_len(p: Path, n: nat)
    ensures
        curve_nodes(p, n).len() == n,
    decreases n,
{
    if n > 0 {
        nodes_len(p, (n - 1) as nat);
    }
}

/// One drawing step of a path with the points it takes.
#[derive(Clone, Copy, Debug, PartialEq, Eq, Structural)]
pub enum PathElement {
    MoveTo(Point),
    LineTo(Point),
    QuadTo(Point, Point),
    CubicTo(Point, Point, Point),
    Close,
}

pub open spec fn element_at(p: Path, i: int) -> PathElement {
    let at = points_taken(p.verbs, i as nat) as int;
    match p.verbs[i] {
        PathVerb::Move => PathElement::MoveTo(p.points[at]),
        PathVerb::Line => PathElement::LineTo(p.points[at]),
        PathVerb::Quad => PathElement::QuadTo(p.points[at], p.points[at + 1]),
        PathVerb::Cubic => PathElement::CubicTo(p.points[at], p.points[at + 1], p.points[at + 2]),
        PathVerb::Close => PathElement::Close,
    }
}

impl PathData {
    /// The drawing steps of a path, or nothing for a path without verbs.
    pub fn path_ref(&self) -> (r: Option<Vec<PathElement>>)
        requires
            points_taken(self@.verbs, self@.verbs.len()) <= self@.points.len(),
        ensures
            match r {
                None => self@.verbs.len() == 0,
                Some(v) => self@.verbs.len() > 0 && v@ == Seq::new(
                    self@.verbs.len(),
                    |i: int| element_at(self@, i),
                ),
            },
    {
        if self.verbs.len() == 0 {
            return None;
        }
        let total: usize = self.points.len();
        let mut out: Vec<PathElement> = Vec::new();
        let mut at: usize = 0;
        let mut i: usize = 0;
        while i < self.verbs.len()
            invariant
                points_taken(self@.verbs, self@.verbs.len()) <= self@.points.len(),
                total == self@.points.len(),
                i <= self.verbs@.len(),
                at == points_taken(self@.verbs, i as nat),
                out@ == Seq::new(i as nat, |k: int| element_at(self@, k)),
            decreases self.verbs@.len() - i,
        {
            proof {
                points_taken_grows(self@.verbs, (i + 1) as nat, self@.verbs.len());
            }
            let verb = self.verbs[i];
            let element = match verb {
                PathVerb::Move => PathElement::MoveTo(self.points[at]),
                PathVerb::Line => PathElement::LineTo(self.points[at]),
                PathVerb::Quad => PathElement::QuadTo(self.points[at], self.points[at + 1]),
                PathVerb::Cubic => PathElement::CubicTo(
                    self.points[at],
                    self.points[at + 1],
                    self.points[at + 2],
                ),
                PathVerb::Close => PathElement::Close,
            };
            out.push(element);
            at = at + verb.point_count();
            i = i + 1;
            assert(out@ =~= Seq::new(i as nat, |k: int| element_at(self@, k)));
        }
        Some(out)
    }
}

/// What is left of a path between two arc-length fractions.
#[derive(Clone, Copy, Debug, PartialEq, Eq, Structural)]
pub enum TrimStep {
    /// The whole path.
    Whole,
    /// Nothing.
    Empty,
    /// The stretch between two fractions of 0..=1.
    Cut(Scalar, Scalar),
}

pub open spec fn trim_step(start: Scalar, end: Scalar) -> TrimStep {
    let a = start.clamp_spec(num(ZERO), num(ONE));
    let b = end.clamp_spec(num(ZERO), num(ONE));
    if a.le_spec(num(ZERO)) && num(ONE).le_spec(b) {
        TrimStep::Whole
    } else if b.le_spec(a) {
        TrimStep::Empty
    } else {
        TrimStep::Cut(a, b)
    }
}

impl PathData {
    /// Decides how much of the path a trim keeps; only a cut needs measuring.
    pub fn trim_decision(&self, start: Scalar, end: Scalar) -> (r: Result<TrimStep, GeometryError>)
        ensures
            r == (if self@.fault() is Some {
                Err(self@.fault()->0)
            } else if !start.finite() || !end.finite() {
                Err(GeometryError::NonFinite)
            } else {
                Ok(trim_step(start, end))
            }),
    {
        match self.validate() {
            Err(e) => {
                return Err(e);
            },
            Ok(()) => {},
        }
        if !start.is_finite() || !end.is_finite() {
            return Err(GeometryError::NonFinite);
        }
        let zero = Scalar::from_bits(ZERO);
        let one = Scalar::from_bits(ONE);
        let a = start.clamp(zero, one);
        let b = end.clamp(zero, one);
        if a.le(zero) && one.le(b) {
            return Ok(TrimStep::Whole);
        }
        if b.le(a) {
            return Ok(TrimStep::Empty);
        }
        Ok(TrimStep::Cut(a, b))
    }
}

/// A cut keeps a stretch of positive length inside the path.
pub proof fn cuts_are_ordered(start: Scalar, end: Scalar)
    requires
        start.finite(),
        end.finite(),
    ensures
        trim_step(start, end) matches TrimStep::Cut(a, b) ==> a.lt_spec(b) && num(ZERO).le_spec(a)
            && b.le_spec(num(ONE)),
{
}

/// A contour after flattening.
#[derive(Debug)]
pub struct FlatContour {
    pub points: Vec<Point>,
    pub closed: bool,
}

/// The ring of a single closed contour of at least four points.
pub open spec fn ring_fault(contours: Seq<FlatContour>) -> Option<GeometryError> {
    if contours.len() != 1 {
        Some(GeometryError::SingleContourRequired)
    } else if !contours[0].closed {
        Some(GeometryError::ClosedContourRequired)
    } else if contours[0].points@.len() < 4 {
        Some(GeometryError::DegenerateContour)
    } else {
        None
    }
}

/// Checks that a flattened path can be an operand of a polygon operation.
pub fn single_polygon(contours: &Vec<FlatContour>) -> (r: Result<&Vec<Point>, GeometryError>)
    ensures
        match r {
            Ok(ring) => ring_fault(contours@) is None && *ring == contours@[0].points,
            Err(e) => ring_fault(contours@) == Some(e),
        },
{
    if contours.len() != 1 {
        return Err(GeometryError::SingleContourRequired);
    }
    if !contours[0].closed {
        return Err(GeometryError::ClosedContourRequired);
    }
    if contours[0].points.len() < 4 {
        return Err(GeometryError::DegenerateContour);
    }
    Ok(&contours[0].points)
}

/// The polygon of a flattened path, without the repeated closing point.
pub open spec fn polygon_of(contours: Seq<FlatContour>) -> Result<Seq<Point>, GeometryError> {
    if contours.len() != 1 || !contours[0].closed {
        Err(GeometryError::SingleContourRequired)
    } else {
        let all = contours[0].points@;
        let open = if all.len() > 1 && point_eq(all[0], all.last()) { all.drop_last() } else { all };
        if open.len() < 3 {
            Err(GeometryError::DegenerateContour)
        } else {
            Ok(open)
        }
    }
}

/// The points of one closed contour for kernels that close polygons themselves.
pub fn closed_polygon_points(contours: &Vec<FlatContour>) -> (r: Result<Vec<Point>, GeometryError>)
    ensures
        match r {
            Ok(v) => polygon_of(contours@) == Ok::<Seq<Point>, GeometryError>(v@),
            Err(e) => polygon_of(contours@) == Err::<Seq<Point>, GeometryError>(e),
        },
{
    if contours.len() != 1 || !contours[0].closed {
        return Err(GeometryError::SingleContourRequired);
    }
    let mut points = copy_points(&contours[0].points);
    let n: usize = points.len();
    if n > 1 && same_point(&points[0], &points[n - 1]) {
        points.pop();
        assert(points@ =~= contours@[0].points@.drop_last());
    }
    if points.len() < 3 {
        return Err(GeometryError::DegenerateContour);
    }
    Ok(points)
}

/// The verbs of the first `n` rings: rings of fewer than four points are dropped, the repeated
/// closing point is implied by the close.
pub open spec fn rings_path(rings: Seq<Vec<Point>>, n: nat) -> Path
    decreases n,
{
    if n == 0 {
        Path { verbs: Seq::empty(), points: Seq::empty() }
    } else {
        let before = rings_path(rings, (n - 1) as nat);
        let ring = rings[n - 1]@;
        if ring.len() < 4 {
            before
        } else {
            Path {
                verbs: before.verbs + line_verbs((ring.len() - 1) as nat).push(PathVerb::Close),
                points: before.points + ring.drop_last(),
            }
        }
    }
}

/// Freezes the rings of a polygon operation as a path.
pub fn path_from_multi_polygon(rings: &Vec<Vec<Point>>) -> (r: Result<PathData, GeometryError>)
    ensures
        path_seen(r) == checked(rings_path(rings@, rings@.len())),
{
    let mut verbs: Vec<PathVerb> = Vec::new();
    let mut points: Vec<Point> = Vec::new();
    let mut i: usize = 0;
    while i < rings.len()
        invariant
            i <= rings@.len(),
            verbs@ == rings_path(rings@, i as nat).verbs,
            points@ == rings_path(rings@, i as nat).points,
        decreases rings@.len() - i,
    {
        let n: usize = rings[i].len();
        if n >= 4 {
            let ghost v0 = verbs@;
            let ghost p0 = points@;
            let ghost ring = rings@[i as int]@;
            verbs.push(PathVerb::Move);
            points.push(rings[i][0]);
            let mut k: usize = 1;
            assert(verbs@ =~= v0 + line_verbs(1));
            assert(points@ =~= p0 + ring.take(1));
            while k < n - 1
                invariant
                    i < rings@.len(),
                    ring == rings@[i as int]@,
                    n == ring.len(),
                    1 <= k <= n - 1,
                    verbs@ == v0 + line_verbs(k as nat),
                    points@ == p0 + ring.take(k as int),
                decreases n - k,
            {
                verbs.push(PathVerb::Line);
                points.push(rings[i][k]);
                k = k + 1;
                assert(verbs@ =~= v0 + line_verbs(k as nat));
                assert(points@ =~= p0 + ring.take(k as int));
            }
            verbs.push(PathVerb::Close);
            assert(verbs@ =~= v0 + line_verbs((n - 1) as nat).push(PathVerb::Close));
            assert(points@ =~= p0 + ring.drop_last());
        }
        i = i + 1;
    }
    PathData::new(verbs, points)
}

} // verus!
