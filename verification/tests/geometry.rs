use core::f64::consts::{FRAC_PI_2, PI, TAU};
use geo::{BooleanOps, Contains, Coord, LineString, MultiPolygon, Polygon};
use valle_motion::contours::SegmentGeometry;
use valle_motion::measure::{Calc, MeasureTools, PathSample};
use valle_motion::outlines::{flatten, OffsetTools};
use valle_motion::path::{
    single_polygon, GeometryError, PathBooleanOp, PathData, PathVerb, PATH_ARC_SEGMENTS,
    PATH_CURVE_STEPS, PATH_SECTOR_ARC_SEGMENTS, PATH_SECTOR_POINTS, PATH_SECTOR_VERBS,
};
use valle_motion::recording::{Affine, Point};
use valle_motion::scalar::Scalar;
use valle_motion::text_paths::{path_placements, GlyphPlace, GlyphProgress, TextPathPlan};

fn num(x: f64) -> Scalar {
    Scalar::from_bits(x.to_bits())
}

fn f(x: Scalar) -> f64 {
    f64::from_bits(x.to_bits())
}

fn point(x: f64, y: f64) -> Point {
    Point {
        x: num(x),
        y: num(y),
    }
}

fn lerp(a: f64, b: f64, t: f64) -> f64 {
    a + (b - a) * t
}

fn mix(a: Point, b: Point, t: Scalar) -> Point {
    point(lerp(f(a.x), f(b.x), f(t)), lerp(f(a.y), f(b.y), f(t)))
}

fn divide(a: Scalar, b: Scalar) -> Scalar {
    num(f(a) / f(b))
}

fn distance(a: Point, b: Point) -> f64 {
    let dx = f(b.x) - f(a.x);
    let dy = f(b.y) - f(a.y);
    (dx * dx + dy * dy).sqrt()
}

fn calc(c: &Calc) -> Scalar {
    match c {
        Calc::Sum { a, b } => num(f(*a) + f(*b)),
        Calc::Difference { a, b } => num(f(*a) - f(*b)),
        Calc::Product { a, b } => num(f(*a) * f(*b)),
        Calc::Part { step, steps } => num(*step as f64 / *steps as f64),
        Calc::Distance { from, to } => num(distance(*from, *to)),
        Calc::Between {
            from,
            to,
            part,
            span,
        } => num(lerp(f(*from), f(*to), f(*part) / f(*span))),
        Calc::Degrees { direction } => num(f(direction.y).atan2(f(direction.x)).to_degrees()),
    }
}

fn at(s: &SegmentGeometry, t: Scalar) -> Point {
    let t = f(t).clamp(0.0, 1.0);
    let u = 1.0 - t;
    match s {
        SegmentGeometry::Line { from, to } => mix(*from, *to, num(t)),
        SegmentGeometry::Quad { from, control, to } => {
            let of = |a: Scalar, b: Scalar, c: Scalar| {
                u * u * f(a) + 2.0 * u * t * f(b) + t * t * f(c)
            };
            point(of(from.x, control.x, to.x), of(from.y, control.y, to.y))
        }
        SegmentGeometry::Cubic {
            from,
            control_1,
            control_2,
            to,
        } => {
            let of = |a: Scalar, b: Scalar, c: Scalar, d: Scalar| {
                u * u * u * f(a)
                    + 3.0 * u * u * t * f(b)
                    + 3.0 * u * t * t * f(c)
                    + t * t * t * f(d)
            };
            point(
                of(from.x, control_1.x, control_2.x, to.x),
                of(from.y, control_1.y, control_2.y, to.y),
            )
        }
    }
}

fn tangent(s: &SegmentGeometry, t: Scalar) -> Point {
    let t = f(t).clamp(0.0, 1.0);
    let u = 1.0 - t;
    let (dx, dy) = match s {
        SegmentGeometry::Line { from, to } => (f(to.x) - f(from.x), f(to.y) - f(from.y)),
        SegmentGeometry::Quad { from, control, to } => {
            let of = |a: Scalar, b: Scalar, c: Scalar| {
                2.0 * (u * (f(b) - f(a)) + t * (f(c) - f(b)))
            };
            (of(from.x, control.x, to.x), of(from.y, control.y, to.y))
        }
        SegmentGeometry::Cubic {
            from,
            control_1,
            control_2,
            to,
        } => {
            let of = |a: Scalar, b: Scalar, c: Scalar, d: Scalar| {
                3.0 * (u * u * (f(b) - f(a)) + 2.0 * u * t * (f(c) - f(b)) + t * t * (f(d) - f(c)))
            };
            (
                of(from.x, control_1.x, control_2.x, to.x),
                of(from.y, control_1.y, control_2.y, to.y),
            )
        }
    };
    let length = (dx * dx + dy * dy).sqrt();
    if length > 0.0 {
        point(dx / length, dy / length)
    } else {
        right()
    }
}

fn right() -> Point {
    point(1.0, 0.0)
}

fn piece(s: &SegmentGeometry, a: Scalar, b: Scalar) -> SegmentGeometry {
    s.subsegment(&mix, &divide, a, b)
}

fn curve(s: &SegmentGeometry, step: usize) -> Point {
    at(s, num(step as f64 / PATH_CURVE_STEPS as f64))
}

fn length_of(path: &PathData) -> f64 {
    f(path.path_length(&tools()).unwrap())
}

fn tools() -> MeasureTools<
    'static,
    impl Fn(&Calc) -> Scalar,
    impl Fn(&SegmentGeometry, Scalar) -> Point,
    impl Fn(&SegmentGeometry, Scalar) -> Point,
    impl Fn(&SegmentGeometry, Scalar, Scalar) -> SegmentGeometry,
> {
    MeasureTools {
        calc: &calc,
        point: &at,
        tangent: &tangent,
        piece: &piece,
    }
}

fn point_at(path: &PathData, t: f64) -> Point {
    path.point_at(&tools(), num(t)).unwrap()
}

fn tangent_at(path: &PathData, t: f64) -> Point {
    path.tangent_at(&tools(), num(t)).unwrap()
}

fn trim(path: &PathData, a: f64, b: f64) -> PathData {
    path.trim(&tools(), num(a), num(b)).unwrap()
}

fn line() -> PathData {
    PathData::new(
        vec![PathVerb::Move, PathVerb::Line, PathVerb::Line],
        vec![point(0.0, 0.0), point(10.0, 0.0), point(10.0, 10.0)],
    )
    .unwrap()
}

fn arch() -> PathData {
    PathData::cubic(
        point(0.0, 0.0),
        point(0.0, 10.0),
        point(10.0, 10.0),
        point(10.0, 0.0),
    )
    .unwrap()
}

/// Batch sampling must match individual point and tangent queries exactly.
#[test]
fn batch_sampling_is_pointwise_identical_to_sampling_one_at_a_time() {
    let path = line();
    let progresses = [0.0, 0.1, 0.25, 0.5, 0.75, 0.9, 1.0];
    let asked = progresses.iter().map(|t| num(*t)).collect::<Vec<_>>();
    let batch = path.samples_at(&tools(), &asked).unwrap();
    assert_eq!(batch.len(), progresses.len());
    for (progress, PathSample { point, tangent }) in progresses.iter().zip(batch) {
        assert_eq!(point, point_at(&path, *progress));
        assert_eq!(tangent, tangent_at(&path, *progress));
    }
}

#[test]
fn an_invalid_path_is_refused_even_where_nothing_is_asked_of_it() {
    let broken = PathData {
        verbs: vec![PathVerb::Line],
        points: vec![point(0.0, 0.0)],
    };
    assert_eq!(
        broken.samples_at(&tools(), &vec![]).err(),
        Some(GeometryError::MissingMove)
    );
    assert!(line().samples_at(&tools(), &vec![]).unwrap().is_empty());
}

#[test]
fn a_trimmed_contour_keeps_its_closing_edge_as_a_line() {
    let path = PathData::new(
        vec![
            PathVerb::Move,
            PathVerb::Line,
            PathVerb::Line,
            PathVerb::Close,
        ],
        vec![point(0.0, 0.0), point(30.0, 0.0), point(30.0, 40.0)],
    )
    .unwrap();
    assert_eq!(length_of(&path), 120.0);
    let trimmed = trim(&path, 0.5, 1.0);
    assert_eq!(
        trimmed.verbs,
        vec![PathVerb::Move, PathVerb::Line, PathVerb::Line]
    );
    assert_eq!(trimmed.points[0], point_at(&path, 0.5));
}

#[test]
fn a_stretch_begins_and_ends_where_the_path_is_sampled() {
    let path = line();
    for (a, b) in [(0.125, 0.25), (0.25, 0.75), (0.0, 0.625), (0.375, 1.0)] {
        let trimmed = trim(&path, a, b);
        assert_eq!(trimmed.points[0], point_at(&path, a));
        assert_eq!(trimmed.points.last(), Some(&point_at(&path, b)));
    }
}

#[test]
fn a_stretch_that_begins_between_contours_begins_with_the_later_one() {
    let path = PathData::new(
        vec![
            PathVerb::Move,
            PathVerb::Line,
            PathVerb::Move,
            PathVerb::Line,
        ],
        vec![
            point(0.0, 0.0),
            point(8.0, 0.0),
            point(0.0, 5.0),
            point(8.0, 5.0),
        ],
    )
    .unwrap();
    assert_eq!(point_at(&path, 0.5), point(8.0, 0.0));
    let trimmed = trim(&path, 0.5, 1.0);
    assert_eq!(trimmed.points, vec![point(0.0, 5.0), point(8.0, 5.0)]);
}

#[test]
fn glyphs_beyond_a_path_have_no_place() {
    let path = line();
    let plan = TextPathPlan {
        length: num(length_of(&path)),
        path,
    };
    let progress = |t: &GlyphProgress| {
        let advance = (f(t.glyph.next) - f(t.glyph.at.x)).max(0.0);
        num((f(t.glyph.at.x) - f(t.origin) + advance / 2.0) / f(t.length))
    };
    let place = |t: &GlyphPlace| Affine {
        a: num(1.0),
        b: num(0.0),
        c: num(0.0),
        d: num(1.0),
        x: t.sample.point.x,
        y: t.sample.point.y,
    };
    let glyphs = [2.0, 4.0, 12.0, 20.0].map(|x| point(x, 0.0)).to_vec();
    let places = path_placements(
        &tools(),
        &progress,
        &place,
        &plan,
        num(2.0),
        &glyphs,
        num(30.0),
    )
    .unwrap();
    let found: Vec<_> = places
        .iter()
        .map(|p| p.map(|t| (f(t.x), f(t.y))))
        .collect();
    assert_eq!(
        found,
        [Some((1.0, 0.0)), Some((6.0, 0.0)), Some((10.0, 4.0)), None]
    );
    let broken = TextPathPlan {
        path: PathData {
            verbs: vec![PathVerb::Line],
            points: vec![point(0.0, 0.0)],
        },
        length: num(1.0),
    };
    let none = path_placements(
        &tools(),
        &progress,
        &place,
        &broken,
        num(0.0),
        &vec![],
        num(0.0),
    );
    assert!(none.is_none());
}

#[test]
fn a_morph_beyond_the_end_is_the_morph_at_the_end() {
    let from = line();
    let mut to = line();
    to.points[2].x = num(-4.0);
    let end = from.morph(&to, num(1.0), blend).unwrap();
    assert_eq!(from.morph(&to, num(7.5), blend).unwrap(), end);
    assert_eq!(end.verbs, from.verbs);
    assert_eq!(end.points.len(), from.points.len());
}

#[test]
fn one_arc_length_truth_drives_length_point_tangent_and_trim() {
    let path = line();
    assert_eq!(length_of(&path), 20.0);
    assert_eq!(point_at(&path, 0.25), point(5.0, 0.0));
    assert_eq!(tangent_at(&path, 0.25), right());
    let trimmed = trim(&path, 0.25, 0.75);
    assert_eq!(
        trimmed.verbs,
        vec![PathVerb::Move, PathVerb::Line, PathVerb::Line]
    );
    assert_eq!(
        trimmed.points,
        vec![point(5.0, 0.0), point(10.0, 0.0), point(10.0, 5.0)]
    );
}

fn blend(a: Scalar, b: Scalar, t: Scalar) -> Scalar {
    num(lerp(f(a), f(b), f(t)))
}

#[test]
fn morph_requires_identical_topology_and_clamps_progress() {
    let from = line();
    let mut to = line();
    to.points[1].y = num(20.0);
    assert_eq!(
        from.morph(&to, num(0.5), blend).unwrap().points[1],
        point(10.0, 10.0)
    );
    assert_eq!(
        from.morph(&to, num(3.0), blend).unwrap().points[1],
        point(10.0, 20.0)
    );
    let incompatible = PathData::new(
        vec![PathVerb::Move, PathVerb::Line],
        vec![point(0.0, 0.0), point(1.0, 1.0)],
    )
    .unwrap();
    assert_eq!(
        from.morph(&incompatible, num(0.5), blend),
        Err(GeometryError::TopologyMismatch)
    );
}

#[test]
fn curves_use_the_same_exact_version_fixed_sampling() {
    let path = PathData::new(
        vec![PathVerb::Move, PathVerb::Cubic],
        vec![
            point(0.0, 0.0),
            point(0.0, 10.0),
            point(10.0, 10.0),
            point(10.0, 0.0),
        ],
    )
    .unwrap();
    let middle = point_at(&path, 0.5);
    assert!((f(middle.x) - 5.0).abs() < 1e-9, "{middle:?}");
    assert!((f(middle.y) - 7.5).abs() < 1e-9, "{middle:?}");
    assert!(length_of(&path) > 19.9);
}

#[test]
fn partial_curve_trim_preserves_bezier_and_shares_its_endpoint_with_sampling() {
    let path = arch();
    let progress = 0.37;
    let trimmed = trim(&path, 0.0, progress);
    let sampled = point_at(&path, progress);
    let endpoint = trimmed.points.last().unwrap();

    assert_eq!(trimmed.verbs, vec![PathVerb::Move, PathVerb::Cubic]);
    assert!((f(endpoint.x) - f(sampled.x)).abs() < 1e-12);
    assert!((f(endpoint.y) - f(sampled.y)).abs() < 1e-12);
    let trimmed_tangent = tangent_at(&trimmed, 1.0);
    let sampled_tangent = tangent_at(&path, progress);
    assert!((f(trimmed_tangent.x) - f(sampled_tangent.x)).abs() < 1e-12);
    assert!((f(trimmed_tangent.y) - f(sampled_tangent.y)).abs() < 1e-12);
}

#[test]
fn curve_trim_does_not_switch_to_a_different_geometry_at_completion() {
    let path = arch();

    assert_eq!(trim(&path, 0.0, 0.999).verbs, path.verbs);
    assert_eq!(trim(&path, 0.0, 1.0).verbs, path.verbs);
    assert_eq!(tangent_at(&path, 0.5), right());
}

#[test]
fn a_piece_from_the_middle_is_cut_on_both_sides() {
    let path = arch();
    let trimmed = trim(&path, 0.25, 0.75);
    assert_eq!(trimmed.verbs, vec![PathVerb::Move, PathVerb::Cubic]);
    let start = point_at(&path, 0.25);
    assert!((f(trimmed.points[0].x) - f(start.x)).abs() < 1e-9);
    assert!((f(trimmed.points[0].y) - f(start.y)).abs() < 1e-9);
    assert!(trim(&path, 0.6, 0.6).verbs.is_empty());
    assert_eq!(
        path.trim(&tools(), num(f64::NAN), num(1.0)),
        Err(GeometryError::NonFinite)
    );
}

#[test]
fn each_contour_of_a_trim_begins_with_a_move() {
    let path = PathData::new(
        vec![
            PathVerb::Move,
            PathVerb::Line,
            PathVerb::Move,
            PathVerb::Line,
        ],
        vec![
            point(0.0, 0.0),
            point(10.0, 0.0),
            point(0.0, 5.0),
            point(10.0, 5.0),
        ],
    )
    .unwrap();
    let trimmed = trim(&path, 0.25, 0.75);
    assert_eq!(trimmed.verbs, path.verbs);
    assert_eq!(
        trimmed.points,
        vec![
            point(5.0, 0.0),
            point(10.0, 0.0),
            point(0.0, 5.0),
            point(5.0, 5.0)
        ]
    );
}

fn normal(a: Point, b: Point) -> Option<Point> {
    let length = distance(a, b);
    if length > 0.0 {
        Some(point(
            -(f(b.y) - f(a.y)) / length,
            (f(b.x) - f(a.x)) / length,
        ))
    } else {
        None
    }
}

fn joint(a: Point, b: Point) -> Point {
    let x = f(a.x) + f(b.x);
    let y = f(a.y) + f(b.y);
    let length = (x * x + y * y).sqrt();
    if length <= 1e-12 {
        b
    } else {
        let (ux, uy) = (x / length, y / length);
        let projection = (ux * f(b.x) + uy * f(b.y)).abs().max(0.25);
        point(ux / projection, uy / projection)
    }
}

fn shift(at: Point, n: Point, d: Scalar) -> Point {
    point(f(at.x) + f(n.x) * f(d), f(at.y) + f(n.y) * f(d))
}

fn offset(path: &PathData, d: f64) -> Result<PathData, GeometryError> {
    let offset_tools = OffsetTools {
        normal: &normal,
        joint: &joint,
        shift: &shift,
    };
    path.offset_path(&curve, &offset_tools, num(d))
}

fn polar(center: (f64, f64), radius: f64, angle: f64) -> (f64, f64) {
    (
        center.0 + radius * angle.cos(),
        center.1 + radius * angle.sin(),
    )
}

fn arc_cubics(
    points: &mut Vec<(f64, f64)>,
    center: (f64, f64),
    radius: f64,
    from: f64,
    to: f64,
    segments: usize,
) {
    let radius = radius.max(0.0);
    let step = (to - from) / segments as f64;
    for segment in 0..segments {
        let a0 = from + step * segment as f64;
        let a1 = a0 + step;
        let k = 4.0 / 3.0 * (step / 4.0).tan() * radius;
        points.push((
            center.0 + radius * a0.cos() - k * a0.sin(),
            center.1 + radius * a0.sin() + k * a0.cos(),
        ));
        points.push((
            center.0 + radius * a1.cos() + k * a1.sin(),
            center.1 + radius * a1.sin() - k * a1.cos(),
        ));
        points.push(polar(center, radius, a1));
    }
}

fn wrap_delta(from: f64, to: f64) -> f64 {
    let mut delta = to - from;
    while delta > core::f64::consts::PI {
        delta -= core::f64::consts::TAU;
    }
    while delta < -core::f64::consts::PI {
        delta += core::f64::consts::TAU;
    }
    delta
}

fn corner_cubic(points: &mut Vec<(f64, f64)>, corner: (f64, f64), radius: f64, from: f64, to: f64) {
    if radius <= 0.0 {
        points.extend([corner, corner, corner]);
        return;
    }
    let end = from + wrap_delta(from, to);
    arc_cubics(points, corner, radius, from, end, 1);
}

fn placed(points: Vec<(f64, f64)>) -> Vec<Point> {
    points.into_iter().map(|(x, y)| point(x, y)).collect()
}

fn arc(center: Point, radius: f64, start: f64, end: f64) -> Result<PathData, GeometryError> {
    let at = (f(center.x), f(center.y));
    let mut points = vec![polar(at, radius, start)];
    arc_cubics(&mut points, at, radius, start, end, PATH_ARC_SEGMENTS);
    PathData::arc(
        center,
        num(radius),
        num(start),
        num(end),
        num(end - start),
        placed(points),
    )
}

fn sector(
    center: Point,
    inner: f64,
    outer: f64,
    start: f64,
    end: f64,
    corner_radius: f64,
) -> Result<PathData, GeometryError> {
    let at = (f(center.x), f(center.y));
    let sweep = end - start;
    let s = if sweep < 0.0 { -1.0 } else { 1.0 };
    let half = sweep.abs() / 2.0;
    let sh = if half >= FRAC_PI_2 {
        1.0
    } else {
        half.sin().max(0.0)
    };
    let thickness = outer - inner;
    let corner_span = sweep.abs().min(TAU - sweep.abs());
    let corner_sin = (corner_span / 2.0).sin();
    let cr = corner_radius
        .min(thickness / 2.0)
        .min(outer * (corner_sin / (1.0 + corner_sin)));
    let inner_cr = if inner == 0.0 {
        0.0
    } else if sh < 1.0 {
        cr.min(inner * (sh / (1.0 - sh)))
    } else {
        cr
    };
    let outer_ro = (outer - cr).max(0.0);
    let inner_ri = inner + inner_cr;
    let d_out = if cr > 0.0 && outer_ro > 0.0 {
        (cr / outer_ro).clamp(-1.0, 1.0).asin()
    } else {
        0.0
    };
    let d_in = if inner_cr > 0.0 && inner_ri > 0.0 {
        (inner_cr / inner_ri).clamp(-1.0, 1.0).asin()
    } else {
        0.0
    };
    let foot_out = if cr > 0.0 {
        (outer_ro * outer_ro - cr * cr).max(0.0).sqrt()
    } else {
        outer
    };
    let foot_in = if inner_cr > 0.0 {
        (inner_ri * inner_ri - inner_cr * inner_cr).max(0.0).sqrt()
    } else {
        inner
    };
    let mut points = vec![polar(at, inner, start + s * d_in)];
    corner_cubic(
        &mut points,
        polar(at, inner_ri, start + s * d_in),
        inner_cr,
        start + s * d_in + PI,
        start - s * FRAC_PI_2,
    );
    points.push(polar(at, foot_out, start));
    corner_cubic(
        &mut points,
        polar(at, outer_ro, start + s * d_out),
        cr,
        start - s * FRAC_PI_2,
        start + s * d_out,
    );
    arc_cubics(
        &mut points,
        at,
        outer,
        start + s * d_out,
        end - s * d_out,
        PATH_SECTOR_ARC_SEGMENTS,
    );
    corner_cubic(
        &mut points,
        polar(at, outer_ro, end - s * d_out),
        cr,
        end - s * d_out,
        end + s * FRAC_PI_2,
    );
    points.push(polar(at, foot_in, end));
    corner_cubic(
        &mut points,
        polar(at, inner_ri, end - s * d_in),
        inner_cr,
        end + s * FRAC_PI_2,
        end - s * d_in + PI,
    );
    arc_cubics(
        &mut points,
        at,
        inner,
        end - s * d_in,
        start + s * d_in,
        PATH_SECTOR_ARC_SEGMENTS,
    );
    PathData::sector(
        center,
        num(inner),
        num(outer),
        num(start),
        num(end),
        num(corner_radius),
        num(sweep),
        placed(points),
    )
}

#[test]
fn constructors_area_offset_and_motion_angle_are_frame_pure() {
    let line = PathData::line(vec![point(0.0, 0.0), point(10.0, 0.0)]).unwrap();
    let area = line.area(num(10.0)).unwrap();
    assert_eq!(area.verbs.last(), Some(&PathVerb::Close));
    assert_eq!(area.points.first(), Some(&point(0.0, 10.0)));
    assert_eq!(area.points.last(), Some(&point(10.0, 10.0)));

    let offset = offset(&line, 2.0).unwrap();
    assert!(offset.points[0].x.eq_value(num(0.0)));
    assert_eq!(offset.points[0].y, num(2.0));
    assert_eq!(offset.points[1], point(10.0, 2.0));
    assert_eq!(offset.points.len(), 2);
    assert_eq!(line.angle_at(&tools(), num(0.5)).unwrap(), num(0.0));

    let cubic = arch();
    assert_eq!(cubic.verbs, vec![PathVerb::Move, PathVerb::Cubic]);

    let arc = arc(point(0.0, 0.0), 10.0, 0.0, core::f64::consts::PI).unwrap();
    assert_eq!(arc.verbs.len(), PATH_ARC_SEGMENTS + 1);
    assert_eq!(arc.points.len(), 1 + PATH_ARC_SEGMENTS * 3);
    assert!((f(arc.points.last().unwrap().x) + 10.0).abs() < 1e-12);
}

#[test]
fn offsets_need_a_finite_distance_and_a_direction() {
    let path = line();
    assert_eq!(offset(&path, f64::INFINITY), Err(GeometryError::NonFinite));
    assert_eq!(offset(&path, 0.0).unwrap(), path);
    let dot = PathData::line(vec![point(1.0, 1.0), point(1.0, 1.0)]).unwrap();
    assert_eq!(offset(&dot, 2.0), Err(GeometryError::DegenerateContour));
}

fn sector_verbs() -> Vec<PathVerb> {
    let mut verbs = vec![
        PathVerb::Move,
        PathVerb::Cubic,
        PathVerb::Line,
        PathVerb::Cubic,
    ];
    verbs.extend(std::iter::repeat_n(
        PathVerb::Cubic,
        PATH_SECTOR_ARC_SEGMENTS,
    ));
    verbs.extend([PathVerb::Cubic, PathVerb::Line, PathVerb::Cubic]);
    verbs.extend(std::iter::repeat_n(
        PathVerb::Cubic,
        PATH_SECTOR_ARC_SEGMENTS,
    ));
    verbs.push(PathVerb::Close);
    verbs
}

#[test]
fn sector_keeps_one_verb_table_across_degeneracies() {
    let center = point(40.0, 50.0);
    let expected = sector_verbs();
    assert_eq!(expected.len(), PATH_SECTOR_VERBS);
    let cases = [
        sector(center, 0.0, 20.0, 0.0, 1.2, 0.0).unwrap(),
        sector(center, 8.0, 20.0, 0.0, 1.2, 4.0).unwrap(),
        sector(center, 8.0, 20.0, 0.0, 0.0, 4.0).unwrap(),
        sector(center, 8.0, 8.0, 0.0, 1.2, 0.0).unwrap(),
        sector(center, 0.0, 20.0, 0.0, core::f64::consts::TAU, 0.0).unwrap(),
        sector(center, 6.0, 20.0, 0.0, core::f64::consts::TAU, 3.0).unwrap(),
        sector(center, 0.0, 0.0, 0.2, 1.1, 0.0).unwrap(),
        sector(center, 4.0, 18.0, 1.1, 0.2, 2.0).unwrap(),
    ];
    for path in &cases {
        assert_eq!(path.verbs, expected);
        assert_eq!(path.points.len(), PATH_SECTOR_POINTS);
        assert!(path
            .points
            .iter()
            .all(|point| point.x.is_finite() && point.y.is_finite()));
    }
    assert!(cases[0].has_same_topology(&cases[1]));
    assert!(cases[0].has_same_topology(&cases[4]));
    let pie = &cases[0];
    assert_eq!(pie.points[0], center);
    let ring = &cases[1];
    let hole = ring.points[0];
    let inner = distance(hole, center);
    assert!((inner - 8.0).abs() < 1e-6, "{inner}");
    assert_eq!(
        sector(center, 9.0, 8.0, 0.0, 1.0, 0.0),
        Err(GeometryError::InvalidSector)
    );
}

#[test]
fn area_keeps_cubic_verbs_from_the_source_curve() {
    let curve = PathData::cubic(
        point(0.0, 4.0),
        point(4.0, 0.0),
        point(8.0, 8.0),
        point(12.0, 4.0),
    )
    .unwrap();
    let area = curve.area(num(10.0)).unwrap();
    assert_eq!(
        area.verbs,
        vec![
            PathVerb::Move,
            PathVerb::Line,
            PathVerb::Cubic,
            PathVerb::Line,
            PathVerb::Close,
        ]
    );
    assert_eq!(area.points[0], point(0.0, 10.0));
    assert_eq!(area.points[1], point(0.0, 4.0));
    assert_eq!(area.points[2], point(4.0, 0.0));
    assert_eq!(area.points[3], point(8.0, 8.0));
    assert_eq!(area.points[4], point(12.0, 4.0));
    assert_eq!(area.points[5], point(12.0, 10.0));
    let trimmed = trim(&area, 0.0, 0.4);
    let trimmed_end = point_at(&trimmed, 1.0);
    let sampled = point_at(&area, 0.4);
    assert!((f(trimmed_end.x) - f(sampled.x)).abs() < 1e-12);
    assert!((f(trimmed_end.y) - f(sampled.y)).abs() < 1e-12);
}

#[test]
fn rounded_sectors_are_continuous_at_animation_boundaries() {
    let epsilon = 1e-6;
    let tau = core::f64::consts::TAU;
    for direction in [-1.0, 1.0] {
        for start in [0.0, -core::f64::consts::FRAC_PI_2] {
            // (inner, outer, sweep, corner): holes, thickness, sweeps and corners can
            // all reach zero during an ordinary animation without changing the outline.
            for (from, to) in [
                ((0.0, 100.0, 0.2, 10.0), (epsilon, 100.0, 0.2, 10.0)),
                ((0.0, 100.0, 1.5, 10.0), (epsilon, 100.0, 1.5, 10.0)),
                ((0.0, 100.0, 4.5, 10.0), (epsilon, 100.0, 4.5, 10.0)),
                ((50.0, 50.0, 1.5, 10.0), (50.0, 50.0 + epsilon, 1.5, 10.0)),
                ((50.0, 100.0, 0.0, 10.0), (50.0, 100.0, epsilon, 10.0)),
                ((50.0, 100.0, tau, 10.0), (50.0, 100.0, tau - epsilon, 10.0)),
                ((0.0, 100.0, tau, 10.0), (0.0, 100.0, tau - epsilon, 10.0)),
                ((50.0, 100.0, 1.5, 0.0), (50.0, 100.0, 1.5, epsilon)),
            ] {
                let make = |(inner, outer, sweep, corner): (f64, f64, f64, f64)| {
                    sector(
                        point(0.0, 0.0),
                        inner,
                        outer,
                        start,
                        start + direction * sweep,
                        corner,
                    )
                    .unwrap()
                };
                let a = make(from);
                let b = make(to);
                assert!(a.has_same_topology(&b));
                let displacement = a
                    .points
                    .iter()
                    .zip(&b.points)
                    .map(|(a, b)| distance(*a, *b))
                    .fold(0.0, f64::max);
                assert!(
                    displacement < 0.01,
                    "jump of {displacement}: {from:?} -> {to:?}"
                );
            }
        }
    }
}

fn polygon(ring: &Vec<Point>) -> Polygon<f64> {
    let ring = ring
        .iter()
        .map(|p| Coord {
            x: f(p.x),
            y: f(p.y),
        })
        .collect::<Vec<_>>();
    Polygon::new(LineString::new(ring), Vec::new())
}

#[test]
fn rounded_full_turn_has_no_seam_notch_and_preserves_the_hole() {
    for inner in [0.0, 50.0] {
        for direction in [-1.0, 1.0] {
            let make = |corner| {
                sector(
                    point(0.0, 0.0),
                    inner,
                    100.0,
                    0.0,
                    direction * core::f64::consts::TAU,
                    corner,
                )
                .unwrap()
            };
            let rounded = make(10.0);
            let plain = make(0.0);
            assert_eq!(rounded.verbs, plain.verbs);
            for (a, b) in rounded.points.iter().zip(&plain.points) {
                assert!(a.x.eq_value(b.x) && a.y.eq_value(b.y));
            }
            let flat = flatten(&curve, &rounded).unwrap();
            let polygon = polygon(single_polygon(&flat).unwrap());
            for y in [-0.1, 0.1] {
                assert!(polygon.contains(&geo::Point::new(95.0, y)));
                assert!(polygon.contains(&geo::Point::new(51.0, y)));
            }
            if inner > 0.0 {
                assert!(!polygon.contains(&geo::Point::new(1.0, 1.0)));
            }
        }
    }
}

#[test]
fn area_band_reverses_cubic_controls_and_rejects_misaligned_inputs() {
    let upper = PathData::cubic(
        point(0.0, 2.0),
        point(4.0, 0.0),
        point(8.0, 0.0),
        point(12.0, 2.0),
    )
    .unwrap();
    let lower = PathData::cubic(
        point(0.0, 8.0),
        point(4.0, 10.0),
        point(8.0, 10.0),
        point(12.0, 8.0),
    )
    .unwrap();
    let band = PathData::area_band(&upper, &lower).unwrap();
    assert_eq!(
        band.verbs,
        vec![
            PathVerb::Move,
            PathVerb::Cubic,
            PathVerb::Line,
            PathVerb::Cubic,
            PathVerb::Close,
        ]
    );
    assert_eq!(band.points[0], point(0.0, 2.0));
    assert_eq!(band.points[4], point(12.0, 8.0));
    assert_eq!(band.points[5], point(8.0, 10.0));
    assert_eq!(band.points[6], point(4.0, 10.0));
    assert_eq!(band.points[7], point(0.0, 8.0));
    let flat = PathData::line(vec![point(0.0, 2.0), point(6.0, 2.0), point(12.0, 2.0)]).unwrap();
    assert_eq!(
        PathData::area_band(&upper, &flat),
        Err(GeometryError::AreaBandMismatch)
    );
    let decreasing = PathData::line(vec![point(12.0, 2.0), point(0.0, 2.0)]).unwrap();
    assert_eq!(
        PathData::area_band(&decreasing, &decreasing),
        Err(GeometryError::AreaBandMismatch)
    );
    let shifted =
        PathData::line(vec![point(100.0, 4.0), point(106.0, 4.0), point(112.0, 4.0)]).unwrap();
    let middle_shifted =
        PathData::line(vec![point(0.0, 4.0), point(7.0, 4.0), point(12.0, 4.0)]).unwrap();
    for lower in [&shifted, &middle_shifted] {
        assert_eq!(
            PathData::area_band(&flat, lower),
            Err(GeometryError::AreaBandMismatch)
        );
    }
    let mut shifted_curve = lower.duplicate();
    shifted_curve.points.last_mut().unwrap().x = num(13.0);
    assert_eq!(
        PathData::area_band(&upper, &shifted_curve),
        Err(GeometryError::AreaBandMismatch)
    );
    assert!(
        PathData::area_band(&upper, &upper).is_ok(),
        "zero bandwidth is an animation endpoint"
    );
}

fn rings(value: MultiPolygon<f64>) -> Vec<Vec<Point>> {
    let ring = |r: &LineString<f64>| r.0.iter().map(|c| point(c.x, c.y)).collect::<Vec<_>>();
    let mut out = Vec::new();
    for polygon in &value.0 {
        out.push(ring(polygon.exterior()));
        for interior in polygon.interiors() {
            out.push(ring(interior));
        }
    }
    out
}

fn combine(a: &Vec<Point>, b: &Vec<Point>, op: PathBooleanOp) -> Vec<Vec<Point>> {
    let left = polygon(a);
    let right = polygon(b);
    rings(match op {
        PathBooleanOp::Union => left.union(&right),
        PathBooleanOp::Intersection => left.intersection(&right),
        PathBooleanOp::Difference => left.difference(&right),
        PathBooleanOp::Xor => left.xor(&right),
    })
}

fn rectangle(x0: f64, y0: f64, x1: f64, y1: f64) -> PathData {
    PathData::new(
        vec![
            PathVerb::Move,
            PathVerb::Line,
            PathVerb::Line,
            PathVerb::Line,
            PathVerb::Close,
        ],
        vec![point(x0, y0), point(x1, y0), point(x1, y1), point(x0, y1)],
    )
    .unwrap()
}

#[test]
fn prepare_time_boolean_freezes_variable_topology_as_path_data() {
    let left = rectangle(0.0, 0.0, 10.0, 10.0);
    let right = rectangle(5.0, 0.0, 15.0, 10.0);
    for op in [
        PathBooleanOp::Union,
        PathBooleanOp::Intersection,
        PathBooleanOp::Difference,
        PathBooleanOp::Xor,
    ] {
        let result = left.boolean(&curve, &combine, &right, op).unwrap();
        result.validate().unwrap();
        assert!(!result.verbs.is_empty());
    }

    let disjoint = rectangle(20.0, 20.0, 30.0, 30.0);
    let empty = left
        .boolean(&curve, &combine, &disjoint, PathBooleanOp::Intersection)
        .unwrap();
    assert!(empty.verbs.is_empty());
    empty.validate().unwrap();
}

#[test]
fn a_polygon_operation_needs_one_closed_contour_each() {
    let square = rectangle(0.0, 0.0, 1.0, 1.0);
    assert_eq!(
        line().boolean(&curve, &combine, &square, PathBooleanOp::Union),
        Err(GeometryError::ClosedContourRequired)
    );
    let none = PathData::new(vec![], vec![]).unwrap();
    assert_eq!(
        square.boolean(&curve, &combine, &none, PathBooleanOp::Union),
        Err(GeometryError::SingleContourRequired)
    );
}

#[test]
fn invalid_paths_name_their_fault() {
    assert_eq!(
        PathData::new(vec![PathVerb::Line], vec![point(0.0, 0.0)]),
        Err(GeometryError::MissingMove)
    );
    assert_eq!(
        PathData::new(vec![PathVerb::Move], vec![]),
        Err(GeometryError::PointCount {
            expected: 1,
            actual: 0
        })
    );
    assert_eq!(
        PathData::line(vec![point(0.0, 0.0)]),
        Err(GeometryError::TooFewPoints)
    );
    assert_eq!(
        PathData::new(vec![PathVerb::Move], vec![point(f64::NAN, 0.0)]),
        Err(GeometryError::NonFinite)
    );
    assert_eq!(
        GeometryError::PointCount {
            expected: 3,
            actual: 12
        }
        .message(),
        "path expects 3 points but has 12"
    );
}

fn svg_number(x: Scalar) -> String {
    let x = f(x);
    if x.fract() == 0.0 && x.abs() < 1e15 {
        format!("{}", x as i64)
    } else {
        format!("{x}")
    }
}

#[test]
fn path_text_lists_letters_and_coordinates() {
    assert_eq!(
        rectangle(0.0, 0.5, 10.0, 2.0).to_svg_path(&svg_number),
        "M 0 0.5 L 10 0.5 L 10 2 L 0 2 Z"
    );
    assert_eq!(arch().to_svg_path(&svg_number), "M 0 0 C 0 10 10 10 10 0");
    assert_eq!(
        PathData::new(vec![], vec![])
            .unwrap()
            .to_svg_path(&svg_number),
        ""
    );
}

#[test]
fn a_flat_curve_ends_on_its_last_point() {
    let flat = flatten(&curve, &arch()).unwrap();
    assert_eq!(flat.len(), 1);
    assert_eq!(flat[0].points.len(), PATH_CURVE_STEPS + 1);
    assert_eq!(flat[0].points[PATH_CURVE_STEPS], point(10.0, 0.0));
    assert!(!flat[0].closed);
}
