//! Recorded gradients: the stretch of the axis, the stops along it, and its place in the box.

use vstd::prelude::*;

use crate::gradient::{
    gradient_axis_of, gradient_paint, GradientAxis, GradientGeometry, SpreadMode,
};
use crate::recording::{Point, Rect, Rgba};
use crate::scalar::{num, Scalar, ZERO};

verus! {

/// A color at a position.
#[derive(Clone, Copy, Debug, PartialEq, Eq, Structural)]
pub struct GradientStop {
    pub position: Scalar,
    pub color: Rgba,
}

/// A background gradient as the style engine resolved it. Stops stand at positions along the axis.
#[derive(Debug)]
pub enum GradientImage {
    /// Unit direction, absent where it cannot be drawn, and length of the axis.
    Linear { direction: Option<Point>, axis: Scalar, stops: Vec<GradientStop> },
    /// Center inside the box, inverse radii, scale of the radii, and one period along it.
    Radial {
        center: Point,
        inverse: Point,
        scale: Scalar,
        start: Scalar,
        period: Scalar,
        stops: Vec<GradientStop>,
    },
    /// Center inside the box, first angle, and one period, in degrees.
    Conic {
        center: Point,
        from: Scalar,
        start: Scalar,
        period: Scalar,
        stops: Vec<GradientStop>,
    },
    /// No image, or one that is fetched by URL.
    Other,
}

/// A gradient image by its contents.
pub enum ImageSeen {
    Linear(Option<Point>, Scalar, Seq<GradientStop>),
    Radial(Point, Point, Scalar, Scalar, Scalar, Seq<GradientStop>),
    Conic(Point, Scalar, Scalar, Scalar, Seq<GradientStop>),
    Other,
}

impl View for GradientImage {
    type V = ImageSeen;

    open spec fn view(&self) -> ImageSeen {
        match *self {
            GradientImage::Linear { direction, axis, stops } => ImageSeen::Linear(
                direction,
                axis,
                stops@,
            ),
            GradientImage::Radial { center, inverse, scale, start, period, stops } =>
                ImageSeen::Radial(center, inverse, scale, start, period, stops@),
            GradientImage::Conic { center, from, start, period, stops } => ImageSeen::Conic(
                center,
                from,
                start,
                period,
                stops@,
            ),
            GradientImage::Other => ImageSeen::Other,
        }
    }
}

/// Arithmetic that the host does.
#[derive(Clone, Copy, Debug, PartialEq, Eq, Structural)]
pub enum GradientSum {
    /// `last - first`, in single precision.
    Period { first: Scalar, last: Scalar },
    /// `(position - start) / extent`, in single precision where `single` is set.
    Share { position: Scalar, start: Scalar, extent: Scalar, single: bool },
    /// The middle of a side: `start + size / 2`.
    Middle { start: Scalar, size: Scalar },
    /// `a + b`
    Total { a: Scalar, b: Scalar },
    /// `middle + (at - axis / 2) * direction`
    Along { middle: Scalar, at: Scalar, axis: Scalar, direction: Scalar },
    /// A radius from its inverse, times `extent / scale`.
    Radius { inverse: Scalar, extent: Scalar, scale: Scalar },
    /// Angles of styles start at twelve o'clock, recorded ones at three: `from - 90 + start`.
    Clock { from: Scalar, start: Scalar },
}

/// A gradient as it is recorded. Its stops stand at shares of its extent.
#[derive(Debug)]
pub enum RecordedGradient {
    Linear { start: Point, end: Point, stops: Vec<GradientStop>, spread: SpreadMode },
    Radial { center: Point, radii: Point, stops: Vec<GradientStop>, spread: SpreadMode },
    Conic {
        center: Point,
        start_angle: Scalar,
        sweep_angle: Scalar,
        stops: Vec<GradientStop>,
        spread: SpreadMode,
    },
}

/// A recorded gradient by its contents.
pub enum GradientSeen {
    Linear(Point, Point, Seq<GradientStop>, SpreadMode),
    Radial(Point, Point, Seq<GradientStop>, SpreadMode),
    Conic(Point, Scalar, Scalar, Seq<GradientStop>, SpreadMode),
}

impl View for RecordedGradient {
    type V = GradientSeen;

    open spec fn view(&self) -> GradientSeen {
        match *self {
            RecordedGradient::Linear { start, end, stops, spread } => GradientSeen::Linear(
                start,
                end,
                stops@,
                spread,
            ),
            RecordedGradient::Radial { center, radii, stops, spread } => GradientSeen::Radial(
                center,
                radii,
                stops@,
                spread,
            ),
            RecordedGradient::Conic { center, start_angle, sweep_angle, stops, spread } =>
                GradientSeen::Conic(center, start_angle, sweep_angle, stops@, spread),
        }
    }
}

/// Whether the host answers every sum, and one sum always in the same way.
pub open spec fn sums_ready<C: Fn(&GradientSum) -> Scalar>(calc: C) -> bool {
    &&& forall|s: GradientSum| call_requires(calc, (&s,))
    &&& forall|s: GradientSum, a: Scalar, b: Scalar|
        #[trigger] call_ensures(calc, (&s,), a) && #[trigger] call_ensures(calc, (&s,), b) ==> a
            == b
}

/// The host's sum.
pub open spec fn sum_of<C: Fn(&GradientSum) -> Scalar>(calc: C, s: GradientSum) -> Scalar {
    choose|x: Scalar| call_ensures(calc, (&s,), x)
}

/// The geometry that decides over a gradient.
pub open spec fn geometry_of<C: Fn(&GradientSum) -> Scalar>(calc: C, image: ImageSeen) -> GradientGeometry {
    match image {
        ImageSeen::Linear(direction, axis, stops) => GradientGeometry::Linear {
            drawable: direction is Some,
            stops: stops.len() as usize,
            first: if stops.len() > 0 { stops[0].position } else { num(ZERO) },
            period: if stops.len() > 0 {
                sum_of(
                    calc,
                    GradientSum::Period { first: stops[0].position, last: stops.last().position },
                )
            } else {
                num(ZERO)
            },
            axis,
        },
        ImageSeen::Radial(_, _, scale, start, period, _) => GradientGeometry::Radial {
            start,
            period,
            scale,
        },
        ImageSeen::Conic(_, _, start, period, _) => GradientGeometry::Conic { start, period },
        ImageSeen::Other => GradientGeometry::Other,
    }
}

/// A stop at its share of the extent.
pub open spec fn shared_stop<C: Fn(&GradientSum) -> Scalar>(
    calc: C,
    stop: GradientStop,
    axis: GradientAxis,
    single: bool,
) -> GradientStop {
    GradientStop {
        position: sum_of(
            calc,
            GradientSum::Share {
                position: stop.position,
                start: axis.start,
                extent: axis.extent,
                single,
            },
        ),
        color: stop.color,
    }
}

/// All stops at their shares of the extent.
pub open spec fn shared_stops<C: Fn(&GradientSum) -> Scalar>(
    calc: C,
    stops: Seq<GradientStop>,
    axis: GradientAxis,
    single: bool,
) -> Seq<GradientStop> {
    stops.map_values(|stop: GradientStop| shared_stop(calc, stop, axis, single))
}

/// The point of a linear axis at a position, around the middle of the box.
pub open spec fn axis_point<C: Fn(&GradientSum) -> Scalar>(
    calc: C,
    rect: Rect,
    direction: Point,
    axis: Scalar,
    at: Scalar,
) -> Point {
    Point {
        x: sum_of(
            calc,
            GradientSum::Along {
                middle: sum_of(calc, GradientSum::Middle { start: rect.x, size: rect.width }),
                at,
                axis,
                direction: direction.x,
            },
        ),
        y: sum_of(
            calc,
            GradientSum::Along {
                middle: sum_of(calc, GradientSum::Middle { start: rect.y, size: rect.height }),
                at,
                axis,
                direction: direction.y,
            },
        ),
    }
}

/// A point inside the box on the page.
pub open spec fn box_point<C: Fn(&GradientSum) -> Scalar>(calc: C, rect: Rect, at: Point) -> Point {
    Point {
        x: sum_of(calc, GradientSum::Total { a: rect.x, b: at.x }),
        y: sum_of(calc, GradientSum::Total { a: rect.y, b: at.y }),
    }
}

/// The radius scale that a radial gradient spans where it does not repeat.
pub open spec fn whole_radius(scale: Scalar) -> Scalar {
    crate::gradient::at_least(scale, num(crate::gradient::PERIOD_EPSILON))
}

/// The recorded form of a gradient along a stretch of its axis.
pub open spec fn recorded_along<C: Fn(&GradientSum) -> Scalar>(
    calc: C,
    image: ImageSeen,
    rect: Rect,
    axis: GradientAxis,
) -> Option<GradientSeen> {
    match image {
        ImageSeen::Linear(direction, length, stops) => match direction {
            None => None,
            Some(d) => Some(
                GradientSeen::Linear(
                    axis_point(calc, rect, d, length, axis.start),
                    axis_point(
                        calc,
                        rect,
                        d,
                        length,
                        sum_of(calc, GradientSum::Total { a: axis.start, b: axis.extent }),
                    ),
                    shared_stops(calc, stops, axis, false),
                    axis.spread,
                ),
            ),
        },
        ImageSeen::Radial(center, inverse, scale, _, _, stops) => Some(
            GradientSeen::Radial(
                box_point(calc, rect, center),
                Point {
                    x: sum_of(
                        calc,
                        GradientSum::Radius {
                            inverse: inverse.x,
                            extent: axis.extent,
                            scale: whole_radius(scale),
                        },
                    ),
                    y: sum_of(
                        calc,
                        GradientSum::Radius {
                            inverse: inverse.y,
                            extent: axis.extent,
                            scale: whole_radius(scale),
                        },
                    ),
                },
                shared_stops(calc, stops, axis, true),
                axis.spread,
            ),
        ),
        ImageSeen::Conic(center, from, _, _, stops) => Some(
            GradientSeen::Conic(
                box_point(calc, rect, center),
                sum_of(calc, GradientSum::Clock { from, start: axis.start }),
                axis.extent,
                shared_stops(calc, stops, axis, true),
                axis.spread,
            ),
        ),
        ImageSeen::Other => None,
    }
}

/// The recorded form of a background gradient, where it can be recorded.
pub open spec fn recorded<C: Fn(&GradientSum) -> Scalar>(
    calc: C,
    image: ImageSeen,
    repeating: bool,
    rect: Rect,
) -> Option<GradientSeen> {
    match gradient_axis_of(geometry_of(calc, image), repeating) {
        None => None,
        Some(axis) => recorded_along(calc, image, rect, axis),
    }
}

fn ask<C: Fn(&GradientSum) -> Scalar>(calc: &C, s: GradientSum) -> (r: Scalar)
    requires
        sums_ready(*calc),
    ensures
        r == sum_of(*calc, s),
{
    let r = calc(&s);
    assert(call_ensures(*calc, (&s,), r));
    r
}

fn share_stops<C: Fn(&GradientSum) -> Scalar>(
    calc: &C,
    stops: &Vec<GradientStop>,
    axis: GradientAxis,
    single: bool,
) -> (r: Vec<GradientStop>)
    requires
        sums_ready(*calc),
    ensures
        r@ == shared_stops(*calc, stops@, axis, single),
{
    let mut out: Vec<GradientStop> = Vec::new();
    let mut i: usize = 0;
    while i < stops.len()
        invariant
            sums_ready(*calc),
            i <= stops@.len(),
            out@ == shared_stops(*calc, stops@, axis, single).take(i as int),
        decreases stops@.len() - i,
    {
        let stop = stops[i];
        let position = ask(
            calc,
            GradientSum::Share {
                position: stop.position,
                start: axis.start,
                extent: axis.extent,
                single,
            },
        );
        out.push(GradientStop { position, color: stop.color });
        i = i + 1;
        assert(out@ =~= shared_stops(*calc, stops@, axis, single).take(i as int));
    }
    assert(out@ =~= shared_stops(*calc, stops@, axis, single));
    out
}

fn find_axis_point<C: Fn(&GradientSum) -> Scalar>(
    calc: &C,
    rect: Rect,
    direction: Point,
    axis: Scalar,
    at: Scalar,
) -> (r: Point)
    requires
        sums_ready(*calc),
    ensures
        r == axis_point(*calc, rect, direction, axis, at),
{
    let across = ask(calc, GradientSum::Middle { start: rect.x, size: rect.width });
    let down = ask(calc, GradientSum::Middle { start: rect.y, size: rect.height });
    Point {
        x: ask(calc, GradientSum::Along { middle: across, at, axis, direction: direction.x }),
        y: ask(calc, GradientSum::Along { middle: down, at, axis, direction: direction.y }),
    }
}

fn find_box_point<C: Fn(&GradientSum) -> Scalar>(calc: &C, rect: Rect, at: Point) -> (r: Point)
    requires
        sums_ready(*calc),
    ensures
        r == box_point(*calc, rect, at),
{
    Point {
        x: ask(calc, GradientSum::Total { a: rect.x, b: at.x }),
        y: ask(calc, GradientSum::Total { a: rect.y, b: at.y }),
    }
}

fn find_geometry<C: Fn(&GradientSum) -> Scalar>(calc: &C, image: &GradientImage) -> (r: GradientGeometry)
    requires
        sums_ready(*calc),
    ensures
        r == geometry_of(*calc, image@),
{
    match image {
        GradientImage::Linear { direction, axis, stops } => {
            let n: usize = stops.len();
            let zero = Scalar::from_bits(ZERO);
            let first = if n > 0 { stops[0].position } else { zero };
            let period = if n > 0 {
                ask(calc, GradientSum::Period { first, last: stops[n - 1].position })
            } else {
                zero
            };
            GradientGeometry::Linear {
                drawable: direction.is_some(),
                stops: n,
                first,
                period,
                axis: *axis,
            }
        },
        GradientImage::Radial { center: _, inverse: _, scale, start, period, stops: _ } =>
            GradientGeometry::Radial { start: *start, period: *period, scale: *scale },
        GradientImage::Conic { center: _, from: _, start, period, stops: _ } =>
            GradientGeometry::Conic { start: *start, period: *period },
        GradientImage::Other => GradientGeometry::Other,
    }
}

/// A recorded gradient by its contents, where there is one.
pub open spec fn maybe_seen(r: Option<RecordedGradient>) -> Option<GradientSeen> {
    match r {
        Some(g) => Some(g@),
        None => None,
    }
}

/// Records a background gradient inside a box, where it can be recorded.
pub fn record_gradient<C: Fn(&GradientSum) -> Scalar>(
    calc: &C,
    image: &GradientImage,
    repeating: bool,
    rect: Rect,
) -> (r: Option<RecordedGradient>)
    requires
        sums_ready(*calc),
    ensures
        maybe_seen(r) == recorded(*calc, image@, repeating, rect),
{
    let geometry = find_geometry(calc, image);
    let axis = match gradient_paint(geometry, repeating) {
        None => {
            return None;
        },
        Some(axis) => axis,
    };
    match image {
        GradientImage::Linear { direction, axis: length, stops } => match *direction {
            None => None,
            Some(d) => {
                let end = ask(calc, GradientSum::Total { a: axis.start, b: axis.extent });
                Some(
                    RecordedGradient::Linear {
                        start: find_axis_point(calc, rect, d, *length, axis.start),
                        end: find_axis_point(calc, rect, d, *length, end),
                        stops: share_stops(calc, stops, axis, false),
                        spread: axis.spread,
                    },
                )
            },
        },
        GradientImage::Radial { center, inverse, scale, start: _, period: _, stops } => {
            let epsilon = Scalar::from_bits(crate::gradient::PERIOD_EPSILON);
            let whole = if epsilon.lt(*scale) { *scale } else { epsilon };
            let extent = axis.extent;
            Some(
                RecordedGradient::Radial {
                    center: find_box_point(calc, rect, *center),
                    radii: Point {
                        x: ask(
                            calc,
                            GradientSum::Radius { inverse: inverse.x, extent, scale: whole },
                        ),
                        y: ask(
                            calc,
                            GradientSum::Radius { inverse: inverse.y, extent, scale: whole },
                        ),
                    },
                    stops: share_stops(calc, stops, axis, true),
                    spread: axis.spread,
                },
            )
        },
        GradientImage::Conic { center, from, start: _, period: _, stops } => Some(
            RecordedGradient::Conic {
                center: find_box_point(calc, rect, *center),
                start_angle: ask(
                    calc,
                    GradientSum::Clock { from: *from, start: axis.start },
                ),
                sweep_angle: axis.extent,
                stops: share_stops(calc, stops, axis, true),
                spread: axis.spread,
            },
        ),
        GradientImage::Other => None,
    }
}

/// Recording a gradient keeps the colors of its stops, in their order.
pub proof fn colors_are_kept<C: Fn(&GradientSum) -> Scalar>(
    calc: C,
    stops: Seq<GradientStop>,
    axis: GradientAxis,
    single: bool,
)
    ensures
        shared_stops(calc, stops, axis, single).len() == stops.len(),
        forall|i: int|
            0 <= i < stops.len() ==> (#[trigger] shared_stops(calc, stops, axis, single)[i]).color
                == stops[i].color,
{
}

} // verus!
