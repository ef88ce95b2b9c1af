//! Where gradients run: which way a direction points, which stretch of its axis a gradient spans, and what
//! is recorded of it.

use vstd::prelude::*;

use crate::gradient::{
    direction_step, gradient_axis_of, DirectionStep, GradientAxis, GradientGeometry, HorizontalKeyword,
    LinearGradientDirection, SpreadMode, VerticalKeyword,
};
use crate::gradient_record::{recorded, sum_of, GradientSeen, GradientStop, GradientSum, ImageSeen};
use crate::recording::{Point, Rect};
use crate::scalar::{num, Scalar};

verus! {

/// Angles turn clockwise from the top: 0 degrees point up, 90 right, 180 down and 270 left; any other
/// angle is left to the host.
pub proof fn angles_turn_clockwise_from_the_top(x: Scalar)
    ensures
        direction_step(LinearGradientDirection::Angle(x)) == if x.eq_spec(num(0)) {
            DirectionStep::Exact(num(0), num(0xbff0_0000_0000_0000))
        } else if x.eq_spec(num(0x4056_8000_0000_0000)) {
            DirectionStep::Exact(num(0x3ff0_0000_0000_0000), num(0))
        } else if x.eq_spec(num(0x4066_8000_0000_0000)) {
            DirectionStep::Exact(num(0), num(0x3ff0_0000_0000_0000))
        } else if x.eq_spec(num(0x4070_e000_0000_0000)) {
            DirectionStep::Exact(num(0xbff0_0000_0000_0000), num(0))
        } else {
            DirectionStep::Turn(x)
        },
{
}

/// A side points at itself, a pair of sides at their corner.
pub proof fn sides_point_at_themselves()
    ensures
        ({
            let (one, minus) = (num(0x3ff0_0000_0000_0000), num(0xbff0_0000_0000_0000));
            let (left, right) = (Some(HorizontalKeyword::Left), Some(HorizontalKeyword::Right));
            let (top, bottom) = (Some(VerticalKeyword::Top), Some(VerticalKeyword::Bottom));
            &&& direction_step(LinearGradientDirection::Keyword(left, None)) == DirectionStep::Exact(
                minus,
                num(0),
            )
            &&& direction_step(LinearGradientDirection::Keyword(right, None)) == DirectionStep::Exact(
                one,
                num(0),
            )
            &&& direction_step(LinearGradientDirection::Keyword(None, top)) == DirectionStep::Exact(
                num(0),
                minus,
            )
            &&& direction_step(LinearGradientDirection::Keyword(None, bottom)) == DirectionStep::Exact(
                num(0),
                one,
            )
            &&& direction_step(LinearGradientDirection::Keyword(left, top))
                == DirectionStep::Diagonal(minus, minus)
            &&& direction_step(LinearGradientDirection::Keyword(right, top))
                == DirectionStep::Diagonal(one, minus)
            &&& direction_step(LinearGradientDirection::Keyword(left, bottom))
                == DirectionStep::Diagonal(minus, one)
            &&& direction_step(LinearGradientDirection::Keyword(right, bottom))
                == DirectionStep::Diagonal(one, one)
            &&& direction_step(LinearGradientDirection::Keyword(None, None))
                == DirectionStep::Unsupported
        }),
{
}

/// Whether a gradient spans a stretch of its axis: without repetition all of it, with repetition one
/// period from its first stop.
pub open spec fn is_stretch(
    a: GradientAxis,
    repeating: bool,
    first: Scalar,
    period: Scalar,
    whole: Scalar,
) -> bool {
    if repeating {
        a == GradientAxis { start: first, extent: period, spread: SpreadMode::Repeat }
    } else {
        a == GradientAxis { start: num(0), extent: whole, spread: SpreadMode::Pad }
    }
}

/// A linear gradient with a direction and a stop spans its axis, or repeats a period that is positive.
pub proof fn linear_gradients_span_their_axis(
    drawable: bool,
    stops: usize,
    first: Scalar,
    period: Scalar,
    axis: Scalar,
    repeating: bool,
)
    ensures
        ({
            let g = gradient_axis_of(
                GradientGeometry::Linear { drawable, stops, first, period, axis },
                repeating,
            );
            let shown = drawable && stops > 0 && (repeating ==> period.is_nan_spec()
                || period.order() > 0);
            &&& shown ==> g is Some && is_stretch(g->0, repeating, first, period, axis)
            &&& !shown ==> g is None
        }),
{
}

/// A radial gradient spans its radius, a conic one the full turn, and each repeats a period that is longer
/// than a millionth.
pub proof fn round_gradients_span_their_turn(
    start: Scalar,
    period: Scalar,
    scale: Scalar,
    repeating: bool,
)
    ensures
        ({
            let least = num(0x3eb0_c6f7_a000_0000);
            let shown = repeating ==> period.is_nan_spec() || period.order() > least.order();
            let r = gradient_axis_of(GradientGeometry::Radial { start, period, scale }, repeating);
            let c = gradient_axis_of(GradientGeometry::Conic { start, period }, repeating);
            let radius = if least.lt_spec(scale) { scale } else { least };
            &&& shown ==> r is Some && is_stretch(r->0, repeating, start, period, radius)
            &&& shown ==> c is Some && is_stretch(
                c->0,
                repeating,
                start,
                period,
                num(0x4076_8000_0000_0000),
            )
            &&& !shown ==> r is None && c is None
        }),
{
}

/// Whether stops keep their number, order and colors, and stand at their share of a stretch.
pub open spec fn share_of<C: Fn(&GradientSum) -> Scalar>(
    calc: C,
    stops: Seq<GradientStop>,
    start: Scalar,
    extent: Scalar,
    single: bool,
    out: Seq<GradientStop>,
) -> bool {
    &&& out.len() == stops.len()
    &&& forall|i: int|
        0 <= i < stops.len() ==> (#[trigger] out[i]).color == stops[i].color && out[i].position
            == sum_of(
            calc,
            GradientSum::Share { position: stops[i].position, start, extent, single },
        )
}

/// Whether a point lies on an axis through the middle of a box.
pub open spec fn lies_along<C: Fn(&GradientSum) -> Scalar>(
    calc: C,
    rect: Rect,
    direction: Point,
    axis: Scalar,
    at: Scalar,
    p: Point,
) -> bool {
    let x = sum_of(calc, GradientSum::Middle { start: rect.x, size: rect.width });
    let y = sum_of(calc, GradientSum::Middle { start: rect.y, size: rect.height });
    &&& p.x == sum_of(calc, GradientSum::Along { middle: x, at, axis, direction: direction.x })
    &&& p.y == sum_of(calc, GradientSum::Along { middle: y, at, axis, direction: direction.y })
}

/// A linear gradient that does not repeat is recorded from one end of its axis to the other, with its
/// stops at their shares of it; one that repeats, from its first stop over one period.
pub proof fn linear_gradients_are_recorded_along_their_axis<C: Fn(&GradientSum) -> Scalar>(
    calc: C,
    direction: Point,
    axis: Scalar,
    stops: Seq<GradientStop>,
    repeating: bool,
    rect: Rect,
)
    requires
        0 < stops.len() <= usize::MAX,
    ensures
        ({
            let period = sum_of(
                calc,
                GradientSum::Period { first: stops[0].position, last: stops.last().position },
            );
            let start = if repeating { stops[0].position } else { num(0) };
            let extent = if repeating { period } else { axis };
            let end = sum_of(calc, GradientSum::Total { a: start, b: extent });
            let r = recorded(calc, ImageSeen::Linear(Some(direction), axis, stops), repeating, rect);
            if repeating && !period.is_nan_spec() && period.order() <= 0 {
                r is None
            } else {
                match r {
                    Some(GradientSeen::Linear(p, q, out, spread)) => {
                        &&& lies_along(calc, rect, direction, axis, start, p)
                        &&& lies_along(calc, rect, direction, axis, end, q)
                        &&& share_of(calc, stops, start, extent, false, out)
                        &&& spread == if repeating { SpreadMode::Repeat } else { SpreadMode::Pad }
                    },
                    _ => false,
                }
            }
        }),
{
}

/// A gradient without a direction or without stops is not recorded, nor is another image.
pub proof fn other_images_are_not_recorded<C: Fn(&GradientSum) -> Scalar>(
    calc: C,
    axis: Scalar,
    stops: Seq<GradientStop>,
    direction: Option<Point>,
    repeating: bool,
    rect: Rect,
)
    ensures
        recorded(calc, ImageSeen::Linear(None, axis, stops), repeating, rect) is None,
        recorded(calc, ImageSeen::Linear(direction, axis, seq![]), repeating, rect) is None,
        recorded(calc, ImageSeen::Other, repeating, rect) is None,
{
}

/// A radial gradient is recorded about its center in the box, with its radii stretched to what it spans;
/// a conic one about its center, from its clock angle over what it spans.
pub proof fn round_gradients_are_recorded_about_their_center<C: Fn(&GradientSum) -> Scalar>(
    calc: C,
    center: Point,
    inverse: Point,
    scale: Scalar,
    from: Scalar,
    start: Scalar,
    period: Scalar,
    stops: Seq<GradientStop>,
    repeating: bool,
    rect: Rect,
)
    requires
        repeating ==> num(0x3eb0_c6f7_a000_0000).lt_spec(period),
    ensures
        ({
            let least = num(0x3eb0_c6f7_a000_0000);
            let radius = if least.lt_spec(scale) { scale } else { least };
            let at = Point {
                x: sum_of(calc, GradientSum::Total { a: rect.x, b: center.x }),
                y: sum_of(calc, GradientSum::Total { a: rect.y, b: center.y }),
            };
            let first = if repeating { start } else { num(0) };
            let spans = if repeating { SpreadMode::Repeat } else { SpreadMode::Pad };
            let r = recorded(
                calc,
                ImageSeen::Radial(center, inverse, scale, start, period, stops),
                repeating,
                rect,
            );
            let c = recorded(
                calc,
                ImageSeen::Conic(center, from, start, period, stops),
                repeating,
                rect,
            );
            &&& match r {
                Some(GradientSeen::Radial(middle, radii, out, spread)) => {
                    let extent = if repeating { period } else { radius };
                    &&& middle == at
                    &&& radii.x == sum_of(
                        calc,
                        GradientSum::Radius { inverse: inverse.x, extent, scale: radius },
                    )
                    &&& radii.y == sum_of(
                        calc,
                        GradientSum::Radius { inverse: inverse.y, extent, scale: radius },
                    )
                    &&& share_of(calc, stops, first, extent, true, out)
                    &&& spread == spans
                },
                _ => false,
            }
            &&& match c {
                Some(GradientSeen::Conic(middle, angle, sweep, out, spread)) => {
                    &&& middle == at
                    &&& angle == sum_of(calc, GradientSum::Clock { from, start: first })
                    &&& sweep == if repeating { period } else { num(0x4076_8000_0000_0000) }
                    &&& share_of(calc, stops, first, sweep, true, out)
                    &&& spread == spans
                },
                _ => false,
            }
        }),
{
}

} // verus!
