//! Layer effects and advanced filters: what each property sets, in which unit, and within which bounds.

use vstd::prelude::*;

use crate::artifact::SceneNode;
use crate::bindings::{style_valued, styled};
use crate::effects::{
    accepted_distance, effects_of, perspective_product, position_given, position_product, visible_effects,
    LayerEffects, LengthProduct, PerspectiveLength, Sizing,
};
use crate::filters::{backdrop_given, filters_given};
use crate::layout_error::LayoutFault;
use crate::recording::{FilterOp, Point};
use crate::scalar::{num, Scalar};
use crate::text::begins;
use crate::value::{Length, LengthUnit, Value};

verus! {

/// Names of different lengths differ; those of one length differ in some character.
proof fn effect_names()
    ensures
        "rotate-x"@.len() == 8,
        "rotate-y"@.len() == 8,
        "perspective"@.len() == 11,
        "paper-grain"@.len() == 11,
        "contact-shadow"@.len() == 14,
        "rotate-x"@ != "rotate-y"@,
        "perspective"@ != "paper-grain"@,
{
    reveal_strlit("rotate-x");
    reveal_strlit("rotate-y");
    reveal_strlit("perspective");
    reveal_strlit("paper-grain");
    reveal_strlit("contact-shadow");
    assert("rotate-x"@[7] != "rotate-y"@[7]);
    assert("perspective"@[1] != "paper-grain"@[1]);
}

/// Names of different lengths differ; those of one length differ in some character.
proof fn mode_names()
    ensures
        "fractal"@.len() == 7,
        "turbulence"@.len() == 10,
{
    reveal_strlit("fractal");
    reveal_strlit("turbulence");
}

/// Without a style a layer is neither turned nor grained and casts no shadow.
pub proof fn layers_have_no_effects_of_their_own(
    node: SceneNode,
    values: Seq<Value>,
    at: int,
    degrees: Seq<Scalar>,
)
    ensures
        ({
            let fx = effects_of(node, values, at, degrees, 0);
            &&& fx is Ok
            &&& fx->Ok_0.rotate_x_deg == num(0)
            &&& fx->Ok_0.rotate_y_deg == num(0)
            &&& fx->Ok_0.perspective is None
            &&& fx->Ok_0.paper_grain == num(0)
            &&& fx->Ok_0.contact_shadow == num(0)
        }),
{
}

/// The number that a value of an angle stands for: a number is in degrees already.
pub open spec fn angle_given(v: Value, degrees: Scalar, x: Scalar) -> bool {
    match v {
        Value::Number(n) => n.finite() && x == n,
        Value::Angle(a) => a.value.finite() && x == degrees,
        _ => false,
    }
}

/// The length that a value of a perspective stands for: a number is in pixels.
pub open spec fn length_given(v: Value, p: PerspectiveLength) -> bool {
    match p {
        PerspectiveLength::Px(x) => x.finite() && x.order() > 0 && (v == Value::Number(x) || v
            == Value::Length(Length { value: x, unit: LengthUnit::Px })),
        PerspectiveLength::Rem(x) => x.finite() && x.order() > 0 && v == Value::Length(
            Length { value: x, unit: LengthUnit::Rem },
        ),
        PerspectiveLength::Em(x) => x.finite() && x.order() > 0 && v == Value::Length(
            Length { value: x, unit: LengthUnit::Em },
        ),
        PerspectiveLength::Vw(x) => x.finite() && x.order() > 0 && v == Value::Length(
            Length { value: x, unit: LengthUnit::Vw },
        ),
        PerspectiveLength::Vh(x) => x.finite() && x.order() > 0 && v == Value::Length(
            Length { value: x, unit: LengthUnit::Vh },
        ),
    }
}

/// The share that a number stands for: at least 0, at most 1.
pub open spec fn share_given(v: Value, x: Scalar) -> bool {
    match v {
        Value::Number(n) => n.finite() && if n.order() < 0 {
            x == num(0)
        } else if n.order() > 0x3ff0_0000_0000_0000 {
            x == num(0x3ff0_0000_0000_0000)
        } else {
            x == n
        },
        _ => false,
    }
}

/// Whether effects differ at most in what one property sets, and that is what its value says.
pub open spec fn sets(
    property: Seq<char>,
    v: Value,
    degrees: Scalar,
    before: LayerEffects,
    after: LayerEffects,
) -> bool {
    &&& if property == "rotate-x"@ {
        angle_given(v, degrees, after.rotate_x_deg)
    } else {
        after.rotate_x_deg == before.rotate_x_deg
    }
    &&& if property == "rotate-y"@ {
        angle_given(v, degrees, after.rotate_y_deg)
    } else {
        after.rotate_y_deg == before.rotate_y_deg
    }
    &&& if property == "perspective"@ {
        after.perspective is Some && length_given(v, after.perspective->0)
    } else {
        after.perspective == before.perspective
    }
    &&& if property == "paper-grain"@ {
        share_given(v, after.paper_grain)
    } else {
        after.paper_grain == before.paper_grain
    }
    &&& if property == "contact-shadow"@ {
        share_given(v, after.contact_shadow)
    } else {
        after.contact_shadow == before.contact_shadow
    }
}

/// Each style sets the effect that it names and leaves the others; one that says nothing sound fails.
pub proof fn styles_set_their_effect(
    node: SceneNode,
    values: Seq<Value>,
    at: int,
    degrees: Seq<Scalar>,
    n: nat,
    v: Value,
    after: LayerEffects,
)
    requires
        n < node.styles@.len(),
        effects_of(node, values, at, degrees, n) is Ok,
        style_valued(node.styles@[n as int].value, values, at) == Ok::<Value, LayoutFault>(v),
    ensures
        effects_of(node, values, at, degrees, n + 1) == Ok::<LayerEffects, LayoutFault>(after) <==> sets(
            node.styles@[n as int].property@,
            v,
            degrees[n as int],
            effects_of(node, values, at, degrees, n)->Ok_0,
            after,
        ),
{
    effect_names();
}

/// Effects are seen unless both turns are under a millionth of a degree and there is neither grain nor
/// shadow.
pub proof fn faint_effects_are_not_seen(fx: LayerEffects)
    ensures
        ({
            let flat = fx.rotate_x_deg.magnitude() < 0x3eb0_c6f7_a0b5_ed8d
                && fx.rotate_y_deg.magnitude() < 0x3eb0_c6f7_a0b5_ed8d;
            let clean = !fx.paper_grain.is_nan_spec() && fx.paper_grain.order() <= 0
                && !fx.contact_shadow.is_nan_spec() && fx.contact_shadow.order() <= 0;
            visible_effects(Ok(fx)) == Ok::<Option<LayerEffects>, LayoutFault>(
                if flat && clean {
                    None
                } else {
                    Some(fx)
                },
            )
        }),
{
}

/// A layer is seen from its own perspective, or from 1200 pixels.
pub proof fn layers_are_seen_from_their_perspective(fx: LayerEffects)
    ensures
        fx.perspective is Some ==> fx.viewed_from() == fx.perspective->0,
        fx.perspective is None ==> fx.viewed_from() == PerspectiveLength::Px(num(0x4092_c000_0000_0000)),
{
}

/// Pixels count by the pixel ratio, which is 1 where it is not positive; rem and em by their size; vw and
/// vh are hundredths of the side of the viewport that they name.
pub proof fn perspectives_are_products(x: Scalar, s: Sizing)
    ensures
        perspective_product(PerspectiveLength::Px(x), s) == Ok::<LengthProduct, Seq<char>>(
            LengthProduct {
                value: x,
                factor: if s.device_pixel_ratio.order() > 0 && !s.device_pixel_ratio.is_nan_spec() {
                    s.device_pixel_ratio
                } else {
                    num(0x3ff0_0000_0000_0000)
                },
                percent: false,
            },
        ),
        perspective_product(PerspectiveLength::Rem(x), s) == Ok::<LengthProduct, Seq<char>>(
            LengthProduct { value: x, factor: s.rem, percent: false },
        ),
        perspective_product(PerspectiveLength::Em(x), s) == Ok::<LengthProduct, Seq<char>>(
            LengthProduct { value: x, factor: s.em, percent: false },
        ),
        s.viewport_width is Some ==> perspective_product(PerspectiveLength::Vw(x), s) == Ok::<
            LengthProduct,
            Seq<char>,
        >(
            LengthProduct {
                value: x,
                factor: Scalar::integer(s.viewport_width->0 as int),
                percent: true,
            },
        ),
        s.viewport_width is None ==> perspective_product(PerspectiveLength::Vw(x), s) is Err,
        s.viewport_height is Some ==> perspective_product(PerspectiveLength::Vh(x), s) == Ok::<
            LengthProduct,
            Seq<char>,
        >(
            LengthProduct {
                value: x,
                factor: Scalar::integer(s.viewport_height->0 as int),
                percent: true,
            },
        ),
        s.viewport_height is None ==> perspective_product(PerspectiveLength::Vh(x), s) is Err,
{
}

/// A position counts like a perspective, and a percentage is a hundredth of the side of its box.
pub proof fn positions_are_products(x: Scalar, size: Scalar, s: Sizing)
    ensures
        position_product(Length { value: x, unit: LengthUnit::Percent }, size, s) == Ok::<
            LengthProduct,
            Seq<char>,
        >(LengthProduct { value: x, factor: size, percent: true }),
        position_product(Length { value: x, unit: LengthUnit::Px }, size, s) == perspective_product(
            PerspectiveLength::Px(x),
            s,
        ),
        position_product(Length { value: x, unit: LengthUnit::Rem }, size, s) == perspective_product(
            PerspectiveLength::Rem(x),
            s,
        ),
        position_product(Length { value: x, unit: LengthUnit::Em }, size, s) == perspective_product(
            PerspectiveLength::Em(x),
            s,
        ),
        s.viewport_width is Some ==> position_product(
            Length { value: x, unit: LengthUnit::Vw },
            size,
            s,
        ) == perspective_product(PerspectiveLength::Vw(x), s),
        s.viewport_width is None ==> position_product(
            Length { value: x, unit: LengthUnit::Vw },
            size,
            s,
        ) is Err,
        s.viewport_height is Some ==> position_product(
            Length { value: x, unit: LengthUnit::Vh },
            size,
            s,
        ) == perspective_product(PerspectiveLength::Vh(x), s),
        s.viewport_height is None ==> position_product(
            Length { value: x, unit: LengthUnit::Vh },
            size,
            s,
        ) is Err,
{
}

/// A distance is taken as it is where it is finite and positive, and refused otherwise.
pub proof fn distances_are_positive(px: Scalar)
    ensures
        px.finite() && px.order() > 0 ==> accepted_distance(px) == Ok::<Scalar, Seq<char>>(px),
        !(px.finite() && px.order() > 0) ==> accepted_distance(px) is Err,
{
}

/// A resolved coordinate is the one that the host placed, from the start and the product of the length.
pub proof fn positions_are_placed_by_the_host<P: Fn(Scalar, LengthProduct) -> Scalar>(
    place: P,
    value: Length,
    start: Scalar,
    size: Scalar,
    s: Sizing,
    node: Seq<char>,
    property: Seq<char>,
    x: Scalar,
)
    requires
        position_given(place, value, start, size, s, node, property, Ok(x)),
    ensures
        position_product(value, size, s) is Ok,
        call_ensures(place, (start, position_product(value, size, s)->Ok_0), x),
        x.finite(),
{
}

/// Whether a style of a node begins with a prefix.
pub open spec fn mentions(node: SceneNode, prefix: Seq<char>) -> bool {
    exists|i: int| 0 <= i < node.styles@.len() && begins((#[trigger] node.styles@[i]).property@, prefix)
}

pub open spec fn says_value(
    node: SceneNode,
    values: Seq<Value>,
    at: int,
    property: Seq<char>,
    v: Value,
) -> bool {
    styled(node.styles@, values, at, property) == Ok::<Option<Value>, LayoutFault>(Some(v))
}

/// Whether a filter is the displacement that the styles behind a prefix describe.
pub open spec fn displaced_by(
    node: SceneNode,
    values: Seq<Value>,
    at: int,
    prefix: Seq<char>,
    op: FilterOp,
) -> bool {
    match op {
        FilterOp::NoiseDisplacement { frequency_x, frequency_y, octaves, seed, scale, turbulence } => {
            &&& says_value(
                node,
                values,
                at,
                prefix + "frequency"@,
                Value::Point(Point { x: frequency_x, y: frequency_y }),
            )
            &&& says_value(node, values, at, prefix + "scale"@, Value::Number(scale))
            &&& says_whole(node, values, at, prefix + "octaves"@, octaves as nat)
            &&& says_whole(node, values, at, prefix + "seed"@, seed as nat)
            &&& turbulence ==> says_value(
                node,
                values,
                at,
                prefix + "mode"@,
                Value::Enum("turbulence"@),
            )
            &&& !turbulence ==> says_value(
                node,
                values,
                at,
                prefix + "mode"@,
                Value::Enum("fractal"@),
            )
            &&& 0x3eb0_c6f7_a0b5_ed8d <= frequency_x.order() <= 0x4010_0000_0000_0000
            &&& 0x3eb0_c6f7_a0b5_ed8d <= frequency_y.order() <= 0x4010_0000_0000_0000
            &&& scale.magnitude() <= 0x4080_0000_0000_0000
            &&& 1 <= octaves <= 4
        },
        _ => false,
    }
}

/// Whether a style is a number that is this integer.
pub open spec fn says_whole(
    node: SceneNode,
    values: Seq<Value>,
    at: int,
    property: Seq<char>,
    m: nat,
) -> bool {
    exists|x: Scalar| #[trigger] says_value(node, values, at, property, Value::Number(x)) && x.whole(m)
        && x.order() >= 0
}

/// Whether a filter is the blur that the styles of a node describe.
pub open spec fn blurred_by(node: SceneNode, values: Seq<Value>, at: int, op: FilterOp) -> bool {
    match op {
        FilterOp::VelocityBlur { velocity_x, velocity_y, shutter_angle } => {
            &&& says_value(
                node,
                values,
                at,
                "motion-velocity-blur-velocity"@,
                Value::Point(Point { x: velocity_x, y: velocity_y }),
            )
            &&& says_value(
                node,
                values,
                at,
                "motion-velocity-blur-shutter"@,
                Value::Number(shutter_angle),
            )
            &&& velocity_x.magnitude() <= 0x40a0_0000_0000_0000
            &&& velocity_y.magnitude() <= 0x40a0_0000_0000_0000
            &&& 0 <= shutter_angle.order() <= 0x4076_8000_0000_0000
        },
        _ => false,
    }
}

proof fn displacements_agree(
    node: SceneNode,
    values: Seq<Value>,
    at: int,
    prefix: Seq<char>,
    what: Seq<char>,
    op: FilterOp,
)
    requires
        crate::filters::displacement_read(node, values, at, prefix, what) is Ok,
        crate::filters::displacement_fits(
            crate::filters::displacement_read(node, values, at, prefix, what)->Ok_0,
        ),
        crate::filters::displaces(
            crate::filters::displacement_read(node, values, at, prefix, what)->Ok_0,
            op,
        ),
    ensures
        displaced_by(node, values, at, prefix, op),
{
    mode_names();
    let d = crate::filters::displacement_read(node, values, at, prefix, what)->Ok_0;
    assert(says_value(node, values, at, prefix + "seed"@, Value::Number(d.seed)));
    assert(says_value(node, values, at, prefix + "octaves"@, Value::Number(d.octaves)));
    assert(says_value(node, values, at, prefix + "frequency"@, Value::Point(d.frequency)));
    assert(d.frequency == Point { x: d.frequency.x, y: d.frequency.y });
}

/// The filters of a node are its displacement, then its blur, each exactly where a style speaks of it, and
/// each with the numbers that its styles give.
pub proof fn filters_are_what_styles_describe(
    node: SceneNode,
    values: Seq<Value>,
    at: int,
    ops: Seq<FilterOp>,
)
    requires
        filters_given(node, values, at, Ok(ops)),
    ensures
        ({
            let shaken = mentions(node, "motion-displacement-"@);
            let blurred = mentions(node, "motion-velocity-blur-"@);
            &&& ops.len() == (if shaken { 1int } else { 0 }) + (if blurred { 1int } else { 0 })
            &&& shaken ==> displaced_by(node, values, at, "motion-displacement-"@, ops[0])
            &&& blurred ==> blurred_by(node, values, at, ops.last())
        }),
{
    let shaken = mentions(node, "motion-displacement-"@);
    let blurred = mentions(node, "motion-velocity-blur-"@);
    assert(shaken == crate::filters::has_group(node.styles@, "motion-displacement-"@));
    assert(blurred == crate::filters::has_group(node.styles@, "motion-velocity-blur-"@));
    if shaken {
        let first = choose|first: Result<FilterOp, LayoutFault>| #[trigger]
            crate::filters::displacement_given(node, values, at, first) && match first {
                Err(f) => Ok::<Seq<FilterOp>, LayoutFault>(ops) == Err::<Seq<FilterOp>, LayoutFault>(f),
                Ok(op) => Ok::<Seq<FilterOp>, LayoutFault>(ops) == crate::filters::filters_then(
                    node,
                    values,
                    at,
                    seq![op],
                ),
            };
        displacements_agree(
            node,
            values,
            at,
            "motion-displacement-"@,
            "displacement"@,
            first->Ok_0,
        );
        assert(ops[0] == first->Ok_0);
    }
    if blurred {
        let b = crate::filters::blur_given(node, values, at)->Ok_0;
        assert(ops.last() == b);
    }
}

/// What lies behind a node is displaced exactly where a style speaks of it, as its styles say.
pub proof fn backdrops_are_what_styles_describe(
    node: SceneNode,
    values: Seq<Value>,
    at: int,
    ops: Seq<FilterOp>,
)
    requires
        backdrop_given(node, values, at, Ok(ops)),
    ensures
        ({
            let shaken = mentions(node, "motion-backdrop-displacement-"@);
            &&& !shaken ==> ops.len() == 0
            &&& shaken ==> ops.len() == 1 && displaced_by(
                node,
                values,
                at,
                "motion-backdrop-displacement-"@,
                ops[0],
            )
        }),
{
    let shaken = mentions(node, "motion-backdrop-displacement-"@);
    assert(shaken == crate::filters::has_group(node.styles@, "motion-backdrop-displacement-"@));
    if shaken {
        displacements_agree(
            node,
            values,
            at,
            "motion-backdrop-displacement-"@,
            "backdrop displacement"@,
            ops[0],
        );
    }
}

/// Sound styles are accepted: a displacement or a blur within its bounds is never refused.
pub proof fn sound_filters_are_accepted(
    node: SceneNode,
    values: Seq<Value>,
    at: int,
    shake: FilterOp,
    blur: FilterOp,
    r: Result<Seq<FilterOp>, LayoutFault>,
)
    requires
        displaced_by(node, values, at, "motion-displacement-"@, shake),
        blurred_by(node, values, at, blur),
        filters_given(node, values, at, r),
    ensures
        r is Ok,
{
    mode_names();
    let d = crate::filters::displacement_read(
        node,
        values,
        at,
        "motion-displacement-"@,
        "displacement"@,
    )->Ok_0;
    match shake {
        FilterOp::NoiseDisplacement { octaves, seed, .. } => {
            let x = choose|x: Scalar| #[trigger]
                says_value(node, values, at, "motion-displacement-"@ + "octaves"@, Value::Number(x))
                    && x.whole(octaves as nat) && x.order() >= 0;
            let y = choose|y: Scalar| #[trigger]
                says_value(node, values, at, "motion-displacement-"@ + "seed"@, Value::Number(y))
                    && y.whole(seed as nat) && y.order() >= 0;
            assert(d.octaves == x && d.seed == y);
            if x.magnitude() == 0 {
                crate::scalar::whole_is_unique(x, octaves as nat, 0);
            }
            if y.magnitude() == 0 {
                crate::scalar::whole_is_unique(y, seed as nat, 0);
            }
            assert(crate::filters::counts(d.octaves, octaves as nat, 1, 4));
            assert(crate::filters::counts(d.seed, seed as nat, 0, u32::MAX as nat));
        },
        _ => {},
    }
}

} // verus!
