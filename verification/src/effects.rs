//! Layer effects and 3D styles of a node.

use vstd::prelude::*;

use crate::artifact::SceneNode;
use crate::bindings::{style_value, style_valued};
use crate::eval::values_of;
use crate::frame::ROTATION_EPSILON;
use crate::layout_error::{plain, LayoutError, LayoutFault};
use crate::scalar::{num, Scalar, ONE, ZERO};
use crate::table::same_text;
use crate::text::joined;
use crate::value::{Length, LengthUnit, MotionValue, Value};

verus! {

/// Perspective, in CSS pixels, where a rotation has none of its own: 1200.
pub const DEFAULT_PERSPECTIVE: u64 = 0x4092_c000_0000_0000;

/// A perspective length, kept in its unit until the sizes of the frame are known.
#[derive(Clone, Copy, Debug, PartialEq, Eq, Structural)]
pub enum PerspectiveLength {
    Px(Scalar),
    Rem(Scalar),
    Em(Scalar),
    Vw(Scalar),
    Vh(Scalar),
}

/// Sizes that relative lengths refer to. `rem` and `em` are in device pixels.
#[derive(Clone, Copy, Debug, PartialEq, Eq, Structural)]
pub struct Sizing {
    pub device_pixel_ratio: Scalar,
    pub rem: Scalar,
    pub em: Scalar,
    pub viewport_width: Option<u32>,
    pub viewport_height: Option<u32>,
}

/// A product that a length stands for, with a hundredth of it where `percent` is set.
#[derive(Clone, Copy, Debug, PartialEq, Eq, Structural)]
pub struct LengthProduct {
    pub value: Scalar,
    pub factor: Scalar,
    pub percent: bool,
}

pub open spec fn pixel_ratio(s: Sizing) -> Scalar {
    if num(ZERO).lt_spec(s.device_pixel_ratio) { s.device_pixel_ratio } else { num(ONE) }
}

fn ratio(s: &Sizing) -> (r: Scalar)
    ensures
        r == pixel_ratio(*s),
{
    if Scalar::from_bits(ZERO).lt(s.device_pixel_ratio) {
        s.device_pixel_ratio
    } else {
        Scalar::from_bits(ONE)
    }
}

/// What a perspective length stands for in device pixels.
pub open spec fn perspective_product(p: PerspectiveLength, s: Sizing) -> Result<
    LengthProduct,
    Seq<char>,
> {
    match p {
        PerspectiveLength::Px(value) => Ok(
            LengthProduct { value, factor: pixel_ratio(s), percent: false },
        ),
        PerspectiveLength::Rem(value) => Ok(LengthProduct { value, factor: s.rem, percent: false }),
        PerspectiveLength::Em(value) => Ok(LengthProduct { value, factor: s.em, percent: false }),
        PerspectiveLength::Vw(value) => match s.viewport_width {
            Some(w) => Ok(
                LengthProduct { value, factor: Scalar::integer(w as int), percent: true },
            ),
            None => Err("perspective vw requires a viewport width"@),
        },
        PerspectiveLength::Vh(value) => match s.viewport_height {
            Some(h) => Ok(
                LengthProduct { value, factor: Scalar::integer(h as int), percent: true },
            ),
            None => Err("perspective vh requires a viewport height"@),
        },
    }
}

/// Whether `r` is a perspective length in device pixels, as the host multiplies.
pub open spec fn perspective_given<P: Fn(LengthProduct) -> Scalar>(
    multiply: P,
    length: PerspectiveLength,
    s: Sizing,
    r: Result<Scalar, Seq<char>>,
) -> bool {
    match perspective_product(length, s) {
        Err(reason) => r == Err::<Scalar, Seq<char>>(reason),
        Ok(product) => exists|px: Scalar| #[trigger]
            call_ensures(multiply, (product,), px) && r == accepted_distance(px),
    }
}

/// A distance that must be finite and positive.
pub open spec fn accepted_distance(px: Scalar) -> Result<Scalar, Seq<char>> {
    if px.finite() && num(ZERO).lt_spec(px) {
        Ok(px)
    } else {
        Err("perspective must resolve to a positive length"@)
    }
}

impl PerspectiveLength {
    /// What a perspective length stands for in device pixels. A missing viewport side is an error.
    pub fn product(self, sizing: &Sizing) -> (r: Result<LengthProduct, &'static str>)
        ensures
            match r {
                Ok(p) => perspective_product(self, *sizing) == Ok::<LengthProduct, Seq<char>>(p),
                Err(e) => perspective_product(self, *sizing) == Err::<LengthProduct, Seq<char>>(
                    e@,
                ),
            },
    {
        match self {
            PerspectiveLength::Px(value) => Ok(
                LengthProduct { value, factor: ratio(sizing), percent: false },
            ),
            PerspectiveLength::Rem(value) => Ok(
                LengthProduct { value, factor: sizing.rem, percent: false },
            ),
            PerspectiveLength::Em(value) => Ok(
                LengthProduct { value, factor: sizing.em, percent: false },
            ),
            PerspectiveLength::Vw(value) => match sizing.viewport_width {
                Some(w) => Ok(
                    LengthProduct { value, factor: Scalar::from_u32(w), percent: true },
                ),
                None => Err("perspective vw requires a viewport width"),
            },
            PerspectiveLength::Vh(value) => match sizing.viewport_height {
                Some(h) => Ok(
                    LengthProduct { value, factor: Scalar::from_u32(h), percent: true },
                ),
                None => Err("perspective vh requires a viewport height"),
            },
        }
    }

    /// Resolves a perspective length to a positive distance in device pixels. The host multiplies.
    pub fn to_px<P: Fn(LengthProduct) -> Scalar>(self, sizing: &Sizing, multiply: &P) -> (r: Result<
        Scalar,
        &'static str,
    >)
        requires
            forall|p: LengthProduct| call_requires(*multiply, (p,)),
        ensures
            match r {
                Ok(x) => perspective_given(*multiply, self, *sizing, Ok(x)),
                Err(e) => perspective_given(*multiply, self, *sizing, Err(e@)),
            },
    {
        match self.product(sizing) {
            Err(e) => Err(e),
            Ok(p) => {
                let px = multiply(p);
                assert(call_ensures(*multiply, (p,), px));
                let ghost product = perspective_product(self, *sizing)->Ok_0;
                assert(call_ensures(*multiply, (product,), px));
                assert(exists|x: Scalar| #[trigger]
                    call_ensures(*multiply, (product,), x) && accepted_distance(px)
                        == accepted_distance(x));
                assert(perspective_given(*multiply, self, *sizing, accepted_distance(px)));
                if px.is_finite() && Scalar::from_bits(ZERO).lt(px) {
                    Ok(px)
                } else {
                    Err("perspective must resolve to a positive length")
                }
            },
        }
    }
}

/// What the position of an origin stands for: a share of a box side, or a length.
pub open spec fn position_product(value: Length, size: Scalar, s: Sizing) -> Result<
    LengthProduct,
    Seq<char>,
> {
    match value.unit {
        LengthUnit::Percent => Ok(
            LengthProduct { value: value.value, factor: size, percent: true },
        ),
        LengthUnit::Px => Ok(
            LengthProduct { value: value.value, factor: pixel_ratio(s), percent: false },
        ),
        LengthUnit::Rem => Ok(
            LengthProduct { value: value.value, factor: s.rem, percent: false },
        ),
        LengthUnit::Em => Ok(LengthProduct { value: value.value, factor: s.em, percent: false }),
        LengthUnit::Vw => match s.viewport_width {
            Some(w) => Ok(
                LengthProduct {
                    value: value.value,
                    factor: Scalar::integer(w as int),
                    percent: true,
                },
            ),
            None => Err("vw requires a viewport width"@),
        },
        LengthUnit::Vh => match s.viewport_height {
            Some(h) => Ok(
                LengthProduct {
                    value: value.value,
                    factor: Scalar::integer(h as int),
                    percent: true,
                },
            ),
            None => Err("vh requires a viewport height"@),
        },
    }
}

/// What the position of an origin stands for.
pub fn position_of(value: Length, size: Scalar, sizing: &Sizing) -> (r: Result<
    LengthProduct,
    &'static str,
>)
    ensures
        match r {
            Ok(p) => position_product(value, size, *sizing) == Ok::<LengthProduct, Seq<char>>(p),
            Err(e) => position_product(value, size, *sizing) == Err::<LengthProduct, Seq<char>>(
                e@,
            ),
        },
{
    let x = value.value;
    match value.unit {
        LengthUnit::Percent => Ok(LengthProduct { value: x, factor: size, percent: true }),
        LengthUnit::Px => Ok(LengthProduct { value: x, factor: ratio(sizing), percent: false }),
        LengthUnit::Rem => Ok(LengthProduct { value: x, factor: sizing.rem, percent: false }),
        LengthUnit::Em => Ok(LengthProduct { value: x, factor: sizing.em, percent: false }),
        LengthUnit::Vw => match sizing.viewport_width {
            Some(w) => Ok(LengthProduct { value: x, factor: Scalar::from_u32(w), percent: true }),
            None => Err("vw requires a viewport width"),
        },
        LengthUnit::Vh => match sizing.viewport_height {
            Some(h) => Ok(LengthProduct { value: x, factor: Scalar::from_u32(h), percent: true }),
            None => Err("vh requires a viewport height"),
        },
    }
}

/// Whether `r` is the coordinate of an origin: `start` plus what its length stands for.
pub open spec fn position_given<P: Fn(Scalar, LengthProduct) -> Scalar>(
    place: P,
    value: Length,
    start: Scalar,
    size: Scalar,
    s: Sizing,
    node: Seq<char>,
    property: Seq<char>,
    r: Result<Scalar, LayoutFault>,
) -> bool {
    match position_product(value, size, s) {
        Err(reason) => r == Err::<Scalar, LayoutFault>(
            LayoutFault::BadStyle(node, property, reason),
        ),
        Ok(p) => exists|x: Scalar| #[trigger]
            call_ensures(place, (start, p), x) && r == if x.finite() {
                Ok::<Scalar, LayoutFault>(x)
            } else {
                Err(
                    LayoutFault::BadStyle(
                        node,
                        property,
                        "position must resolve to a finite coordinate"@,
                    ),
                )
            },
    }
}

/// Resolves the coordinate of an origin. The host multiplies, and adds the start.
pub fn resolve_css_position<P: Fn(Scalar, LengthProduct) -> Scalar>(
    place: &P,
    value: Length,
    start: Scalar,
    size: Scalar,
    sizing: &Sizing,
    node: &str,
    property: &str,
) -> (r: Result<Scalar, LayoutError>)
    requires
        forall|x: Scalar, p: LengthProduct| call_requires(*place, (x, p)),
    ensures
        position_given(*place, value, start, size, *sizing, node@, property@, plain(r)),
{
    match position_of(value, size, sizing) {
        Err(reason) => Err(
            LayoutError::BadStyle {
                node: node.to_owned(),
                declarations: property.to_owned(),
                reason: reason.to_owned(),
            },
        ),
        Ok(p) => {
            let x = place(start, p);
            assert(call_ensures(*place, (start, p), x));
            if x.is_finite() {
                Ok(x)
            } else {
                Err(
                    LayoutError::BadStyle {
                        node: node.to_owned(),
                        declarations: property.to_owned(),
                        reason: "position must resolve to a finite coordinate".to_owned(),
                    },
                )
            }
        },
    }
}

/// Layer effects that style sheets cannot express.
#[derive(Clone, Copy, Debug, PartialEq, Eq, Structural)]
pub struct LayerEffects {
    pub rotate_x_deg: Scalar,
    pub rotate_y_deg: Scalar,
    pub perspective: Option<PerspectiveLength>,
    pub paper_grain: Scalar,
    pub contact_shadow: Scalar,
}

pub open spec fn no_effects() -> LayerEffects {
    LayerEffects {
        rotate_x_deg: num(ZERO),
        rotate_y_deg: num(ZERO),
        perspective: None,
        paper_grain: num(ZERO),
        contact_shadow: num(ZERO),
    }
}

impl LayerEffects {
    /// Whether nothing is to be seen of the effects.
    pub open spec fn empty_spec(self) -> bool {
        self.rotate_x_deg.abs_spec().lt_spec(num(ROTATION_EPSILON))
            && self.rotate_y_deg.abs_spec().lt_spec(num(ROTATION_EPSILON))
            && self.paper_grain.le_spec(num(ZERO)) && self.contact_shadow.le_spec(num(ZERO))
    }

    pub fn is_empty(self) -> (r: bool)
        ensures
            r == self.empty_spec(),
    {
        let epsilon = Scalar::from_bits(ROTATION_EPSILON);
        let zero = Scalar::from_bits(ZERO);
        self.rotate_x_deg.abs().lt(epsilon) && self.rotate_y_deg.abs().lt(epsilon)
            && self.paper_grain.le(zero) && self.contact_shadow.le(zero)
    }

    /// The perspective that the rotations are seen in: the layer's own, or the default.
    pub open spec fn viewed_from(self) -> PerspectiveLength {
        match self.perspective {
            Some(length) => length,
            None => PerspectiveLength::Px(num(DEFAULT_PERSPECTIVE)),
        }
    }

    /// The distance, in device pixels, that the rotations are seen from. The host multiplies.
    pub fn distance<P: Fn(LengthProduct) -> Scalar>(self, sizing: &Sizing, multiply: &P) -> (r: Result<
        Scalar,
        &'static str,
    >)
        requires
            forall|p: LengthProduct| call_requires(*multiply, (p,)),
        ensures
            match r {
                Ok(x) => perspective_given(*multiply, self.viewed_from(), *sizing, Ok(x)),
                Err(e) => perspective_given(*multiply, self.viewed_from(), *sizing, Err(e@)),
            },
    {
        let length = match self.perspective {
            Some(length) => length,
            None => PerspectiveLength::Px(Scalar::from_bits(DEFAULT_PERSPECTIVE)),
        };
        length.to_px(sizing, multiply)
    }
}

pub open spec fn style_fault<T>(node: Seq<char>, property: Seq<char>, reason: Seq<char>) -> Result<
    T,
    LayoutFault,
> {
    Err(LayoutFault::BadStyle(node, property, reason))
}

fn bad_style(node: &str, property: &str, reason: String) -> (r: LayoutError)
    ensures
        r@ == LayoutFault::BadStyle(node@, property@, reason@),
{
    LayoutError::BadStyle {
        node: node.to_owned(),
        declarations: property.to_owned(),
        reason,
    }
}

/// A finite angle in degrees; `degrees` is the angle as the host converts it.
pub open spec fn degrees_read(v: Value, degrees: Scalar, node: Seq<char>, property: Seq<char>) -> Result<
    Scalar,
    LayoutFault,
> {
    match v {
        Value::Number(x) => if x.finite() {
            Ok(x)
        } else {
            style_fault(
                node,
                property,
                property + " must be a finite number of degrees or an angle"@,
            )
        },
        Value::Angle(a) => if a.value.finite() {
            Ok(degrees)
        } else {
            style_fault(
                node,
                property,
                property + " must be a finite number of degrees or an angle"@,
            )
        },
        _ => style_fault(
            node,
            property,
            property + " must be a finite number of degrees or an angle"@,
        ),
    }
}

fn layer_degrees(value: &MotionValue, degrees: Scalar, node: &str, property: &str) -> (r: Result<
    Scalar,
    LayoutError,
>)
    ensures
        plain(r) == degrees_read(value@, degrees, node@, property@),
{
    match value {
        MotionValue::Number(x) => {
            if x.is_finite() {
                return Ok(*x);
            }
        },
        MotionValue::Angle(a) => {
            if a.value.is_finite() {
                return Ok(degrees);
            }
        },
        _ => {},
    }
    Err(
        bad_style(
            node,
            property,
            joined(property.to_owned(), " must be a finite number of degrees or an angle"),
        ),
    )
}

/// A finite number.
pub open spec fn scalar_read(v: Value, node: Seq<char>, property: Seq<char>) -> Result<
    Scalar,
    LayoutFault,
> {
    match v {
        Value::Number(x) => if x.finite() {
            Ok(x)
        } else {
            style_fault(node, property, property + " must be a finite number"@)
        },
        _ => style_fault(node, property, property + " must be a finite number"@),
    }
}

pub fn layer_scalar(value: &MotionValue, node: &str, property: &str) -> (r: Result<
    Scalar,
    LayoutError,
>)
    ensures
        plain(r) == scalar_read(value@, node@, property@),
{
    match value {
        MotionValue::Number(x) => {
            if x.is_finite() {
                return Ok(*x);
            }
        },
        _ => {},
    }
    Err(bad_style(node, property, joined(property.to_owned(), " must be a finite number")))
}

/// A finite length.
pub open spec fn length_read(v: Value, node: Seq<char>, property: Seq<char>) -> Result<
    Length,
    LayoutFault,
> {
    match v {
        Value::Length(l) => if l.value.finite() {
            Ok(l)
        } else {
            style_fault(node, property, property + " must be a finite CSS length or percentage"@)
        },
        _ => style_fault(node, property, property + " must be a finite CSS length or percentage"@),
    }
}

pub fn layer_length(value: &MotionValue, node: &str, property: &str) -> (r: Result<
    Length,
    LayoutError,
>)
    ensures
        plain(r) == length_read(value@, node@, property@),
{
    match value {
        MotionValue::Length(l) => {
            if l.value.is_finite() {
                return Ok(*l);
            }
        },
        _ => {},
    }
    Err(
        bad_style(
            node,
            property,
            joined(property.to_owned(), " must be a finite CSS length or percentage"),
        ),
    )
}

/// A positive length that is no percentage.
pub open spec fn perspective_read(v: Value, node: Seq<char>) -> Result<PerspectiveLength, LayoutFault> {
    match v {
        Value::Number(x) => if !x.finite() {
            style_fault(
                node,
                "perspective"@,
                "perspective must be a finite positive number or length (px, rem, em, vw, vh)"@,
            )
        } else if num(ZERO).lt_spec(x) {
            Ok(PerspectiveLength::Px(x))
        } else {
            style_fault(node, "perspective"@, "perspective must be a positive length"@)
        },
        Value::Length(l) => if !l.value.finite() {
            style_fault(
                node,
                "perspective"@,
                "perspective must be a finite positive number or length (px, rem, em, vw, vh)"@,
            )
        } else if !num(ZERO).lt_spec(l.value) {
            style_fault(node, "perspective"@, "perspective must be a positive length"@)
        } else {
            match l.unit {
                LengthUnit::Px => Ok(PerspectiveLength::Px(l.value)),
                LengthUnit::Rem => Ok(PerspectiveLength::Rem(l.value)),
                LengthUnit::Em => Ok(PerspectiveLength::Em(l.value)),
                LengthUnit::Vw => Ok(PerspectiveLength::Vw(l.value)),
                LengthUnit::Vh => Ok(PerspectiveLength::Vh(l.value)),
                LengthUnit::Percent => style_fault(
                    node,
                    "perspective"@,
                    "perspective does not accept percentages; use px, rem, em, vw, or vh"@,
                ),
            }
        },
        _ => style_fault(
            node,
            "perspective"@,
            "perspective must be a finite positive number or length (px, rem, em, vw, vh)"@,
        ),
    }
}

pub fn layer_perspective(value: &MotionValue, node: &str) -> (r: Result<
    PerspectiveLength,
    LayoutError,
>)
    ensures
        plain(r) == perspective_read(value@, node@),
{
    let zero = Scalar::from_bits(ZERO);
    match value {
        MotionValue::Number(x) => {
            if x.is_finite() {
                if zero.lt(*x) {
                    return Ok(PerspectiveLength::Px(*x));
                }
                return Err(
                    bad_style(
                        node,
                        "perspective",
                        "perspective must be a positive length".to_owned(),
                    ),
                );
            }
        },
        MotionValue::Length(l) => {
            if l.value.is_finite() {
                if !zero.lt(l.value) {
                    return Err(
                        bad_style(
                            node,
                            "perspective",
                            "perspective must be a positive length".to_owned(),
                        ),
                    );
                }
                return match l.unit {
                    LengthUnit::Px => Ok(PerspectiveLength::Px(l.value)),
                    LengthUnit::Rem => Ok(PerspectiveLength::Rem(l.value)),
                    LengthUnit::Em => Ok(PerspectiveLength::Em(l.value)),
                    LengthUnit::Vw => Ok(PerspectiveLength::Vw(l.value)),
                    LengthUnit::Vh => Ok(PerspectiveLength::Vh(l.value)),
                    LengthUnit::Percent => Err(
                        bad_style(
                            node,
                            "perspective",
                            "perspective does not accept percentages; use px, rem, em, vw, or vh".to_owned(),
                        ),
                    ),
                };
            }
        },
        _ => {},
    }
    Err(
        bad_style(
            node,
            "perspective",
            "perspective must be a finite positive number or length (px, rem, em, vw, vh)".to_owned(),
        ),
    )
}

/// What one style adds to the effects.
pub open spec fn effect_step(
    fx: LayerEffects,
    property: Seq<char>,
    v: Value,
    degrees: Scalar,
    node: Seq<char>,
) -> Result<LayerEffects, LayoutFault> {
    if property == "rotate-x"@ {
        match degrees_read(v, degrees, node, "rotateX"@) {
            Ok(x) => Ok(LayerEffects { rotate_x_deg: x, ..fx }),
            Err(f) => Err(f),
        }
    } else if property == "rotate-y"@ {
        match degrees_read(v, degrees, node, "rotateY"@) {
            Ok(x) => Ok(LayerEffects { rotate_y_deg: x, ..fx }),
            Err(f) => Err(f),
        }
    } else if property == "perspective"@ {
        match perspective_read(v, node) {
            Ok(p) => Ok(LayerEffects { perspective: Some(p), ..fx }),
            Err(f) => Err(f),
        }
    } else if property == "paper-grain"@ {
        match scalar_read(v, node, "paperGrain"@) {
            Ok(x) => Ok(LayerEffects { paper_grain: x.clamp_spec(num(ZERO), num(ONE)), ..fx }),
            Err(f) => Err(f),
        }
    } else if property == "contact-shadow"@ {
        match scalar_read(v, node, "contactShadow"@) {
            Ok(x) => Ok(LayerEffects { contact_shadow: x.clamp_spec(num(ZERO), num(ONE)), ..fx }),
            Err(f) => Err(f),
        }
    } else {
        Ok(fx)
    }
}

/// The effects of the first `n` styles; later styles win.
pub open spec fn effects_of(
    node: SceneNode,
    values: Seq<Value>,
    at: int,
    degrees: Seq<Scalar>,
    n: nat,
) -> Result<LayerEffects, LayoutFault>
    decreases n,
{
    if n == 0 {
        Ok(no_effects())
    } else {
        match effects_of(node, values, at, degrees, (n - 1) as nat) {
            Err(f) => Err(f),
            Ok(fx) => match style_valued(node.styles@[n - 1].value, values, at) {
                Err(f) => Err(f),
                Ok(v) => effect_step(
                    fx,
                    node.styles@[n - 1].property@,
                    v,
                    degrees[n - 1],
                    node.key@,
                ),
            },
        }
    }
}

proof fn effects_stuck(
    node: SceneNode,
    values: Seq<Value>,
    at: int,
    degrees: Seq<Scalar>,
    m: nat,
    n: nat,
)
    requires
        m <= n,
        effects_of(node, values, at, degrees, m) is Err,
    ensures
        effects_of(node, values, at, degrees, n) == effects_of(node, values, at, degrees, m),
    decreases n - m,
{
    if m < n {
        effects_stuck(node, values, at, degrees, m, (n - 1) as nat);
    }
}

fn apply_effect(
    fx: LayerEffects,
    property: &str,
    value: &MotionValue,
    degrees: Scalar,
    node: &str,
) -> (r: Result<LayerEffects, LayoutError>)
    ensures
        plain(r) == effect_step(fx, property@, value@, degrees, node@),
{
    let zero = Scalar::from_bits(ZERO);
    let one = Scalar::from_bits(ONE);
    if same_text(property, "rotate-x") {
        match layer_degrees(value, degrees, node, "rotateX") {
            Ok(x) => Ok(LayerEffects { rotate_x_deg: x, ..fx }),
            Err(e) => Err(e),
        }
    } else if same_text(property, "rotate-y") {
        match layer_degrees(value, degrees, node, "rotateY") {
            Ok(x) => Ok(LayerEffects { rotate_y_deg: x, ..fx }),
            Err(e) => Err(e),
        }
    } else if same_text(property, "perspective") {
        match layer_perspective(value, node) {
            Ok(p) => Ok(LayerEffects { perspective: Some(p), ..fx }),
            Err(e) => Err(e),
        }
    } else if same_text(property, "paper-grain") {
        match layer_scalar(value, node, "paperGrain") {
            Ok(x) => Ok(LayerEffects { paper_grain: x.clamp(zero, one), ..fx }),
            Err(e) => Err(e),
        }
    } else if same_text(property, "contact-shadow") {
        match layer_scalar(value, node, "contactShadow") {
            Ok(x) => Ok(LayerEffects { contact_shadow: x.clamp(zero, one), ..fx }),
            Err(e) => Err(e),
        }
    } else {
        Ok(fx)
    }
}

/// The layer effects of a node, where anything is to be seen of them.
pub open spec fn visible_effects(r: Result<LayerEffects, LayoutFault>) -> Result<
    Option<LayerEffects>,
    LayoutFault,
> {
    match r {
        Err(f) => Err(f),
        Ok(fx) => if fx.empty_spec() { Ok(None) } else { Ok(Some(fx)) },
    }
}

/// The layer effects of a node, where anything is to be seen of them. `degrees` holds, for each style
/// whose value is an angle, that angle in degrees.
pub fn resolve_layer_fx(
    node: &SceneNode,
    values: &Vec<MotionValue>,
    at: usize,
    degrees: &Vec<Scalar>,
) -> (r: Result<Option<LayerEffects>, LayoutError>)
    requires
        degrees@.len() == node.styles@.len(),
    ensures
        plain(r) == visible_effects(
            effects_of(*node, values_of(values@), at as int, degrees@, node.styles@.len()),
        ),
{
    let zero = Scalar::from_bits(ZERO);
    let mut fx = LayerEffects {
        rotate_x_deg: zero,
        rotate_y_deg: zero,
        perspective: None,
        paper_grain: zero,
        contact_shadow: zero,
    };
    let mut i: usize = 0;
    while i < node.styles.len()
        invariant
            i <= node.styles@.len(),
            degrees@.len() == node.styles@.len(),
            effects_of(*node, values_of(values@), at as int, degrees@, i as nat) == Ok::<
                LayerEffects,
                LayoutFault,
            >(fx),
        decreases node.styles@.len() - i,
    {
        proof {
            if effects_of(
                *node,
                values_of(values@),
                at as int,
                degrees@,
                (i + 1) as nat,
            ) is Err {
                effects_stuck(
                    *node,
                    values_of(values@),
                    at as int,
                    degrees@,
                    (i + 1) as nat,
                    node.styles@.len(),
                );
            }
        }
        let v = match style_value(&node.styles[i].value, values, at) {
            Ok(v) => v,
            Err(e) => {
                return Err(e);
            },
        };
        fx = match apply_effect(
            fx,
            node.styles[i].property.as_str(),
            v,
            degrees[i],
            node.key.as_str(),
        ) {
            Ok(fx) => fx,
            Err(e) => {
                return Err(e);
            },
        };
        i = i + 1;
    }
    if fx.is_empty() {
        Ok(None)
    } else {
        Ok(Some(fx))
    }
}

/// Grain and contact shadow of accepted effects lie between 0 and 1.
pub proof fn effects_stay_in_range(
    node: SceneNode,
    values: Seq<Value>,
    at: int,
    degrees: Seq<Scalar>,
    n: nat,
)
    requires
        effects_of(node, values, at, degrees, n) is Ok,
    ensures
        effects_of(node, values, at, degrees, n)->Ok_0.paper_grain.within(num(ZERO), num(ONE)),
        effects_of(node, values, at, degrees, n)->Ok_0.contact_shadow.within(num(ZERO), num(ONE)),
    decreases n,
{
    if n > 0 {
        effects_stay_in_range(node, values, at, degrees, (n - 1) as nat);
        match style_valued(node.styles@[n - 1].value, values, at) {
            Ok(Value::Number(x)) => {
                if !x.is_nan_spec() {
                    crate::scalar::clamp_stays_inside(x, num(ZERO), num(ONE));
                }
            },
            _ => {},
        }
    }
}

} // verus!
