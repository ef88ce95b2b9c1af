//! The camera of a scene, the viewport, and nodes that take coordinates of the scene.

use vstd::prelude::*;

use crate::artifact::{CameraBinding, NumberValue, PointValue, SceneArtifact};
use crate::bindings::{number_bound, number_value, point_bound, point_value};
use crate::eval::values_of;
use crate::expr::{
    bounds_dependent, post_layout_dependent, reads_bounds, reads_layout, Expr, ExprId,
};
use crate::layout_error::{LayoutError, LayoutFault};
use crate::passes::{after_layout, flags_are, of_bounds};
use crate::recording::{Point, Rect};
use crate::scalar::{integer_bits, num, Scalar, ZERO};
use crate::table::{find, lookup, Entry};
use crate::text::{joined, said5};
use crate::value::{MotionValue, Value};

verus! {

/// The size of a viewport as numbers, where both are known.
pub fn eval_viewport(width: Option<u32>, height: Option<u32>) -> (r: Option<(Scalar, Scalar)>)
    ensures
        match (width, height) {
            (Some(w), Some(h)) => r matches Some(size) && size.0.bits == integer_bits(w as nat)
                && size.1.bits == integer_bits(h as nat),
            _ => r is None,
        },
{
    match (width, height) {
        (Some(w), Some(h)) => Some((Scalar::from_u32(w), Scalar::from_u32(h))),
        _ => None,
    }
}

pub open spec fn id_flagged(flags: Seq<bool>, id: ExprId) -> bool {
    id.0 < flags.len() && flags[id.0 as int]
}

pub open spec fn number_flagged(flags: Seq<bool>, b: NumberValue) -> bool {
    match b {
        NumberValue::Static { .. } => false,
        NumberValue::Expr { expr } => id_flagged(flags, expr),
    }
}

pub open spec fn point_flagged(flags: Seq<bool>, b: PointValue) -> bool {
    match b {
        PointValue::Static { .. } => false,
        PointValue::Expr { expr } => id_flagged(flags, expr),
    }
}

/// Whether a camera reads laid-out boxes.
pub open spec fn camera_flagged(flags: Seq<bool>, c: CameraBinding) -> bool {
    point_flagged(flags, c.center) || number_flagged(flags, c.zoom) || number_flagged(
        flags,
        c.rotation,
    )
}

fn flag_of(flags: &Vec<bool>, id: ExprId) -> (r: bool)
    ensures
        r == id_flagged(flags@, id),
{
    let at: usize = id.0 as usize;
    at < flags.len() && flags[at]
}

fn number_flag(flags: &Vec<bool>, b: NumberValue) -> (r: bool)
    ensures
        r == number_flagged(flags@, b),
{
    match b {
        NumberValue::Static { .. } => false,
        NumberValue::Expr { expr } => flag_of(flags, expr),
    }
}

/// Whether the camera reads laid-out boxes, so that it needs a layout before its own.
pub fn camera_depends_on_bounds(artifact: &SceneArtifact) -> (r: bool)
    ensures
        r == (artifact.camera matches Some(c) && camera_flagged(of_bounds(artifact.exprs@), c)),
{
    match &artifact.camera {
        None => false,
        Some(camera) => {
            let flags = bounds_dependent(&artifact.exprs);
            proof {
                flags_are(artifact.exprs@, |e: Expr| reads_bounds(e), flags@);
            }
            let centered = match camera.center {
                PointValue::Static { .. } => false,
                PointValue::Expr { expr } => flag_of(&flags, expr),
            };
            centered || number_flag(&flags, camera.zoom) || number_flag(&flags, camera.rotation)
        },
    }
}

/// Style texts of the two groups around the world of a scene.
#[derive(Debug)]
pub struct CameraStyles {
    pub outer: String,
    pub inner: String,
}

pub open spec fn camera_fill() -> Seq<char> {
    "position: absolute; left: 0; top: 0; width: 100%; height: 100%; transform-origin: 0 0"@
}

/// Style texts of a camera that moves nothing.
pub fn identity_camera_styles() -> (r: CameraStyles)
    ensures
        r.outer@ == camera_fill() + "; translate: 0px 0px; rotate: 0deg; scale: 1"@,
        r.inner@ == camera_fill() + "; translate: 0px 0px"@,
{
    let fill = "position: absolute; left: 0; top: 0; width: 100%; height: 100%; transform-origin: 0 0";
    CameraStyles {
        outer: joined(fill.to_owned(), "; translate: 0px 0px; rotate: 0deg; scale: 1"),
        inner: joined(fill.to_owned(), "; translate: 0px 0px"),
    }
}

/// Whether the style texts are those of a camera: the outer group turns and scales about the middle
/// of the viewport, the inner one moves the center there. `write` is the host's text of a number.
pub open spec fn camera_written<W: Fn(Scalar) -> String>(
    write: W,
    center: Point,
    zoom: Scalar,
    rotation: Scalar,
    r: CameraStyles,
) -> bool {
    &&& exists|turn: String, scale: String|
        #![trigger call_ensures(write, (rotation,), turn), call_ensures(write, (zoom,), scale)]
        call_ensures(write, (rotation,), turn) && call_ensures(write, (zoom,), scale) && r.outer@
            == camera_fill() + "; translate: 50vw 50vh; rotate: "@ + turn@ + "deg; scale: "@
            + scale@
    &&& exists|x: String, y: String|
        #![trigger call_ensures(write, (center.x.neg_spec(),), x), call_ensures(write, (center.y.neg_spec(),), y)]
        call_ensures(write, (center.x.neg_spec(),), x) && call_ensures(
            write,
            (center.y.neg_spec(),),
            y,
        ) && r.inner@ == camera_fill() + "; translate: "@ + x@ + "px "@ + y@ + "px"@
}

/// Whether a zoom can be used.
pub open spec fn zooms(zoom: Scalar) -> bool {
    zoom.finite() && num(ZERO).lt_spec(zoom)
}

/// Whether `r` is the camera with these values: zoom finite and positive, the rest finite.
pub open spec fn camera_shown<W: Fn(Scalar) -> String>(
    write: W,
    center: Point,
    zoom: Scalar,
    rotation: Scalar,
    r: Result<CameraStyles, LayoutFault>,
) -> bool {
    if !zooms(zoom) {
        r matches Err(f) && exists|text: String| #[trigger]
            call_ensures(write, (zoom,), text) && f == LayoutFault::BadCamera(
                "zoom must be finite and positive, got "@ + text@,
            )
    } else if !rotation.finite() || !center.x.finite() || !center.y.finite() {
        r == Err::<CameraStyles, LayoutFault>(
            LayoutFault::BadCamera("center and rotation must be finite"@),
        )
    } else {
        r matches Ok(styles) && camera_written(write, center, zoom, rotation, styles)
    }
}

/// Whether `r` is the camera of a frame: nothing for a scene without one.
pub open spec fn camera_given<W: Fn(Scalar) -> String>(
    write: W,
    a: SceneArtifact,
    values: Seq<Value>,
    r: Result<Option<CameraStyles>, LayoutFault>,
) -> bool {
    let at = a.root.0 as int;
    match a.camera {
        None => r == Ok::<Option<CameraStyles>, LayoutFault>(None),
        Some(c) => match point_bound(c.center, values, at, "camera center"@) {
            Err(f) => r == Err::<Option<CameraStyles>, LayoutFault>(f),
            Ok(center) => match number_bound(c.zoom, values, at, "camera zoom"@) {
                Err(f) => r == Err::<Option<CameraStyles>, LayoutFault>(f),
                Ok(zoom) => match number_bound(c.rotation, values, at, "camera rotation"@) {
                    Err(f) => r == Err::<Option<CameraStyles>, LayoutFault>(f),
                    Ok(rotation) => match r {
                        Ok(Some(styles)) => camera_shown(write, center, zoom, rotation, Ok(styles)),
                        Ok(None) => false,
                        Err(f) => camera_shown(write, center, zoom, rotation, Err(f)),
                    },
                },
            },
        },
    }
}

fn write_camera<W: Fn(Scalar) -> String>(
    write: &W,
    center: Point,
    zoom: Scalar,
    rotation: Scalar,
) -> (r: CameraStyles)
    requires
        forall|x: Scalar| call_requires(*write, (x,)),
    ensures
        camera_written(*write, center, zoom, rotation, r),
{
    let fill = "position: absolute; left: 0; top: 0; width: 100%; height: 100%; transform-origin: 0 0";
    let turn = write(rotation);
    let scale = write(zoom);
    let outer = said5(
        fill,
        "; translate: 50vw 50vh; rotate: ",
        turn.as_str(),
        "deg; scale: ",
        scale.as_str(),
    );
    let x = write(center.x.neg());
    let y = write(center.y.neg());
    let inner = joined(
        said5(fill, "; translate: ", x.as_str(), "px ", y.as_str()),
        "px",
    );
    assert(call_ensures(*write, (rotation,), turn) && call_ensures(*write, (zoom,), scale));
    assert(call_ensures(*write, (center.x.neg_spec(),), x) && call_ensures(
        *write,
        (center.y.neg_spec(),),
        y,
    ));
    CameraStyles { outer, inner }
}

pub open spec fn camera_seen(r: Result<Option<CameraStyles>, LayoutError>) -> Result<
    Option<CameraStyles>,
    LayoutFault,
> {
    match r {
        Ok(v) => Ok(v),
        Err(e) => Err(e@),
    }
}

/// The style texts of the camera of a frame.
pub fn camera_styles<W: Fn(Scalar) -> String>(
    write: &W,
    artifact: &SceneArtifact,
    values: &Vec<MotionValue>,
) -> (r: Result<Option<CameraStyles>, LayoutError>)
    requires
        forall|x: Scalar| call_requires(*write, (x,)),
    ensures
        camera_given(*write, *artifact, values_of(values@), camera_seen(r)),
{
    let at: usize = artifact.root.0 as usize;
    match &artifact.camera {
        None => Ok(None),
        Some(camera) => {
            let center = match point_value(camera.center, values, at, "camera center") {
                Ok(v) => v,
                Err(e) => {
                    return Err(e);
                },
            };
            let zoom = match number_value(camera.zoom, values, at, "camera zoom") {
                Ok(v) => v,
                Err(e) => {
                    return Err(e);
                },
            };
            let rotation = match number_value(camera.rotation, values, at, "camera rotation") {
                Ok(v) => v,
                Err(e) => {
                    return Err(e);
                },
            };
            if !(zoom.is_finite() && Scalar::from_bits(ZERO).lt(zoom)) {
                let text = write(zoom);
                return Err(
                    LayoutError::BadCamera {
                        reason: joined(
                            "zoom must be finite and positive, got ".to_owned(),
                            text.as_str(),
                        ),
                    },
                );
            }
            if !rotation.is_finite() || !center.x.is_finite() || !center.y.is_finite() {
                return Err(
                    LayoutError::BadCamera {
                        reason: "center and rotation must be finite".to_owned(),
                    },
                );
            }
            Ok(Some(write_camera(write, center, zoom, rotation)))
        },
    }
}

/// Whether a value carries coordinates.
pub open spec fn carries(v: Value) -> bool {
    v is Point || v is Vec2 || v is Rect || v is PathData
}

/// Whether an expression carries coordinates of the scene.
pub open spec fn places(flags: Seq<bool>, values: Seq<Value>, id: ExprId) -> bool {
    id_flagged(flags, id) && id.0 < values.len() && carries(values[id.0 as int])
}

/// Whether a node takes coordinates of the scene without lying at its origin.
pub open spec fn strays(
    flags: Seq<bool>,
    values: Seq<Value>,
    boxes: Seq<Entry<Rect>>,
    key: Seq<char>,
    refs: Seq<ExprId>,
) -> bool {
    find(boxes, key) matches Some(b) && !(b.x.eq_spec(num(ZERO)) && b.y.eq_spec(num(ZERO)))
        && some_places(flags, values, refs)
}

pub open spec fn some_places(flags: Seq<bool>, values: Seq<Value>, refs: Seq<ExprId>) -> bool {
    exists|k: int| 0 <= k < refs.len() && places(flags, values, #[trigger] refs[k])
}

/// The first node from `at` on that strays.
pub open spec fn stray_from(
    a: SceneArtifact,
    refs: Seq<Vec<ExprId>>,
    values: Seq<Value>,
    boxes: Seq<Entry<Rect>>,
    at: int,
) -> Option<int>
    decreases a.nodes@.len() - at,
{
    if at < 0 || at >= a.nodes@.len() {
        None
    } else if strays(after_layout(a.exprs@), values, boxes, a.nodes@[at].key@, refs[at]@) {
        Some(at)
    } else {
        stray_from(a, refs, values, boxes, at + 1)
    }
}

fn any_places(flags: &Vec<bool>, values: &Vec<MotionValue>, refs: &Vec<ExprId>) -> (r: bool)
    ensures
        r == some_places(flags@, values_of(values@), refs@),
{
    let mut k: usize = 0;
    while k < refs.len()
        invariant
            k <= refs@.len(),
            forall|j: int|
                0 <= j < k ==> !places(flags@, values_of(values@), #[trigger] refs@[j]),
        decreases refs@.len() - k,
    {
        let at: usize = refs[k].0 as usize;
        let carried = if at < values.len() {
            match &values[at] {
                MotionValue::Point(_)
                | MotionValue::Vec2(_)
                | MotionValue::Rect(_)
                | MotionValue::PathData(_) => true,
                _ => false,
            }
        } else {
            false
        };
        if flag_of(flags, refs[k]) && carried {
            assert(places(flags@, values_of(values@), refs@[k as int]));
            return true;
        }
        k = k + 1;
    }
    false
}

/// Checks that nodes that take coordinates of the scene lie at its origin. `refs` holds the
/// expressions that each node reads outside its unit styles.
pub fn check_post_layout_origins(
    artifact: &SceneArtifact,
    refs: &Vec<Vec<ExprId>>,
    values: &Vec<MotionValue>,
    boxes: &Vec<Entry<Rect>>,
) -> (r: Result<(), LayoutError>)
    requires
        refs@.len() == artifact.nodes@.len(),
    ensures
        match stray_from(*artifact, refs@, values_of(values@), boxes@, 0) {
            None => r is Ok,
            Some(at) => r matches Err(e) && e@ == stray_fault(*artifact, boxes@, at),
        },
{
    let flags = post_layout_dependent(&artifact.exprs);
    proof {
        flags_are(artifact.exprs@, |e: Expr| reads_layout(e), flags@);
    }
    let zero = Scalar::from_bits(ZERO);
    let mut at: usize = 0;
    while at < artifact.nodes.len()
        invariant
            at <= artifact.nodes@.len(),
            refs@.len() == artifact.nodes@.len(),
            flags@ == after_layout(artifact.exprs@),
            zero == num(ZERO),
            stray_from(*artifact, refs@, values_of(values@), boxes@, 0) == stray_from(
                *artifact,
                refs@,
                values_of(values@),
                boxes@,
                at as int,
            ),
        decreases artifact.nodes@.len() - at,
    {
        if let Some(b) = lookup(boxes, artifact.nodes[at].key.as_str()) {
            if !(b.x.eq_value(zero) && b.y.eq_value(zero)) && any_places(
                &flags,
                values,
                &refs[at],
            ) {
                return Err(
                    LayoutError::PostLayoutOffOrigin {
                        node: artifact.nodes[at].key.clone(),
                        x: b.x,
                        y: b.y,
                    },
                );
            }
        }
        at = at + 1;
    }
    Ok(())
}

/// The failure of a node that takes coordinates of the scene away from its origin.
pub open spec fn stray_fault(a: SceneArtifact, boxes: Seq<Entry<Rect>>, at: int) -> LayoutFault {
    let key = a.nodes@[at].key@;
    LayoutFault::PostLayoutOffOrigin(key, find(boxes, key)->0.x, find(boxes, key)->0.y)
}

/// After a passed check every node with a box either lies at the origin of the scene or takes no
/// coordinates of it.
pub proof fn checked_nodes_do_not_stray(
    a: SceneArtifact,
    refs: Seq<Vec<ExprId>>,
    values: Seq<Value>,
    boxes: Seq<Entry<Rect>>,
    from: int,
    at: int,
)
    requires
        stray_from(a, refs, values, boxes, from) is None,
        0 <= from <= at < a.nodes@.len(),
    ensures
        !strays(after_layout(a.exprs@), values, boxes, a.nodes@[at].key@, refs[at]@),
    decreases at - from,
{
    if from < at {
        checked_nodes_do_not_stray(a, refs, values, boxes, from + 1, at);
    }
}

} // verus!
