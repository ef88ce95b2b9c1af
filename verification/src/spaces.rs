//! The 3D spaces of a scene: how transforms and perspectives pass from a node to its children, and
//! the planes that nodes become in them.

use vstd::prelude::*;

use crate::artifact::{NodeId, SceneArtifact};
use crate::effects::{
    accepted_distance, perspective_product, position_product, resolve_css_position, style_fault,
    LengthProduct, PerspectiveLength, Sizing,
};
use crate::eval::values_of;
use crate::glass_frame::{PlacedPlane, Quad};
use crate::layout_error::{plain, LayoutError, LayoutFault};
use crate::planes::{
    child_space, child_space_of, css_3d_of, css_3d_plane, css_3d_style, plane_of, ChildSpace,
    Css3dOp, Css3dStyle, PlaneFacts, PlaneRecord, Styled3d,
};
use crate::recording::{Point, Rect};
use crate::scalar::{num, Scalar, ZERO};
use crate::table::{find, lookup, mapped, store, Entry};
use crate::value::{Length, Length2, LengthUnit, MotionValue};

verus! {

/// 50.0
pub const HALF_WAY: u64 = 0x4049_0000_0000_0000;

/// A 4x4 matrix in row-major order.
#[derive(Clone, Copy, Debug)]
pub struct Matrix4 {
    pub rows: [Scalar; 16],
}

/// One product of matrices.
#[derive(Clone, Copy, Debug)]
pub enum MatrixStep {
    Identity,
    /// A matrix times a transform function; percentages are those of a box.
    Function { matrix: Matrix4, op: Css3dOp, rect: Rect },
    /// A transform about an origin.
    Centered { matrix: Matrix4, origin: Point },
    Product { left: Matrix4, right: Matrix4 },
}

/// A resolved perspective: the distance of the camera, and where it looks.
#[derive(Clone, Copy, Debug, PartialEq, Eq, Structural)]
pub struct Css3dPerspective {
    pub distance: Scalar,
    pub origin: Point,
}

/// The space that a node stands in.
#[derive(Clone, Copy, Debug)]
pub struct Css3dState {
    pub matrix: Matrix4,
    pub perspective: Option<Css3dPerspective>,
    pub preserve_3d: bool,
}

/// A box to be carried into the viewport.
#[derive(Clone, Copy, Debug)]
pub struct PlaneTask {
    pub matrix: Matrix4,
    pub perspective: Option<Css3dPerspective>,
    pub rect: Rect,
    /// Transform origin, the center of the plane.
    pub origin: Point,
}

/// A box carried into the viewport.
#[derive(Clone, Copy, Debug)]
pub struct PlaneView {
    pub facts: PlaneFacts,
    pub quad: Quad,
}

/// The arithmetic behind 3D spaces: the coordinate of a length, a distance, products of matrices, and
/// boxes carried into the viewport.
pub struct SpaceHost<'a, P, D, M, W> {
    pub place: &'a P,
    pub distance: &'a D,
    pub matrix: &'a M,
    pub view: &'a W,
}

/// What the walk through a scene reads of a frame.
pub struct SpaceScene<'a> {
    pub artifact: &'a SceneArtifact,
    pub values: &'a Vec<MotionValue>,
    pub boxes: &'a Vec<Entry<Rect>>,
    pub sizing: &'a Sizing,
}

/// Whether the host answers every question, and one question always in the same way.
pub open spec fn host_ready<
    P: Fn(Scalar, LengthProduct) -> Scalar,
    D: Fn(LengthProduct) -> Scalar,
    M: Fn(&MatrixStep) -> Matrix4,
    W: Fn(&PlaneTask) -> PlaneView,
>(h: SpaceHost<P, D, M, W>) -> bool {
    &&& forall|x: Scalar, p: LengthProduct| call_requires(*h.place, (x, p))
    &&& forall|p: LengthProduct| call_requires(*h.distance, (p,))
    &&& forall|m: MatrixStep| call_requires(*h.matrix, (&m,))
    &&& forall|t: PlaneTask| call_requires(*h.view, (&t,))
    &&& forall|x: Scalar, p: LengthProduct, a: Scalar, b: Scalar|
        #[trigger] call_ensures(*h.place, (x, p), a) && #[trigger] call_ensures(
            *h.place,
            (x, p),
            b,
        ) ==> a == b
    &&& forall|p: LengthProduct, a: Scalar, b: Scalar|
        #[trigger] call_ensures(*h.distance, (p,), a) && #[trigger] call_ensures(
            *h.distance,
            (p,),
            b,
        ) ==> a == b
    &&& forall|m: MatrixStep, a: Matrix4, b: Matrix4|
        #[trigger] call_ensures(*h.matrix, (&m,), a) && #[trigger] call_ensures(
            *h.matrix,
            (&m,),
            b,
        ) ==> a == b
    &&& forall|t: PlaneTask, a: PlaneView, b: PlaneView|
        #[trigger] call_ensures(*h.view, (&t,), a) && #[trigger] call_ensures(
            *h.view,
            (&t,),
            b,
        ) ==> a == b
}

/// The host's product.
pub open spec fn product<M: Fn(&MatrixStep) -> Matrix4>(matrix: M, step: MatrixStep) -> Matrix4 {
    choose|m: Matrix4| call_ensures(matrix, (&step,), m)
}

/// The host's view of a box.
pub open spec fn viewed<W: Fn(&PlaneTask) -> PlaneView>(view: W, task: PlaneTask) -> PlaneView {
    choose|v: PlaneView| call_ensures(view, (&task,), v)
}

/// The coordinate of a length.
pub open spec fn coordinate<P: Fn(Scalar, LengthProduct) -> Scalar>(
    place: P,
    value: Length,
    start: Scalar,
    size: Scalar,
    s: Sizing,
    node: Seq<char>,
    property: Seq<char>,
) -> Result<Scalar, LayoutFault> {
    match position_product(value, size, s) {
        Err(reason) => Err(LayoutFault::BadStyle(node, property, reason)),
        Ok(p) => {
            let x = choose|x: Scalar| call_ensures(place, (start, p), x);
            if x.finite() {
                Ok(x)
            } else {
                Err(
                    LayoutFault::BadStyle(
                        node,
                        property,
                        "position must resolve to a finite coordinate"@,
                    ),
                )
            }
        },
    }
}

/// The distance of the camera.
pub open spec fn camera_distance<D: Fn(LengthProduct) -> Scalar>(
    distance: D,
    length: PerspectiveLength,
    s: Sizing,
) -> Result<Scalar, Seq<char>> {
    match perspective_product(length, s) {
        Err(reason) => Err(reason),
        Ok(p) => accepted_distance(choose|px: Scalar| call_ensures(distance, (p,), px)),
    }
}

/// Half of a side.
pub open spec fn half_way() -> Length {
    Length { value: num(HALF_WAY), unit: LengthUnit::Percent }
}

/// Where a transform turns about.
pub open spec fn transform_origin(style: Styled3d) -> Length2 {
    match style.transform_origin {
        Some(o) => o,
        None => Length2 { x: half_way(), y: half_way() },
    }
}

pub open spec fn length_or_half(l: Option<Length>) -> Length {
    match l {
        Some(l) => l,
        None => half_way(),
    }
}

/// The point that two lengths name inside a box.
pub open spec fn point_in<P: Fn(Scalar, LengthProduct) -> Scalar>(
    place: P,
    x: Length,
    y: Length,
    rect: Rect,
    s: Sizing,
    node: Seq<char>,
    labels: (Seq<char>, Seq<char>),
) -> Result<Point, LayoutFault> {
    match coordinate(place, x, rect.x, rect.width, s, node, labels.0) {
        Err(f) => Err(f),
        Ok(x) => match coordinate(place, y, rect.y, rect.height, s, node, labels.1) {
            Err(f) => Err(f),
            Ok(y) => Ok(Point { x, y }),
        },
    }
}

/// The first `n` transform functions of a list: the authored list multiplies from left to right.
pub open spec fn functions<M: Fn(&MatrixStep) -> Matrix4>(
    matrix: M,
    ops: Seq<Css3dOp>,
    rect: Rect,
    n: nat,
) -> Matrix4
    decreases n,
{
    if n == 0 {
        product(matrix, MatrixStep::Identity)
    } else {
        product(
            matrix,
            MatrixStep::Function {
                matrix: functions(matrix, ops, rect, (n - 1) as nat),
                op: ops[n - 1],
                rect,
            },
        )
    }
}

/// The transform of a node, inside the space that it stands in.
pub open spec fn node_matrix<M: Fn(&MatrixStep) -> Matrix4>(
    matrix: M,
    style: Styled3d,
    origin: Point,
    rect: Rect,
    state: Css3dState,
) -> Matrix4 {
    let local = product(
        matrix,
        MatrixStep::Centered {
            matrix: functions(matrix, style.ops, rect, style.ops.len()),
            origin,
        },
    );
    if state.preserve_3d {
        product(matrix, MatrixStep::Product { left: state.matrix, right: local })
    } else {
        local
    }
}

/// The perspective of a node: its own, or the one that it stands in.
pub open spec fn node_perspective<
    P: Fn(Scalar, LengthProduct) -> Scalar,
    D: Fn(LengthProduct) -> Scalar,
    M: Fn(&MatrixStep) -> Matrix4,
    W: Fn(&PlaneTask) -> PlaneView,
>(
    h: SpaceHost<P, D, M, W>,
    style: Styled3d,
    rect: Rect,
    s: Sizing,
    node: Seq<char>,
    state: Css3dState,
) -> Result<Option<Css3dPerspective>, LayoutFault> {
    match style.perspective {
        None => Ok(state.perspective),
        Some(length) => match point_in(
            *h.place,
            length_or_half(style.perspective_origin_x),
            length_or_half(style.perspective_origin_y),
            rect,
            s,
            node,
            ("perspectiveOrigin.x"@, "perspectiveOrigin.y"@),
        ) {
            Err(f) => Err(f),
            Ok(origin) => match camera_distance(*h.distance, length, s) {
                Err(reason) => style_fault(node, "perspective"@, reason),
                Ok(distance) => Ok(Some(Css3dPerspective { distance, origin })),
            },
        },
    }
}

/// The state outside of every 3D space.
pub open spec fn flat_state<M: Fn(&MatrixStep) -> Matrix4>(matrix: M) -> Css3dState {
    Css3dState {
        matrix: product(matrix, MatrixStep::Identity),
        perspective: None,
        preserve_3d: false,
    }
}

/// The corners of a record that has no plane of its own.
pub open spec fn no_quad() -> Quad {
    let o = Point { x: num(ZERO), y: num(ZERO) };
    Quad { top_left: o, top_right: o, bottom_right: o, bottom_left: o }
}

/// What a record adds to the planes of a scene.
pub open spec fn placed(record: PlaneRecord, quad: Quad) -> Option<PlacedPlane> {
    match record {
        PlaneRecord::Flat => None,
        PlaneRecord::Projected { depth, hidden } => Some(
            PlacedPlane { quad, depth, hidden, project: true },
        ),
        PlaneRecord::Depth { depth } => Some(
            PlacedPlane { quad: no_quad(), depth, hidden: false, project: false },
        ),
    }
}

/// The space that a node hands to its children.
pub open spec fn child_state<M: Fn(&MatrixStep) -> Matrix4>(
    matrix: M,
    style: Styled3d,
    own: Matrix4,
    perspective: Option<Css3dPerspective>,
) -> Css3dState {
    match child_space_of(style) {
        ChildSpace::Shared => Css3dState { matrix: own, perspective, preserve_3d: true },
        ChildSpace::Viewed => Css3dState { perspective, ..flat_state(matrix) },
        ChildSpace::Flat => flat_state(matrix),
    }
}

/// The box of a node; an empty one where it has none.
pub open spec fn box_of(boxes: Seq<Entry<Rect>>, key: Seq<char>) -> Rect {
    match find(boxes, key) {
        Some(rect) => rect,
        None => Rect { x: num(ZERO), y: num(ZERO), width: num(ZERO), height: num(ZERO) },
    }
}

/// What a single node contributes: its plane, if it is one, and the space of its children.
pub open spec fn node_space<
    P: Fn(Scalar, LengthProduct) -> Scalar,
    D: Fn(LengthProduct) -> Scalar,
    M: Fn(&MatrixStep) -> Matrix4,
    W: Fn(&PlaneTask) -> PlaneView,
>(h: SpaceHost<P, D, M, W>, s: SpaceScene, at: int, state: Css3dState) -> Result<
    (Option<PlacedPlane>, Css3dState),
    LayoutFault,
> {
    let node = s.artifact.nodes@[at];
    let rect = box_of(s.boxes@, node.key@);
    match css_3d_of(node, values_of(s.values@), at) {
        Err(f) => Err(f),
        Ok(style) => match point_in(
            *h.place,
            transform_origin(style).x,
            transform_origin(style).y,
            rect,
            *s.sizing,
            node.key@,
            ("transformOrigin.x"@, "transformOrigin.y"@),
        ) {
            Err(f) => Err(f),
            Ok(origin) => match node_perspective(h, style, rect, *s.sizing, node.key@, state) {
                Err(f) => Err(f),
                Ok(perspective) => {
                    let own = node_matrix(*h.matrix, style, origin, rect, state);
                    let view = viewed(*h.view, PlaneTask { matrix: own, perspective, rect, origin });
                    match plane_of(style, state.preserve_3d, rect, view.facts, node.key@) {
                        Err(f) => Err(f),
                        Ok(record) => Ok(
                            (
                                placed(record, view.quad),
                                child_state(*h.matrix, style, own, perspective),
                            ),
                        ),
                    }
                },
            },
        },
    }
}

/// The planes once a node and everything below it are looked at. A scene that is a tree is nested no
/// deeper than it has nodes.
pub open spec fn walked<
    P: Fn(Scalar, LengthProduct) -> Scalar,
    D: Fn(LengthProduct) -> Scalar,
    M: Fn(&MatrixStep) -> Matrix4,
    W: Fn(&PlaneTask) -> PlaneView,
>(
    h: SpaceHost<P, D, M, W>,
    s: SpaceScene,
    at: int,
    state: Css3dState,
    out: Map<Seq<char>, PlacedPlane>,
    fuel: nat,
) -> Result<Map<Seq<char>, PlacedPlane>, LayoutFault>
    decreases fuel, 0nat,
{
    if fuel == 0 || at < 0 || at >= s.artifact.nodes@.len() {
        Err(LayoutFault::BadNode(at))
    } else {
        match node_space(h, s, at, state) {
            Err(f) => Err(f),
            Ok((plane, below)) => {
                let more = match plane {
                    Some(p) => out.insert(s.artifact.nodes@[at].key@, p),
                    None => out,
                };
                match s.artifact.children_of(at) {
                    None => Err(LayoutFault::BadNode(at)),
                    Some(ids) => all_walked(h, s, ids, ids.len(), below, more, (fuel - 1) as nat),
                }
            },
        }
    }
}

/// The planes once the first `n` children are looked at.
pub open spec fn all_walked<
    P: Fn(Scalar, LengthProduct) -> Scalar,
    D: Fn(LengthProduct) -> Scalar,
    M: Fn(&MatrixStep) -> Matrix4,
    W: Fn(&PlaneTask) -> PlaneView,
>(
    h: SpaceHost<P, D, M, W>,
    s: SpaceScene,
    ids: Seq<NodeId>,
    n: nat,
    state: Css3dState,
    out: Map<Seq<char>, PlacedPlane>,
    fuel: nat,
) -> Result<Map<Seq<char>, PlacedPlane>, LayoutFault>
    decreases fuel, n + 1,
{
    if n == 0 {
        Ok(out)
    } else {
        match all_walked(h, s, ids, (n - 1) as nat, state, out, fuel) {
            Err(f) => Err(f),
            Ok(before) => walked(h, s, ids[n - 1].0 as int, state, before, fuel),
        }
    }
}

fn resolve_point<P: Fn(Scalar, LengthProduct) -> Scalar>(
    place: &P,
    x: Length,
    y: Length,
    rect: Rect,
    sizing: &Sizing,
    node: &str,
    labels: (&'static str, &'static str),
) -> (r: Result<Point, LayoutError>)
    requires
        forall|x: Scalar, p: LengthProduct| call_requires(*place, (x, p)),
        forall|x: Scalar, p: LengthProduct, a: Scalar, b: Scalar|
            #[trigger] call_ensures(*place, (x, p), a) && #[trigger] call_ensures(
                *place,
                (x, p),
                b,
            ) ==> a == b,
    ensures
        plain(r) == point_in(*place, x, y, rect, *sizing, node@, (labels.0@, labels.1@)),
{
    let ghost fx = coordinate(*place, x, rect.x, rect.width, *sizing, node@, labels.0@);
    let ghost fy = coordinate(*place, y, rect.y, rect.height, *sizing, node@, labels.1@);
    let px = resolve_css_position(place, x, rect.x, rect.width, sizing, node, labels.0);
    assert(plain(px) == fx);
    let px = match px {
        Ok(px) => px,
        Err(e) => {
            return Err(e);
        },
    };
    let py = resolve_css_position(place, y, rect.y, rect.height, sizing, node, labels.1);
    assert(plain(py) == fy);
    match py {
        Ok(py) => Ok(Point { x: px, y: py }),
        Err(e) => Err(e),
    }
}

fn resolve_half(l: Option<Length>) -> (r: Length)
    ensures
        r == length_or_half(l),
{
    match l {
        Some(l) => l,
        None => Length { value: Scalar::from_bits(HALF_WAY), unit: LengthUnit::Percent },
    }
}

/// The transform of a node about its origin: its functions in authored order, inside the space that
/// it stands in.
pub fn css_3d_local_matrix<M: Fn(&MatrixStep) -> Matrix4>(
    matrix: &M,
    style: &Css3dStyle,
    origin: Point,
    rect: Rect,
    state: Css3dState,
) -> (r: Matrix4)
    requires
        forall|m: MatrixStep| call_requires(*matrix, (&m,)),
        forall|m: MatrixStep, a: Matrix4, b: Matrix4|
            #[trigger] call_ensures(*matrix, (&m,), a) && #[trigger] call_ensures(
                *matrix,
                (&m,),
                b,
            ) ==> a == b,
    ensures
        r == node_matrix(*matrix, style@, origin, rect, state),
{
    let mut transform = matrix(&MatrixStep::Identity);
    let mut i: usize = 0;
    assert(transform == product(*matrix, MatrixStep::Identity));
    while i < style.ops.len()
        invariant
            i <= style.ops@.len(),
            transform == functions(*matrix, style.ops@, rect, i as nat),
            forall|m: MatrixStep| call_requires(*matrix, (&m,)),
            forall|m: MatrixStep, a: Matrix4, b: Matrix4|
                #[trigger] call_ensures(*matrix, (&m,), a) && #[trigger] call_ensures(
                    *matrix,
                    (&m,),
                    b,
                ) ==> a == b,
        decreases style.ops@.len() - i,
    {
        let step = MatrixStep::Function { matrix: transform, op: style.ops[i], rect };
        transform = matrix(&step);
        assert(transform == product(*matrix, step));
        i = i + 1;
    }
    let step = MatrixStep::Centered { matrix: transform, origin };
    let local = matrix(&step);
    assert(local == product(*matrix, step));
    if state.preserve_3d {
        let step = MatrixStep::Product { left: state.matrix, right: local };
        let whole = matrix(&step);
        assert(whole == product(*matrix, step));
        whole
    } else {
        local
    }
}

fn resolve_perspective<
    P: Fn(Scalar, LengthProduct) -> Scalar,
    D: Fn(LengthProduct) -> Scalar,
    M: Fn(&MatrixStep) -> Matrix4,
    W: Fn(&PlaneTask) -> PlaneView,
>(
    h: &SpaceHost<P, D, M, W>,
    style: &Css3dStyle,
    rect: Rect,
    sizing: &Sizing,
    node: &str,
    state: Css3dState,
) -> (r: Result<Option<Css3dPerspective>, LayoutError>)
    requires
        host_ready(*h),
    ensures
        plain(r) == node_perspective(*h, style@, rect, *sizing, node@, state),
{
    let length = match style.perspective {
        None => {
            return Ok(state.perspective);
        },
        Some(length) => length,
    };
    let origin = match resolve_point(
        h.place,
        resolve_half(style.perspective_origin_x),
        resolve_half(style.perspective_origin_y),
        rect,
        sizing,
        node,
        ("perspectiveOrigin.x", "perspectiveOrigin.y"),
    ) {
        Ok(origin) => origin,
        Err(e) => {
            return Err(e);
        },
    };
    match length.to_px(sizing, h.distance) {
        Ok(distance) => {
            assert(camera_distance(*h.distance, length, *sizing) == Ok::<Scalar, Seq<char>>(
                distance,
            ));
            Ok(Some(Css3dPerspective { distance, origin }))
        },
        Err(reason) => {
            assert(camera_distance(*h.distance, length, *sizing) == Err::<Scalar, Seq<char>>(
                reason@,
            ));
            Err(
                LayoutError::BadStyle {
                    node: node.to_owned(),
                    declarations: "perspective".to_owned(),
                    reason: reason.to_owned(),
                },
            )
        },
    }
}

fn flat<M: Fn(&MatrixStep) -> Matrix4>(matrix: &M) -> (r: Css3dState)
    requires
        forall|m: MatrixStep| call_requires(*matrix, (&m,)),
        forall|m: MatrixStep, a: Matrix4, b: Matrix4|
            #[trigger] call_ensures(*matrix, (&m,), a) && #[trigger] call_ensures(
                *matrix,
                (&m,),
                b,
            ) ==> a == b,
    ensures
        r == flat_state(*matrix),
{
    let identity = matrix(&MatrixStep::Identity);
    assert(identity == product(*matrix, MatrixStep::Identity));
    Css3dState { matrix: identity, perspective: None, preserve_3d: false }
}

fn find_box(boxes: &Vec<Entry<Rect>>, key: &str) -> (r: Rect)
    ensures
        r == box_of(boxes@, key@),
{
    match lookup(boxes, key) {
        Some(rect) => *rect,
        None => {
            let zero = Scalar::from_bits(ZERO);
            Rect { x: zero, y: zero, width: zero, height: zero }
        },
    }
}

fn place_record(record: PlaneRecord, quad: Quad) -> (r: Option<PlacedPlane>)
    ensures
        r == placed(record, quad),
{
    match record {
        PlaneRecord::Flat => None,
        PlaneRecord::Projected { depth, hidden } => Some(
            PlacedPlane { quad, depth, hidden, project: true },
        ),
        PlaneRecord::Depth { depth } => {
            let zero = Scalar::from_bits(ZERO);
            let o = Point { x: zero, y: zero };
            Some(
                PlacedPlane {
                    quad: Quad { top_left: o, top_right: o, bottom_right: o, bottom_left: o },
                    depth,
                    hidden: false,
                    project: false,
                },
            )
        },
    }
}

/// What a single node contributes: its plane, if it is one, and the space of its children.
fn resolve_node<
    P: Fn(Scalar, LengthProduct) -> Scalar,
    D: Fn(LengthProduct) -> Scalar,
    M: Fn(&MatrixStep) -> Matrix4,
    W: Fn(&PlaneTask) -> PlaneView,
>(h: &SpaceHost<P, D, M, W>, s: &SpaceScene, at: usize, state: Css3dState) -> (r: Result<
    (Option<PlacedPlane>, Css3dState),
    LayoutError,
>)
    requires
        host_ready(*h),
        at < s.artifact.nodes@.len(),
    ensures
        plain(r) == node_space(*h, *s, at as int, state),
{
    let node = &s.artifact.nodes[at];
    let key = node.key.as_str();
    let style = match css_3d_style(node, s.values, at) {
        Ok(style) => style,
        Err(e) => {
            return Err(e);
        },
    };
    let rect = find_box(s.boxes, key);
    let half = resolve_half(None);
    let turn = match style.transform_origin {
        Some(o) => o,
        None => Length2 { x: half, y: half },
    };
    let origin = match resolve_point(
        h.place,
        turn.x,
        turn.y,
        rect,
        s.sizing,
        key,
        ("transformOrigin.x", "transformOrigin.y"),
    ) {
        Ok(origin) => origin,
        Err(e) => {
            return Err(e);
        },
    };
    let perspective = match resolve_perspective(h, &style, rect, s.sizing, key, state) {
        Ok(perspective) => perspective,
        Err(e) => {
            return Err(e);
        },
    };
    let own = css_3d_local_matrix(h.matrix, &style, origin, rect, state);
    let task = PlaneTask { matrix: own, perspective, rect, origin };
    let view = (h.view)(&task);
    assert(view == viewed(*h.view, task));
    let record = match css_3d_plane(&style, state.preserve_3d, rect, view.facts, key) {
        Ok(record) => record,
        Err(e) => {
            return Err(e);
        },
    };
    let below = match child_space(&style) {
        ChildSpace::Shared => Css3dState { matrix: own, perspective, preserve_3d: true },
        ChildSpace::Viewed => {
            let base = flat(h.matrix);
            Css3dState { matrix: base.matrix, perspective, preserve_3d: false }
        },
        ChildSpace::Flat => flat(h.matrix),
    };
    Ok((place_record(record, view.quad), below))
}

proof fn walk_stuck<
    P: Fn(Scalar, LengthProduct) -> Scalar,
    D: Fn(LengthProduct) -> Scalar,
    M: Fn(&MatrixStep) -> Matrix4,
    W: Fn(&PlaneTask) -> PlaneView,
>(
    h: SpaceHost<P, D, M, W>,
    s: SpaceScene,
    ids: Seq<NodeId>,
    m: nat,
    n: nat,
    state: Css3dState,
    out: Map<Seq<char>, PlacedPlane>,
    fuel: nat,
)
    requires
        m <= n,
        all_walked(h, s, ids, m, state, out, fuel) is Err,
    ensures
        all_walked(h, s, ids, n, state, out, fuel) == all_walked(h, s, ids, m, state, out, fuel),
    decreases n - m,
{
    if m < n {
        walk_stuck(h, s, ids, m, (n - 1) as nat, state, out, fuel);
    }
}

/// The planes of a table, or the error that the walk ended with.
pub open spec fn planes_seen(r: Result<(), LayoutError>, out: Seq<Entry<PlacedPlane>>) -> Result<
    Map<Seq<char>, PlacedPlane>,
    LayoutFault,
> {
    match r {
        Ok(_) => Ok(mapped(out)),
        Err(e) => Err(e@),
    }
}

fn resolve_css_3d_node<
    P: Fn(Scalar, LengthProduct) -> Scalar,
    D: Fn(LengthProduct) -> Scalar,
    M: Fn(&MatrixStep) -> Matrix4,
    W: Fn(&PlaneTask) -> PlaneView,
>(
    h: &SpaceHost<P, D, M, W>,
    s: &SpaceScene,
    at: usize,
    state: Css3dState,
    out: &mut Vec<Entry<PlacedPlane>>,
    fuel: usize,
) -> (r: Result<(), LayoutError>)
    requires
        host_ready(*h),
    ensures
        planes_seen(r, final(out)@) == walked(
            *h,
            *s,
            at as int,
            state,
            mapped(old(out)@),
            fuel as nat,
        ),
    decreases fuel, 0nat,
{
    if fuel == 0 || at >= s.artifact.nodes.len() {
        return Err(LayoutError::BadNode { at });
    }
    let (plane, below) = match resolve_node(h, s, at, state) {
        Ok(both) => both,
        Err(e) => {
            return Err(e);
        },
    };
    match plane {
        Some(p) => {
            store(out, s.artifact.nodes[at].key.as_str(), p);
        },
        None => {},
    }
    match s.artifact.child_ids(at) {
        None => Err(LayoutError::BadNode { at }),
        Some(ids) => resolve_children(h, s, &ids, below, out, fuel - 1),
    }
}

fn resolve_children<
    P: Fn(Scalar, LengthProduct) -> Scalar,
    D: Fn(LengthProduct) -> Scalar,
    M: Fn(&MatrixStep) -> Matrix4,
    W: Fn(&PlaneTask) -> PlaneView,
>(
    h: &SpaceHost<P, D, M, W>,
    s: &SpaceScene,
    ids: &Vec<NodeId>,
    state: Css3dState,
    out: &mut Vec<Entry<PlacedPlane>>,
    fuel: usize,
) -> (r: Result<(), LayoutError>)
    requires
        host_ready(*h),
    ensures
        planes_seen(r, final(out)@) == all_walked(
            *h,
            *s,
            ids@,
            ids@.len(),
            state,
            mapped(old(out)@),
            fuel as nat,
        ),
    decreases fuel, 1nat,
{
    let ghost start = mapped(out@);
    let mut n: usize = 0;
    while n < ids.len()
        invariant
            host_ready(*h),
            n <= ids@.len(),
            start == mapped(old(out)@),
            all_walked(*h, *s, ids@, n as nat, state, start, fuel as nat) == Ok::<
                Map<Seq<char>, PlacedPlane>,
                LayoutFault,
            >(mapped(out@)),
        decreases ids@.len() - n,
    {
        let step = resolve_css_3d_node(h, s, ids[n].0 as usize, state, out, fuel);
        match step {
            Ok(_) => {},
            Err(e) => {
                proof {
                    walk_stuck(
                        *h,
                        *s,
                        ids@,
                        (n + 1) as nat,
                        ids@.len(),
                        state,
                        start,
                        fuel as nat,
                    );
                }
                return Err(e);
            },
        }
        n = n + 1;
    }
    Ok(())
}

/// All planes of a scene by node key.
pub open spec fn planes_told<
    P: Fn(Scalar, LengthProduct) -> Scalar,
    D: Fn(LengthProduct) -> Scalar,
    M: Fn(&MatrixStep) -> Matrix4,
    W: Fn(&PlaneTask) -> PlaneView,
>(h: SpaceHost<P, D, M, W>, s: SpaceScene) -> Result<Map<Seq<char>, PlacedPlane>, LayoutFault> {
    walked(
        h,
        s,
        s.artifact.root.0 as int,
        flat_state(*h.matrix),
        Map::empty(),
        s.artifact.nodes@.len(),
    )
}

/// The planes that the nodes of a scene become this frame, by node key.
pub fn resolve_css_3d_planes<
    P: Fn(Scalar, LengthProduct) -> Scalar,
    D: Fn(LengthProduct) -> Scalar,
    M: Fn(&MatrixStep) -> Matrix4,
    W: Fn(&PlaneTask) -> PlaneView,
>(h: &SpaceHost<P, D, M, W>, s: &SpaceScene) -> (r: Result<Vec<Entry<PlacedPlane>>, LayoutError>)
    requires
        host_ready(*h),
    ensures
        match r {
            Ok(planes) => planes_told(*h, *s) == Ok::<Map<Seq<char>, PlacedPlane>, LayoutFault>(
                mapped(planes@),
            ),
            Err(e) => planes_told(*h, *s) == Err::<Map<Seq<char>, PlacedPlane>, LayoutFault>(e@),
        },
{
    let mut out: Vec<Entry<PlacedPlane>> = Vec::new();
    assert(mapped(out@) =~= Map::empty());
    let root: usize = s.artifact.root.0 as usize;
    let state = flat(h.matrix);
    match resolve_css_3d_node(h, s, root, state, &mut out, s.artifact.nodes.len()) {
        Ok(_) => Ok(out),
        Err(e) => Err(e),
    }
}

/// A flattened node with neither transform nor hidden back face, outside of any shared space, is no
/// plane, and its children stand outside of any 3D space.
pub proof fn flat_nodes_leave_no_plane<
    P: Fn(Scalar, LengthProduct) -> Scalar,
    D: Fn(LengthProduct) -> Scalar,
    M: Fn(&MatrixStep) -> Matrix4,
    W: Fn(&PlaneTask) -> PlaneView,
>(h: SpaceHost<P, D, M, W>, s: SpaceScene, at: int, state: Css3dState, style: Styled3d)
    requires
        css_3d_of(s.artifact.nodes@[at], values_of(s.values@), at) == Ok::<Styled3d, LayoutFault>(
            style,
        ),
        style.ops.len() == 0,
        !style.preserve_3d,
        !style.backface_hidden,
        style.perspective is None,
        !state.preserve_3d,
        node_space(h, s, at, state) is Ok,
    ensures
        node_space(h, s, at, state) == Ok::<(Option<PlacedPlane>, Css3dState), LayoutFault>(
            (None, flat_state(*h.matrix)),
        ),
{
}

/// A flattened node ends the shared space: none of its children joins the space that it stands in.
pub proof fn flattening_ends_the_space<
    P: Fn(Scalar, LengthProduct) -> Scalar,
    D: Fn(LengthProduct) -> Scalar,
    M: Fn(&MatrixStep) -> Matrix4,
    W: Fn(&PlaneTask) -> PlaneView,
>(h: SpaceHost<P, D, M, W>, s: SpaceScene, at: int, state: Css3dState, style: Styled3d)
    requires
        css_3d_of(s.artifact.nodes@[at], values_of(s.values@), at) == Ok::<Styled3d, LayoutFault>(
            style,
        ),
        !style.preserve_3d,
        node_space(h, s, at, state) is Ok,
    ensures
        ({
            let below = node_space(h, s, at, state)->Ok_0.1;
            !below.preserve_3d && below.matrix == flat_state(*h.matrix).matrix
        }),
{
}

} // verus!
