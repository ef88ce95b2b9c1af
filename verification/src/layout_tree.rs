//! A whole frame: laid out, settled, projected, and resolved for painting.

use vstd::prelude::*;

use crate::artifact::{NodeKind, SceneArtifact};
use crate::bindings::{text_bound, text_value};
use crate::boxes::{boxes_told, list_seen, node_of, CameraWrappers, LayoutNode};
use crate::contours::SegmentGeometry;
use crate::effects::{LengthProduct, Sizing};
use crate::eval::{values_of, Kernel, KernelError};
use crate::foreground::{ForegroundColors, RectTask};
use crate::formula::FormulaStyle;
use crate::frame::PathKey;
use crate::frames::{
    frame_ready, lay_frame, placement_told, Drawn, FrameHost, FrameTask, Laid, Placement,
};
use crate::glass_frame::{callable, GlassHost, PlacedPlane, Quad};
use crate::glass_parts::GlassSum;
use crate::layout_error::LayoutError;
use crate::measure::{tools_ready, Calc, MeasureTools};
use crate::nodes::{FormulaBox, PlanePlacement};
use crate::recording::{Homography, Point, Rect};
use crate::resolved::angles_given;
use crate::scalar::Scalar;
use crate::scene3d::{AnchorProjection, AnchorTask, Frame3DState, SceneRequest};
use crate::spaces::{
    host_ready, planes_told, resolve_css_3d_planes, Matrix4, MatrixStep, PlaneTask, PlaneView,
    SpaceHost, SpaceScene,
};
use crate::stages::{paint_frame, painted_given, Ground, Painted};
use crate::table::{ascending, mapped, store, Entry};
use crate::trees::{keys_seen, render_keys, walk_render_keys};
use crate::value::{MotionValue, Value};

verus! {

/// The functions of the host behind a painted frame.
pub struct PaintHost<'a, A, D, M, V, Z, E, U, G, S, N, Q, P, R, L> {
    /// Matrices and planes.
    pub space: SpaceHost<'a, A, D, M, V>,
    /// The painting order of a plane.
    pub order: &'a Z,
    /// Arc lengths.
    pub cut: MeasureTools<'a, E, U, G, S>,
    /// Glass.
    pub glass: GlassHost<'a, N, Q, P, R, L>,
}

pub open spec fn paint_ready<
    A: Fn(Scalar, LengthProduct) -> Scalar,
    D: Fn(LengthProduct) -> Scalar,
    M: Fn(&MatrixStep) -> Matrix4,
    V: Fn(&PlaneTask) -> PlaneView,
    Z: Fn(&PlacedPlane) -> PlanePlacement,
    E: Fn(&Calc) -> Scalar,
    U: Fn(&SegmentGeometry, Scalar) -> Point,
    G: Fn(&SegmentGeometry, Scalar) -> Point,
    S: Fn(&SegmentGeometry, Scalar, Scalar) -> SegmentGeometry,
    N: Fn(&GlassSum) -> Scalar,
    Q: Fn(&Quad) -> Option<Homography>,
    P: Fn(&SegmentGeometry, usize) -> Point,
    R: Fn(&RectTask) -> Option<Rect>,
    L: Fn(&Vec<ForegroundColors>) -> Option<Scalar>,
>(h: PaintHost<A, D, M, V, Z, E, U, G, S, N, Q, P, R, L>) -> bool {
    &&& host_ready(h.space)
    &&& forall|p: PlacedPlane| call_requires(*h.order, (&p,))
    &&& tools_ready(h.cut)
    &&& callable(h.glass)
}

/// A frame, ready to be emitted.
pub struct LayoutTree {
    pub placement: Placement,
    pub planes: Vec<Entry<PlacedPlane>>,
    /// The final boxes, in post-order.
    pub boxes: Vec<LayoutNode>,
    pub render_keys: Vec<PathKey>,
    /// The texts of the nodes that show one.
    pub node_texts: Vec<Entry<String>>,
    pub painted: Painted,
}

impl LayoutTree {
    /// The 3D scenes of the frame, by node key.
    pub fn scene3d_requests(&self) -> (r: &Vec<Entry<SceneRequest>>)
        ensures
            *r == self.placement.settled.scene3d,
    {
        &self.placement.settled.scene3d
    }
}

/// What a frame needs beyond its layout.
pub struct PaintTask<'a> {
    pub sizing: &'a Sizing,
    /// The angles of each node in degrees.
    pub degrees: &'a Vec<Vec<Scalar>>,
    /// How many points the outline of a surface may have.
    pub limit: usize,
}

/// Whether every plane has the painting order that the host gives it.
pub open spec fn ordered<
    Z: Fn(&PlacedPlane) -> PlanePlacement,
>(order: Z, planes: Seq<Entry<PlacedPlane>>, r: Seq<Entry<PlanePlacement>>) -> bool {
    r.len() == planes.len() && forall|i: int|
        0 <= i < r.len() ==> (#[trigger] r[i]).key@ == planes[i].key@ && call_ensures(
            order,
            (&planes[i].value,),
            r[i].value,
        )
}

fn order_planes<
    Z: Fn(&PlacedPlane) -> PlanePlacement,
>(order: &Z, planes: &Vec<Entry<PlacedPlane>>) -> (r: Vec<Entry<PlanePlacement>>)
    requires
        forall|p: PlacedPlane| call_requires(*order, (&p,)),
    ensures
        ordered(*order, planes@, r@),
{
    let mut out: Vec<Entry<PlanePlacement>> = Vec::new();
    let mut i: usize = 0;
    while i < planes.len()
        invariant
            forall|p: PlacedPlane| call_requires(*order, (&p,)),
            i <= planes@.len(),
            out@.len() == i,
            forall|k: int|
                0 <= k < i ==> (#[trigger] out@[k]).key@ == planes@[k].key@ && call_ensures(
                    *order,
                    (&planes@[k].value,),
                    out@[k].value,
                ),
        decreases planes@.len() - i,
    {
        let value = order(&planes[i].value);
        out.push(Entry { key: planes[i].key.clone(), value });
        i = i + 1;
    }
    out
}

/// The texts of the first `n` nodes that show one, by node key.
pub open spec fn text_table(a: SceneArtifact, values: Seq<Value>, n: nat) -> Map<Seq<char>, Seq<char>>
    decreases n,
{
    if n == 0 {
        Map::empty()
    } else {
        let before = text_table(a, values, (n - 1) as nat);
        match a.nodes@[n - 1].kind {
            NodeKind::Text { text, .. } => match text_bound(text, values, n - 1) {
                Ok(s) => before.insert(a.nodes@[n - 1].key@, s),
                Err(_) => before,
            },
            _ => before,
        }
    }
}

/// A table of texts by their contents.
pub open spec fn texts_seen(m: Map<Seq<char>, String>) -> Map<Seq<char>, Seq<char>> {
    m.map_values(|s: String| s@)
}

/// The texts of the nodes that show one, by node key. A text that cannot be resolved is left out.
pub fn node_texts(artifact: &SceneArtifact, values: &Vec<MotionValue>) -> (r: Vec<Entry<String>>)
    ensures
        texts_seen(mapped(r@)) == text_table(*artifact, values_of(values@), artifact.nodes@.len()),
        ascending(r@),
{
    let mut out: Vec<Entry<String>> = Vec::new();
    let mut at: usize = 0;
    assert(texts_seen(mapped(out@)) =~= Map::empty());
    while at < artifact.nodes.len()
        invariant
            at <= artifact.nodes@.len(),
            texts_seen(mapped(out@)) == text_table(*artifact, values_of(values@), at as nat),
            ascending(out@),
        decreases artifact.nodes@.len() - at,
    {
        let node = &artifact.nodes[at];
        match &node.kind {
            NodeKind::Text { text, .. } => {
                match text_value(text, values, at) {
                    Ok(s) => {
                        let ghost before = mapped(out@);
                        let ghost shown = s;
                        store(&mut out, node.key.as_str(), s);
                        assert(texts_seen(mapped(out@)) =~= texts_seen(before).insert(
                            node.key@,
                            shown@,
                        ));
                    },
                    Err(_) => {},
                }
            },
            _ => {},
        }
        at = at + 1;
    }
    out
}

/// The steps after a settled layout. Each counts as long as none before it failed.
pub struct PaintSteps {
    pub planes: Result<Vec<Entry<PlacedPlane>>, LayoutError>,
    pub placements: Vec<Entry<PlanePlacement>>,
    pub last: Result<Vec<LayoutNode>, LayoutError>,
    pub drawn: Drawn,
    pub painted: Result<Painted, LayoutError>,
}

/// Whether `r` holds the planes of a frame.
pub open spec fn planes_given<
    A: Fn(Scalar, LengthProduct) -> Scalar,
    D: Fn(LengthProduct) -> Scalar,
    M: Fn(&MatrixStep) -> Matrix4,
    V: Fn(&PlaneTask) -> PlaneView,
>(
    space: SpaceHost<A, D, M, V>,
    scene: SpaceScene,
    r: Result<Vec<Entry<PlacedPlane>>, LayoutError>,
) -> bool {
    planes_told(space, scene) == match r {
        Ok(planes) => Ok(mapped(planes@)),
        Err(e) => Err(e@),
    }
}

/// Whether the steps of painting are those of a settled frame.
pub open spec fn paint_steps<
    K: Fn(&Kernel) -> Result<MotionValue, KernelError>,
    T: Fn(&MotionValue) -> String,
    W: Fn(Scalar) -> String,
    F: Fn(usize, &FormulaStyle) -> Result<FormulaBox, String>,
    Y: Fn(&Vec<LayoutNode>, &Option<CameraWrappers>) -> Result<Laid, LayoutError>,
    X: Fn(&Vec<LayoutNode>, &Option<CameraWrappers>) -> Drawn,
    A: Fn(Scalar, LengthProduct) -> Scalar,
    D: Fn(LengthProduct) -> Scalar,
    M: Fn(&MatrixStep) -> Matrix4,
    V: Fn(&PlaneTask) -> PlaneView,
    Z: Fn(&PlacedPlane) -> PlanePlacement,
    E: Fn(&Calc) -> Scalar,
    U: Fn(&SegmentGeometry, Scalar) -> Point,
    G: Fn(&SegmentGeometry, Scalar) -> Point,
    S: Fn(&SegmentGeometry, Scalar, Scalar) -> SegmentGeometry,
    N: Fn(&GlassSum) -> Scalar,
    Q: Fn(&Quad) -> Option<Homography>,
    P: Fn(&SegmentGeometry, usize) -> Point,
    R: Fn(&RectTask) -> Option<Rect>,
    L: Fn(&Vec<ForegroundColors>) -> Option<Scalar>,
>(
    h: FrameHost<K, T, W, F, Y, X>,
    ph: PaintHost<A, D, M, V, Z, E, U, G, S, N, Q, P, R, L>,
    t: FrameTask,
    q: PaintTask,
    p: Placement,
    s: PaintSteps,
) -> bool {
    let a = *t.artifact;
    let values = values_of(p.settled.values@);
    &&& planes_given(
        ph.space,
        SpaceScene {
            artifact: t.artifact,
            values: &p.settled.values,
            boxes: &p.laid.boxes,
            sizing: q.sizing,
        },
        s.planes,
    )
    &&& s.planes is Ok ==> ordered(*ph.order, s.planes->Ok_0@, s.placements@) && boxes_told(
        *h.tokens,
        a,
        values,
        p.formulas@,
        Some(s.placements@),
        p.camera is Some,
        list_seen(s.last),
    )
    &&& s.planes is Ok && s.last is Ok ==> call_ensures(
        *h.draw,
        (&s.last->Ok_0, &p.camera),
        s.drawn,
    ) && painted_given(
        *h.kernel,
        *h.tokens,
        ph.cut,
        ph.glass,
        a,
        values,
        *t.inputs,
        &p.settled.projected,
        q.degrees@,
        Ground { boxes: &p.laid.boxes, planes: &s.planes->Ok_0, limit: q.limit },
        s.drawn.transforms,
        s.painted,
    )
}

/// What the steps of painting come to: the first failure, or the frame.
pub open spec fn paint_outcome(
    t: FrameTask,
    p: Placement,
    s: PaintSteps,
    r: Result<LayoutTree, LayoutError>,
) -> bool {
    if s.planes is Err {
        r is Err && r->Err_0@ == s.planes->Err_0@
    } else if s.last is Err {
        r is Err && r->Err_0@ == s.last->Err_0@
    } else if s.painted is Err {
        r is Err && r->Err_0@ == s.painted->Err_0@
    } else {
        r is Ok && is_tree(t, p, s, r->Ok_0)
    }
}

/// Whether a tree holds the outcome of all steps.
pub open spec fn is_tree(t: FrameTask, p: Placement, s: PaintSteps, tree: LayoutTree) -> bool {
    let a = *t.artifact;
    &&& tree.placement == p
    &&& tree.planes == s.planes->Ok_0
    &&& tree.boxes == s.last->Ok_0
    &&& keys_seen(tree.render_keys@) == render_keys(a, a.root, s.drawn.shape, Seq::empty())
    &&& texts_seen(mapped(tree.node_texts@)) == text_table(
        a,
        values_of(p.settled.values@),
        a.nodes@.len(),
    )
    &&& tree.painted == s.painted->Ok_0
}

/// Whether `r` is the painted frame of a settled layout.
pub open spec fn finish_told<
    K: Fn(&Kernel) -> Result<MotionValue, KernelError>,
    T: Fn(&MotionValue) -> String,
    W: Fn(Scalar) -> String,
    F: Fn(usize, &FormulaStyle) -> Result<FormulaBox, String>,
    Y: Fn(&Vec<LayoutNode>, &Option<CameraWrappers>) -> Result<Laid, LayoutError>,
    X: Fn(&Vec<LayoutNode>, &Option<CameraWrappers>) -> Drawn,
    A: Fn(Scalar, LengthProduct) -> Scalar,
    D: Fn(LengthProduct) -> Scalar,
    M: Fn(&MatrixStep) -> Matrix4,
    V: Fn(&PlaneTask) -> PlaneView,
    Z: Fn(&PlacedPlane) -> PlanePlacement,
    E: Fn(&Calc) -> Scalar,
    U: Fn(&SegmentGeometry, Scalar) -> Point,
    G: Fn(&SegmentGeometry, Scalar) -> Point,
    S: Fn(&SegmentGeometry, Scalar, Scalar) -> SegmentGeometry,
    N: Fn(&GlassSum) -> Scalar,
    Q: Fn(&Quad) -> Option<Homography>,
    P: Fn(&SegmentGeometry, usize) -> Point,
    R: Fn(&RectTask) -> Option<Rect>,
    L: Fn(&Vec<ForegroundColors>) -> Option<Scalar>,
>(
    h: FrameHost<K, T, W, F, Y, X>,
    ph: PaintHost<A, D, M, V, Z, E, U, G, S, N, Q, P, R, L>,
    t: FrameTask,
    q: PaintTask,
    p: Placement,
    r: Result<LayoutTree, LayoutError>,
) -> bool {
    exists|s: PaintSteps| #[trigger] paint_steps(h, ph, t, q, p, s) && paint_outcome(t, p, s, r)
}

fn finish_frame<
    K: Fn(&Kernel) -> Result<MotionValue, KernelError>,
    T: Fn(&MotionValue) -> String,
    W: Fn(Scalar) -> String,
    F: Fn(usize, &FormulaStyle) -> Result<FormulaBox, String>,
    Y: Fn(&Vec<LayoutNode>, &Option<CameraWrappers>) -> Result<Laid, LayoutError>,
    X: Fn(&Vec<LayoutNode>, &Option<CameraWrappers>) -> Drawn,
    A: Fn(Scalar, LengthProduct) -> Scalar,
    D: Fn(LengthProduct) -> Scalar,
    M: Fn(&MatrixStep) -> Matrix4,
    V: Fn(&PlaneTask) -> PlaneView,
    Z: Fn(&PlacedPlane) -> PlanePlacement,
    E: Fn(&Calc) -> Scalar,
    U: Fn(&SegmentGeometry, Scalar) -> Point,
    G: Fn(&SegmentGeometry, Scalar) -> Point,
    S: Fn(&SegmentGeometry, Scalar, Scalar) -> SegmentGeometry,
    N: Fn(&GlassSum) -> Scalar,
    Q: Fn(&Quad) -> Option<Homography>,
    P: Fn(&SegmentGeometry, usize) -> Point,
    R: Fn(&RectTask) -> Option<Rect>,
    L: Fn(&Vec<ForegroundColors>) -> Option<Scalar>,
>(
    h: &FrameHost<K, T, W, F, Y, X>,
    ph: &PaintHost<A, D, M, V, Z, E, U, G, S, N, Q, P, R, L>,
    t: &FrameTask,
    q: &PaintTask,
    p: Placement,
) -> (r: Result<LayoutTree, LayoutError>)
    requires
        frame_ready(*h),
        paint_ready(*ph),
        angles_given(*t.artifact, q.degrees@),
    ensures
        finish_told(*h, *ph, *t, *q, p, r),
{
    let ghost mut s: PaintSteps = arbitrary();
    let planes = resolve_css_3d_planes(
        &ph.space,
        &SpaceScene {
            artifact: t.artifact,
            values: &p.settled.values,
            boxes: &p.laid.boxes,
            sizing: q.sizing,
        },
    );
    proof {
        s = PaintSteps { planes, ..s };
    }
    let planes = match planes {
        Ok(planes) => planes,
        Err(e) => {
            assert(paint_steps(*h, *ph, *t, *q, p, s));
            return Err(e);
        },
    };
    let placements = order_planes(ph.order, &planes);
    let last = node_of(
        h.tokens,
        t.artifact,
        &p.settled.values,
        &p.formulas,
        Some(&placements),
        p.camera.is_some(),
    );
    proof {
        s = PaintSteps { placements, last, ..s };
    }
    let boxes = match last {
        Ok(boxes) => boxes,
        Err(e) => {
            assert(paint_steps(*h, *ph, *t, *q, p, s));
            return Err(e);
        },
    };
    let drawn = (h.draw)(&boxes, &p.camera);
    proof {
        s = PaintSteps { drawn, ..s };
    }
    let mut keys: Vec<PathKey> = Vec::new();
    let path: Vec<usize> = Vec::new();
    walk_render_keys(t.artifact, t.artifact.root, &drawn.shape, &path, &mut keys);
    let painted = paint_frame(
        h.kernel,
        h.tokens,
        &ph.cut,
        &ph.glass,
        t.artifact,
        &p.settled,
        t.inputs,
        q.degrees,
        &Ground { boxes: &p.laid.boxes, planes: &planes, limit: q.limit },
        drawn.transforms,
    );
    proof {
        s = PaintSteps { painted, ..s };
        assert(path@ =~= Seq::<usize>::empty());
        assert(keys_seen(keys@) =~= render_keys(
            *t.artifact,
            t.artifact.root,
            s.drawn.shape,
            Seq::empty(),
        ));
    }
    assert(paint_steps(*h, *ph, *t, *q, p, s));
    match painted {
        Err(e) => Err(e),
        Ok(painted) => {
            let texts = node_texts(t.artifact, &p.settled.values);
            Ok(
                LayoutTree {
                    placement: p,
                    planes,
                    boxes,
                    render_keys: keys,
                    node_texts: texts,
                    painted,
                },
            )
        },
    }
}

/// Whether `r` is a frame: laid out and settled first, then painted.
pub open spec fn tree_told<
    K: Fn(&Kernel) -> Result<MotionValue, KernelError>,
    T: Fn(&MotionValue) -> String,
    W: Fn(Scalar) -> String,
    F: Fn(usize, &FormulaStyle) -> Result<FormulaBox, String>,
    Y: Fn(&Vec<LayoutNode>, &Option<CameraWrappers>) -> Result<Laid, LayoutError>,
    X: Fn(&Vec<LayoutNode>, &Option<CameraWrappers>) -> Drawn,
    C: Fn(usize, &Frame3DState) -> Option<String>,
    J: Fn(&AnchorTask) -> Result<Vec<AnchorProjection>, String>,
    A: Fn(Scalar, LengthProduct) -> Scalar,
    D: Fn(LengthProduct) -> Scalar,
    M: Fn(&MatrixStep) -> Matrix4,
    V: Fn(&PlaneTask) -> PlaneView,
    Z: Fn(&PlacedPlane) -> PlanePlacement,
    E: Fn(&Calc) -> Scalar,
    U: Fn(&SegmentGeometry, Scalar) -> Point,
    G: Fn(&SegmentGeometry, Scalar) -> Point,
    S: Fn(&SegmentGeometry, Scalar, Scalar) -> SegmentGeometry,
    N: Fn(&GlassSum) -> Scalar,
    Q: Fn(&Quad) -> Option<Homography>,
    P: Fn(&SegmentGeometry, usize) -> Point,
    R: Fn(&RectTask) -> Option<Rect>,
    L: Fn(&Vec<ForegroundColors>) -> Option<Scalar>,
>(
    h: FrameHost<K, T, W, F, Y, X>,
    check: C,
    project: J,
    ph: PaintHost<A, D, M, V, Z, E, U, G, S, N, Q, P, R, L>,
    t: FrameTask,
    q: PaintTask,
    r: Result<LayoutTree, LayoutError>,
) -> bool {
    exists|p: Result<Placement, LayoutError>| #[trigger]
        placement_told(h, check, project, t, p) && match p {
            Err(f) => r is Err && r->Err_0@ == f@,
            Ok(p) => finish_told(h, ph, t, q, p, r),
        }
}

/// Evaluates, lays out and resolves one frame. A node that is not visible is hidden, not removed, so
/// that the topology of a scene never changes.
pub fn build_tree<
    K: Fn(&Kernel) -> Result<MotionValue, KernelError>,
    T: Fn(&MotionValue) -> String,
    W: Fn(Scalar) -> String,
    F: Fn(usize, &FormulaStyle) -> Result<FormulaBox, String>,
    Y: Fn(&Vec<LayoutNode>, &Option<CameraWrappers>) -> Result<Laid, LayoutError>,
    X: Fn(&Vec<LayoutNode>, &Option<CameraWrappers>) -> Drawn,
    C: Fn(usize, &Frame3DState) -> Option<String>,
    J: Fn(&AnchorTask) -> Result<Vec<AnchorProjection>, String>,
    A: Fn(Scalar, LengthProduct) -> Scalar,
    D: Fn(LengthProduct) -> Scalar,
    M: Fn(&MatrixStep) -> Matrix4,
    V: Fn(&PlaneTask) -> PlaneView,
    Z: Fn(&PlacedPlane) -> PlanePlacement,
    E: Fn(&Calc) -> Scalar,
    U: Fn(&SegmentGeometry, Scalar) -> Point,
    G: Fn(&SegmentGeometry, Scalar) -> Point,
    S: Fn(&SegmentGeometry, Scalar, Scalar) -> SegmentGeometry,
    N: Fn(&GlassSum) -> Scalar,
    Q: Fn(&Quad) -> Option<Homography>,
    P: Fn(&SegmentGeometry, usize) -> Point,
    R: Fn(&RectTask) -> Option<Rect>,
    L: Fn(&Vec<ForegroundColors>) -> Option<Scalar>,
>(
    h: &FrameHost<K, T, W, F, Y, X>,
    check: &C,
    project: &J,
    ph: &PaintHost<A, D, M, V, Z, E, U, G, S, N, Q, P, R, L>,
    t: &FrameTask,
    q: &PaintTask,
) -> (r: Result<LayoutTree, LayoutError>)
    requires
        frame_ready(*h),
        forall|at: usize, f: Frame3DState| call_requires(*check, (at, &f)),
        forall|t: AnchorTask| call_requires(*project, (&t,)),
        paint_ready(*ph),
        t.refs@.len() == t.artifact.nodes@.len(),
        angles_given(*t.artifact, q.degrees@),
    ensures
        tree_told(*h, *check, *project, *ph, *t, *q, r),
{
    let placement = lay_frame(h, check, project, t);
    let ghost told = placement;
    assert(placement_told(*h, *check, *project, *t, told));
    match placement {
        Ok(p) => finish_frame(h, ph, t, q, p),
        Err(e) => Err(e),
    }
}

} // verus!
