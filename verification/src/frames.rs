//! Building a frame around the layout engine: values, formulas, camera and boxes before it, values
//! and planes after it.

use vstd::prelude::*;

use crate::artifact::{NodeKind, SceneArtifact};
use crate::boxes::{
    boxes_told, camera_parsed, camera_wrappers, list_seen, node_of, CameraWrappers, LayoutNode,
};
use crate::camera::{
    camera_depends_on_bounds, camera_given, camera_seen, camera_styles, identity_camera_styles,
    CameraStyles,
};
use crate::eval::{values_of, EvalInputs, Kernel, KernelError};
use crate::expr::ExprId;
use crate::formula::{formula_style_from_node, formula_styled, FormulaStyle};
use crate::layout_error::{plain, LayoutError, LayoutFault};
use crate::nodes::FormulaBox;
use crate::passes::eval_layout_bounds;
use crate::recording::{Affine, Rect};
use crate::scalar::Scalar;
use crate::scene3d::{AnchorProjection, AnchorTask, Frame3DState};
use crate::stages::{
    base_given, base_values, boxed, evaluates_to, moves_nothing, needs_probe, probed, settle, settled_given,
    values_told, Settled,
};
use crate::table::{ascending, mapped, store, Entry};
use crate::trees::RenderShape;
use crate::value::{MotionValue, Value};

verus! {

/// What the layout engine makes of a scene: the boxes of its nodes, and the content boxes of its 3D
/// scenes, by node key.
pub struct Laid {
    pub boxes: Vec<Entry<Rect>>,
    pub contents: Vec<Entry<Rect>>,
}

/// The render tree of a frame, and the paint transforms of its nodes, or why there are none.
pub struct Drawn {
    pub shape: RenderShape,
    pub transforms: Result<Vec<Entry<Affine>>, LayoutError>,
}

/// The functions of the host around a frame.
pub struct FrameHost<'a, K, T, W, F, Y, X> {
    /// Numeric tasks.
    pub kernel: &'a K,
    /// Values in declarations.
    pub tokens: &'a T,
    /// Numbers in declarations.
    pub write: &'a W,
    /// The size of the formula of a node, or why it cannot be typeset.
    pub typeset: &'a F,
    /// The layout of boxes.
    pub lay: &'a Y,
    /// The final boxes, drawn over the layout before.
    pub draw: &'a X,
}

pub open spec fn frame_ready<
    K: Fn(&Kernel) -> Result<MotionValue, KernelError>,
    T: Fn(&MotionValue) -> String,
    W: Fn(Scalar) -> String,
    F: Fn(usize, &FormulaStyle) -> Result<FormulaBox, String>,
    Y: Fn(&Vec<LayoutNode>, &Option<CameraWrappers>) -> Result<Laid, LayoutError>,
    X: Fn(&Vec<LayoutNode>, &Option<CameraWrappers>) -> Drawn,
>(h: FrameHost<K, T, W, F, Y, X>) -> bool {
    &&& forall|k: Kernel| call_requires(*h.kernel, (&k,))
    &&& forall|v: MotionValue| call_requires(*h.tokens, (&v,))
    &&& forall|x: Scalar| call_requires(*h.write, (x,))
    &&& forall|at: usize, s: FormulaStyle| call_requires(*h.typeset, (at, &s))
    &&& forall|b: Vec<LayoutNode>, c: Option<CameraWrappers>| call_requires(*h.lay, (&b, &c))
    &&& forall|b: Vec<LayoutNode>, c: Option<CameraWrappers>| call_requires(*h.draw, (&b, &c))
}

/// The style of a node's formula.
pub open spec fn style_at(start: FormulaStyle, a: SceneArtifact, values: Seq<Value>, at: int) -> Result<
    FormulaStyle,
    LayoutFault,
> {
    formula_styled(start, a.nodes@[at].styles@, values, at, a.nodes@[at].styles@.len())
}

/// Whether a node has the formula that the host set for it; other nodes have none.
pub open spec fn is_set<F: Fn(usize, &FormulaStyle) -> Result<FormulaBox, String>>(
    typeset: F,
    start: FormulaStyle,
    a: SceneArtifact,
    values: Seq<Value>,
    at: int,
    b: Option<FormulaBox>,
) -> bool {
    if a.nodes@[at].kind is MathFormula {
        b is Some && style_at(start, a, values, at) is Ok && call_ensures(
            typeset,
            (at as usize, &style_at(start, a, values, at)->Ok_0),
            Ok(b->0),
        )
    } else {
        b is None
    }
}

pub open spec fn all_set<F: Fn(usize, &FormulaStyle) -> Result<FormulaBox, String>>(
    typeset: F,
    start: FormulaStyle,
    a: SceneArtifact,
    values: Seq<Value>,
    all: Seq<Option<FormulaBox>>,
) -> bool {
    forall|i: int| 0 <= i < all.len() ==> is_set(typeset, start, a, values, i, #[trigger] all[i])
}

/// The formulas of the first `n` nodes by node key.
pub open spec fn formula_table(a: SceneArtifact, all: Seq<Option<FormulaBox>>, n: nat) -> Map<
    Seq<char>,
    FormulaBox,
>
    decreases n,
{
    if n == 0 {
        Map::empty()
    } else {
        match all[n - 1] {
            Some(b) => formula_table(a, all, (n - 1) as nat).insert(a.nodes@[n - 1].key@, b),
            None => formula_table(a, all, (n - 1) as nat),
        }
    }
}

/// Whether setting the formula of a node fails with an error.
pub open spec fn fails_to_set<F: Fn(usize, &FormulaStyle) -> Result<FormulaBox, String>>(
    typeset: F,
    start: FormulaStyle,
    a: SceneArtifact,
    values: Seq<Value>,
    at: int,
    f: LayoutFault,
) -> bool {
    a.nodes@[at].kind is MathFormula && match style_at(start, a, values, at) {
        Err(g) => f == g,
        Ok(style) => cannot_set(typeset, at as usize, style, a.nodes@[at].key@, f),
    }
}

/// Whether the host refuses a formula with an error.
pub open spec fn cannot_set<F: Fn(usize, &FormulaStyle) -> Result<FormulaBox, String>>(
    typeset: F,
    at: usize,
    style: FormulaStyle,
    key: Seq<char>,
    f: LayoutFault,
) -> bool {
    exists|reason: String| #[trigger]
        call_ensures(typeset, (at, &style), Err(reason)) && f == LayoutFault::BadFormula(
            key,
            reason@,
        )
}

/// Whether `r` holds the formulas of a frame, set in the order of their nodes.
pub open spec fn formulas_told<F: Fn(usize, &FormulaStyle) -> Result<FormulaBox, String>>(
    typeset: F,
    start: FormulaStyle,
    a: SceneArtifact,
    values: Seq<Value>,
    r: Result<Vec<Entry<FormulaBox>>, LayoutError>,
) -> bool {
    exists|all: Seq<Option<FormulaBox>>| #[trigger]
        all_set(typeset, start, a, values, all) && match r {
            Ok(table) => all.len() == a.nodes@.len() && mapped(table@) == formula_table(
                a,
                all,
                all.len(),
            ),
            Err(e) => all.len() < a.nodes@.len() && fails_to_set(
                typeset,
                start,
                a,
                values,
                all.len() as int,
                e@,
            ),
        }
}

proof fn table_settles(a: SceneArtifact, all: Seq<Option<FormulaBox>>, b: Option<FormulaBox>, n: nat)
    requires
        n <= all.len(),
    ensures
        formula_table(a, all.push(b), n) == formula_table(a, all, n),
    decreases n,
{
    if n > 0 {
        table_settles(a, all, b, (n - 1) as nat);
    }
}

/// Sets the formulas of a frame, in the order of their nodes.
pub fn prepare_formula_fragments<F: Fn(usize, &FormulaStyle) -> Result<FormulaBox, String>>(
    typeset: &F,
    start: FormulaStyle,
    artifact: &SceneArtifact,
    values: &Vec<MotionValue>,
) -> (r: Result<Vec<Entry<FormulaBox>>, LayoutError>)
    requires
        forall|at: usize, s: FormulaStyle| call_requires(*typeset, (at, &s)),
    ensures
        formulas_told(*typeset, start, *artifact, values_of(values@), r),
        r matches Ok(table) ==> ascending(table@),
{
    let ghost mut all: Seq<Option<FormulaBox>> = Seq::empty();
    let mut out: Vec<Entry<FormulaBox>> = Vec::new();
    let mut at: usize = 0;
    assert(mapped(out@) =~= Map::empty());
    while at < artifact.nodes.len()
        invariant
            forall|at: usize, s: FormulaStyle| call_requires(*typeset, (at, &s)),
            at <= artifact.nodes@.len(),
            all.len() == at,
            all_set(*typeset, start, *artifact, values_of(values@), all),
            mapped(out@) == formula_table(*artifact, all, at as nat),
            ascending(out@),
        decreases artifact.nodes@.len() - at,
    {
        let node = &artifact.nodes[at];
        let ghost before = all;
        let is_formula: bool = match &node.kind {
            NodeKind::MathFormula { .. } => true,
            _ => false,
        };
        if is_formula {
            let style = match formula_style_from_node(start, node, values, at) {
                Ok(style) => style,
                Err(e) => {
                    return Err(e);
                },
            };
            match typeset(at, &style) {
                Ok(b) => {
                    proof {
                        all = before.push(Some(b));
                        table_settles(*artifact, before, Some(b), at as nat);
                    }
                    store(&mut out, node.key.as_str(), b);
                },
                Err(reason) => {
                    let ghost why = reason;
                    assert(call_ensures(*typeset, (at, &style), Err(why)));
                    let e = LayoutError::BadFormula { node: node.key.clone(), reason };
                    assert(cannot_set(*typeset, at, style, node.key@, e@));
                    assert(fails_to_set(
                        *typeset,
                        start,
                        *artifact,
                        values_of(values@),
                        at as int,
                        e@,
                    ));
                    return Err(e);
                },
            }
        } else {
            proof {
                all = before.push(None);
                table_settles(*artifact, before, None, at as nat);
            }
        }
        at = at + 1;
    }
    Ok(out)
}

/// Whether `r` is the layout of a frame with a camera.
pub open spec fn laid_told<
    K: Fn(&Kernel) -> Result<MotionValue, KernelError>,
    T: Fn(&MotionValue) -> String,
    W: Fn(Scalar) -> String,
    F: Fn(usize, &FormulaStyle) -> Result<FormulaBox, String>,
    Y: Fn(&Vec<LayoutNode>, &Option<CameraWrappers>) -> Result<Laid, LayoutError>,
    X: Fn(&Vec<LayoutNode>, &Option<CameraWrappers>) -> Drawn,
>(
    h: FrameHost<K, T, W, F, Y, X>,
    a: SceneArtifact,
    values: Seq<Value>,
    formulas: Seq<Entry<FormulaBox>>,
    camera: Option<CameraWrappers>,
    r: Result<Laid, LayoutError>,
) -> bool {
    exists|nodes: Result<Vec<LayoutNode>, LayoutError>| #[trigger]
        boxes_told(*h.tokens, a, values, formulas, None, camera is Some, list_seen(nodes))
            && match nodes {
            Err(f) => r matches Err(e) && e@ == f@,
            Ok(nodes) => call_ensures(*h.lay, (&nodes, &camera), r),
        }
}

fn lay_boxes<
    K: Fn(&Kernel) -> Result<MotionValue, KernelError>,
    T: Fn(&MotionValue) -> String,
    W: Fn(Scalar) -> String,
    F: Fn(usize, &FormulaStyle) -> Result<FormulaBox, String>,
    Y: Fn(&Vec<LayoutNode>, &Option<CameraWrappers>) -> Result<Laid, LayoutError>,
    X: Fn(&Vec<LayoutNode>, &Option<CameraWrappers>) -> Drawn,
>(
    h: &FrameHost<K, T, W, F, Y, X>,
    artifact: &SceneArtifact,
    values: &Vec<MotionValue>,
    formulas: &Vec<Entry<FormulaBox>>,
    camera: &Option<CameraWrappers>,
) -> (r: Result<Laid, LayoutError>)
    requires
        frame_ready(*h),
    ensures
        laid_told(*h, *artifact, values_of(values@), formulas@, *camera, r),
{
    let nodes = node_of(h.tokens, artifact, values, formulas, None, camera.is_some());
    let ghost told = nodes;
    assert(boxes_told(
        *h.tokens,
        *artifact,
        values_of(values@),
        formulas@,
        None,
        camera is Some,
        list_seen(told),
    ));
    match nodes {
        Ok(nodes) => (h.lay)(&nodes, camera),
        Err(e) => Err(e),
    }
}

/// The boxes of a layout.
pub open spec fn just_boxes(laid: Result<Laid, LayoutError>) -> Result<Vec<Entry<Rect>>, LayoutError> {
    match laid {
        Ok(l) => Ok(l.boxes),
        Err(e) => Err(e),
    }
}

/// Whether `r` is the camera of a frame that reads boxes: it is evaluated after a layout with a camera
/// that moves nothing.
pub open spec fn probe_told<
    K: Fn(&Kernel) -> Result<MotionValue, KernelError>,
    T: Fn(&MotionValue) -> String,
    W: Fn(Scalar) -> String,
    F: Fn(usize, &FormulaStyle) -> Result<FormulaBox, String>,
    Y: Fn(&Vec<LayoutNode>, &Option<CameraWrappers>) -> Result<Laid, LayoutError>,
    X: Fn(&Vec<LayoutNode>, &Option<CameraWrappers>) -> Drawn,
>(
    h: FrameHost<K, T, W, F, Y, X>,
    a: SceneArtifact,
    values: Seq<Value>,
    inputs: EvalInputs,
    formulas: Seq<Entry<FormulaBox>>,
    still: CameraStyles,
    r: Result<Option<CameraStyles>, LayoutFault>,
) -> bool {
    match camera_parsed("<camera-probe>"@, still.outer@, still.inner@) {
        Err(f) => r == Err::<Option<CameraStyles>, LayoutFault>(f),
        Ok(wrappers) => probe_laid(h, a, values, inputs, formulas, wrappers, r),
    }
}

/// Whether `r` is the camera of a frame after a layout with given wrappers.
pub open spec fn probe_laid<
    K: Fn(&Kernel) -> Result<MotionValue, KernelError>,
    T: Fn(&MotionValue) -> String,
    W: Fn(Scalar) -> String,
    F: Fn(usize, &FormulaStyle) -> Result<FormulaBox, String>,
    Y: Fn(&Vec<LayoutNode>, &Option<CameraWrappers>) -> Result<Laid, LayoutError>,
    X: Fn(&Vec<LayoutNode>, &Option<CameraWrappers>) -> Drawn,
>(
    h: FrameHost<K, T, W, F, Y, X>,
    a: SceneArtifact,
    values: Seq<Value>,
    inputs: EvalInputs,
    formulas: Seq<Entry<FormulaBox>>,
    wrappers: CameraWrappers,
    r: Result<Option<CameraStyles>, LayoutFault>,
) -> bool {
    exists|laid: Result<Laid, LayoutError>| #[trigger]
        laid_told(h, a, values, formulas, Some(wrappers), laid) && probed(
            *h.kernel,
            *h.tokens,
            *h.write,
            a,
            values,
            inputs,
            just_boxes(laid),
            r,
        )
}

/// Whether `r` is the style of a frame's camera.
pub open spec fn camera_styled<
    K: Fn(&Kernel) -> Result<MotionValue, KernelError>,
    T: Fn(&MotionValue) -> String,
    W: Fn(Scalar) -> String,
    F: Fn(usize, &FormulaStyle) -> Result<FormulaBox, String>,
    Y: Fn(&Vec<LayoutNode>, &Option<CameraWrappers>) -> Result<Laid, LayoutError>,
    X: Fn(&Vec<LayoutNode>, &Option<CameraWrappers>) -> Drawn,
>(
    h: FrameHost<K, T, W, F, Y, X>,
    a: SceneArtifact,
    values: Seq<Value>,
    inputs: EvalInputs,
    formulas: Seq<Entry<FormulaBox>>,
    r: Result<Option<CameraStyles>, LayoutFault>,
) -> bool {
    if needs_probe(a) {
        exists|still: CameraStyles| #[trigger]
            moves_nothing(still) && probe_told(h, a, values, inputs, formulas, still, r)
    } else {
        camera_given(*h.write, a, values, r)
    }
}

/// Whether `r` is the camera of a frame, parsed.
pub open spec fn camera_told<
    K: Fn(&Kernel) -> Result<MotionValue, KernelError>,
    T: Fn(&MotionValue) -> String,
    W: Fn(Scalar) -> String,
    F: Fn(usize, &FormulaStyle) -> Result<FormulaBox, String>,
    Y: Fn(&Vec<LayoutNode>, &Option<CameraWrappers>) -> Result<Laid, LayoutError>,
    X: Fn(&Vec<LayoutNode>, &Option<CameraWrappers>) -> Drawn,
>(
    h: FrameHost<K, T, W, F, Y, X>,
    a: SceneArtifact,
    values: Seq<Value>,
    inputs: EvalInputs,
    formulas: Seq<Entry<FormulaBox>>,
    r: Result<Option<CameraWrappers>, LayoutError>,
) -> bool {
    exists|styles: Result<Option<CameraStyles>, LayoutFault>| #[trigger]
        camera_styled(h, a, values, inputs, formulas, styles) && plain(r) == match styles {
            Err(f) => Err(f),
            Ok(None) => Ok(None),
            Ok(Some(s)) => match camera_parsed("<camera>"@, s.outer@, s.inner@) {
                Err(f) => Err(f),
                Ok(wrappers) => Ok(Some(wrappers)),
            },
        }
}

fn probe_camera<
    K: Fn(&Kernel) -> Result<MotionValue, KernelError>,
    T: Fn(&MotionValue) -> String,
    W: Fn(Scalar) -> String,
    F: Fn(usize, &FormulaStyle) -> Result<FormulaBox, String>,
    Y: Fn(&Vec<LayoutNode>, &Option<CameraWrappers>) -> Result<Laid, LayoutError>,
    X: Fn(&Vec<LayoutNode>, &Option<CameraWrappers>) -> Drawn,
>(
    h: &FrameHost<K, T, W, F, Y, X>,
    artifact: &SceneArtifact,
    values: &Vec<MotionValue>,
    inputs: &EvalInputs,
    formulas: &Vec<Entry<FormulaBox>>,
    still: &CameraStyles,
) -> (r: Result<Option<CameraStyles>, LayoutError>)
    requires
        frame_ready(*h),
    ensures
        probe_told(
            *h,
            *artifact,
            values_of(values@),
            *inputs,
            formulas@,
            *still,
            camera_seen(r),
        ),
{
    let wrappers = match camera_wrappers(still, true) {
        Ok(wrappers) => wrappers,
        Err(e) => {
            return Err(e);
        },
    };
    let ghost parsed = wrappers;
    let camera = Some(wrappers);
    let laid = lay_boxes(h, artifact, values, formulas, &camera);
    let ghost told = laid;
    assert(laid_told(*h, *artifact, values_of(values@), formulas@, Some(parsed), told));
    let r = match laid {
        Err(e) => Err(e),
        Ok(laid) => {
            let out = eval_layout_bounds(
                h.kernel,
                h.tokens,
                &artifact.exprs,
                values,
                inputs,
                &laid.boxes,
            );
            let ghost seen = crate::passes::list_seen(out);
            assert(boxed(
                *h.kernel,
                *h.tokens,
                *artifact,
                values_of(values@),
                *inputs,
                &laid.boxes,
                seen,
            ));
            let r = match out {
                Err(e) => Err(LayoutError::Eval(e)),
                Ok(v) => camera_styles(h.write, artifact, &v),
            };
            assert(evaluates_to(
                *h.kernel,
                *h.tokens,
                *h.write,
                *artifact,
                values_of(values@),
                *inputs,
                &laid.boxes,
                camera_seen(r),
            ));
            r
        },
    };
    assert(probed(
        *h.kernel,
        *h.tokens,
        *h.write,
        *artifact,
        values_of(values@),
        *inputs,
        just_boxes(told),
        camera_seen(r),
    ));
    assert(probe_laid(
        *h,
        *artifact,
        values_of(values@),
        *inputs,
        formulas@,
        parsed,
        camera_seen(r),
    ));
    r
}

/// The camera of a frame, parsed. One that reads boxes is evaluated after a layout with a camera that
/// moves nothing.
pub fn frame_camera<
    K: Fn(&Kernel) -> Result<MotionValue, KernelError>,
    T: Fn(&MotionValue) -> String,
    W: Fn(Scalar) -> String,
    F: Fn(usize, &FormulaStyle) -> Result<FormulaBox, String>,
    Y: Fn(&Vec<LayoutNode>, &Option<CameraWrappers>) -> Result<Laid, LayoutError>,
    X: Fn(&Vec<LayoutNode>, &Option<CameraWrappers>) -> Drawn,
>(
    h: &FrameHost<K, T, W, F, Y, X>,
    artifact: &SceneArtifact,
    values: &Vec<MotionValue>,
    inputs: &EvalInputs,
    formulas: &Vec<Entry<FormulaBox>>,
) -> (r: Result<Option<CameraWrappers>, LayoutError>)
    requires
        frame_ready(*h),
    ensures
        camera_told(*h, *artifact, values_of(values@), *inputs, formulas@, r),
{
    let styles = if camera_depends_on_bounds(artifact) {
        let still = identity_camera_styles();
        assert(moves_nothing(still));
        probe_camera(h, artifact, values, inputs, formulas, &still)
    } else {
        camera_styles(h.write, artifact, values)
    };
    let ghost told = camera_seen(styles);
    assert(camera_styled(*h, *artifact, values_of(values@), *inputs, formulas@, told));
    match styles {
        Err(e) => Err(e),
        Ok(None) => Ok(None),
        Ok(Some(s)) => match camera_wrappers(&s, false) {
            Ok(wrappers) => Ok(Some(wrappers)),
            Err(e) => Err(e),
        },
    }
}

/// A frame whose layout is settled.
pub struct Placement {
    pub formulas: Vec<Entry<FormulaBox>>,
    pub camera: Option<CameraWrappers>,
    pub laid: Laid,
    pub settled: Settled,
}

/// The steps up to a settled layout. Each counts as long as none before it failed.
pub struct LaySteps {
    pub base: Result<Vec<MotionValue>, LayoutError>,
    pub formulas: Result<Vec<Entry<FormulaBox>>, LayoutError>,
    pub camera: Result<Option<CameraWrappers>, LayoutError>,
    pub laid: Result<Laid, LayoutError>,
    pub settled: Result<Settled, LayoutError>,
}

/// What a frame is laid out for.
pub struct FrameTask<'a> {
    pub artifact: &'a SceneArtifact,
    pub inputs: &'a EvalInputs<'a>,
    pub width: Option<u32>,
    pub height: Option<u32>,
    /// The style of a formula without one of its own.
    pub formula: FormulaStyle,
    /// The expressions that each node refers to.
    pub refs: &'a Vec<Vec<ExprId>>,
}

/// Whether the steps of a layout are those of a frame.
pub open spec fn lay_steps<
    K: Fn(&Kernel) -> Result<MotionValue, KernelError>,
    T: Fn(&MotionValue) -> String,
    W: Fn(Scalar) -> String,
    F: Fn(usize, &FormulaStyle) -> Result<FormulaBox, String>,
    Y: Fn(&Vec<LayoutNode>, &Option<CameraWrappers>) -> Result<Laid, LayoutError>,
    X: Fn(&Vec<LayoutNode>, &Option<CameraWrappers>) -> Drawn,
    C: Fn(usize, &Frame3DState) -> Option<String>,
    J: Fn(&AnchorTask) -> Result<Vec<AnchorProjection>, String>,
>(
    h: FrameHost<K, T, W, F, Y, X>,
    check: C,
    project: J,
    t: FrameTask,
    s: LaySteps,
) -> bool {
    let a = *t.artifact;
    let values = values_of(s.base->Ok_0@);
    &&& base_given(*h.kernel, *h.tokens, a, *t.inputs, t.width, t.height, values_told(s.base))
    &&& s.base is Ok ==> formulas_told(*h.typeset, t.formula, a, values, s.formulas)
    &&& s.base is Ok && s.formulas is Ok ==> camera_told(
        h,
        a,
        values,
        *t.inputs,
        s.formulas->Ok_0@,
        s.camera,
    )
    &&& s.base is Ok && s.formulas is Ok && s.camera is Ok ==> laid_told(
        h,
        a,
        values,
        s.formulas->Ok_0@,
        s.camera->Ok_0,
        s.laid,
    )
    &&& s.base is Ok && s.formulas is Ok && s.camera is Ok && s.laid is Ok ==> settled_given(
        *h.kernel,
        *h.tokens,
        check,
        project,
        a,
        t.refs@,
        values,
        *t.inputs,
        &s.laid->Ok_0.boxes,
        s.laid->Ok_0.contents@,
        s.settled,
    )
}

/// What the steps of a layout come to: the first failure, or the settled frame.
pub open spec fn lay_outcome(s: LaySteps, r: Result<Placement, LayoutError>) -> bool {
    if s.base is Err {
        r is Err && r->Err_0@ == s.base->Err_0@
    } else if s.formulas is Err {
        r is Err && r->Err_0@ == s.formulas->Err_0@
    } else if s.camera is Err {
        r is Err && r->Err_0@ == s.camera->Err_0@
    } else if s.laid is Err {
        r is Err && r->Err_0@ == s.laid->Err_0@
    } else if s.settled is Err {
        r is Err && r->Err_0@ == s.settled->Err_0@
    } else {
        r == Ok::<Placement, LayoutError>(
            Placement {
                formulas: s.formulas->Ok_0,
                camera: s.camera->Ok_0,
                laid: s.laid->Ok_0,
                settled: s.settled->Ok_0,
            },
        )
    }
}

/// Whether `r` is the settled layout of a frame.
pub open spec fn placement_told<
    K: Fn(&Kernel) -> Result<MotionValue, KernelError>,
    T: Fn(&MotionValue) -> String,
    W: Fn(Scalar) -> String,
    F: Fn(usize, &FormulaStyle) -> Result<FormulaBox, String>,
    Y: Fn(&Vec<LayoutNode>, &Option<CameraWrappers>) -> Result<Laid, LayoutError>,
    X: Fn(&Vec<LayoutNode>, &Option<CameraWrappers>) -> Drawn,
    C: Fn(usize, &Frame3DState) -> Option<String>,
    J: Fn(&AnchorTask) -> Result<Vec<AnchorProjection>, String>,
>(
    h: FrameHost<K, T, W, F, Y, X>,
    check: C,
    project: J,
    t: FrameTask,
    r: Result<Placement, LayoutError>,
) -> bool {
    exists|s: LaySteps| #[trigger] lay_steps(h, check, project, t, s) && lay_outcome(s, r)
}

/// Lays a frame out and settles its values: before the layout formulas and the camera, after it what
/// reads boxes and anchors.
pub fn lay_frame<
    K: Fn(&Kernel) -> Result<MotionValue, KernelError>,
    T: Fn(&MotionValue) -> String,
    W: Fn(Scalar) -> String,
    F: Fn(usize, &FormulaStyle) -> Result<FormulaBox, String>,
    Y: Fn(&Vec<LayoutNode>, &Option<CameraWrappers>) -> Result<Laid, LayoutError>,
    X: Fn(&Vec<LayoutNode>, &Option<CameraWrappers>) -> Drawn,
    C: Fn(usize, &Frame3DState) -> Option<String>,
    J: Fn(&AnchorTask) -> Result<Vec<AnchorProjection>, String>,
>(h: &FrameHost<K, T, W, F, Y, X>, check: &C, project: &J, t: &FrameTask) -> (r: Result<
    Placement,
    LayoutError,
>)
    requires
        frame_ready(*h),
        forall|at: usize, f: Frame3DState| call_requires(*check, (at, &f)),
        forall|t: AnchorTask| call_requires(*project, (&t,)),
        t.refs@.len() == t.artifact.nodes@.len(),
    ensures
        placement_told(*h, *check, *project, *t, r),
{
    let ghost mut s: LaySteps = arbitrary();
    let base = base_values(h.kernel, h.tokens, t.artifact, t.inputs, t.width, t.height);
    proof {
        s = LaySteps { base, ..s };
    }
    let values = match base {
        Ok(values) => values,
        Err(e) => {
            assert(lay_steps(*h, *check, *project, *t, s));
            return Err(e);
        },
    };
    let formulas = prepare_formula_fragments(h.typeset, t.formula, t.artifact, &values);
    proof {
        s = LaySteps { formulas, ..s };
    }
    let formulas = match formulas {
        Ok(formulas) => formulas,
        Err(e) => {
            assert(lay_steps(*h, *check, *project, *t, s));
            return Err(e);
        },
    };
    let camera = frame_camera(h, t.artifact, &values, t.inputs, &formulas);
    proof {
        s = LaySteps { camera, ..s };
    }
    let camera = match camera {
        Ok(camera) => camera,
        Err(e) => {
            assert(lay_steps(*h, *check, *project, *t, s));
            return Err(e);
        },
    };
    let laid = lay_boxes(h, t.artifact, &values, &formulas, &camera);
    proof {
        s = LaySteps { laid, ..s };
    }
    let laid = match laid {
        Ok(laid) => laid,
        Err(e) => {
            assert(lay_steps(*h, *check, *project, *t, s));
            return Err(e);
        },
    };
    let settled = settle(
        h.kernel,
        h.tokens,
        check,
        project,
        t.artifact,
        t.refs,
        &values,
        t.inputs,
        &laid.boxes,
        &laid.contents,
    );
    proof {
        s = LaySteps { settled, ..s };
    }
    assert(lay_steps(*h, *check, *project, *t, s));
    match settled {
        Ok(settled) => Ok(Placement { formulas, camera, laid, settled }),
        Err(e) => Err(e),
    }
}

} // verus!
