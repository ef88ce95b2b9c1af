//! Laws of visibility: hiding a node adds one declaration to its box, and layout places it as before.

use vstd::prelude::*;

use crate::artifact::{
    NodeId, NodeKind, NumberValue, PointValue, SceneArtifact, SceneNode, StyleBinding,
    StyleValue, TextValue,
};
use crate::backgrounds::background_admitted;
use crate::bindings::{number_bound, point_bound, style_valued};
use crate::boxes::{
    all_grown, all_planned, bare, boxes_seen, boxes_told, camera_parsed, dressed, grown,
    list_seen, plan_style, scene_grown, Boxed, CameraWrappers, Dress, Grown, Layout, LayoutNode,
};
use crate::camera::{camera_fill, camera_given, camera_written, CameraStyles};
use crate::contours::SegmentGeometry;
use crate::declarations::{
    anchor_from, declared_so_far, declares, gathered, is_dynamic_background, is_private, lowers,
    offset_from, separated, value_written, with_visibility,
};
use crate::effects::LengthProduct;
use crate::eval::{values_of, Kernel, KernelError};
use crate::expr::ExprId;
use crate::faults::Fault;
use crate::foreground::{ForegroundColors, RectTask};
use crate::formula::{formula_styled, FormulaStyle};
use crate::frame::option_text;
use crate::frames::{
    all_set, camera_styled, camera_told, formula_table, formulas_told, is_set, just_boxes,
    laid_told, lay_outcome, lay_steps, placement_told, probe_told, style_at, Drawn, FrameHost,
    FrameTask, Laid, LaySteps, Placement,
};
use crate::glass_frame::{PlacedPlane, Quad};
use crate::glass_parts::GlassSum;
use crate::layout_error::{LayoutError, LayoutFault};
use crate::layout_tree::{
    finish_told, is_tree, paint_outcome, paint_steps, tree_told, LayoutTree, PaintHost,
    PaintSteps, PaintTask,
};
use crate::measure::Calc;
use crate::nodes::{
    assembled, formula_added, formula_for, plans, shape_of, texts, visible_of, FormulaBox,
    NodePlan, PlanePlacement, Shape,
};
use crate::recording::{Homography, Point, Rect};
use crate::scalar::{num, Scalar, ZERO};
use crate::scene3d::{AnchorProjection, AnchorTask, Frame3DState};
use crate::spaces::{Matrix4, MatrixStep, PlaneTask, PlaneView};
use crate::stages::{base_given, boxed, moves_nothing, needs_probe, probed};
use crate::table::{mapped, same_maps_find_the_same, Entry};
use crate::value::{
    number_written, single_text, token_written, tokens_are_determined, MotionValue, Value,
};

verus! {

/// Whether values hold the same for an expression.
pub open spec fn same_at(v: Seq<Value>, w: Seq<Value>, id: ExprId) -> bool {
    &&& id.0 < v.len() <==> id.0 < w.len()
    &&& id.0 < v.len() ==> v[id.0 as int] == w[id.0 as int]
}

/// Whether values hold the same for a style.
pub open spec fn same_for(v: Seq<Value>, w: Seq<Value>, style: StyleBinding) -> bool {
    style.value matches StyleValue::Expr { expr } ==> same_at(v, w, expr)
}

/// Whether values hold the same for all that layout reads of a node but its visibility.
pub open spec fn node_agrees(v: Seq<Value>, w: Seq<Value>, node: SceneNode) -> bool {
    &&& forall|k: int| 0 <= k < node.styles@.len() ==> same_for(v, w, #[trigger] node.styles@[k])
    &&& node.kind matches NodeKind::Text { text, .. } ==> (text matches TextValue::Expr { expr }
        ==> same_at(v, w, expr))
}

/// Whether values hold the same for all that layout reads of the nodes of a scene but their
/// visibility.
pub open spec fn nodes_agree(v: Seq<Value>, w: Seq<Value>, a: SceneArtifact) -> bool {
    forall|i: int| 0 <= i < a.nodes@.len() ==> node_agrees(v, w, #[trigger] a.nodes@[i])
}

proof fn writing_is_single<T: Fn(&MotionValue) -> String>(
    tokens: T,
    styles: Seq<StyleBinding>,
    property: Seq<char>,
    v: Value,
    s: Seq<char>,
    t: Seq<char>,
)
    requires
        single_text(tokens),
        value_written(tokens, styles, property, v, s),
        value_written(tokens, styles, property, v, t),
    ensures
        s == t,
{
    if property == "translate"@ && anchor_from(styles, 0) == Some("center"@)
        && v is Length2 {
        let (x, y) = choose|x: Seq<char>, y: Seq<char>|
            #![trigger token_written(tokens, Value::Length(v->Length2_0.x), x), token_written(tokens, Value::Length(v->Length2_0.y), y)]
            token_written(tokens, Value::Length(v->Length2_0.x), x) && token_written(
                tokens,
                Value::Length(v->Length2_0.y),
                y,
            ) && s == "calc("@ + x + " - 50%) calc("@ + y + " - 50%)"@;
        let (p, q) = choose|x: Seq<char>, y: Seq<char>|
            #![trigger token_written(tokens, Value::Length(v->Length2_0.x), x), token_written(tokens, Value::Length(v->Length2_0.y), y)]
            token_written(tokens, Value::Length(v->Length2_0.x), x) && token_written(
                tokens,
                Value::Length(v->Length2_0.y),
                y,
            ) && t == "calc("@ + x + " - 50%) calc("@ + y + " - 50%)"@;
        tokens_are_determined(tokens, Value::Length(v->Length2_0.x), x, p);
        tokens_are_determined(tokens, Value::Length(v->Length2_0.y), y, q);
    } else if property == "rotate"@ && !offset_from(styles, 0).eq_spec(
        num(ZERO),
    ) {
        let offset = offset_from(styles, 0);
        let (x, y) = choose|x: Seq<char>, y: Seq<char>|
            #![trigger token_written(tokens, v, x), number_written(tokens, offset, y)]
            token_written(tokens, v, x) && number_written(tokens, offset, y) && s == "calc("@ + x
                + " + "@ + y + "deg)"@;
        let (p, q) = choose|x: Seq<char>, y: Seq<char>|
            #![trigger token_written(tokens, v, x), number_written(tokens, offset, y)]
            token_written(tokens, v, x) && number_written(tokens, offset, y) && t == "calc("@ + x
                + " + "@ + y + "deg)"@;
        tokens_are_determined(tokens, v, x, p);
        tokens_are_determined(tokens, Value::Number(offset), y, q);
    } else {
        tokens_are_determined(tokens, v, s, t);
    }
}

proof fn declaring_is_single<T: Fn(&MotionValue) -> String>(
    tokens: T,
    node: SceneNode,
    v: Seq<Value>,
    w: Seq<Value>,
    at: int,
    i: int,
    r: Result<Option<Seq<char>>, LayoutFault>,
    s: Result<Option<Seq<char>>, LayoutFault>,
)
    requires
        single_text(tokens),
        node_agrees(v, w, node),
        0 <= i < node.styles@.len(),
        declares(tokens, node, v, at, i, r),
        declares(tokens, node, w, at, i, s),
    ensures
        r == s,
{
    let style = node.styles@[i];
    let property = style.property@;
    assert(same_for(v, w, node.styles@[i]));
    assert(style_valued(style.value, v, at) == style_valued(style.value, w, at));
    if !is_private(property) {
        match style_valued(style.value, v, at) {
            Err(_) => {},
            Ok(x) => {
                if is_dynamic_background(style) {
                    let a = choose|a: Seq<char>| #[trigger]
                        token_written(tokens, x, a) && r
                            == if background_admitted(property, a) {
                            Ok::<Option<Seq<char>>, LayoutFault>(Some(property + ": "@ + a))
                        } else {
                            Err(LayoutFault::NondeterministicSurface(node.key@, property))
                        };
                    let b = choose|a: Seq<char>| #[trigger]
                        token_written(tokens, x, a) && s
                            == if background_admitted(property, a) {
                            Ok::<Option<Seq<char>>, LayoutFault>(Some(property + ": "@ + a))
                        } else {
                            Err(LayoutFault::NondeterministicSurface(node.key@, property))
                        };
                    tokens_are_determined(tokens, x, a, b);
                } else {
                    let a = choose|a: Seq<char>| #[trigger]
                        value_written(tokens, node.styles@, property, x, a) && r == Ok::<
                            Option<Seq<char>>,
                            LayoutFault,
                        >(Some(property + ": "@ + a));
                    let b = choose|a: Seq<char>| #[trigger]
                        value_written(tokens, node.styles@, property, x, a) && s == Ok::<
                            Option<Seq<char>>,
                            LayoutFault,
                        >(Some(property + ": "@ + a));
                    writing_is_single(tokens, node.styles@, property, x, a, b);
                }
            },
        }
    }
}

/// The declarations of a node, visible or not, with the size of its formula.
pub open spec fn lowered_as(
    parts: Seq<Seq<char>>,
    visible: bool,
    kind: NodeKind,
    formula: Option<FormulaBox>,
) -> Seq<char> {
    formula_added(kind, separated(with_visibility(parts, visible)), formula)
}

/// Whether declarations are the same but that one of them may hide the node.
pub open spec fn same_but_hidden(x: Seq<char>, y: Seq<char>) -> bool {
    exists|
        parts: Seq<Seq<char>>,
        kind: NodeKind,
        formula: Option<FormulaBox>,
        a: bool,
        b: bool,
    |
        #![trigger lowered_as(parts, a, kind, formula), lowered_as(parts, b, kind, formula)]
        x == lowered_as(parts, a, kind, formula) && y == lowered_as(parts, b, kind, formula)
}

proof fn plans_differ_in_visibility<T: Fn(&MotionValue) -> String>(
    tokens: T,
    a: SceneArtifact,
    at: int,
    v: Seq<Value>,
    w: Seq<Value>,
    f: Seq<Entry<FormulaBox>>,
    g: Seq<Entry<FormulaBox>>,
    p: NodePlan,
    q: NodePlan,
)
    requires
        single_text(tokens),
        0 <= at < a.nodes@.len(),
        node_agrees(v, w, a.nodes@[at]),
        formula_for(f, a.nodes@[at]) == formula_for(g, a.nodes@[at]),
        plans(tokens, a, at, v, f, None, Ok(p)),
        plans(tokens, a, at, w, g, None, Ok(q)),
    ensures
        same_but_hidden(p.declarations@, q.declarations@),
        texts(p.presets@) == texts(q.presets@),
        option_text(p.class_name) == option_text(q.class_name),
{
    let node = a.nodes@[at];
    let formula = formula_for(f, node);
    let shape = shape_of(node, v, at, formula)->Ok_0;
    let x = visible_of(node, v, at)->Ok_0;
    let y = visible_of(node, w, at)->Ok_0;
    let other = shape_of(node, w, at, formula)->Ok_0;
    let r = choose|lowered: Result<Seq<char>, LayoutFault>| #[trigger]
        lowers(tokens, node, v, at, x, lowered) && assembled(
            a,
            node,
            shape,
            formula,
            None,
            lowered,
            Ok(p),
        );
    let s = choose|lowered: Result<Seq<char>, LayoutFault>| #[trigger]
        lowers(tokens, node, w, at, y, lowered) && assembled(
            a,
            node,
            other,
            formula,
            None,
            lowered,
            Ok(q),
        );
    let n = node.styles@.len();
    let t = choose|texts: Seq<Option<Seq<char>>>| #[trigger]
        declared_so_far(tokens, node, v, at, texts) && texts.len() == n && r->Ok_0 == separated(
            with_visibility(gathered(node.styles@, texts, texts.len()), x),
        );
    let u = choose|texts: Seq<Option<Seq<char>>>| #[trigger]
        declared_so_far(tokens, node, w, at, texts) && texts.len() == n && s->Ok_0 == separated(
            with_visibility(gathered(node.styles@, texts, texts.len()), y),
        );
    assert forall|i: int| 0 <= i < n implies t[i] == u[i] by {
        declaring_is_single(tokens, node, v, w, at, i, Ok(t[i]), Ok(u[i]));
    }
    assert(t =~= u);
    let parts = gathered(node.styles@, t, n);
    assert(p.declarations@ == lowered_as(parts, x, node.kind, formula));
    assert(q.declarations@ == lowered_as(parts, y, node.kind, formula));
}

/// Whether styles of a node come from declarations that are the same but that one of them may hide it.
pub open spec fn styles_alike(
    key: Seq<char>,
    x: Option<takumi_core::style::Style>,
    y: Option<takumi_core::style::Style>,
) -> bool {
    exists|p: Seq<char>, q: Seq<char>| #[trigger]
        same_but_hidden(p, q) && plan_style(key, p) == Ok::<
            Option<takumi_core::style::Style>,
            LayoutFault,
        >(x) && plan_style(key, q) == Ok::<Option<takumi_core::style::Style>, LayoutFault>(y)
}

/// Whether boxes look the same but that one of them may be hidden.
pub open spec fn dress_alike(key: Seq<char>, x: Dress, y: Dress) -> bool {
    &&& x.shape == y.shape
    &&& x.preset == y.preset
    &&& x.class_name == y.class_name
    &&& styles_alike(key, x.style, y.style)
}

/// Whether boxes are the same but that one of them may be hidden.
pub open spec fn box_alike(a: SceneArtifact, x: Boxed, y: Boxed) -> bool {
    match (x, y) {
        (Boxed::World(m), Boxed::World(n)) => m == n,
        (Boxed::Box(i, m, d), Boxed::Box(j, n, e)) => i == j && m == n && dress_alike(
            a.nodes@[i].key@,
            d,
            e,
        ),
        _ => false,
    }
}

/// Whether lists of boxes are the same but that some of them may be hidden.
pub open spec fn boxes_alike(a: SceneArtifact, x: Seq<Boxed>, y: Seq<Boxed>) -> bool {
    x.len() == y.len() && forall|i: int| 0 <= i < x.len() ==> box_alike(a, #[trigger] x[i], y[i])
}

spec fn groves_alike(a: SceneArtifact, x: Grown, y: Grown) -> bool {
    boxes_alike(a, x.boxes, y.boxes) && x.roots == y.roots
}

/// What two layouts of a scene have in common that differ in visibility alone.
spec fn layouts_agree<T: Fn(&MotionValue) -> String>(tokens: T, w: Layout, v: Layout) -> bool {
    &&& single_text(tokens)
    &&& w.artifact == v.artifact
    &&& w.camera == v.camera
    &&& nodes_agree(w.values, v.values, w.artifact)
    &&& forall|i: int|
        0 <= i < w.artifact.nodes@.len() ==> formula_for(
            w.formulas,
            #[trigger] w.artifact.nodes@[i],
        ) == formula_for(v.formulas, w.artifact.nodes@[i])
    &&& all_planned(tokens, w.artifact, w.values, w.formulas, None, w.plans)
    &&& all_planned(tokens, v.artifact, v.values, v.formulas, None, v.plans)
}

proof fn dresses_agree<T: Fn(&MotionValue) -> String>(tokens: T, w: Layout, v: Layout, at: int)
    requires
        layouts_agree(tokens, w, v),
        0 <= at < w.artifact.nodes@.len(),
        dressed(w, at) is Ok,
        dressed(v, at) is Ok,
    ensures
        dress_alike(w.artifact.nodes@[at].key@, dressed(w, at)->Ok_0, dressed(v, at)->Ok_0),
{
    let a = w.artifact;
    let node = a.nodes@[at];
    assert(node_agrees(w.values, v.values, a.nodes@[at]));
    assert(formula_for(w.formulas, a.nodes@[at]) == formula_for(v.formulas, a.nodes@[at]));
    let p = w.plans[at]->Ok_0;
    let q = v.plans[at]->Ok_0;
    assert(plans(tokens, a, at, w.values, w.formulas, None, w.plans[at]));
    assert(plans(tokens, a, at, v.values, v.formulas, None, v.plans[at]));
    plans_differ_in_visibility(
        tokens,
        a,
        at,
        w.values,
        v.values,
        w.formulas,
        v.formulas,
        p,
        q,
    );
    assert(same_but_hidden(p.declarations@, q.declarations@));
    assert(styles_alike(
        node.key@,
        dressed(w, at)->Ok_0.style,
        dressed(v, at)->Ok_0.style,
    ));
}

proof fn lists_join(a: SceneArtifact, x: Seq<Boxed>, y: Seq<Boxed>, p: Seq<Boxed>, q: Seq<Boxed>)
    requires
        boxes_alike(a, x, y),
        boxes_alike(a, p, q),
    ensures
        boxes_alike(a, x + p, y + q),
{
    assert forall|i: int| 0 <= i < (x + p).len() implies box_alike(
        a,
        #[trigger] (x + p)[i],
        (y + q)[i],
    ) by {
        if i < x.len() {
            assert(box_alike(a, x[i], y[i]));
        } else {
            assert(box_alike(a, p[i - x.len()], q[i - x.len()]));
        }
    }
}

proof fn lists_grow(a: SceneArtifact, x: Seq<Boxed>, y: Seq<Boxed>, p: Boxed, q: Boxed)
    requires
        boxes_alike(a, x, y),
        box_alike(a, p, q),
    ensures
        boxes_alike(a, x.push(p), y.push(q)),
{
    assert forall|i: int| 0 <= i < x.push(p).len() implies box_alike(
        a,
        #[trigger] x.push(p)[i],
        y.push(q)[i],
    ) by {
        if i < x.len() {
            assert(box_alike(a, x[i], y[i]));
        }
    }
}

proof fn nodes_grow_alike<T: Fn(&MotionValue) -> String>(
    tokens: T,
    w: Layout,
    v: Layout,
    at: int,
    fuel: nat,
)
    requires
        layouts_agree(tokens, w, v),
        grown(w, at, fuel) is Ok,
        grown(v, at, fuel) is Ok,
    ensures
        groves_alike(w.artifact, grown(w, at, fuel)->Ok_0, grown(v, at, fuel)->Ok_0),
    decreases fuel, 0nat,
{
    let art = w.artifact;
    let ids = art.children_of(at)->0;
    let split = w.camera && at == art.root.0;
    let less = (fuel - 1) as nat;
    children_grow_alike(tokens, w, v, ids, ids.len(), split, less);
    let (world, screen) = all_grown(w, ids, ids.len(), split, less)->Ok_0;
    let (earth, sky) = all_grown(v, ids, ids.len(), split, less)->Ok_0;
    let a = crate::boxes::gathered(split, world, screen);
    let b = crate::boxes::gathered(split, earth, sky);
    if split {
        let x = world.boxes.push(Boxed::World(world.roots));
        let y = earth.boxes.push(Boxed::World(earth.roots));
        lists_grow(art, world.boxes, earth.boxes, Boxed::World(world.roots), Boxed::World(earth.roots));
        lists_join(art, x, y, screen.boxes, sky.boxes);
    }
    assert(groves_alike(art, a, b));
    if !(art.nodes@[at].kind is GlassField) {
        dresses_agree(tokens, w, v, at);
        let left = dressed(w, at)->Ok_0;
        let right = dressed(v, at)->Ok_0;
        let kept = if left.shape == Shape::Container { a } else { bare() };
        let held = if right.shape == Shape::Container { b } else { bare() };
        lists_grow(
            art,
            kept.boxes,
            held.boxes,
            Boxed::Box(at, kept.roots, left),
            Boxed::Box(at, held.roots, right),
        );
    }
}

proof fn children_grow_alike<T: Fn(&MotionValue) -> String>(
    tokens: T,
    w: Layout,
    v: Layout,
    ids: Seq<NodeId>,
    n: nat,
    split: bool,
    fuel: nat,
)
    requires
        layouts_agree(tokens, w, v),
        all_grown(w, ids, n, split, fuel) is Ok,
        all_grown(v, ids, n, split, fuel) is Ok,
    ensures
        groves_alike(
            w.artifact,
            all_grown(w, ids, n, split, fuel)->Ok_0.0,
            all_grown(v, ids, n, split, fuel)->Ok_0.0,
        ),
        groves_alike(
            w.artifact,
            all_grown(w, ids, n, split, fuel)->Ok_0.1,
            all_grown(v, ids, n, split, fuel)->Ok_0.1,
        ),
    decreases fuel, n + 1,
{
    if n > 0 {
        let art = w.artifact;
        let m = (n - 1) as nat;
        let at = ids[n - 1].0 as int;
        children_grow_alike(tokens, w, v, ids, m, split, fuel);
        nodes_grow_alike(tokens, w, v, at, fuel);
        let (world, screen) = all_grown(w, ids, m, split, fuel)->Ok_0;
        let (earth, sky) = all_grown(v, ids, m, split, fuel)->Ok_0;
        let x = grown(w, at, fuel)->Ok_0;
        let y = grown(v, at, fuel)->Ok_0;
        lists_join(art, world.boxes, earth.boxes, x.boxes, y.boxes);
        lists_join(art, screen.boxes, sky.boxes, x.boxes, y.boxes);
    }
}

/// Frames whose values differ in visibility alone hand the same boxes to layout, but that some of them
/// may be hidden.
pub proof fn visibility_hides_boxes<T: Fn(&MotionValue) -> String>(
    tokens: T,
    a: SceneArtifact,
    values: Seq<Value>,
    others: Seq<Value>,
    formulas: Seq<Entry<FormulaBox>>,
    fragments: Seq<Entry<FormulaBox>>,
    camera: bool,
    r: Seq<Boxed>,
    s: Seq<Boxed>,
)
    requires
        single_text(tokens),
        nodes_agree(values, others, a),
        mapped(formulas) == mapped(fragments),
        boxes_told(tokens, a, values, formulas, None, camera, Ok(r)),
        boxes_told(tokens, a, others, fragments, None, camera, Ok(s)),
    ensures
        boxes_alike(a, r, s),
{
    let p = choose|all: Seq<Result<NodePlan, LayoutFault>>| #[trigger]
        all_planned(tokens, a, values, formulas, None, all) && Ok::<Seq<Boxed>, LayoutFault>(r)
            == scene_grown(Layout { artifact: a, values, formulas, plans: all, camera });
    let q = choose|all: Seq<Result<NodePlan, LayoutFault>>| #[trigger]
        all_planned(tokens, a, others, fragments, None, all) && Ok::<Seq<Boxed>, LayoutFault>(s)
            == scene_grown(
            Layout { artifact: a, values: others, formulas: fragments, plans: all, camera },
        );
    let w = Layout { artifact: a, values, formulas, plans: p, camera };
    let v = Layout { artifact: a, values: others, formulas: fragments, plans: q, camera };
    assert forall|i: int| 0 <= i < a.nodes@.len() implies formula_for(
        formulas,
        #[trigger] a.nodes@[i],
    ) == formula_for(fragments, a.nodes@[i]) by {
        same_maps_find_the_same(formulas, fragments, a.nodes@[i].key@);
    }
    nodes_grow_alike(tokens, w, v, a.root.0 as int, a.nodes@.len());
}

/// Whether layouts place everything alike, or both fail.
pub open spec fn placed_alike(p: Result<Laid, LayoutError>, q: Result<Laid, LayoutError>) -> bool {
    match (p, q) {
        (Ok(x), Ok(y)) => mapped(x.boxes@) == mapped(y.boxes@) && mapped(x.contents@) == mapped(
            y.contents@,
        ),
        (Err(_), Err(_)) => true,
        _ => false,
    }
}

/// Whether a layout engine gives a hidden box the place that it gives a shown one.
pub open spec fn places_hidden_boxes<
    Y: Fn(&Vec<LayoutNode>, &Option<CameraWrappers>) -> Result<Laid, LayoutError>,
>(lay: Y, a: SceneArtifact) -> bool {
    forall|
        x: Vec<LayoutNode>,
        y: Vec<LayoutNode>,
        c: Option<CameraWrappers>,
        p: Result<Laid, LayoutError>,
        q: Result<Laid, LayoutError>,
    | #[trigger]
        call_ensures(lay, (&x, &c), p) && #[trigger] call_ensures(lay, (&y, &c), q) && boxes_alike(
            a,
            boxes_seen(x@),
            boxes_seen(y@),
        ) ==> placed_alike(p, q)
}

/// Whether the host sets a formula in one way.
pub open spec fn sets_alike<F: Fn(usize, &FormulaStyle) -> Result<FormulaBox, String>>(
    typeset: F,
) -> bool {
    forall|
        at: usize,
        s: FormulaStyle,
        p: Result<FormulaBox, String>,
        q: Result<FormulaBox, String>,
    | #[trigger]
        call_ensures(typeset, (at, &s), p) && #[trigger] call_ensures(typeset, (at, &s), q) ==> p
            == q
}

proof fn formula_styles_agree(
    start: FormulaStyle,
    node: SceneNode,
    v: Seq<Value>,
    w: Seq<Value>,
    at: int,
    n: nat,
)
    requires
        node_agrees(v, w, node),
        n <= node.styles@.len(),
    ensures
        formula_styled(start, node.styles@, v, at, n) == formula_styled(
            start,
            node.styles@,
            w,
            at,
            n,
        ),
    decreases n,
{
    if n > 0 {
        formula_styles_agree(start, node, v, w, at, (n - 1) as nat);
        assert(same_for(v, w, node.styles@[n - 1]));
    }
}

proof fn tables_agree(
    a: SceneArtifact,
    x: Seq<Option<FormulaBox>>,
    y: Seq<Option<FormulaBox>>,
    n: nat,
)
    requires
        n <= x.len(),
        n <= y.len(),
        forall|i: int| 0 <= i < n ==> #[trigger] x[i] == y[i],
    ensures
        formula_table(a, x, n) == formula_table(a, y, n),
    decreases n,
{
    if n > 0 {
        tables_agree(a, x, y, (n - 1) as nat);
        assert(x[n - 1] == y[n - 1]);
    }
}

proof fn formulas_agree<F: Fn(usize, &FormulaStyle) -> Result<FormulaBox, String>>(
    typeset: F,
    start: FormulaStyle,
    a: SceneArtifact,
    v: Seq<Value>,
    w: Seq<Value>,
    f: Vec<Entry<FormulaBox>>,
    g: Vec<Entry<FormulaBox>>,
)
    requires
        sets_alike(typeset),
        nodes_agree(v, w, a),
        formulas_told(typeset, start, a, v, Ok(f)),
        formulas_told(typeset, start, a, w, Ok(g)),
    ensures
        mapped(f@) == mapped(g@),
{
    let x = choose|all: Seq<Option<FormulaBox>>| #[trigger]
        all_set(typeset, start, a, v, all) && all.len() == a.nodes@.len() && mapped(f@)
            == formula_table(a, all, all.len());
    let y = choose|all: Seq<Option<FormulaBox>>| #[trigger]
        all_set(typeset, start, a, w, all) && all.len() == a.nodes@.len() && mapped(g@)
            == formula_table(a, all, all.len());
    assert forall|i: int| 0 <= i < a.nodes@.len() implies #[trigger] x[i] == y[i] by {
        assert(is_set(typeset, start, a, v, i, x[i]));
        assert(is_set(typeset, start, a, w, i, y[i]));
        assert(node_agrees(v, w, a.nodes@[i]));
        formula_styles_agree(start, a.nodes@[i], v, w, i, a.nodes@[i].styles@.len());
        if a.nodes@[i].kind is MathFormula {
            let style = style_at(start, a, v, i)->Ok_0;
            let p: Result<FormulaBox, String> = Ok(x[i]->0);
            let q: Result<FormulaBox, String> = Ok(y[i]->0);
            assert(call_ensures(typeset, (i as usize, &style), p));
            assert(call_ensures(typeset, (i as usize, &style), q));
            assert(p == q);
        }
    }
    tables_agree(a, x, y, a.nodes@.len());
}

/// Whether values hold the same for the camera of a scene.
pub open spec fn camera_agrees(v: Seq<Value>, w: Seq<Value>, a: SceneArtifact) -> bool {
    a.camera matches Some(c) ==> {
        &&& c.center matches PointValue::Expr { expr } ==> same_at(v, w, expr)
        &&& c.zoom matches NumberValue::Expr { expr } ==> same_at(v, w, expr)
        &&& c.rotation matches NumberValue::Expr { expr } ==> same_at(v, w, expr)
    }
}

/// Whether the values of a frame before its layout are these.
pub open spec fn based<
    K: Fn(&Kernel) -> Result<MotionValue, KernelError>,
    T: Fn(&MotionValue) -> String,
>(host: K, tokens: T, t: FrameTask, v: Seq<Value>) -> bool {
    base_given(host, tokens, *t.artifact, *t.inputs, t.width, t.height, Ok(v))
}

/// Whether values of a frame are these once its boxes are known.
pub open spec fn reads_boxes<
    K: Fn(&Kernel) -> Result<MotionValue, KernelError>,
    T: Fn(&MotionValue) -> String,
>(
    host: K,
    tokens: T,
    t: FrameTask,
    v: Seq<Value>,
    boxes: &Vec<Entry<Rect>>,
    out: Seq<Value>,
) -> bool {
    boxed(host, tokens, *t.artifact, v, *t.inputs, boxes, Ok(out))
}

/// Whether two frames of a scene differ in the visibility of nodes alone: the values hold the same for
/// everything else that layout reads of the nodes, and for the camera, before layout and with the same
/// boxes known.
pub open spec fn frames_agree<
    K: Fn(&Kernel) -> Result<MotionValue, KernelError>,
    T: Fn(&MotionValue) -> String,
>(host: K, tokens: T, t: FrameTask, u: FrameTask) -> bool {
    &&& *t.artifact == *u.artifact
    &&& t.formula == u.formula
    &&& forall|v: Seq<Value>, w: Seq<Value>| #[trigger]
        based(host, tokens, t, v) && #[trigger] based(host, tokens, u, w) ==> nodes_agree(
            v,
            w,
            *t.artifact,
        ) && camera_agrees(v, w, *t.artifact)
    &&& forall|
        v: Seq<Value>,
        w: Seq<Value>,
        x: &Vec<Entry<Rect>>,
        y: &Vec<Entry<Rect>>,
        p: Seq<Value>,
        q: Seq<Value>,
    | #[trigger]
        reads_boxes(host, tokens, t, v, x, p) && #[trigger] reads_boxes(host, tokens, u, w, y, q)
            && based(host, tokens, t, v) && based(host, tokens, u, w) && mapped(x@) == mapped(y@)
            ==> camera_agrees(p, q, *t.artifact)
}

/// Whether the host writes a number in one way.
pub open spec fn writes_alike<W: Fn(Scalar) -> String>(write: W) -> bool {
    forall|x: Scalar, a: String, b: String| #[trigger]
        call_ensures(write, (x,), a) && #[trigger] call_ensures(write, (x,), b) ==> a@ == b@
}

/// Whether a host always answers in the same way, and places hidden boxes as it places shown ones.
pub open spec fn keeps_hidden_boxes<
    K: Fn(&Kernel) -> Result<MotionValue, KernelError>,
    T: Fn(&MotionValue) -> String,
    W: Fn(Scalar) -> String,
    F: Fn(usize, &FormulaStyle) -> Result<FormulaBox, String>,
    Y: Fn(&Vec<LayoutNode>, &Option<CameraWrappers>) -> Result<Laid, LayoutError>,
    X: Fn(&Vec<LayoutNode>, &Option<CameraWrappers>) -> Drawn,
>(h: FrameHost<K, T, W, F, Y, X>, a: SceneArtifact) -> bool {
    &&& single_text(*h.tokens)
    &&& writes_alike(*h.write)
    &&& sets_alike(*h.typeset)
    &&& places_hidden_boxes(*h.lay, a)
}

proof fn layouts_place_alike<
    K: Fn(&Kernel) -> Result<MotionValue, KernelError>,
    T: Fn(&MotionValue) -> String,
    W: Fn(Scalar) -> String,
    F: Fn(usize, &FormulaStyle) -> Result<FormulaBox, String>,
    Y: Fn(&Vec<LayoutNode>, &Option<CameraWrappers>) -> Result<Laid, LayoutError>,
    X: Fn(&Vec<LayoutNode>, &Option<CameraWrappers>) -> Drawn,
>(
    h: FrameHost<K, T, W, F, Y, X>,
    a: SceneArtifact,
    v: Seq<Value>,
    w: Seq<Value>,
    f: Seq<Entry<FormulaBox>>,
    g: Seq<Entry<FormulaBox>>,
    c: Option<CameraWrappers>,
    l: Laid,
    k: Laid,
)
    requires
        keeps_hidden_boxes(h, a),
        nodes_agree(v, w, a),
        mapped(f) == mapped(g),
        laid_told(h, a, v, f, c, Ok(l)),
        laid_told(h, a, w, g, c, Ok(k)),
    ensures
        placed_alike(Ok(l), Ok(k)),
{
    let m = choose|nodes: Result<Vec<LayoutNode>, LayoutError>| #[trigger]
        boxes_told(*h.tokens, a, v, f, None, c is Some, list_seen(nodes)) && match nodes {
            Err(f) => false,
            Ok(nodes) => call_ensures(*h.lay, (&nodes, &c), Ok(l)),
        };
    let n = choose|nodes: Result<Vec<LayoutNode>, LayoutError>| #[trigger]
        boxes_told(*h.tokens, a, w, g, None, c is Some, list_seen(nodes)) && match nodes {
            Err(f) => false,
            Ok(nodes) => call_ensures(*h.lay, (&nodes, &c), Ok(k)),
        };
    visibility_hides_boxes(
        *h.tokens,
        a,
        v,
        w,
        f,
        g,
        c is Some,
        boxes_seen(m->Ok_0@),
        boxes_seen(n->Ok_0@),
    );
    let p: Result<Laid, LayoutError> = Ok(l);
    let q: Result<Laid, LayoutError> = Ok(k);
    assert(call_ensures(*h.lay, (&m->Ok_0, &c), p));
    assert(call_ensures(*h.lay, (&n->Ok_0, &c), q));
}

/// Whether the styles of a camera read the same.
spec fn same_styles(x: Option<CameraStyles>, y: Option<CameraStyles>) -> bool {
    match (x, y) {
        (Some(a), Some(b)) => a.outer@ == b.outer@ && a.inner@ == b.inner@,
        (None, None) => true,
        _ => false,
    }
}

proof fn cameras_are_written_alike<W: Fn(Scalar) -> String>(
    write: W,
    a: SceneArtifact,
    v: Seq<Value>,
    w: Seq<Value>,
    x: Option<CameraStyles>,
    y: Option<CameraStyles>,
)
    requires
        writes_alike(write),
        camera_agrees(v, w, a),
        camera_given(write, a, v, Ok(x)),
        camera_given(write, a, w, Ok(y)),
    ensures
        same_styles(x, y),
{
    if let Some(c) = a.camera {
        let at = a.root.0 as int;
        let center = point_bound(c.center, v, at, "camera center"@)->Ok_0;
        let zoom = number_bound(c.zoom, v, at, "camera zoom"@)->Ok_0;
        let rotation = number_bound(c.rotation, v, at, "camera rotation"@)->Ok_0;
        assert(camera_written(write, center, zoom, rotation, x->0));
        assert(camera_written(write, center, zoom, rotation, y->0));
        let (p, q) = choose|turn: String, scale: String|
            #![trigger call_ensures(write, (rotation,), turn), call_ensures(write, (zoom,), scale)]
            call_ensures(write, (rotation,), turn) && call_ensures(write, (zoom,), scale)
                && x->0.outer@ == camera_fill() + "; translate: 50vw 50vh; rotate: "@ + turn@
                + "deg; scale: "@ + scale@;
        let (r, s) = choose|turn: String, scale: String|
            #![trigger call_ensures(write, (rotation,), turn), call_ensures(write, (zoom,), scale)]
            call_ensures(write, (rotation,), turn) && call_ensures(write, (zoom,), scale)
                && y->0.outer@ == camera_fill() + "; translate: 50vw 50vh; rotate: "@ + turn@
                + "deg; scale: "@ + scale@;
        assert(p@ == r@ && q@ == s@);
        let (i, j) = choose|x2: String, y2: String|
            #![trigger call_ensures(write, (center.x.neg_spec(),), x2), call_ensures(write, (center.y.neg_spec(),), y2)]
            call_ensures(write, (center.x.neg_spec(),), x2) && call_ensures(
                write,
                (center.y.neg_spec(),),
                y2,
            ) && x->0.inner@ == camera_fill() + "; translate: "@ + x2@ + "px "@ + y2@ + "px"@;
        let (k, l) = choose|x2: String, y2: String|
            #![trigger call_ensures(write, (center.x.neg_spec(),), x2), call_ensures(write, (center.y.neg_spec(),), y2)]
            call_ensures(write, (center.x.neg_spec(),), x2) && call_ensures(
                write,
                (center.y.neg_spec(),),
                y2,
            ) && y->0.inner@ == camera_fill() + "; translate: "@ + x2@ + "px "@ + y2@ + "px"@;
        assert(i@ == k@ && j@ == l@);
    }
}

/// How a camera that reads boxes came about: after a layout with a camera that moves nothing.
proof fn probe_is_laid<
    K: Fn(&Kernel) -> Result<MotionValue, KernelError>,
    T: Fn(&MotionValue) -> String,
    W: Fn(Scalar) -> String,
    F: Fn(usize, &FormulaStyle) -> Result<FormulaBox, String>,
    Y: Fn(&Vec<LayoutNode>, &Option<CameraWrappers>) -> Result<Laid, LayoutError>,
    X: Fn(&Vec<LayoutNode>, &Option<CameraWrappers>) -> Drawn,
>(
    h: FrameHost<K, T, W, F, Y, X>,
    t: FrameTask,
    v: Seq<Value>,
    f: Seq<Entry<FormulaBox>>,
    x: Option<CameraStyles>,
) -> (r: (Laid, Seq<Value>))
    requires
        needs_probe(*t.artifact),
        camera_styled(h, *t.artifact, v, *t.inputs, f, Ok(x)),
    ensures
        laid_told(h, *t.artifact, v, f, Some(still_wrappers()), Ok(r.0)),
        reads_boxes(*h.kernel, *h.tokens, t, v, &r.0.boxes, r.1),
        camera_given(*h.write, *t.artifact, r.1, Ok(x)),
{
    let a = *t.artifact;
    let still = choose|still: CameraStyles| #[trigger]
        moves_nothing(still) && probe_told(h, a, v, *t.inputs, f, still, Ok(x));
    let laid = choose|laid: Result<Laid, LayoutError>| #[trigger]
        laid_told(h, a, v, f, Some(still_wrappers()), laid) && probed(
            *h.kernel,
            *h.tokens,
            *h.write,
            a,
            v,
            *t.inputs,
            just_boxes(laid),
            Ok(x),
        );
    let out = choose|out: Result<Seq<Value>, Fault>| #[trigger]
        boxed(*h.kernel, *h.tokens, a, v, *t.inputs, &laid->Ok_0.boxes, out) && match out {
            Err(f) => false,
            Ok(v) => camera_given(*h.write, a, v, Ok(x)),
        };
    (laid->Ok_0, out->Ok_0)
}

/// The wrappers of a camera that moves nothing.
spec fn still_wrappers() -> CameraWrappers {
    camera_parsed(
        "<camera-probe>"@,
        camera_fill() + "; translate: 0px 0px; rotate: 0deg; scale: 1"@,
        camera_fill() + "; translate: 0px 0px"@,
    )->Ok_0
}

proof fn cameras_agree<
    K: Fn(&Kernel) -> Result<MotionValue, KernelError>,
    T: Fn(&MotionValue) -> String,
    W: Fn(Scalar) -> String,
    F: Fn(usize, &FormulaStyle) -> Result<FormulaBox, String>,
    Y: Fn(&Vec<LayoutNode>, &Option<CameraWrappers>) -> Result<Laid, LayoutError>,
    X: Fn(&Vec<LayoutNode>, &Option<CameraWrappers>) -> Drawn,
>(
    h: FrameHost<K, T, W, F, Y, X>,
    t: FrameTask,
    u: FrameTask,
    v: Seq<Value>,
    w: Seq<Value>,
    f: Seq<Entry<FormulaBox>>,
    g: Seq<Entry<FormulaBox>>,
    c: Option<CameraWrappers>,
    d: Option<CameraWrappers>,
)
    requires
        keeps_hidden_boxes(h, *t.artifact),
        frames_agree(*h.kernel, *h.tokens, t, u),
        based(*h.kernel, *h.tokens, t, v),
        based(*h.kernel, *h.tokens, u, w),
        mapped(f) == mapped(g),
        camera_told(h, *t.artifact, v, *t.inputs, f, Ok(c)),
        camera_told(h, *u.artifact, w, *u.inputs, g, Ok(d)),
    ensures
        c == d,
{
    let a = *t.artifact;
    assert(nodes_agree(v, w, a) && camera_agrees(v, w, a));
    let x = choose|styles: Result<Option<CameraStyles>, LayoutFault>| #[trigger]
        camera_styled(h, a, v, *t.inputs, f, styles) && Ok::<
            Option<CameraWrappers>,
            LayoutFault,
        >(c) == match styles {
            Err(f) => Err(f),
            Ok(None) => Ok(None),
            Ok(Some(s)) => match camera_parsed("<camera>"@, s.outer@, s.inner@) {
                Err(f) => Err(f),
                Ok(wrappers) => Ok(Some(wrappers)),
            },
        };
    let y = choose|styles: Result<Option<CameraStyles>, LayoutFault>| #[trigger]
        camera_styled(h, a, w, *u.inputs, g, styles) && Ok::<
            Option<CameraWrappers>,
            LayoutFault,
        >(d) == match styles {
            Err(f) => Err(f),
            Ok(None) => Ok(None),
            Ok(Some(s)) => match camera_parsed("<camera>"@, s.outer@, s.inner@) {
                Err(f) => Err(f),
                Ok(wrappers) => Ok(Some(wrappers)),
            },
        };
    if needs_probe(a) {
        let (l, p) = probe_is_laid(h, t, v, f, x->Ok_0);
        let (k, q) = probe_is_laid(h, u, w, g, y->Ok_0);
        layouts_place_alike(h, a, v, w, f, g, Some(still_wrappers()), l, k);
        assert(camera_agrees(p, q, a));
        cameras_are_written_alike(*h.write, a, p, q, x->Ok_0, y->Ok_0);
    } else {
        cameras_are_written_alike(*h.write, a, v, w, x->Ok_0, y->Ok_0);
    }
}

/// A hidden node keeps its box. Two frames of a scene that differ in the visibility of nodes alone have
/// the same layout: the same nodes, each with the same rectangle, seen through the same camera. The
/// layout engine is one that places hidden boxes as it places shown ones.
pub proof fn hidden_nodes_keep_their_boxes<
    K: Fn(&Kernel) -> Result<MotionValue, KernelError>,
    T: Fn(&MotionValue) -> String,
    W: Fn(Scalar) -> String,
    F: Fn(usize, &FormulaStyle) -> Result<FormulaBox, String>,
    Y: Fn(&Vec<LayoutNode>, &Option<CameraWrappers>) -> Result<Laid, LayoutError>,
    X: Fn(&Vec<LayoutNode>, &Option<CameraWrappers>) -> Drawn,
    C: Fn(usize, &Frame3DState) -> Option<String>,
    J: Fn(&AnchorTask) -> Result<Vec<AnchorProjection>, String>,
>(
    h: FrameHost<K, T, W, F, Y, X>,
    check: C,
    project: J,
    t: FrameTask,
    u: FrameTask,
    p: Placement,
    q: Placement,
)
    requires
        keeps_hidden_boxes(h, *t.artifact),
        frames_agree(*h.kernel, *h.tokens, t, u),
        placement_told(h, check, project, t, Ok(p)),
        placement_told(h, check, project, u, Ok(q)),
    ensures
        mapped(p.laid.boxes@) == mapped(q.laid.boxes@),
        mapped(p.laid.contents@) == mapped(q.laid.contents@),
        p.camera == q.camera,
{
    let a = *t.artifact;
    let x = choose|s: LaySteps| #[trigger]
        lay_steps(h, check, project, t, s) && lay_outcome(s, Ok(p));
    let y = choose|s: LaySteps| #[trigger]
        lay_steps(h, check, project, u, s) && lay_outcome(s, Ok(q));
    let v = values_of(x.base->Ok_0@);
    let w = values_of(y.base->Ok_0@);
    assert(based(*h.kernel, *h.tokens, t, v));
    assert(based(*h.kernel, *h.tokens, u, w));
    formulas_agree(*h.typeset, t.formula, a, v, w, p.formulas, q.formulas);
    cameras_agree(h, t, u, v, w, p.formulas@, q.formulas@, p.camera, q.camera);
    layouts_place_alike(h, a, v, w, p.formulas@, q.formulas@, p.camera, p.laid, q.laid);
}

/// The trees of two such frames have the same keys, each with the same rectangle.
pub proof fn trees_keep_hidden_boxes<
    K: Fn(&Kernel) -> Result<MotionValue, KernelError>,
    T: Fn(&MotionValue) -> String,
    W: Fn(Scalar) -> String,
    F: Fn(usize, &FormulaStyle) -> Result<FormulaBox, String>,
    Y: Fn(&Vec<LayoutNode>, &Option<CameraWrappers>) -> Result<Laid, LayoutError>,
    X: Fn(&Vec<LayoutNode>, &Option<CameraWrappers>) -> Drawn,
    C: Fn(usize, &Frame3DState) -> Option<String>,
    J: Fn(&AnchorTask) -> Result<Vec<AnchorProjection>, String>,
    A: Fn(Scalar, LengthProduct) -> Scalar,
    D: Fn(LengthProduct) -> Scalar,
    M: Fn(&MatrixStep) -> Matrix4,
    V: Fn(&PlaneTask) -> PlaneView,
    Z: Fn(&PlacedPlane) -> PlanePlacement,
    E: Fn(&Calc) -> Scalar,
    U: Fn(&SegmentGeometry, Scalar) -> Point,
    G: Fn(&SegmentGeometry, Scalar) -> Point,
    S: Fn(&SegmentGeometry, Scalar, Scalar) -> SegmentGeometry,
    N: Fn(&GlassSum) -> Scalar,
    Q: Fn(&Quad) -> Option<Homography>,
    P: Fn(&SegmentGeometry, usize) -> Point,
    R: Fn(&RectTask) -> Option<Rect>,
    L: Fn(&Vec<ForegroundColors>) -> Option<Scalar>,
>(
    h: FrameHost<K, T, W, F, Y, X>,
    check: C,
    project: J,
    ph: PaintHost<A, D, M, V, Z, E, U, G, S, N, Q, P, R, L>,
    t: FrameTask,
    u: FrameTask,
    q: PaintTask,
    x: LayoutTree,
    y: LayoutTree,
)
    requires
        keeps_hidden_boxes(h, *t.artifact),
        frames_agree(*h.kernel, *h.tokens, t, u),
        tree_told(h, check, project, ph, t, q, Ok(x)),
        tree_told(h, check, project, ph, u, q, Ok(y)),
    ensures
        mapped(x.placement.laid.boxes@) == mapped(y.placement.laid.boxes@),
        mapped(x.placement.laid.contents@) == mapped(y.placement.laid.contents@),
{
    let a = choose|p: Result<Placement, LayoutError>| #[trigger]
        placement_told(h, check, project, t, p) && match p {
            Err(f) => false,
            Ok(p) => finish_told(h, ph, t, q, p, Ok(x)),
        };
    let b = choose|p: Result<Placement, LayoutError>| #[trigger]
        placement_told(h, check, project, u, p) && match p {
            Err(f) => false,
            Ok(p) => finish_told(h, ph, u, q, p, Ok(y)),
        };
    let c = choose|s: PaintSteps| #[trigger]
        paint_steps(h, ph, t, q, a->Ok_0, s) && paint_outcome(t, a->Ok_0, s, Ok(x));
    let d = choose|s: PaintSteps| #[trigger]
        paint_steps(h, ph, u, q, b->Ok_0, s) && paint_outcome(u, b->Ok_0, s, Ok(y));
    assert(is_tree(t, a->Ok_0, c, x));
    assert(is_tree(u, b->Ok_0, d, y));
    hidden_nodes_keep_their_boxes(h, check, project, t, u, a->Ok_0, b->Ok_0);
}

} // verus!
