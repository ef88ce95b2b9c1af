//! What nodes hand to layout: their shape, presets, classes and declarations, and the camera around the
//! world.

use vstd::prelude::*;

use crate::artifact::{MaskValue, NodeKind, SceneArtifact, SceneNode, StyleBinding, StyleValue};
use crate::bindings::style_valued;
use crate::binding_laws::{gives_number, gives_point, is_value};
use crate::camera::{camera_given, CameraStyles};
use crate::declarations::{anchor_from, declares, gathered, lowers, offset_from, separated};
use crate::layout_error::LayoutFault;
use crate::nodes::{
    formula_added, plane_added, plans, presets_of, shape_of, spaced, visible_of, FormulaBox,
    NodePlan, PlanePlacement, Shape,
};
use crate::recording::Point;
use crate::scalar::{num, Scalar};
use crate::table::{find, Entry};
use crate::text::{begins, numeral};
use crate::value::{number_written, token_written, MotionValue, Value};

verus! {

/// Names of different lengths differ; those of one length differ in some character.
proof fn written_names()
    ensures
        "translate"@.len() == 9,
        "rotate"@.len() == 6,
        "center"@.len() == 6,
        "rotate"@ != "center"@,
{
    reveal_strlit("translate");
    reveal_strlit("rotate");
    reveal_strlit("center");
    assert("rotate"@[0] != "center"@[0]);
}

/// Text is laid out as text, pictures, videos, scenes and formulas as replaced elements, paths and batches
/// as boxes without children, and everything else as a container.
pub proof fn nodes_have_the_shape_of_their_kind(
    node: SceneNode,
    values: Seq<Value>,
    at: int,
    formula: Option<FormulaBox>,
    shape: Shape,
)
    requires
        shape_of(node, values, at, formula) == Ok::<Shape, LayoutFault>(shape),
    ensures
        match node.kind {
            NodeKind::Text { text, .. } => shape is Text && crate::bindings::text_bound(text, values, at)
                == Ok::<Seq<char>, LayoutFault>(shape->Text_0),
            NodeKind::Path { .. } | NodeKind::GeometryBatch { .. } => shape is Leaf,
            NodeKind::Image { source } => shape == Shape::Image(source@),
            NodeKind::Video { source, .. } => shape == Shape::Image(source@),
            NodeKind::Scene3D { .. } => shape == Shape::Image("generated://scene3d/"@ + node.key@),
            NodeKind::MathFormula { .. } => formula is Some && shape == Shape::Formula(
                "generated://formula/"@ + node.key@,
            ),
            _ => shape is Container,
        },
{
}

/// Only an unset formula and a text without its value have no shape.
pub proof fn other_nodes_have_a_shape(
    node: SceneNode,
    values: Seq<Value>,
    at: int,
    formula: Option<FormulaBox>,
)
    ensures
        !(node.kind is Text) && !(node.kind is MathFormula) ==> shape_of(node, values, at, formula) is Ok,
        node.kind is MathFormula ==> (shape_of(node, values, at, formula) is Ok <==> formula is Some),
{
}

/// Whether a node is a block.
pub open spec fn blocks(kind: NodeKind) -> bool {
    match kind {
        NodeKind::Group => true,
        NodeKind::Box => true,
        NodeKind::Clip { .. } => true,
        NodeKind::Mask { .. } => true,
        NodeKind::Path { .. } => true,
        NodeKind::GeometryBatch { .. } => true,
        NodeKind::ShaderLayer { .. } => true,
        NodeKind::Glass(_) => true,
        NodeKind::Scene3D { .. } => true,
        _ => false,
    }
}

/// Whether a node is drawn in a group of its own: by its kind, by a mask that samples it, or by a style.
pub open spec fn is_apart(a: SceneArtifact, node: SceneNode) -> bool {
    ||| node.kind is Clip
    ||| node.kind is Mask
    ||| node.kind is ShaderLayer
    ||| node.kind is Glass
    ||| exists|i: int| #[trigger] is_mask_of(a, i, node.key@)
    ||| exists|i: int|
        0 <= i < node.styles@.len() && sets_apart((#[trigger] node.styles@[i]).property@)
}

pub open spec fn is_mask_of(a: SceneArtifact, i: int, key: Seq<char>) -> bool {
    &&& 0 <= i < a.nodes@.len()
    &&& match a.nodes@[i].kind {
        NodeKind::Mask { source: MaskValue::Subtree { source }, .. } => source@ == key,
        _ => false,
    }
}

pub open spec fn sets_apart(p: Seq<char>) -> bool {
    ||| begins(p, "motion-displacement-"@)
    ||| begins(p, "motion-velocity-blur-"@)
    ||| begins(p, "motion-transform-3d-"@)
    ||| p == "rotate-x"@
    ||| p == "rotate-y"@
    ||| p == "perspective"@
    ||| p == "transform-style"@
    ||| p == "backface-visibility"@
    ||| p == "paper-grain"@
    ||| p == "contact-shadow"@
}

proof fn apartness_agrees(a: SceneArtifact, node: SceneNode)
    ensures
        is_apart(a, node) <==> crate::nodes::is_enclosing(node.kind) || crate::nodes::is_sampled(
            a.nodes@,
            node.key@,
        ) || crate::nodes::some_isolates(node.styles@),
{
    if crate::nodes::is_sampled(a.nodes@, node.key@) {
        let i = choose|i: int|
            0 <= i < a.nodes@.len() && #[trigger] crate::nodes::samples(a.nodes@[i], node.key@);
        assert(is_mask_of(a, i, node.key@));
    }
    if exists|i: int| #[trigger] is_mask_of(a, i, node.key@) {
        let i = choose|i: int| #[trigger] is_mask_of(a, i, node.key@);
        assert(crate::nodes::samples(a.nodes@[i], node.key@));
    }
    if crate::nodes::some_isolates(node.styles@) {
        let i = choose|i: int|
            0 <= i < node.styles@.len() && crate::nodes::isolates((#[trigger] node.styles@[i]).property@);
        assert(sets_apart(node.styles@[i].property@));
    }
    if exists|i: int| 0 <= i < node.styles@.len() && sets_apart((#[trigger] node.styles@[i]).property@) {
        let i = choose|i: int|
            0 <= i < node.styles@.len() && sets_apart((#[trigger] node.styles@[i]).property@);
        assert(crate::nodes::isolates(node.styles@[i].property@));
    }
}

/// A node has the preset of a block, of a group of its own, of a formula's size and of text on one line
/// exactly where it needs each.
pub proof fn nodes_have_the_presets_they_need(
    a: SceneArtifact,
    node: SceneNode,
    formula: Option<FormulaBox>,
    preset: Seq<char>,
)
    ensures
        presets_of(a, node, formula).contains(preset) <==> {
            ||| preset == "display: block"@ && blocks(node.kind)
            ||| preset == "isolation: isolate"@ && is_apart(a, node)
            ||| node.kind is MathFormula && formula is Some && preset
                == "display: block; isolation: isolate; "@ + ("width: "@ + formula->0.width@
                + "px; height: "@ + formula->0.height@ + "px"@)
            ||| preset == "white-space: nowrap"@ && node.kind is Text && node.kind->Text_path is Some
        },
{
    apartness_agrees(a, node);
    let p1 = crate::nodes::preset_if(crate::nodes::is_block(node.kind), "display: block"@);
    let p2 = crate::nodes::preset_if(
        crate::nodes::is_enclosing(node.kind) || crate::nodes::is_sampled(a.nodes@, node.key@),
        "isolation: isolate"@,
    );
    let p3 = crate::nodes::preset_if(
        crate::nodes::some_isolates(node.styles@),
        "isolation: isolate"@,
    );
    let p4 = crate::nodes::formula_preset(node.kind, formula);
    let p5 = crate::nodes::preset_if(
        crate::nodes::follows_path(node.kind),
        "white-space: nowrap"@,
    );
    assert(presets_of(a, node, formula) == p1 + p2 + p3 + p4 + p5);
    joined_contains(p1, p2, p3, p4, p5, preset);
    assert(blocks(node.kind) == crate::nodes::is_block(node.kind));
    single_contains(p1, preset);
    single_contains(p2, preset);
    single_contains(p3, preset);
    single_contains(p4, preset);
    single_contains(p5, preset);
}

proof fn single_contains(p: Seq<Seq<char>>, x: Seq<char>)
    requires
        p.len() <= 1,
    ensures
        p.contains(x) <==> p.len() == 1 && p[0] == x,
{
    if p.len() == 1 && p[0] == x {
        assert(p.contains(p[0]));
    }
}

proof fn joined_contains(
    a: Seq<Seq<char>>,
    b: Seq<Seq<char>>,
    c: Seq<Seq<char>>,
    d: Seq<Seq<char>>,
    e: Seq<Seq<char>>,
    x: Seq<char>,
)
    ensures
        (a + b + c + d + e).contains(x) <==> a.contains(x) || b.contains(x) || c.contains(x)
            || d.contains(x) || e.contains(x),
{
    two_contain(a, b, x);
    two_contain(a + b, c, x);
    two_contain(a + b + c, d, x);
    two_contain(a + b + c + d, e, x);
}

proof fn two_contain(a: Seq<Seq<char>>, b: Seq<Seq<char>>, x: Seq<char>)
    ensures
        (a + b).contains(x) <==> a.contains(x) || b.contains(x),
{
    if a.contains(x) {
        let i = choose|i: int| 0 <= i < a.len() && a[i] == x;
        assert((a + b)[i] == x);
    }
    if b.contains(x) {
        let i = choose|i: int| 0 <= i < b.len() && b[i] == x;
        assert((a + b)[a.len() + i] == x);
    }
    if (a + b).contains(x) {
        let i = choose|i: int| 0 <= i < (a + b).len() && (a + b)[i] == x;
        if i < a.len() {
            assert(a[i] == x);
        } else {
            assert(b[i - a.len()] == x);
        }
    }
}

/// A later preset replaces an earlier one, so their order counts: the block first, text on one line last.
pub proof fn presets_keep_their_order(
    a: SceneArtifact,
    node: SceneNode,
    formula: Option<FormulaBox>,
)
    ensures
        blocks(node.kind) ==> presets_of(a, node, formula).len() > 0 && presets_of(a, node, formula)[0]
            == "display: block"@,
        node.kind is MathFormula && formula is Some ==> presets_of(a, node, formula).len() > 0
            && presets_of(a, node, formula).last() == "display: block; isolation: isolate; "@ + (
        "width: "@ + formula->0.width@ + "px; height: "@ + formula->0.height@ + "px"@),
        node.kind is Text && node.kind->Text_path is Some ==> presets_of(a, node, formula).len() > 0
            && presets_of(a, node, formula).last() == "white-space: nowrap"@,
{
}

proof fn classes_read_prefixes(names: Seq<String>, more: String, n: nat)
    requires
        n <= names.len(),
    ensures
        spaced(names.push(more), n) == spaced(names, n),
    decreases n,
{
    if n > 0 {
        classes_read_prefixes(names, more, (n - 1) as nat);
    }
}

/// Class names follow each other with blanks between them.
pub proof fn classes_are_spaced(names: Seq<String>, more: String)
    ensures
        spaced(names.push(more), names.len() + 1) == if names.len() == 0 {
            more@
        } else {
            spaced(names, names.len()) + " "@ + more@
        },
{
    classes_read_prefixes(names, more, names.len());
}

/// A node is visible unless its visibility says otherwise.
pub proof fn nodes_are_visible_unless_told(node: SceneNode, values: Seq<Value>, at: int, b: bool)
    ensures
        visible_of(node, values, at) == Ok::<bool, LayoutFault>(b) <==> match node.visibility {
            None => b,
            Some(expr) => is_value(values, expr, Value::Bool(b)),
        },
{
}

/// Whether a property is kept from layout: effects, filters, transforms in space and the path that a node
/// follows.
pub open spec fn is_kept_back(p: Seq<char>) -> bool {
    ||| sets_apart(p)
    ||| begins(p, "motion-perspective-origin-"@)
    ||| p == "motion-path-anchor"@
    ||| p == "motion-path-angle-offset"@
}

/// A property that layout does not see is not declared; any other is declared with its value, or fails.
pub proof fn styles_are_declared_by_name<T: Fn(&MotionValue) -> String>(
    tokens: T,
    node: SceneNode,
    values: Seq<Value>,
    at: int,
    i: int,
    v: Value,
    out: Option<Seq<char>>,
)
    requires
        0 <= i < node.styles@.len(),
        declares(tokens, node, values, at, i, Ok(out)),
        style_valued(node.styles@[i].value, values, at) == Ok::<Value, LayoutFault>(v),
    ensures
        is_kept_back(node.styles@[i].property@) <==> out is None,
        ({
            let p = node.styles@[i].property@;
            let centered = p == "translate"@ && anchor_from(node.styles@, 0) == Some("center"@)
                && v is Length2;
            let turned = p == "rotate"@ && !offset_from(node.styles@, 0).eq_spec(num(0));
            out is Some && !centered && !turned ==> exists|s: Seq<char>| #[trigger]
                token_written(tokens, v, s) && out->0 == p + ": "@ + s
        }),
{
    written_names();
}

/// An expression may not decide over a background that cannot be painted.
pub proof fn backgrounds_are_admitted<T: Fn(&MotionValue) -> String>(
    tokens: T,
    node: SceneNode,
    values: Seq<Value>,
    at: int,
    i: int,
    v: Value,
    out: Option<Seq<char>>,
)
    requires
        0 <= i < node.styles@.len(),
        node.styles@[i].value is Expr,
        node.styles@[i].property@ == "background"@ || node.styles@[i].property@ == "background-image"@,
        !is_kept_back(node.styles@[i].property@),
        declares(tokens, node, values, at, i, Ok(out)),
        style_valued(node.styles@[i].value, values, at) == Ok::<Value, LayoutFault>(v),
    ensures
        exists|s: Seq<char>| #[trigger]
            token_written(tokens, v, s) && out == Some(node.styles@[i].property@ + ": "@ + s)
                && crate::backgrounds::background_admitted(node.styles@[i].property@, s),
{
}

/// A translation about a centered anchor is moved back by half the box; a rotation along a path is turned
/// by the offset of its angle.
pub proof fn anchored_styles_are_corrected<T: Fn(&MotionValue) -> String>(
    tokens: T,
    node: SceneNode,
    values: Seq<Value>,
    at: int,
    i: int,
    v: Value,
    out: Option<Seq<char>>,
)
    requires
        0 <= i < node.styles@.len(),
        declares(tokens, node, values, at, i, Ok(out)),
        !is_kept_back(node.styles@[i].property@),
        !(node.styles@[i].property@ == "background"@),
        !(node.styles@[i].property@ == "background-image"@),
        style_valued(node.styles@[i].value, values, at) == Ok::<Value, LayoutFault>(v),
    ensures
        node.styles@[i].property@ == "translate"@ && v is Length2 && anchor_from(node.styles@, 0) == Some(
            "center"@,
        ) ==> exists|x: Seq<char>, y: Seq<char>|
            #![trigger token_written(tokens, Value::Length(v->Length2_0.x), x), token_written(tokens, Value::Length(v->Length2_0.y), y)]
            token_written(tokens, Value::Length(v->Length2_0.x), x) && token_written(
                tokens,
                Value::Length(v->Length2_0.y),
                y,
            ) && out == Some(
                "translate"@ + ": "@ + ("calc("@ + x + " - 50%) calc("@ + y + " - 50%)"@),
            ),
        node.styles@[i].property@ == "rotate"@ && !offset_from(node.styles@, 0).eq_spec(num(0))
            ==> exists|x: Seq<char>, y: Seq<char>|
            #![trigger token_written(tokens, v, x), number_written(tokens, offset_from(node.styles@, 0), y)]
            token_written(tokens, v, x) && number_written(tokens, offset_from(node.styles@, 0), y)
                && out == Some("rotate"@ + ": "@ + ("calc("@ + x + " + "@ + y + "deg)"@)),
{
    written_names();
}

/// Whether a style is a fixed word under a name.
pub open spec fn is_word(style: StyleBinding, property: Seq<char>, word: Seq<char>) -> bool {
    &&& style.property@ == property
    &&& match style.value {
        StyleValue::Static { value } => value@ == Value::Enum(word),
        _ => false,
    }
}

/// Whether a style is a fixed number under a name.
pub open spec fn is_fixed(style: StyleBinding, property: Seq<char>, x: Scalar) -> bool {
    &&& style.property@ == property
    &&& match style.value {
        StyleValue::Static { value } => value@ == Value::Number(x),
        _ => false,
    }
}

/// The anchor of a path is the first fixed word of that name.
pub proof fn anchors_are_the_first_word(styles: Seq<StyleBinding>, k: int, i: int, word: Seq<char>)
    requires
        0 <= i <= k < styles.len(),
        is_word(styles[k], "motion-path-anchor"@, word),
        forall|j: int| i <= j < k ==> (#[trigger] styles[j]).property@ != "motion-path-anchor"@,
    ensures
        anchor_from(styles, i) == Some(word),
    decreases k - i,
{
    if i < k {
        anchors_are_the_first_word(styles, k, i + 1, word);
    }
}

/// The angle offset of a path is the first fixed number of that name, and zero without one.
pub proof fn offsets_are_the_first_number(styles: Seq<StyleBinding>, k: int, i: int, x: Scalar)
    requires
        0 <= i <= k <= styles.len(),
        k < styles.len() ==> is_fixed(styles[k], "motion-path-angle-offset"@, x),
        k == styles.len() ==> x == num(0),
        forall|j: int| i <= j < k ==> (#[trigger] styles[j]).property@ != "motion-path-angle-offset"@,
    ensures
        offset_from(styles, i) == x,
    decreases k - i,
{
    if i < k {
        offsets_are_the_first_number(styles, k, i + 1, x);
    }
}

proof fn gathering_reads_prefixes(
    styles: Seq<StyleBinding>,
    texts: Seq<Option<Seq<char>>>,
    more: Option<Seq<char>>,
    n: nat,
)
    requires
        n <= texts.len(),
    ensures
        gathered(styles, texts.push(more), n) == gathered(styles, texts, n),
    decreases n,
{
    if n > 0 {
        gathering_reads_prefixes(styles, texts, more, (n - 1) as nat);
    }
}

/// Declarations are gathered in the order of their styles, behind the origin of an anchor.
pub proof fn declarations_keep_their_order(
    styles: Seq<StyleBinding>,
    texts: Seq<Option<Seq<char>>>,
    s: Seq<char>,
)
    ensures
        gathered(styles, texts.push(Some(s)), texts.len() + 1) == gathered(
            styles,
            texts,
            texts.len(),
        ).push(s),
        gathered(styles, texts.push(None), texts.len() + 1) == gathered(styles, texts, texts.len()),
        anchor_from(styles, 0) is None ==> gathered(styles, texts, 0).len() == 0,
        anchor_from(styles, 0) == Some("center"@) ==> gathered(styles, texts, 0) == seq![
            "transform-origin: "@ + "50% 50%"@,
        ],
        anchor_from(styles, 0) is Some && anchor_from(styles, 0) != Some("center"@) ==> gathered(
            styles,
            texts,
            0,
        ) == seq!["transform-origin: "@ + "0px 0px"@],
{
    gathering_reads_prefixes(styles, texts, Some(s), texts.len());
    gathering_reads_prefixes(styles, texts, None, texts.len());
}

/// Declarations are separated by semicolons.
pub proof fn declarations_are_separated(parts: Seq<Seq<char>>, more: Seq<char>)
    ensures
        separated(seq![]) == Seq::<char>::empty(),
        separated(seq![more]) == more,
        parts.len() > 0 ==> separated(parts.push(more)) == separated(parts) + "; "@ + more,
{
    if parts.len() > 0 {
        assert(parts.push(more).drop_last() =~= parts);
    }
}

/// A node that is not visible says so behind everything else it declares.
pub proof fn hidden_nodes_say_so_last<T: Fn(&MotionValue) -> String>(
    tokens: T,
    node: SceneNode,
    values: Seq<Value>,
    at: int,
    out: Seq<char>,
)
    requires
        lowers(tokens, node, values, at, false, Ok(out)),
    ensures
        exists|shown: Seq<char>| #[trigger]
            lowers(tokens, node, values, at, true, Ok(shown)) && (out == "visibility: hidden"@ || out
                == shown + "; "@ + "visibility: hidden"@),
{
    let texts = choose|texts: Seq<Option<Seq<char>>>| #[trigger]
        crate::declarations::declared_so_far(tokens, node, values, at, texts) && texts.len()
            == node.styles@.len() && out == separated(
            crate::declarations::with_visibility(gathered(node.styles@, texts, texts.len()), false),
        );
    let parts = gathered(node.styles@, texts, texts.len());
    let shown = separated(parts);
    assert(lowers(tokens, node, values, at, true, Ok(shown)));
    declarations_are_separated(parts, "visibility: hidden"@);
    if parts.len() == 0 {
        assert(parts.push("visibility: hidden"@) =~= seq!["visibility: hidden"@]);
    }
}

/// Declarations followed by one more.
pub open spec fn and_then_said(before: Seq<char>, more: Seq<char>) -> Seq<char> {
    if before.len() == 0 { more } else { before + "; "@ + more }
}

/// A plane adds its order where its node has none, and hides it where it is culled.
pub proof fn planes_add_their_order(
    node: SceneNode,
    d: Seq<char>,
    p: PlanePlacement,
)
    ensures
        plane_added(node, d, None) == d,
        ({
            let own = exists|i: int|
                0 <= i < node.styles@.len() && (#[trigger] node.styles@[i]).property@ == "z-index"@;
            let digits = if p.z_index < 0 {
                "-"@ + numeral((-p.z_index) as nat)
            } else {
                numeral(p.z_index as nat)
            };
            let ordered = if own { d } else { and_then_said(d, "z-index: "@ + digits) };
            plane_added(node, d, Some(p)) == if p.hidden {
                and_then_said(ordered, "visibility: hidden"@)
            } else {
                ordered
            }
        }),
{
}

/// A formula adds its size behind everything else.
pub proof fn formulas_add_their_size(kind: NodeKind, d: Seq<char>, f: FormulaBox)
    ensures
        kind is MathFormula ==> formula_added(kind, d, Some(f)) == and_then_said(
            d,
            "width: "@ + f.width@ + "px; height: "@ + f.height@ + "px"@,
        ),
        !(kind is MathFormula) ==> formula_added(kind, d, Some(f)) == d,
        formula_added(kind, d, None) == d,
{
}

/// A plan has the shape of its node, its classes, its presets, and its declarations with what its plane
/// and its formula add.
pub proof fn plans_hold_their_parts<T: Fn(&MotionValue) -> String>(
    tokens: T,
    a: SceneArtifact,
    at: int,
    values: Seq<Value>,
    formulas: Seq<Entry<FormulaBox>>,
    planes: Option<Seq<Entry<PlanePlacement>>>,
    plan: NodePlan,
)
    requires
        plans(tokens, a, at, values, formulas, planes, Ok(plan)),
    ensures
        0 <= at < a.nodes@.len(),
        ({
            let node = a.nodes@[at];
            let formula = find(formulas, node.key@);
            let plane = if planes is Some { find(planes->0, node.key@) } else { None };
            &&& shape_of(node, values, at, formula) == Ok::<Shape, LayoutFault>(plan.shape@)
            &&& plan.presets@.len() == presets_of(a, node, formula).len()
            &&& forall|i: int|
                0 <= i < plan.presets@.len() ==> (#[trigger] plan.presets@[i])@ == presets_of(
                    a,
                    node,
                    formula,
                )[i]
            &&& plan.class_name is Some <==> node.class_names@.len() > 0
            &&& plan.class_name is Some ==> plan.class_name->0@ == spaced(
                node.class_names@,
                node.class_names@.len(),
            )
            &&& exists|d: Seq<char>| #[trigger]
                lowers(tokens, node, values, at, visible_of(node, values, at)->Ok_0, Ok(d))
                    && plan.declarations@ == formula_added(
                    node.kind,
                    plane_added(node, d, plane),
                    formula,
                )
        }),
{
    let node = a.nodes@[at];
    let formula = find(formulas, node.key@);
    let shape = shape_of(node, values, at, formula)->Ok_0;
    let visible = visible_of(node, values, at)->Ok_0;
    let plane = crate::nodes::plane_for(planes, node);
    let lowered = choose|lowered: Result<Seq<char>, LayoutFault>| #[trigger]
        lowers(tokens, node, values, at, visible, lowered) && crate::nodes::assembled(
            a,
            node,
            shape,
            formula,
            plane,
            lowered,
            Ok(plan),
        );
    assert(lowers(tokens, node, values, at, visible, Ok(lowered->Ok_0)));
    assert forall|i: int| 0 <= i < plan.presets@.len() implies (#[trigger] plan.presets@[i])@
        == presets_of(a, node, formula)[i] by {
        assert(crate::nodes::texts(plan.presets@)[i] == plan.presets@[i]@);
    }
    assert(crate::nodes::texts(plan.presets@).len() == plan.presets@.len());
}

/// The camera turns and scales the world about the middle of the viewport, after its center was moved
/// there: by the opposite of the center.
pub proof fn cameras_move_their_center_to_the_middle<W: Fn(Scalar) -> String>(
    write: W,
    a: SceneArtifact,
    values: Seq<Value>,
    styles: CameraStyles,
    center: Point,
    zoom: Scalar,
    rotation: Scalar,
)
    requires
        a.camera is Some,
        camera_given(write, a, values, Ok(Some(styles))),
        gives_point(a.camera->0.center, values, center),
        gives_number(a.camera->0.zoom, values, zoom),
        gives_number(a.camera->0.rotation, values, rotation),
    ensures
        zoom.finite() && zoom.order() > 0,
        rotation.finite() && center.x.finite() && center.y.finite(),
        exists|turn: String, scale: String|
            #![trigger call_ensures(write, (rotation,), turn), call_ensures(write, (zoom,), scale)]
            call_ensures(write, (rotation,), turn) && call_ensures(write, (zoom,), scale)
                && styles.outer@
                == "position: absolute; left: 0; top: 0; width: 100%; height: 100%; transform-origin: 0 0"@
                + "; translate: 50vw 50vh; rotate: "@ + turn@ + "deg; scale: "@ + scale@,
        exists|x: String, y: String|
            #![trigger call_ensures(write, (center.x.neg_spec(),), x), call_ensures(write, (center.y.neg_spec(),), y)]
            call_ensures(write, (center.x.neg_spec(),), x) && call_ensures(
                write,
                (center.y.neg_spec(),),
                y,
            ) && styles.inner@
                == "position: absolute; left: 0; top: 0; width: 100%; height: 100%; transform-origin: 0 0"@
                + "; translate: "@ + x@ + "px "@ + y@ + "px"@,
{
}

/// A scene without a camera has no camera styles, and one with a camera has some or fails.
pub proof fn scenes_have_the_camera_they_name<W: Fn(Scalar) -> String>(
    write: W,
    a: SceneArtifact,
    values: Seq<Value>,
    r: Result<Option<CameraStyles>, LayoutFault>,
)
    requires
        camera_given(write, a, values, r),
    ensures
        a.camera is None ==> r == Ok::<Option<CameraStyles>, LayoutFault>(None),
        a.camera is Some && r is Ok ==> r->Ok_0 is Some,
{
}

} // verus!
