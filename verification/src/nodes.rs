//! What a scene node becomes in the layout engine.

use vstd::prelude::*;

use crate::artifact::{MaskValue, NodeKind, SceneArtifact, SceneNode, StyleBinding};
use crate::bindings::{text_bound, text_value, value, valued, wrong_type};
use crate::declarations::{declarations, is_effect, is_effect_property, lowers};
use crate::eval::values_of;
use crate::faults::EvalError;
use crate::layout_error::{laid, plain, LayoutError, LayoutFault};
use crate::table::{find, lookup, same_text, Entry};
use crate::text::{begins, begins_with, decimal, joined, numeral, said5};
use crate::value::{MotionValue, Value};

verus! {

/// The box of a formula: the texts of its width and height in pixels.
#[derive(Debug)]
pub struct FormulaBox {
    pub width: String,
    pub height: String,
}

/// How a plane of a 3D space is painted.
#[derive(Clone, Copy, Debug, PartialEq, Eq, Structural)]
pub struct PlanePlacement {
    pub z_index: i32,
    pub hidden: bool,
}

/// What a node is in the layout engine.
#[derive(Debug)]
pub enum BoxShape {
    /// A box with the node's children.
    Container,
    /// A box without children.
    Leaf,
    Text(String),
    /// A replaced element.
    Image(String),
    /// A replaced element with the size of a formula.
    Formula(String),
}

/// A shape by its contents.
pub enum Shape {
    Container,
    Leaf,
    Text(Seq<char>),
    Image(Seq<char>),
    Formula(Seq<char>),
}

impl View for BoxShape {
    type V = Shape;

    open spec fn view(&self) -> Shape {
        match *self {
            BoxShape::Container => Shape::Container,
            BoxShape::Leaf => Shape::Leaf,
            BoxShape::Text(s) => Shape::Text(s@),
            BoxShape::Image(s) => Shape::Image(s@),
            BoxShape::Formula(s) => Shape::Formula(s@),
        }
    }
}

/// What a node hands to the layout engine. A later preset replaces an earlier one.
#[derive(Debug)]
pub struct NodePlan {
    pub shape: BoxShape,
    pub presets: Vec<String>,
    pub class_name: Option<String>,
    pub declarations: String,
}

/// What a node is in the layout engine.
pub open spec fn shape_of(
    node: SceneNode,
    values: Seq<Value>,
    at: int,
    formula: Option<FormulaBox>,
) -> Result<Shape, LayoutFault> {
    match node.kind {
        NodeKind::Text { text, .. } => match text_bound(text, values, at) {
            Ok(s) => Ok(Shape::Text(s)),
            Err(f) => Err(f),
        },
        NodeKind::Path { .. } => Ok(Shape::Leaf),
        NodeKind::GeometryBatch { .. } => Ok(Shape::Leaf),
        NodeKind::Image { source } => Ok(Shape::Image(source@)),
        NodeKind::Video { source, .. } => Ok(Shape::Image(source@)),
        NodeKind::Scene3D { .. } => Ok(Shape::Image("generated://scene3d/"@ + node.key@)),
        NodeKind::MathFormula { .. } => match formula {
            Some(_) => Ok(Shape::Formula("generated://formula/"@ + node.key@)),
            None => Err(
                LayoutFault::BadFormula(node.key@, "formula fragment missing after prepare"@),
            ),
        },
        _ => Ok(Shape::Container),
    }
}

pub(crate) fn box_shape(
    node: &SceneNode,
    values: &Vec<MotionValue>,
    at: usize,
    formula: Option<&FormulaBox>,
) -> (r: Result<BoxShape, LayoutError>)
    ensures
        laid(r) == shape_of(
            *node,
            values_of(values@),
            at as int,
            match formula {
                Some(f) => Some(*f),
                None => None,
            },
        ),
{
    match &node.kind {
        NodeKind::Text { text, .. } => match text_value(text, values, at) {
            Ok(s) => Ok(BoxShape::Text(s)),
            Err(e) => Err(e),
        },
        NodeKind::Path { .. } | NodeKind::GeometryBatch { .. } => Ok(BoxShape::Leaf),
        NodeKind::Image { source } => Ok(BoxShape::Image(source.clone())),
        NodeKind::Video { source, .. } => Ok(BoxShape::Image(source.clone())),
        NodeKind::Scene3D { .. } => Ok(
            BoxShape::Image(joined("generated://scene3d/".to_owned(), node.key.as_str())),
        ),
        NodeKind::MathFormula { .. } => match formula {
            Some(_) => Ok(
                BoxShape::Formula(joined("generated://formula/".to_owned(), node.key.as_str())),
            ),
            None => Err(
                LayoutError::BadFormula {
                    node: node.key.clone(),
                    reason: "formula fragment missing after prepare".to_owned(),
                },
            ),
        },
        _ => Ok(BoxShape::Container),
    }
}

/// Whether a node is laid out as a block.
pub open spec fn is_block(kind: NodeKind) -> bool {
    kind is Group || kind is Box || kind is Clip || kind is Mask || kind is Path
        || kind is GeometryBatch || kind is ShaderLayer || kind is Glass || kind is Scene3D
}

/// Whether a node encloses its subtree in a group of its own.
pub open spec fn is_enclosing(kind: NodeKind) -> bool {
    kind is Clip || kind is Mask || kind is ShaderLayer || kind is Glass
}

/// Whether a mask samples the subtree of a node.
pub open spec fn samples(node: SceneNode, key: Seq<char>) -> bool {
    node.kind matches NodeKind::Mask { source: MaskValue::Subtree { source }, .. } && source@ == key
}

pub open spec fn is_sampled(nodes: Seq<SceneNode>, key: Seq<char>) -> bool {
    exists|i: int| 0 <= i < nodes.len() && #[trigger] samples(nodes[i], key)
}

fn sampled_by_mask(nodes: &Vec<SceneNode>, key: &str) -> (r: bool)
    ensures
        r == is_sampled(nodes@, key@),
{
    let mut i: usize = 0;
    while i < nodes.len()
        invariant
            i <= nodes@.len(),
            forall|k: int| 0 <= k < i ==> !#[trigger] samples(nodes@[k], key@),
        decreases nodes@.len() - i,
    {
        let hit: bool = match &nodes[i].kind {
            NodeKind::Mask { source, .. } => match source {
                MaskValue::Subtree { source } => same_text(source.as_str(), key),
                _ => false,
            },
            _ => false,
        };
        assert(hit == samples(nodes@[i as int], key@));
        if hit {
            return true;
        }
        i = i + 1;
    }
    false
}

/// Whether a property needs its node in a group of its own.
pub open spec fn isolates(property: Seq<char>) -> bool {
    begins(property, "motion-displacement-"@) || begins(property, "motion-velocity-blur-"@)
        || begins(property, "motion-transform-3d-"@) || is_effect(property)
}

pub open spec fn some_isolates(styles: Seq<StyleBinding>) -> bool {
    exists|i: int| 0 <= i < styles.len() && isolates((#[trigger] styles[i]).property@)
}

fn any_isolates(styles: &Vec<StyleBinding>) -> (r: bool)
    ensures
        r == some_isolates(styles@),
{
    let mut i: usize = 0;
    while i < styles.len()
        invariant
            i <= styles@.len(),
            forall|k: int| 0 <= k < i ==> !isolates((#[trigger] styles@[k]).property@),
        decreases styles@.len() - i,
    {
        let property = styles[i].property.as_str();
        if begins_with(property, "motion-displacement-") || begins_with(
            property,
            "motion-velocity-blur-",
        ) || begins_with(property, "motion-transform-3d-") || is_effect_property(property) {
            assert(isolates(styles@[i as int].property@));
            return true;
        }
        i = i + 1;
    }
    false
}

pub open spec fn preset_if(test: bool, preset: Seq<char>) -> Seq<Seq<char>> {
    if test { seq![preset] } else { Seq::empty() }
}

/// Declarations of a formula's box.
pub open spec fn formula_size(f: FormulaBox) -> Seq<char> {
    "width: "@ + f.width@ + "px; height: "@ + f.height@ + "px"@
}

pub open spec fn formula_preset(kind: NodeKind, formula: Option<FormulaBox>) -> Seq<Seq<char>> {
    match (kind, formula) {
        (NodeKind::MathFormula { .. }, Some(f)) => seq![
            "display: block; isolation: isolate; "@ + formula_size(f),
        ],
        _ => Seq::empty(),
    }
}

/// Whether a text follows a path.
pub open spec fn follows_path(kind: NodeKind) -> bool {
    kind matches NodeKind::Text { path: Some(_), .. }
}

/// The presets of a node, in order.
pub open spec fn presets_of(a: SceneArtifact, node: SceneNode, formula: Option<FormulaBox>) -> Seq<
    Seq<char>,
> {
    preset_if(is_block(node.kind), "display: block"@) + preset_if(
        is_enclosing(node.kind) || is_sampled(a.nodes@, node.key@),
        "isolation: isolate"@,
    ) + preset_if(some_isolates(node.styles@), "isolation: isolate"@) + formula_preset(
        node.kind,
        formula,
    ) + preset_if(follows_path(node.kind), "white-space: nowrap"@)
}

pub open spec fn texts(v: Seq<String>) -> Seq<Seq<char>> {
    v.map_values(|s: String| s@)
}

fn push_if(out: &mut Vec<String>, test: bool, preset: &str)
    ensures
        texts(final(out)@) == texts(old(out)@) + preset_if(test, preset@),
{
    let ghost before = out@;
    if test {
        out.push(preset.to_owned());
    }
    assert(texts(out@) =~= texts(before) + preset_if(test, preset@));
}

fn size_text(f: &FormulaBox) -> (r: String)
    ensures
        r@ == formula_size(*f),
{
    said5("width: ", f.width.as_str(), "px; height: ", f.height.as_str(), "px")
}

pub(crate) fn node_presets(artifact: &SceneArtifact, node: &SceneNode, formula: Option<&FormulaBox>) -> (r: Vec<
    String,
>)
    ensures
        texts(r@) == presets_of(
            *artifact,
            *node,
            match formula {
                Some(f) => Some(*f),
                None => None,
            },
        ),
{
    let ghost given = match formula {
        Some(f) => Some(*f),
        None => None,
    };
    let mut out: Vec<String> = Vec::new();
    let block: bool = match &node.kind {
        NodeKind::Group
        | NodeKind::Box
        | NodeKind::Clip { .. }
        | NodeKind::Mask { .. }
        | NodeKind::Path { .. }
        | NodeKind::GeometryBatch { .. }
        | NodeKind::ShaderLayer { .. }
        | NodeKind::Glass(_)
        | NodeKind::Scene3D { .. } => true,
        _ => false,
    };
    let enclosing: bool = match &node.kind {
        NodeKind::Clip { .. }
        | NodeKind::Mask { .. }
        | NodeKind::ShaderLayer { .. }
        | NodeKind::Glass(_) => true,
        _ => false,
    };
    push_if(&mut out, block, "display: block");
    assert(texts(out@) =~= preset_if(is_block(node.kind), "display: block"@));
    let isolated: bool = enclosing || sampled_by_mask(&artifact.nodes, node.key.as_str());
    push_if(&mut out, isolated, "isolation: isolate");
    push_if(&mut out, any_isolates(&node.styles), "isolation: isolate");
    let ghost so_far = texts(out@);
    match (&node.kind, formula) {
        (NodeKind::MathFormula { .. }, Some(f)) => {
            let preset = joined(
                "display: block; isolation: isolate; ".to_owned(),
                size_text(f).as_str(),
            );
            push_if(&mut out, true, preset.as_str());
        },
        _ => {},
    }
    assert(texts(out@) =~= so_far + formula_preset(node.kind, given));
    let nowrap: bool = match &node.kind {
        NodeKind::Text { path, .. } => path.is_some(),
        _ => false,
    };
    push_if(&mut out, nowrap, "white-space: nowrap");
    out
}

/// Class names separated by spaces.
pub open spec fn spaced(names: Seq<String>, n: nat) -> Seq<char>
    decreases n,
{
    if n == 0 {
        Seq::empty()
    } else if n == 1 {
        names[0]@
    } else {
        spaced(names, (n - 1) as nat) + " "@ + names[n - 1]@
    }
}

fn join_classes(names: &Vec<String>) -> (r: Option<String>)
    ensures
        match r {
            Some(s) => names@.len() > 0 && s@ == spaced(names@, names@.len()),
            None => names@.len() == 0,
        },
{
    if names.len() == 0 {
        return None;
    }
    let mut out: String = names[0].clone();
    let mut n: usize = 1;
    while n < names.len()
        invariant
            1 <= n <= names@.len(),
            out@ == spaced(names@, n as nat),
        decreases names@.len() - n,
    {
        out = joined(joined(out, " "), names[n].as_str());
        n = n + 1;
    }
    Some(out)
}

/// Whether a node is visible this frame.
pub open spec fn visible_of(node: SceneNode, values: Seq<Value>, at: int) -> Result<bool, LayoutFault> {
    match node.visibility {
        None => Ok(true),
        Some(expr) => match valued(values, expr, at) {
            Ok(Value::Bool(b)) => Ok(b),
            Ok(_) => wrong_type(at, "visibility"@),
            Err(f) => Err(f),
        },
    }
}

fn is_visible(node: &SceneNode, values: &Vec<MotionValue>, at: usize) -> (r: Result<
    bool,
    LayoutError,
>)
    ensures
        plain(r) == visible_of(*node, values_of(values@), at as int),
{
    match node.visibility {
        None => Ok(true),
        Some(expr) => match value(values, expr, at) {
            Ok(MotionValue::Bool(b)) => Ok(*b),
            Ok(_) => Err(LayoutError::Eval(EvalError::TypeMismatch { at, op: "visibility" })),
            Err(e) => Err(e),
        },
    }
}

/// Declarations followed by another one.
pub open spec fn followed(declarations: Seq<char>, more: Seq<char>) -> Seq<char> {
    if declarations.len() == 0 { more } else { declarations + "; "@ + more }
}

fn follow(declarations: String, more: &str) -> (r: String)
    ensures
        r@ == followed(declarations@, more@),
{
    if same_text(declarations.as_str(), "") {
        proof {
            reveal_strlit("");
        }
        more.to_owned()
    } else {
        proof {
            reveal_strlit("");
            if declarations@.len() == 0 {
                assert(declarations@ =~= ""@);
            }
        }
        joined(joined(declarations, "; "), more)
    }
}

pub open spec fn has_property(styles: Seq<StyleBinding>, property: Seq<char>) -> bool {
    exists|i: int| 0 <= i < styles.len() && (#[trigger] styles[i]).property@ == property
}

fn names_property(styles: &Vec<StyleBinding>, property: &str) -> (r: bool)
    ensures
        r == has_property(styles@, property@),
{
    let mut i: usize = 0;
    while i < styles.len()
        invariant
            i <= styles@.len(),
            forall|k: int| 0 <= k < i ==> (#[trigger] styles@[k]).property@ != property@,
        decreases styles@.len() - i,
    {
        if same_text(styles[i].property.as_str(), property) {
            assert(styles@[i as int].property@ == property@);
            return true;
        }
        i = i + 1;
    }
    false
}

/// A signed number in decimal digits.
pub open spec fn signed(n: i32) -> Seq<char> {
    if n < 0 { "-"@ + numeral((-n) as nat) } else { numeral(n as nat) }
}

fn signed_text(n: i32) -> (r: String)
    ensures
        r@ == signed(n),
{
    if n < 0 {
        let m: i64 = -(n as i64);
        joined("-".to_owned(), decimal(m as u64).as_str())
    } else {
        decimal(n as u64)
    }
}

/// Declarations with what a plane adds: its painting order where the author gives none, and its
/// visibility.
pub open spec fn plane_added(
    node: SceneNode,
    declarations: Seq<char>,
    plane: Option<PlanePlacement>,
) -> Seq<char> {
    match plane {
        None => declarations,
        Some(p) => {
            let ordered = if has_property(node.styles@, "z-index"@) {
                declarations
            } else {
                followed(declarations, "z-index: "@ + signed(p.z_index))
            };
            if p.hidden { followed(ordered, "visibility: hidden"@) } else { ordered }
        },
    }
}

/// Declarations with the size of a formula.
pub open spec fn formula_added(
    kind: NodeKind,
    declarations: Seq<char>,
    formula: Option<FormulaBox>,
) -> Seq<char> {
    match (kind, formula) {
        (NodeKind::MathFormula { .. }, Some(f)) => followed(declarations, formula_size(f)),
        _ => declarations,
    }
}

fn add_plane(node: &SceneNode, declarations: String, plane: Option<PlanePlacement>) -> (r: String)
    ensures
        r@ == plane_added(*node, declarations@, plane),
{
    match plane {
        None => declarations,
        Some(p) => {
            let ordered = if names_property(&node.styles, "z-index") {
                declarations
            } else {
                let order = joined("z-index: ".to_owned(), signed_text(p.z_index).as_str());
                follow(declarations, order.as_str())
            };
            if p.hidden {
                follow(ordered, "visibility: hidden")
            } else {
                ordered
            }
        },
    }
}

/// The facts that apply to one node.
pub open spec fn formula_for(formulas: Seq<Entry<FormulaBox>>, node: SceneNode) -> Option<
    FormulaBox,
> {
    find(formulas, node.key@)
}

pub open spec fn plane_for(planes: Option<Seq<Entry<PlanePlacement>>>, node: SceneNode) -> Option<
    PlanePlacement,
> {
    match planes {
        Some(p) => find(p, node.key@),
        None => None,
    }
}

/// Whether `r` is what a node hands to the layout engine.
pub open spec fn plans<T: Fn(&MotionValue) -> String>(
    tokens: T,
    a: SceneArtifact,
    at: int,
    values: Seq<Value>,
    formulas: Seq<Entry<FormulaBox>>,
    planes: Option<Seq<Entry<PlanePlacement>>>,
    r: Result<NodePlan, LayoutFault>,
) -> bool {
    if !(0 <= at < a.nodes@.len()) {
        r == Err::<NodePlan, LayoutFault>(LayoutFault::BadNode(at))
    } else {
        let node = a.nodes@[at];
        let formula = formula_for(formulas, node);
        match shape_of(node, values, at, formula) {
            Err(f) => r == Err::<NodePlan, LayoutFault>(f),
            Ok(shape) => match visible_of(node, values, at) {
                Err(f) => r == Err::<NodePlan, LayoutFault>(f),
                Ok(visible) => exists|lowered: Result<Seq<char>, LayoutFault>| #[trigger]
                    lowers(tokens, node, values, at, visible, lowered) && assembled(
                        a,
                        node,
                        shape,
                        formula,
                        plane_for(planes, node),
                        lowered,
                        r,
                    ),
            },
        }
    }
}

/// Whether a plan is put together from the parts of a node.
pub open spec fn assembled(
    a: SceneArtifact,
    node: SceneNode,
    shape: Shape,
    formula: Option<FormulaBox>,
    plane: Option<PlanePlacement>,
    lowered: Result<Seq<char>, LayoutFault>,
    r: Result<NodePlan, LayoutFault>,
) -> bool {
    match lowered {
        Err(f) => r == Err::<NodePlan, LayoutFault>(f),
        Ok(d) => r matches Ok(plan) && plan_is(
            plan,
            a,
            node,
            shape,
            formula,
            formula_added(node.kind, plane_added(node, d, plane), formula),
        ),
    }
}

/// Whether a plan consists of given parts.
pub open spec fn plan_is(
    plan: NodePlan,
    a: SceneArtifact,
    node: SceneNode,
    shape: Shape,
    formula: Option<FormulaBox>,
    declarations: Seq<char>,
) -> bool {
    &&& plan.shape@ == shape
    &&& texts(plan.presets@) == presets_of(a, node, formula)
    &&& match plan.class_name {
        Some(s) => node.class_names@.len() > 0 && s@ == spaced(
            node.class_names@,
            node.class_names@.len(),
        ),
        None => node.class_names@.len() == 0,
    }
    &&& plan.declarations@ == declarations
}

pub open spec fn planes_given(planes: Option<&Vec<Entry<PlanePlacement>>>) -> Option<
    Seq<Entry<PlanePlacement>>,
> {
    match planes {
        Some(p) => Some(p@),
        None => None,
    }
}

/// What a node hands to the layout engine this frame.
pub fn node_plan<T: Fn(&MotionValue) -> String>(
    tokens: &T,
    artifact: &SceneArtifact,
    at: usize,
    values: &Vec<MotionValue>,
    formulas: &Vec<Entry<FormulaBox>>,
    planes: Option<&Vec<Entry<PlanePlacement>>>,
) -> (r: Result<NodePlan, LayoutError>)
    requires
        forall|v: MotionValue| call_requires(*tokens, (&v,)),
    ensures
        plans(
            *tokens,
            *artifact,
            at as int,
            values_of(values@),
            formulas@,
            planes_given(planes),
            plain(r),
        ),
{
    if at >= artifact.nodes.len() {
        return Err(LayoutError::BadNode { at });
    }
    let node = &artifact.nodes[at];
    let formula = lookup(formulas, node.key.as_str());
    let shape = match box_shape(node, values, at, formula) {
        Ok(s) => s,
        Err(e) => {
            return Err(e);
        },
    };
    let presets = node_presets(artifact, node, formula);
    let class_name = join_classes(&node.class_names);
    let visible: bool = match is_visible(node, values, at) {
        Ok(b) => b,
        Err(e) => {
            return Err(e);
        },
    };
    let lowered = declarations(tokens, node, values, visible, at);
    let ghost told = laid(lowered);
    let ghost seen = visible_of(*node, values_of(values@), at as int)->Ok_0;
    assert(lowers(*tokens, artifact.nodes@[at as int], values_of(values@), at as int, seen, told));
    let text = match lowered {
        Ok(s) => s,
        Err(e) => {
            return Err(e);
        },
    };
    let plane: Option<PlanePlacement> = match planes {
        Some(p) => match lookup(p, node.key.as_str()) {
            Some(p) => Some(*p),
            None => None,
        },
        None => None,
    };
    let placed = add_plane(node, text, plane);
    let done = match (&node.kind, formula) {
        (NodeKind::MathFormula { .. }, Some(f)) => follow(placed, size_text(f).as_str()),
        _ => placed,
    };
    Ok(NodePlan { shape, presets, class_name, declarations: done })
}

} // verus!
