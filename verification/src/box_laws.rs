//! Boxes of the layout and what carries over between frames: how nodes become boxes, which side of the camera
//! they stand on, where they lie, and what an expression refers to.

use vstd::prelude::*;

use crate::artifact::{CoordinateSpace, NodeId, SceneArtifact};
use crate::boxes::{
    all_grown, finished, gathered, grown, last_preset, plan_style, Boxed, Grown, Layout,
};
use crate::expr::{ContextInput, Expr, TemplatePart};
use crate::layout_error::LayoutFault;
use crate::nodes::Shape;
use crate::recording::Rect;
use crate::reuse::{lasting_flags, own_lasting};
use crate::stylesheet::parsed_style;
use crate::trees::{node_boxes, on_screen, page_rect, side, PageBox, Pair};

verus! {

/// What an expression refers to is what it is made of, in the order in which it is written.
pub proof fn expressions_refer_to_their_parts(e: Expr)
    ensures
        match e {
            Expr::MakePoint { x, y } => e.refs() == seq![x, y],
            Expr::MakeRect { x, y, width, height } => e.refs() == seq![x, y, width, height],
            Expr::PathCubic { from, control_1, control_2, to } => e.refs() == seq![from, control_1, control_2, to],
            Expr::PathArc { center, radius, start_angle, end_angle } => e.refs() == seq![center, radius, start_angle, end_angle],
            Expr::PathArea { path, baseline } => e.refs() == seq![path, baseline],
            Expr::PathOffset { path, distance } => e.refs() == seq![path, distance],
            Expr::PathMorph { from, to, progress } => e.refs() == seq![from, to, progress],
            Expr::PathPointAt { path, progress } => e.refs() == seq![path, progress],
            Expr::PathTangentAt { path, progress } => e.refs() == seq![path, progress],
            Expr::PathAngleAt { path, progress } => e.refs() == seq![path, progress],
            Expr::PathLength { path } => e.refs() == seq![path],
            Expr::PathTrajectory { frame, .. } => e.refs() == seq![frame],
            Expr::GeometryField { input, .. } => e.refs() == seq![input],
            Expr::ToLength2 { input } => e.refs() == seq![input],
            Expr::Add { lhs, rhs } => e.refs() == seq![lhs, rhs],
            Expr::Sub { lhs, rhs } => e.refs() == seq![lhs, rhs],
            Expr::Mul { lhs, rhs } => e.refs() == seq![lhs, rhs],
            Expr::Div { lhs, rhs } => e.refs() == seq![lhs, rhs],
            Expr::Neg { input } => e.refs() == seq![input],
            Expr::Compare { lhs, rhs, .. } => e.refs() == seq![lhs, rhs],
            Expr::Select { condition, when_true, when_false } => e.refs() == seq![condition, when_true, when_false],
            Expr::MathUnary { input, .. } => e.refs() == seq![input],
            Expr::MathBinary { lhs, rhs, .. } => e.refs() == seq![lhs, rhs],
            Expr::Noise1D { x, .. } => e.refs() == seq![x],
            Expr::Noise2D { x, y, .. } => e.refs() == seq![x, y],
            Expr::FormatNumber { input, .. } => e.refs() == seq![input],
            Expr::Interpolate { input, .. } => e.refs() == seq![input],
            Expr::Spring { elapsed_frames, .. } => e.refs() == seq![elapsed_frames],
            Expr::PathLine { points } => e.refs() == points@,
            Expr::PathTemplate { points, .. } => e.refs() == points@,
            Expr::Template { parts } => e.refs() == crate::expr::substitutions(parts@, parts@.len()),
            _ => e.refs().len() == 0,
        },
{
}

/// A template refers to its substitutions, in order, and to no text.
pub proof fn templates_refer_to_their_substitutions(parts: Seq<TemplatePart>, n: nat)
    requires
        n < parts.len(),
    ensures
        crate::expr::substitutions(parts, 0).len() == 0,
        match parts[n as int] {
            TemplatePart::Expr { expr } => crate::expr::substitutions(parts, n + 1)
                == crate::expr::substitutions(parts, n).push(expr),
            TemplatePart::Text { .. } => crate::expr::substitutions(parts, n + 1)
                == crate::expr::substitutions(parts, n),
        },
{
}

/// Time, cues, units and layout change between frames; the viewport, the frame rate, the duration and what
/// is neither do not.
pub proof fn only_fixed_inputs_last(e: Expr)
    ensures
        own_lasting(e) <==> match e {
            Expr::Context { input } => match input {
                ContextInput::ViewportWidth => true,
                ContextInput::ViewportHeight => true,
                ContextInput::FpsNum => true,
                ContextInput::FpsDen => true,
                ContextInput::DurationFrames => true,
                _ => false,
            },
            Expr::Cue { .. } => false,
            Expr::NodeBounds { .. } => false,
            Expr::Project3D { .. } => false,
            _ => true,
        },
{
}

/// An expression lasts where it does itself and everything lasts that it refers to.
pub proof fn expressions_last_with_their_parts(exprs: Seq<Expr>, n: nat)
    requires
        n < exprs.len(),
    ensures
        lasting_flags(exprs, 0).len() == 0,
        lasting_flags(exprs, n + 1).drop_last() == lasting_flags(exprs, n),
        lasting_flags(exprs, n + 1).last() <==> own_lasting(exprs[n as int]) && forall|k: int|
            0 <= k < exprs[n as int].refs().len() ==> (#[trigger] exprs[n as int].refs()[k]).0
                < lasting_flags(exprs, n).len() && lasting_flags(
                exprs,
                n,
            )[exprs[n as int].refs()[k].0 as int],
{
    assert(lasting_flags(exprs, n + 1).drop_last() =~= lasting_flags(exprs, n));
}

/// A node stays on the screen where it says so; every node stands on one side of the camera, in its order.
pub proof fn nodes_stand_on_one_side(a: SceneArtifact, ids: Seq<NodeId>, n: nat)
    requires
        n < ids.len(),
    ensures
        side(a, ids, true, 0).len() == 0 && side(a, ids, false, 0).len() == 0,
        ({
            let id = ids[n as int];
            let fixed = id.0 < a.nodes@.len() && a.nodes@[id.0 as int].space == Some(
                CoordinateSpace::Screen,
            );
            &&& fixed ==> side(a, ids, true, n + 1) == side(a, ids, true, n).push(id) && side(
                a,
                ids,
                false,
                n + 1,
            ) == side(a, ids, false, n)
            &&& !fixed ==> side(a, ids, false, n + 1) == side(a, ids, false, n).push(id) && side(
                a,
                ids,
                true,
                n + 1,
            ) == side(a, ids, true, n)
        }),
{
}

/// A node is a box behind those of its children, which only a container keeps; a field has no box.
pub proof fn boxes_stand_behind_their_children(w: Layout, at: int, children: Grown, r: Grown)
    requires
        0 <= at < w.artifact.nodes@.len(),
        finished(w, at, children) == Ok::<Grown, LayoutFault>(r),
    ensures
        w.artifact.nodes@[at].kind is GlassField ==> r == children,
        !(w.artifact.nodes@[at].kind is GlassField) ==> r.roots == 1 && match r.boxes.last() {
            Boxed::Box(node, kept, dress) => {
                &&& node == at
                &&& dress.shape == Shape::Container ==> kept == children.roots && r.boxes.drop_last()
                    == children.boxes
                &&& dress.shape != Shape::Container ==> kept == 0 && r.boxes.len() == 1
            },
            _ => false,
        },
{
    if !(w.artifact.nodes@[at].kind is GlassField) {
        let dress = crate::boxes::dressed(w, at)->Ok_0;
        let kept = if dress.shape == Shape::Container { children } else { crate::boxes::bare() };
        assert(r.boxes.drop_last() =~= kept.boxes);
    }
}

/// What a camera moves stands within one wrapper, in front of what stays on the screen.
pub proof fn cameras_wrap_the_world(world: Grown, screen: Grown)
    ensures
        gathered(false, world, screen) == world,
        gathered(true, world, screen).boxes == world.boxes + seq![Boxed::World(world.roots)]
            + screen.boxes,
        gathered(true, world, screen).roots == 1 + screen.roots,
{
    assert(world.boxes.push(Boxed::World(world.roots)) =~= world.boxes + seq![
        Boxed::World(world.roots),
    ]);
}

/// Children grow beside each other, each on its side.
pub proof fn children_grow_beside_each_other(
    w: Layout,
    ids: Seq<NodeId>,
    n: nat,
    split: bool,
    fuel: nat,
    world: Grown,
    screen: Grown,
    more: Grown,
)
    requires
        n < ids.len(),
        all_grown(w, ids, n, split, fuel) == Ok::<(Grown, Grown), LayoutFault>((world, screen)),
        grown(w, ids[n as int].0 as int, fuel) == Ok::<Grown, LayoutFault>(more),
    ensures
        ({
            let r = all_grown(w, ids, n + 1, split, fuel);
            let fixed = split && on_screen(w.artifact, ids[n as int]);
            &&& r is Ok
            &&& ({
                let (a, b) = r->Ok_0;
                if fixed {
                    a == world && b.boxes == screen.boxes + more.boxes && b.roots == screen.roots
                        + more.roots
                } else {
                    b == screen && a.boxes == world.boxes + more.boxes && a.roots == world.roots
                        + more.roots
                }
            })
        }),
{
}

/// The last preset counts, and all of them have to parse; a plan that declares nothing has no style.
pub proof fn last_presets_count(node: Seq<char>, presets: Seq<Seq<char>>, n: nat)
    requires
        n < presets.len(),
        last_preset(node, presets, n) is Ok,
    ensures
        last_preset(node, presets, 0) == Ok::<Option<takumi_core::style::Style>, LayoutFault>(None),
        parsed_style(presets[n as int]) is Ok ==> last_preset(node, presets, n + 1) == Ok::<
            Option<takumi_core::style::Style>,
            LayoutFault,
        >(Some(parsed_style(presets[n as int])->Ok_0)),
        parsed_style(presets[n as int]) is Err ==> last_preset(node, presets, n + 1) is Err,
        plan_style(node, seq![]) == Ok::<Option<takumi_core::style::Style>, LayoutFault>(None),
{
}

proof fn first_place(boxes: Seq<PageBox>, id: u64, k: int, n: nat)
    requires
        n <= boxes.len(),
        0 <= k < boxes.len(),
        boxes[k].id == id,
        forall|j: int| 0 <= j < k ==> (#[trigger] boxes[j]).id != id,
    ensures
        n <= k ==> page_rect(boxes, id, n) is None,
        n > k ==> page_rect(boxes, id, n) == Some(boxes[k].rect),
    decreases n,
{
    if n > 0 {
        first_place(boxes, id, k, (n - 1) as nat);
    }
}

/// A node lies where the first box of its pair lies, under its key; a later pair of the same key counts.
pub proof fn nodes_lie_where_their_box_lies(
    a: SceneArtifact,
    pairs: Seq<Pair>,
    boxes: Seq<PageBox>,
    n: nat,
    k: int,
)
    requires
        n < pairs.len(),
        pairs[n as int].node < a.nodes@.len(),
        0 <= k < boxes.len(),
        boxes[k].id == pairs[n as int].layout,
        forall|j: int| 0 <= j < k ==> (#[trigger] boxes[j]).id != pairs[n as int].layout,
    ensures
        node_boxes(a, pairs, boxes, 0) == Map::<Seq<char>, Rect>::empty(),
        node_boxes(a, pairs, boxes, n + 1) == node_boxes(a, pairs, boxes, n).insert(
            a.nodes@[pairs[n as int].node as int].key@,
            boxes[k].rect,
        ),
{
    first_place(boxes, pairs[n as int].layout, k, boxes.len());
}

} // verus!
