//! What stands in front of a glass surface: which nodes paint there, where, and in which colors.

use vstd::prelude::*;

use crate::artifact::{NodeId, NodeKind, PaintValue, SceneArtifact, SceneNode, StyleBinding};
use crate::bindings::{paint_bound, paint_value, style_value, style_valued, Painted, ResolvedPaint};
use crate::eval::values_of;
use crate::layout_error::{LayoutError, LayoutFault};
use crate::planes::has_area;
use crate::recording::{Affine, Homography, Rect, Rgba};
use crate::scalar::{Scalar, ZERO};
use crate::table::{find, lookup, same_text, Entry};
use crate::text::{begins, begins_with, ends, ends_with};
use crate::value::{MotionValue, Value};

verus! {

/// Whether a style property paints by itself.
pub open spec fn paints_property(p: Seq<char>) -> bool {
    p == "background"@ || p == "border"@ || p == "box-shadow"@ || p == "outline"@ || begins(
        p,
        "background-"@,
    ) || begins(p, "border-"@)
}

/// Whether a kind of node has content that paints.
pub open spec fn paints_kind(kind: NodeKind) -> bool {
    kind is Text || kind is Path || kind is GeometryBatch || kind is Image || kind is ShaderLayer
        || kind is Scene3D || kind is Video || kind is MathFormula || kind is Glass
}

/// Whether a node paints in front of a surface: by its content or by a style.
pub open spec fn node_paints(node: SceneNode) -> bool {
    paints_kind(node.kind) || exists|i: int|
        0 <= i < node.styles@.len() && paints_property(#[trigger] node.styles@[i].property@)
}

fn is_paint_property(p: &str) -> (r: bool)
    ensures
        r == paints_property(p@),
{
    same_text(p, "background") || same_text(p, "border") || same_text(p, "box-shadow")
        || same_text(p, "outline") || begins_with(p, "background-") || begins_with(p, "border-")
}

/// Whether a node paints in front of a surface.
pub fn foreground_node_paints(node: &SceneNode) -> (r: bool)
    ensures
        r == node_paints(*node),
{
    let mut i: usize = 0;
    while i < node.styles.len()
        invariant
            i <= node.styles@.len(),
            forall|k: int|
                0 <= k < i ==> !paints_property(#[trigger] node.styles@[k].property@),
        decreases node.styles@.len() - i,
    {
        if is_paint_property(node.styles[i].property.as_str()) {
            assert(paints_property(node.styles@[i as int].property@));
            return true;
        }
        i = i + 1;
    }
    match &node.kind {
        NodeKind::Text { .. }
        | NodeKind::Path { .. }
        | NodeKind::GeometryBatch { .. }
        | NodeKind::Image { .. }
        | NodeKind::ShaderLayer { .. }
        | NodeKind::Scene3D { .. }
        | NodeKind::Video { .. }
        | NodeKind::MathFormula { .. }
        | NodeKind::Glass(_) => true,
        _ => false,
    }
}

/// Whether a style property gives a color of a node.
pub open spec fn colors_property(p: Seq<char>) -> bool {
    p == "color"@ || p == "background-color"@ || p == "border-color"@ || (begins(p, "border-"@)
        && ends(p, "-color"@))
}

fn is_color_property(p: &str) -> (r: bool)
    ensures
        r == colors_property(p@),
{
    same_text(p, "color") || same_text(p, "background-color") || same_text(p, "border-color") || (
    begins_with(p, "border-") && ends_with(p, "-color"))
}

/// The colors of the first `n` styles.
pub open spec fn style_colors(
    styles: Seq<StyleBinding>,
    values: Seq<Value>,
    at: int,
    n: nat,
) -> Result<Seq<Rgba>, LayoutFault>
    decreases n,
{
    if n == 0 {
        Ok(Seq::empty())
    } else {
        match style_colors(styles, values, at, (n - 1) as nat) {
            Err(f) => Err(f),
            Ok(before) => if colors_property(styles[n - 1].property@) {
                match style_valued(styles[n - 1].value, values, at) {
                    Err(f) => Err(f),
                    Ok(Value::Color(c)) => Ok(before.push(c)),
                    Ok(_) => Ok(before),
                }
            } else {
                Ok(before)
            },
        }
    }
}

proof fn style_colors_stuck(
    styles: Seq<StyleBinding>,
    values: Seq<Value>,
    at: int,
    n: nat,
    m: nat,
)
    requires
        n <= m,
        style_colors(styles, values, at, n) is Err,
    ensures
        style_colors(styles, values, at, m) == style_colors(styles, values, at, n),
    decreases m,
{
    if n < m {
        style_colors_stuck(styles, values, at, n, (m - 1) as nat);
    }
}

/// The colors of a paint: one, or those of the stops.
pub open spec fn painted_colors(p: Painted) -> Seq<Rgba> {
    match p {
        Painted::Solid(c) => seq![c],
        Painted::Linear(_, _, stops, _) => stops.map_values(|s: (Scalar, Rgba)| s.1),
        Painted::Radial(_, _, stops, _) => stops.map_values(|s: (Scalar, Rgba)| s.1),
        Painted::Conic(_, _, stops, _) => stops.map_values(|s: (Scalar, Rgba)| s.1),
    }
}

pub open spec fn paint_colors(paint: PaintValue, values: Seq<Value>, at: int, node: Seq<char>) -> Result<
    Seq<Rgba>,
    LayoutFault,
> {
    match paint_bound(paint, values, at, node) {
        Err(f) => Err(f),
        Ok(p) => Ok(painted_colors(p)),
    }
}

pub open spec fn colors_seen(r: Result<Vec<Rgba>, LayoutError>) -> Result<Seq<Rgba>, LayoutFault> {
    match r {
        Ok(v) => Ok(v@),
        Err(e) => Err(e@),
    }
}

fn stop_colors(stops: &Vec<(Scalar, Rgba)>) -> (r: Vec<Rgba>)
    ensures
        r@ == stops@.map_values(|s: (Scalar, Rgba)| s.1),
{
    let mut out: Vec<Rgba> = Vec::new();
    let mut i: usize = 0;
    while i < stops.len()
        invariant
            i <= stops@.len(),
            out@ == stops@.take(i as int).map_values(|s: (Scalar, Rgba)| s.1),
        decreases stops@.len() - i,
    {
        out.push(stops[i].1);
        i = i + 1;
        assert(out@ =~= stops@.take(i as int).map_values(|s: (Scalar, Rgba)| s.1));
    }
    assert(stops@.take(i as int) =~= stops@);
    out
}

/// The colors of a paint: one, or those of the stops.
pub fn foreground_paint_colors(
    paint: &PaintValue,
    values: &Vec<MotionValue>,
    at: usize,
    node: &str,
) -> (r: Result<Vec<Rgba>, LayoutError>)
    ensures
        colors_seen(r) == paint_colors(*paint, values_of(values@), at as int, node@),
{
    match paint_value(paint, values, at, node) {
        Err(e) => Err(e),
        Ok(p) => match &p {
            ResolvedPaint::Solid(color) => {
                let mut out: Vec<Rgba> = Vec::new();
                out.push(*color);
                assert(out@ =~= seq![*color]);
                Ok(out)
            },
            ResolvedPaint::Linear { stops, .. } => Ok(stop_colors(stops)),
            ResolvedPaint::Radial { stops, .. } => Ok(stop_colors(stops)),
            ResolvedPaint::Conic { stops, .. } => Ok(stop_colors(stops)),
        },
    }
}

pub open spec fn black() -> Rgba {
    Rgba { r: 0, g: 0, b: 0, a: 255 }
}

/// Colors with those of a paint behind them, where there is one.
pub open spec fn with_paint(
    before: Result<Seq<Rgba>, LayoutFault>,
    paint: Option<PaintValue>,
    values: Seq<Value>,
    at: int,
    node: Seq<char>,
) -> Result<Seq<Rgba>, LayoutFault> {
    match before {
        Err(f) => Err(f),
        Ok(colors) => match paint {
            None => Ok(colors),
            Some(p) => match paint_colors(p, values, at, node) {
                Err(f) => Err(f),
                Ok(more) => Ok(colors + more),
            },
        },
    }
}

/// The colors that a node paints in front of a surface: those of its styles, then those of its
/// content. Text without a color is black.
pub open spec fn node_colors(node: SceneNode, values: Seq<Value>, at: int) -> Result<
    Seq<Rgba>,
    LayoutFault,
> {
    match style_colors(node.styles@, values, at, node.styles@.len()) {
        Err(f) => Err(f),
        Ok(colors) => match node.kind {
            NodeKind::Text { .. } | NodeKind::MathFormula { .. } => if colors.len() == 0 {
                Ok(seq![black()])
            } else {
                Ok(colors)
            },
            NodeKind::Path { fill, stroke, .. } => with_paint(
                with_paint(Ok(colors), fill, values, at, node.key@),
                match stroke {
                    Some(s) => Some(s.paint),
                    None => None,
                },
                values,
                at,
                node.key@,
            ),
            NodeKind::GeometryBatch { batch } => Ok(
                colors + batch.fills@ + if batch.fill_field is Some {
                    batch.fill_targets@
                } else {
                    Seq::empty()
                },
            ),
            _ => Ok(colors),
        },
    }
}

fn append_colors(out: &mut Vec<Rgba>, more: &Vec<Rgba>)
    ensures
        final(out)@ == old(out)@ + more@,
{
    let ghost start = out@;
    let mut i: usize = 0;
    while i < more.len()
        invariant
            i <= more@.len(),
            out@ == start + more@.take(i as int),
        decreases more@.len() - i,
    {
        out.push(more[i]);
        i = i + 1;
        assert(out@ =~= start + more@.take(i as int));
    }
    assert(more@.take(i as int) =~= more@);
}

fn styled_colors(node: &SceneNode, values: &Vec<MotionValue>, at: usize) -> (r: Result<
    Vec<Rgba>,
    LayoutError,
>)
    ensures
        colors_seen(r) == style_colors(
            node.styles@,
            values_of(values@),
            at as int,
            node.styles@.len(),
        ),
{
    let mut colors: Vec<Rgba> = Vec::new();
    let mut i: usize = 0;
    assert(colors@ =~= Seq::empty());
    while i < node.styles.len()
        invariant
            i <= node.styles@.len(),
            style_colors(node.styles@, values_of(values@), at as int, i as nat) == Ok::<
                Seq<Rgba>,
                LayoutFault,
            >(colors@),
        decreases node.styles@.len() - i,
    {
        if is_color_property(node.styles[i].property.as_str()) {
            match style_value(&node.styles[i].value, values, at) {
                Err(e) => {
                    proof {
                        style_colors_stuck(
                            node.styles@,
                            values_of(values@),
                            at as int,
                            (i + 1) as nat,
                            node.styles@.len(),
                        );
                    }
                    return Err(e);
                },
                Ok(MotionValue::Color(c)) => {
                    colors.push(*c);
                },
                Ok(_) => {},
            }
        }
        i = i + 1;
    }
    Ok(colors)
}

/// The colors that a node paints in front of a surface.
pub fn foreground_node_colors(node: &SceneNode, values: &Vec<MotionValue>, at: usize) -> (r: Result<
    Vec<Rgba>,
    LayoutError,
>)
    ensures
        colors_seen(r) == node_colors(*node, values_of(values@), at as int),
{
    let mut colors = match styled_colors(node, values, at) {
        Ok(c) => c,
        Err(e) => {
            return Err(e);
        },
    };
    match &node.kind {
        NodeKind::Text { .. } | NodeKind::MathFormula { .. } => {
            if colors.len() == 0 {
                colors.push(Rgba { r: 0, g: 0, b: 0, a: 255 });
                assert(colors@ =~= seq![black()]);
            }
        },
        NodeKind::Path { fill, stroke, .. } => {
            if let Some(fill) = fill {
                match foreground_paint_colors(fill, values, at, node.key.as_str()) {
                    Ok(more) => append_colors(&mut colors, &more),
                    Err(e) => {
                        return Err(e);
                    },
                }
            }
            if let Some(stroke) = stroke {
                match foreground_paint_colors(&stroke.paint, values, at, node.key.as_str()) {
                    Ok(more) => append_colors(&mut colors, &more),
                    Err(e) => {
                        return Err(e);
                    },
                }
            }
        },
        NodeKind::GeometryBatch { batch } => {
            let ghost start = colors@;
            append_colors(&mut colors, &batch.fills);
            if batch.fill_field.is_some() {
                append_colors(&mut colors, &batch.fill_targets);
            } else {
                assert(start + batch.fills@ + Seq::<Rgba>::empty() =~= start + batch.fills@);
            }
        },
        _ => {},
    }
    Ok(colors)
}

/// Node positions of ids.
pub open spec fn positions(ids: Seq<NodeId>) -> Seq<usize> {
    ids.map_values(|id: NodeId| id.0 as usize)
}

/// The children of a node as positions; none where the range does not exist.
pub open spec fn children_at(a: SceneArtifact, at: int) -> Seq<usize> {
    match a.children_of(at) {
        Some(ids) => positions(ids),
        None => Seq::empty(),
    }
}

/// What a visit of a node adds to the pending nodes: its children, unless it is a surface itself.
pub open spec fn opened(a: SceneArtifact, at: int) -> Seq<usize> {
    if 0 <= at < a.nodes@.len() && !(a.nodes@[at].kind is Glass) {
        children_at(a, at)
    } else {
        Seq::empty()
    }
}

/// The nodes that are visited from a stack of pending ones, the last pending first: at most `fuel`
/// of them.
pub open spec fn visited(a: SceneArtifact, stack: Seq<usize>, fuel: nat) -> Seq<usize>
    decreases fuel,
{
    if fuel == 0 || stack.len() == 0 {
        Seq::empty()
    } else {
        let at = stack.last();
        seq![at] + visited(a, stack.drop_last() + opened(a, at as int), (fuel - 1) as nat)
    }
}

/// The nodes below a surface in the order of the visit, nested surfaces without what stands in them.
/// No more are visited than there are nodes: in a tree none is left out.
pub open spec fn foreground_of(a: SceneArtifact, glass: int) -> Seq<usize> {
    visited(a, children_at(a, glass), a.nodes@.len())
}

fn push_children(artifact: &SceneArtifact, at: usize, stack: &mut Vec<usize>)
    ensures
        final(stack)@ == old(stack)@ + children_at(*artifact, at as int),
{
    let ghost start = stack@;
    match artifact.child_ids(at) {
        None => {
            assert(start + Seq::<usize>::empty() =~= start);
        },
        Some(ids) => {
            let mut i: usize = 0;
            while i < ids.len()
                invariant
                    i <= ids@.len(),
                    stack@ == start + positions(ids@.take(i as int)),
                decreases ids@.len() - i,
            {
                stack.push(ids[i].0 as usize);
                i = i + 1;
                assert(stack@ =~= start + positions(ids@.take(i as int)));
            }
            assert(ids@.take(i as int) =~= ids@);
        },
    }
}

/// The nodes below a surface in the order of the visit.
pub fn foreground_order(artifact: &SceneArtifact, glass_at: usize) -> (r: Vec<usize>)
    ensures
        r@ == foreground_of(*artifact, glass_at as int),
{
    let mut stack: Vec<usize> = Vec::new();
    push_children(artifact, glass_at, &mut stack);
    let mut out: Vec<usize> = Vec::new();
    let mut fuel: usize = artifact.nodes.len();
    assert(stack@ =~= children_at(*artifact, glass_at as int));
    assert(out@ + visited(*artifact, stack@, fuel as nat) =~= visited(
        *artifact,
        stack@,
        fuel as nat,
    ));
    while fuel > 0
        invariant
            out@ + visited(*artifact, stack@, fuel as nat) == foreground_of(
                *artifact,
                glass_at as int,
            ),
        decreases fuel,
    {
        let ghost before = out@;
        match stack.pop() {
            None => {
                assert(before + Seq::<usize>::empty() =~= before);
                return out;
            },
            Some(at) => {
                let ghost rest = stack@;
                out.push(at);
                if at < artifact.nodes.len() {
                    match &artifact.nodes[at].kind {
                        NodeKind::Glass(_) => {},
                        _ => push_children(artifact, at, &mut stack),
                    }
                }
                assert(stack@ =~= rest + opened(*artifact, at as int));
                let ghost tail = visited(*artifact, stack@, (fuel - 1) as nat);
                assert(before.push(at) + tail =~= before + (seq![at] + tail));
            },
        }
        fuel = fuel - 1;
    }
    assert(out@ + Seq::<usize>::empty() =~= out@);
    out
}

/// A rectangle that the host computes.
pub enum RectTask {
    /// The bounds of a node in the space of an owner: its layout box under its own transform, where it
    /// has one, and the inverse of the owner's. Absent where a corner cannot be projected.
    Placed { layout: Rect, transform: Option<Affine>, owner: Homography },
    /// The smallest rectangle around two.
    Joined { first: Rect, second: Rect },
}

/// The box to place for a node, where it paints.
pub open spec fn to_place(
    a: SceneArtifact,
    boxes: Seq<Entry<Rect>>,
    transforms: Seq<Entry<Affine>>,
    owner: Homography,
    at: int,
) -> Option<RectTask> {
    let node = a.nodes@[at];
    if node_paints(node) {
        match find(boxes, node.key@) {
            Some(layout) => Some(
                RectTask::Placed { layout, transform: find(transforms, node.key@), owner },
            ),
            None => None,
        }
    } else {
        None
    }
}

/// Whether bounds grow to `after` by a placed box.
pub open spec fn grows<R: Fn(&RectTask) -> Option<Rect>>(
    rects: R,
    placed: Option<Rect>,
    before: Option<Rect>,
    after: Option<Option<Rect>>,
) -> bool {
    match placed {
        None => after is None,
        Some(b) => if !has_area(b) {
            after == Some(before)
        } else {
            match before {
                None => after == Some(Some(b)),
                Some(c) => match after {
                    None => call_ensures(rects, (&RectTask::Joined { first: c, second: b },), None),
                    Some(j) => j is Some && call_ensures(
                        rects,
                        (&RectTask::Joined { first: c, second: b },),
                        j,
                    ),
                },
            }
        },
    }
}

/// Whether a visit of a node turns bounds into `after`; nothing where a box cannot be placed.
pub open spec fn bounds_step<R: Fn(&RectTask) -> Option<Rect>>(
    rects: R,
    a: SceneArtifact,
    boxes: Seq<Entry<Rect>>,
    transforms: Seq<Entry<Affine>>,
    owner: Homography,
    at: usize,
    before: Option<Rect>,
    after: Option<Option<Rect>>,
) -> bool {
    if at >= a.nodes@.len() {
        after is None
    } else {
        match to_place(a, boxes, transforms, owner, at as int) {
            None => after == Some(before),
            Some(task) => exists|placed: Option<Rect>| #[trigger]
                call_ensures(rects, (&task,), placed) && grows(rects, placed, before, after),
        }
    }
}

/// Whether bounds grow in these steps over the first visited nodes.
pub open spec fn bounds_run<R: Fn(&RectTask) -> Option<Rect>>(
    rects: R,
    a: SceneArtifact,
    boxes: Seq<Entry<Rect>>,
    transforms: Seq<Entry<Affine>>,
    owner: Homography,
    order: Seq<usize>,
    steps: Seq<Option<Rect>>,
) -> bool {
    &&& 1 <= steps.len() <= order.len() + 1
    &&& steps[0] is None
    &&& forall|i: int|
        1 <= i < steps.len() ==> bounds_step(
            rects,
            a,
            boxes,
            transforms,
            owner,
            order[i - 1],
            steps[i - 1],
            Some(#[trigger] steps[i]),
        )
}

/// Whether `r` is the bounds of what paints in front of a surface; nothing where nothing does, or
/// where a box cannot be placed.
pub open spec fn bounds_given<R: Fn(&RectTask) -> Option<Rect>>(
    rects: R,
    a: SceneArtifact,
    boxes: Seq<Entry<Rect>>,
    transforms: Seq<Entry<Affine>>,
    owner: Homography,
    glass: int,
    r: Option<Rect>,
) -> bool {
    let order = foreground_of(a, glass);
    exists|steps: Seq<Option<Rect>>| #[trigger]
        bounds_run(rects, a, boxes, transforms, owner, order, steps) && if steps.len()
            == order.len() + 1 {
            r == steps.last()
        } else {
            r is None && bounds_step(
                rects,
                a,
                boxes,
                transforms,
                owner,
                order[steps.len() - 1],
                steps.last(),
                None,
            )
        }
}

fn grow<R: Fn(&RectTask) -> Option<Rect>>(
    rects: &R,
    placed: Option<Rect>,
    before: Option<Rect>,
) -> (r: Option<Option<Rect>>)
    requires
        forall|t: RectTask| call_requires(*rects, (&t,)),
    ensures
        grows(*rects, placed, before, r),
{
    match placed {
        None => None,
        Some(b) => if Scalar::from_bits(ZERO).lt(b.width) && Scalar::from_bits(ZERO).lt(b.height) {
            match before {
                None => Some(Some(b)),
                Some(c) => {
                    let task = RectTask::Joined { first: c, second: b };
                    match rects(&task) {
                        None => None,
                        Some(j) => Some(Some(j)),
                    }
                },
            }
        } else {
            Some(before)
        },
    }
}

fn place_node<R: Fn(&RectTask) -> Option<Rect>>(
    rects: &R,
    artifact: &SceneArtifact,
    boxes: &Vec<Entry<Rect>>,
    transforms: &Vec<Entry<Affine>>,
    owner: Homography,
    at: usize,
    before: Option<Rect>,
) -> (r: Option<Option<Rect>>)
    requires
        forall|t: RectTask| call_requires(*rects, (&t,)),
    ensures
        bounds_step(*rects, *artifact, boxes@, transforms@, owner, at, before, r),
{
    if at >= artifact.nodes.len() {
        return None;
    }
    let node = &artifact.nodes[at];
    if !foreground_node_paints(node) {
        return Some(before);
    }
    match lookup(boxes, node.key.as_str()) {
        None => Some(before),
        Some(layout) => {
            let transform = match lookup(transforms, node.key.as_str()) {
                Some(t) => Some(*t),
                None => None,
            };
            let task = RectTask::Placed { layout: *layout, transform, owner };
            let placed = rects(&task);
            let r = grow(rects, placed, before);
            assert(call_ensures(*rects, (&task,), placed) && grows(*rects, placed, before, r));
            r
        },
    }
}

/// The bounds of what paints in front of a surface, in the space of its owner.
pub fn foreground_protection_bounds<R: Fn(&RectTask) -> Option<Rect>>(
    rects: &R,
    artifact: &SceneArtifact,
    glass_at: usize,
    boxes: &Vec<Entry<Rect>>,
    transforms: &Vec<Entry<Affine>>,
    owner: Homography,
) -> (r: Option<Rect>)
    requires
        forall|t: RectTask| call_requires(*rects, (&t,)),
    ensures
        bounds_given(
            *rects,
            *artifact,
            boxes@,
            transforms@,
            owner,
            glass_at as int,
            r,
        ),
{
    let order = foreground_order(artifact, glass_at);
    let mut bounds: Option<Rect> = None;
    let ghost mut steps: Seq<Option<Rect>> = seq![None];
    let mut i: usize = 0;
    while i < order.len()
        invariant
            forall|t: RectTask| call_requires(*rects, (&t,)),
            i <= order@.len(),
            order@ == foreground_of(*artifact, glass_at as int),
            steps.len() == i + 1,
            steps.last() == bounds,
            bounds_run(*rects, *artifact, boxes@, transforms@, owner, order@, steps),
        decreases order@.len() - i,
    {
        match place_node(rects, artifact, boxes, transforms, owner, order[i], bounds) {
            None => {
                assert(bounds_run(
                    *rects,
                    *artifact,
                    boxes@,
                    transforms@,
                    owner,
                    order@,
                    steps,
                ));
                return None;
            },
            Some(next) => {
                proof {
                    let now = steps.push(next);
                    assert forall|k: int| 1 <= k < now.len() implies bounds_step(
                        *rects,
                        *artifact,
                        boxes@,
                        transforms@,
                        owner,
                        order@[k - 1],
                        now[k - 1],
                        Some(#[trigger] now[k]),
                    ) by {
                        if k < steps.len() {
                            assert(now[k] == steps[k]);
                            assert(now[k - 1] == steps[k - 1]);
                        }
                    }
                    steps = now;
                }
                bounds = next;
            },
        }
        i = i + 1;
    }
    assert(bounds_run(*rects, *artifact, boxes@, transforms@, owner, order@, steps));
    bounds
}

/// The colors of one node in front of a surface, with its layout box.
#[derive(Debug)]
pub struct ForegroundColors {
    pub bounds: Option<Rect>,
    pub colors: Vec<Rgba>,
}

pub open spec fn gathered_seen(v: Seq<ForegroundColors>) -> Seq<(Option<Rect>, Seq<Rgba>)> {
    v.map_values(|c: ForegroundColors| (c.bounds, c.colors@))
}

/// The colors of the first `n` visited nodes, those without any left out.
pub open spec fn gathered(
    a: SceneArtifact,
    values: Seq<Value>,
    boxes: Seq<Entry<Rect>>,
    order: Seq<usize>,
    n: nat,
) -> Result<Seq<(Option<Rect>, Seq<Rgba>)>, LayoutFault>
    decreases n,
{
    if n == 0 {
        Ok(Seq::empty())
    } else {
        match gathered(a, values, boxes, order, (n - 1) as nat) {
            Err(f) => Err(f),
            Ok(before) => {
                let at = order[n - 1] as int;
                if at >= a.nodes@.len() {
                    Err(LayoutFault::BadNode(at))
                } else {
                    match node_colors(a.nodes@[at], values, at) {
                        Err(f) => Err(f),
                        Ok(colors) => if colors.len() == 0 {
                            Ok(before)
                        } else {
                            Ok(before.push((find(boxes, a.nodes@[at].key@), colors)))
                        },
                    }
                }
            },
        }
    }
}

proof fn gathered_stuck(
    a: SceneArtifact,
    values: Seq<Value>,
    boxes: Seq<Entry<Rect>>,
    order: Seq<usize>,
    n: nat,
    m: nat,
)
    requires
        n <= m,
        gathered(a, values, boxes, order, n) is Err,
    ensures
        gathered(a, values, boxes, order, m) == gathered(a, values, boxes, order, n),
    decreases m,
{
    if n < m {
        gathered_stuck(a, values, boxes, order, n, (m - 1) as nat);
    }
}

/// The colors of everything in front of a surface.
pub open spec fn foreground_colors_of(
    a: SceneArtifact,
    values: Seq<Value>,
    boxes: Seq<Entry<Rect>>,
    glass: int,
) -> Result<Seq<(Option<Rect>, Seq<Rgba>)>, LayoutFault> {
    let order = foreground_of(a, glass);
    gathered(a, values, boxes, order, order.len())
}

/// The colors of everything in front of a surface, in the order of the visit.
pub fn foreground_colors(
    artifact: &SceneArtifact,
    glass_at: usize,
    values: &Vec<MotionValue>,
    boxes: &Vec<Entry<Rect>>,
) -> (r: Result<Vec<ForegroundColors>, LayoutError>)
    ensures
        foreground_colors_of(*artifact, values_of(values@), boxes@, glass_at as int) == match r {
            Ok(v) => Ok(gathered_seen(v@)),
            Err(e) => Err(e@),
        },
{
    let order = foreground_order(artifact, glass_at);
    let mut out: Vec<ForegroundColors> = Vec::new();
    let mut i: usize = 0;
    assert(gathered_seen(out@) =~= Seq::empty());
    while i < order.len()
        invariant
            i <= order@.len(),
            gathered(*artifact, values_of(values@), boxes@, order@, i as nat) == Ok::<
                Seq<(Option<Rect>, Seq<Rgba>)>,
                LayoutFault,
            >(gathered_seen(out@)),
            order@ == foreground_of(*artifact, glass_at as int),
        decreases order@.len() - i,
    {
        let at: usize = order[i];
        let ghost before = out@;
        if at >= artifact.nodes.len() {
            proof {
                gathered_stuck(
                    *artifact,
                    values_of(values@),
                    boxes@,
                    order@,
                    (i + 1) as nat,
                    order@.len(),
                );
            }
            return Err(LayoutError::BadNode { at });
        }
        match foreground_node_colors(&artifact.nodes[at], values, at) {
            Err(e) => {
                proof {
                    gathered_stuck(
                        *artifact,
                        values_of(values@),
                        boxes@,
                        order@,
                        (i + 1) as nat,
                        order@.len(),
                    );
                }
                return Err(e);
            },
            Ok(colors) => {
                if colors.len() > 0 {
                    let bounds = match lookup(boxes, artifact.nodes[at].key.as_str()) {
                        Some(b) => Some(*b),
                        None => None,
                    };
                    out.push(ForegroundColors { bounds, colors });
                    assert(gathered_seen(out@) =~= gathered_seen(before).push((bounds, colors@)));
                }
            },
        }
        i = i + 1;
    }
    Ok(out)
}

/// Whether `r` is the luminance of what stands in front of a surface: what the host makes of its
/// colors.
pub open spec fn luma_given<L: Fn(&Vec<ForegroundColors>) -> Option<Scalar>>(
    luma: L,
    a: SceneArtifact,
    values: Seq<Value>,
    boxes: Seq<Entry<Rect>>,
    glass: int,
    r: Result<Option<Scalar>, LayoutFault>,
) -> bool {
    match foreground_colors_of(a, values, boxes, glass) {
        Err(f) => r == Err::<Option<Scalar>, LayoutFault>(f),
        Ok(list) => r matches Ok(x) && exists|v: Vec<ForegroundColors>|
            gathered_seen(v@) == list && #[trigger] call_ensures(luma, (&v,), x),
    }
}

/// The luminance of what stands in front of a surface; nothing where nothing of it is opaque.
pub fn foreground_auto_luma<L: Fn(&Vec<ForegroundColors>) -> Option<Scalar>>(
    luma: &L,
    artifact: &SceneArtifact,
    glass_at: usize,
    values: &Vec<MotionValue>,
    boxes: &Vec<Entry<Rect>>,
) -> (r: Result<Option<Scalar>, LayoutError>)
    requires
        forall|v: Vec<ForegroundColors>| call_requires(*luma, (&v,)),
    ensures
        luma_given(
            *luma,
            *artifact,
            values_of(values@),
            boxes@,
            glass_at as int,
            crate::layout_error::plain(r),
        ),
{
    match foreground_colors(artifact, glass_at, values, boxes) {
        Err(e) => Err(e),
        Ok(list) => Ok(luma(&list)),
    }
}

} // verus!
