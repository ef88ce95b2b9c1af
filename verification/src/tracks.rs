//! Tracks of glass surfaces: what they depend on, and their samples.

use vstd::prelude::*;

use crate::artifact::{
    NodeKind, NumberValue, PointValue, SceneArtifact, SceneNode, StyleBinding, StyleValue,
};
use crate::determinism::{
    evaluation_reads_contents, single_answer, slice_cannot_fail, slice_prefix_agrees,
};
use crate::eval::{CueSignal, EvalInputs, Kernel, KernelError, MotionContext, ResolvedProps};
use crate::expr::{below, below_step, leads, mark_below, Expr, ExprId};
use crate::faults::{EvalError, Fault};
use crate::findings::findings;
use crate::glass::{GlassNode, GlassShapeBinding};
use crate::lineage::{ancestors, lineage};
use crate::passes::{
    base_active, before_layout, closed_lists_are_their_slice, closed_slice, eval_slice,
    listed_is_in_slice, live_at, pass_gives, positions, shows, slice_active,
};
use crate::recording::{Point, Rect};
use crate::scalar::{num, Scalar, ZERO};
use crate::schema::{
    is_place, light_roots, material_roots, number_root, places, push_light, push_material,
    push_number, push_some_number, push_some_point, some_number_root, some_point_root,
};
use crate::structure::{schema_found, validate_glass_schema};
use crate::table::{same_text, Entry};
use crate::text::{said3, said5};
use crate::value::{single_text, MotionValue, Value};

verus! {

/// Expressions among the first `n` styles that place a node or fade it.
pub open spec fn style_roots(styles: Seq<StyleBinding>, n: nat) -> Seq<ExprId>
    decreases n,
{
    if n == 0 {
        Seq::empty()
    } else {
        style_roots(styles, (n - 1) as nat) + (match styles[n - 1].value {
            StyleValue::Expr { expr } => if places(styles[n - 1].property@)
                || styles[n - 1].property@ == "opacity"@ {
                seq![expr]
            } else {
                Seq::empty()
            },
            _ => Seq::empty(),
        })
    }
}

/// Style expressions of the first `n` nodes of a lineage.
pub open spec fn line_roots(a: SceneArtifact, line: Seq<usize>, n: nat) -> Seq<ExprId>
    decreases n,
{
    if n == 0 {
        Seq::empty()
    } else {
        line_roots(a, line, (n - 1) as nat) + style_roots(
            a.nodes@[line[n - 1] as int].styles@,
            a.nodes@[line[n - 1] as int].styles@.len(),
        )
    }
}

pub open spec fn radius_roots(glass: GlassNode) -> Seq<ExprId> {
    match glass.shape {
        GlassShapeBinding::ContinuousRect { radius } => number_root(radius),
        _ => Seq::empty(),
    }
}

/// Expressions that the sample of a surface depends on directly: its own bindings, and the placing
/// styles of the node and its ancestors.
pub open spec fn sample_roots(a: SceneArtifact, at: int) -> Seq<ExprId> {
    if 0 <= at < a.nodes@.len() {
        match a.nodes@[at].kind {
            NodeKind::Glass(glass) => number_root(glass.presence) + number_root(
                glass.motion.intensity,
            ) + number_root(glass.foreground.protection) + material_roots(glass) + light_roots(glass)
                + some_number_root(glass.motion.drive.pressure) + some_number_root(
                glass.motion.drive.twist,
            ) + some_point_root(glass.motion.drive.translation) + radius_roots(glass) + line_roots(
                a,
                lineage(a, Some(at as usize)),
                lineage(a, Some(at as usize)).len(),
            ),
            _ => Seq::empty(),
        }
    } else {
        Seq::empty()
    }
}

fn push_styles(out: &mut Vec<ExprId>, styles: &Vec<StyleBinding>)
    ensures
        final(out)@ == old(out)@ + style_roots(styles@, styles@.len()),
{
    let mut i: usize = 0;
    assert(out@ =~= old(out)@ + style_roots(styles@, 0));
    while i < styles.len()
        invariant
            i <= styles@.len(),
            out@ == old(out)@ + style_roots(styles@, i as nat),
        decreases styles@.len() - i,
    {
        match &styles[i].value {
            StyleValue::Expr { expr } => {
                let property = styles[i].property.as_str();
                if is_place(property) || same_text(property, "opacity") {
                    out.push(*expr);
                }
            },
            _ => {},
        }
        i = i + 1;
        assert(out@ =~= old(out)@ + style_roots(styles@, i as nat));
    }
}

fn push_lineage(out: &mut Vec<ExprId>, artifact: &SceneArtifact, at: usize)
    ensures
        final(out)@ == old(out)@ + line_roots(
            *artifact,
            lineage(*artifact, Some(at)),
            lineage(*artifact, Some(at)).len(),
        ),
{
    let line = ancestors(artifact, Some(at));
    let mut i: usize = 0;
    assert(out@ =~= old(out)@ + line_roots(*artifact, line@, 0));
    while i < line.len()
        invariant
            i <= line@.len(),
            forall|k: int| 0 <= k < line@.len() ==> (#[trigger] line@[k]) < artifact.nodes@.len(),
            out@ == old(out)@ + line_roots(*artifact, line@, i as nat),
        decreases line@.len() - i,
    {
        assert(line@[i as int] < artifact.nodes@.len());
        push_styles(out, &artifact.nodes[line[i]].styles);
        i = i + 1;
        assert(out@ =~= old(out)@ + line_roots(*artifact, line@, i as nat));
    }
}

fn push_radius(out: &mut Vec<ExprId>, glass: &GlassNode)
    ensures
        final(out)@ == old(out)@ + radius_roots(*glass),
{
    match &glass.shape {
        GlassShapeBinding::ContinuousRect { radius } => push_number(out, *radius),
        _ => {},
    }
    assert(out@ =~= old(out)@ + radius_roots(*glass));
}

/// Expressions that the sample of a surface depends on directly; none for other nodes.
pub fn glass_track_expr_roots(artifact: &SceneArtifact, node_index: usize) -> (r: Vec<ExprId>)
    ensures
        r@ == sample_roots(*artifact, node_index as int),
{
    let mut roots: Vec<ExprId> = Vec::new();
    if node_index >= artifact.nodes.len() {
        assert(roots@ =~= sample_roots(*artifact, node_index as int));
        return roots;
    }
    match &artifact.nodes[node_index].kind {
        NodeKind::Glass(glass) => {
            push_number(&mut roots, glass.presence);
            assert(roots@ =~= number_root(glass.presence));
            push_number(&mut roots, glass.motion.intensity);
            push_number(&mut roots, glass.foreground.protection);
            push_material(&mut roots, glass);
            push_light(&mut roots, glass);
            push_some_number(&mut roots, glass.motion.drive.pressure);
            push_some_number(&mut roots, glass.motion.drive.twist);
            push_some_point(&mut roots, glass.motion.drive.translation);
            push_radius(&mut roots, glass);
            push_lineage(&mut roots, artifact, node_index);
        },
        _ => {
            assert(roots@ =~= sample_roots(*artifact, node_index as int));
        },
    }
    roots
}

/// Whether an expression refers to an identifier.
pub open spec fn refers(e: Expr, id: u32) -> bool {
    exists|k: int| 0 <= k < e.refs().len() && (#[trigger] e.refs()[k]).0 == id
}

/// Whether an identifier is reached from the roots: a root, or a reference of a reached expression.
pub open spec fn reached(exprs: Seq<Expr>, roots: Seq<ExprId>, id: u32) -> bool {
    live_at(roots, id as int) || exists|p: int|
        0 <= p < exprs.len() && #[trigger] below(exprs, positions(roots), p) && refers(exprs[p], id)
}

fn put_refs(out: &mut Vec<ExprId>, refs: &Vec<ExprId>)
    ensures
        final(out)@ == old(out)@ + refs@,
{
    let mut k: usize = 0;
    assert(out@ =~= old(out)@ + refs@.take(0));
    while k < refs.len()
        invariant
            k <= refs@.len(),
            out@ == old(out)@ + refs@.take(k as int),
        decreases refs@.len() - k,
    {
        out.push(refs[k]);
        k = k + 1;
        assert(out@ =~= old(out)@ + refs@.take(k as int));
    }
    assert(refs@.take(k as int) =~= refs@);
}

/// All identifiers that the roots reach, themselves included.
pub fn reachable_exprs(exprs: &Vec<Expr>, roots: &Vec<ExprId>) -> (r: Vec<ExprId>)
    ensures
        forall|id: u32| #[trigger] live_at(r@, id as int) <==> reached(exprs@, roots@, id),
        closed_slice(exprs@, r@),
{
    let mut starts: Vec<usize> = Vec::new();
    let mut i: usize = 0;
    while i < roots.len()
        invariant
            i <= roots@.len(),
            starts@ == positions(roots@).take(i as int),
        decreases roots@.len() - i,
    {
        starts.push(roots[i].0 as usize);
        i = i + 1;
        assert(starts@ =~= positions(roots@).take(i as int));
    }
    assert(positions(roots@).take(i as int) =~= positions(roots@));
    let marks = mark_below(exprs, &starts);
    let mut out: Vec<ExprId> = Vec::new();
    put_refs(&mut out, roots);
    let mut at: usize = 0;
    proof {
        assert(out@ =~= roots@);
    }
    while at < exprs.len()
        invariant
            at <= exprs@.len(),
            marks@.len() == exprs@.len(),
            forall|k: int|
                0 <= k < marks@.len() ==> #[trigger] marks@[k] == below(
                    exprs@,
                    positions(roots@),
                    k,
                ),
            forall|id: u32| #[trigger]
                live_at(out@, id as int) <==> reached_by(exprs@, roots@, id, at as int),
        decreases exprs@.len() - at,
    {
        let ghost was = out@;
        if marks[at] {
            let refs = exprs[at].children();
            put_refs(&mut out, &refs);
            proof {
                assert forall|id: u32| #[trigger] live_at(out@, id as int) <==> reached_by(
                    exprs@,
                    roots@,
                    id,
                    at + 1,
                ) by {
                    appended(was, refs@, id as int);
                    assert(refers(exprs@[at as int], id) <==> live_at(refs@, id as int)) by {
                        if live_at(refs@, id as int) {
                            let k = choose|k: int|
                                0 <= k < refs@.len() && (#[trigger] refs@[k]).0 == id;
                            assert(exprs@[at as int].refs()[k].0 == id);
                        }
                        if refers(exprs@[at as int], id) {
                            let k = choose|k: int|
                                0 <= k < exprs@[at as int].refs().len()
                                    && (#[trigger] exprs@[at as int].refs()[k]).0 == id;
                            assert(refs@[k].0 == id);
                        }
                    }
                    grows(exprs@, roots@, id, at as int);
                }
            }
        } else {
            proof {
                assert forall|id: u32| #[trigger] live_at(out@, id as int) <==> reached_by(
                    exprs@,
                    roots@,
                    id,
                    at + 1,
                ) by {
                    grows(exprs@, roots@, id, at as int);
                }
            }
        }
        at = at + 1;
    }
    proof {
        assert forall|id: u32| #[trigger] live_at(out@, id as int) <==> reached(exprs@, roots@, id) by {
            assert(reached_by(exprs@, roots@, id, exprs@.len() as int) <==> reached(
                exprs@,
                roots@,
                id,
            ));
        }
        reachable_slices_are_closed(exprs@, roots@, out@);
    }
    out
}

/// Whether an identifier is a root or a reference of a reached expression before `n`.
spec fn reached_by(exprs: Seq<Expr>, roots: Seq<ExprId>, id: u32, n: int) -> bool {
    live_at(roots, id as int) || exists|p: int|
        0 <= p < n && #[trigger] below(exprs, positions(roots), p) && refers(exprs[p], id)
}

proof fn grows(exprs: Seq<Expr>, roots: Seq<ExprId>, id: u32, n: int)
    requires
        0 <= n < exprs.len(),
    ensures
        reached_by(exprs, roots, id, n + 1) <==> reached_by(exprs, roots, id, n) || (below(
            exprs,
            positions(roots),
            n,
        ) && refers(exprs[n], id)),
{
    if reached_by(exprs, roots, id, n + 1) && !live_at(roots, id as int) {
        let p = choose|p: int|
            0 <= p < n + 1 && #[trigger] below(exprs, positions(roots), p) && refers(exprs[p], id);
        if p < n {
            assert(below(exprs, positions(roots), p) && refers(exprs[p], id));
        }
    }
    if reached_by(exprs, roots, id, n) && !live_at(roots, id as int) {
        let p = choose|p: int|
            0 <= p < n && #[trigger] below(exprs, positions(roots), p) && refers(exprs[p], id);
        assert(below(exprs, positions(roots), p) && refers(exprs[p], id));
    }
}

proof fn appended(a: Seq<ExprId>, b: Seq<ExprId>, i: int)
    ensures
        live_at(a + b, i) <==> live_at(a, i) || live_at(b, i),
{
    if live_at(a + b, i) {
        let k = choose|k: int| 0 <= k < (a + b).len() && (#[trigger] (a + b)[k]).0 == i;
        if k < a.len() {
            assert(a[k].0 == i);
        } else {
            assert(b[k - a.len()].0 == i);
        }
    }
    if live_at(a, i) {
        let k = choose|k: int| 0 <= k < a.len() && (#[trigger] a[k]).0 == i;
        assert((a + b)[k].0 == i);
    }
    if live_at(b, i) {
        let k = choose|k: int| 0 <= k < b.len() && (#[trigger] b[k]).0 == i;
        assert((a + b)[a.len() + k].0 == i);
    }
}

proof fn reached_is_below(exprs: Seq<Expr>, roots: Seq<ExprId>, i: int)
    requires
        0 <= i < exprs.len(),
        i <= u32::MAX,
        reached(exprs, roots, i as u32),
    ensures
        below(exprs, positions(roots), i),
{
    if live_at(roots, i) {
        listed_is_in_slice(exprs, roots, i);
    } else {
        let p = choose|p: int|
            0 <= p < exprs.len() && #[trigger] below(exprs, positions(roots), p) && refers(
                exprs[p],
                i as u32,
            );
        assert(leads(exprs, p, i));
        below_step(exprs, positions(roots), p, i);
    }
}

/// What is reachable holds its own references.
pub proof fn reachable_slices_are_closed(
    exprs: Seq<Expr>,
    roots: Seq<ExprId>,
    live: Seq<ExprId>,
)
    requires
        forall|id: u32| #[trigger] live_at(live, id as int) <==> reached(exprs, roots, id),
    ensures
        closed_slice(exprs, live),
{
    assert forall|i: int, k: int|
        0 <= i < exprs.len() && live_at(live, i) && 0 <= k < exprs[i].refs().len() implies #[trigger] live_at(
        live,
        (#[trigger] exprs[i].refs()[k]).0 as int,
    ) by {
        let j = choose|j: int| 0 <= j < live.len() && (#[trigger] live[j]).0 == i;
        assert(live_at(live, (i as u32) as int));
        reached_is_below(exprs, roots, i);
        let id = exprs[i].refs()[k].0;
        assert(refers(exprs[i], id));
        assert(reached(exprs, roots, id));
        assert(live_at(live, id as int));
    }
}

/// Local shape of a surface at one instant.
#[derive(Clone, Copy, Debug, PartialEq, Eq, Structural)]
pub struct GlassLocalShape {
    pub rect: Rect,
    pub presence: Scalar,
    pub intensity: Scalar,
    pub drive_translation: Point,
    pub drive_pressure: Scalar,
    pub drive_twist: Scalar,
}

/// The continuous stretch of a clip's timeline that samples belong to.
#[derive(Debug, PartialEq, Eq)]
pub struct TrackEpoch {
    pub generation: u64,
    pub instance: String,
    /// Segment of the clip's time map.
    pub segment: u64,
    pub start: u64,
    /// The discontinuity that began the stretch, where one did.
    pub discontinuity: Option<u64>,
}

/// An epoch by its contents.
pub struct Epoch {
    pub generation: u64,
    pub instance: Seq<char>,
    pub segment: u64,
    pub start: u64,
    pub discontinuity: Option<u64>,
}

impl View for TrackEpoch {
    type V = Epoch;

    open spec fn view(&self) -> Epoch {
        Epoch {
            generation: self.generation,
            instance: self.instance@,
            segment: self.segment,
            start: self.start,
            discontinuity: self.discontinuity,
        }
    }
}

impl TrackEpoch {
    pub fn duplicate(&self) -> (r: TrackEpoch)
        ensures
            r@ == self@,
    {
        TrackEpoch {
            generation: self.generation,
            instance: self.instance.clone(),
            segment: self.segment,
            start: self.start,
            discontinuity: self.discontinuity,
        }
    }
}

/// A sample of one surface at one of the requested instants.
#[derive(Debug)]
pub struct GlassSurfaceTrackSample {
    /// Position of the node.
    pub node: usize,
    /// Position among the requested instants.
    pub time: usize,
    pub surface_id: String,
    /// The clip that was sampled.
    pub instance: String,
    pub epoch: TrackEpoch,
    pub local: GlassLocalShape,
}

/// Whether every sample says which clip and which stretch of it was sampled.
pub open spec fn are_of(
    list: Seq<GlassSurfaceTrackSample>,
    instance: Seq<char>,
    epoch: Epoch,
) -> bool {
    forall|i: int|
        0 <= i < list.len() ==> (#[trigger] list[i]).instance@ == instance && list[i].epoch@
            == epoch
}

#[derive(Debug, PartialEq, Eq)]
pub enum GlassTrackError {
    Schema(String),
    /// The instant cannot be represented.
    Time,
    Eval(EvalError),
    Unbound { node: String, property: String },
    IncompleteSlice { node: String },
}

/// A track error by its contents.
pub enum TrackFault {
    Schema(Seq<char>),
    Time,
    Eval(Fault),
    Unbound(Seq<char>, Seq<char>),
    IncompleteSlice(Seq<char>),
}

impl View for GlassTrackError {
    type V = TrackFault;

    open spec fn view(&self) -> TrackFault {
        match *self {
            GlassTrackError::Schema(m) => TrackFault::Schema(m@),
            GlassTrackError::Time => TrackFault::Time,
            GlassTrackError::Eval(e) => TrackFault::Eval(e@),
            GlassTrackError::Unbound { node, property } => TrackFault::Unbound(node@, property@),
            GlassTrackError::IncompleteSlice { node } => TrackFault::IncompleteSlice(node@),
        }
    }
}

impl GlassTrackError {
    /// What the error reads as.
    pub open spec fn text(self) -> Seq<char> {
        match self {
            GlassTrackError::Schema(m) => m@,
            GlassTrackError::Time => "time overflow"@,
            GlassTrackError::Eval(e) => e.text(),
            GlassTrackError::Unbound { node, property } => "Glass '"@ + node@
                + "' is missing a finite `"@ + property@ + "`"@,
            GlassTrackError::IncompleteSlice { node } => "Glass '"@ + node@
                + "' has dynamic layout that cannot prove a complete dependency slice"@,
        }
    }

    /// What the error reads as.
    pub fn message(&self) -> (r: String)
        ensures
            r@ == self.text(),
    {
        match self {
            GlassTrackError::Schema(m) => m.clone(),
            GlassTrackError::Time => "time overflow".to_owned(),
            GlassTrackError::Eval(e) => e.message(),
            GlassTrackError::Unbound { node, property } => {
                said5("Glass '", node.as_str(), "' is missing a finite `", property.as_str(), "`")
            },
            GlassTrackError::IncompleteSlice { node } => {
                said3(
                    "Glass '",
                    node.as_str(),
                    "' has dynamic layout that cannot prove a complete dependency slice",
                )
            },
        }
    }
}

/// A number that must be finite.
pub open spec fn finite_or(value: Scalar, surface: Seq<char>, property: Seq<char>) -> Result<
    Scalar,
    TrackFault,
> {
    if value.finite() { Ok(value) } else { Err(TrackFault::Unbound(surface, property)) }
}

/// The value of a slot, where it has one.
pub open spec fn slot(values: Seq<Option<Value>>, id: ExprId) -> Option<Value> {
    if id.0 < values.len() { values[id.0 as int] } else { None }
}

/// A number or length that an expression gives.
pub open spec fn expr_number(
    id: ExprId,
    values: Seq<Option<Value>>,
    surface: Seq<char>,
    property: Seq<char>,
) -> Result<Scalar, TrackFault> {
    match slot(values, id) {
        Some(Value::Number(x)) => finite_or(x, surface, property),
        Some(Value::Length(l)) => finite_or(l.value, surface, property),
        _ => Err(TrackFault::IncompleteSlice(surface)),
    }
}

pub open spec fn bound_number(
    value: NumberValue,
    values: Seq<Option<Value>>,
    surface: Seq<char>,
    property: Seq<char>,
) -> Result<Scalar, TrackFault> {
    match value {
        NumberValue::Static { value } => finite_or(value, surface, property),
        NumberValue::Expr { expr } => expr_number(expr, values, surface, property),
    }
}

pub open spec fn optional_number(
    value: Option<NumberValue>,
    values: Seq<Option<Value>>,
    surface: Seq<char>,
    property: Seq<char>,
) -> Result<Scalar, TrackFault> {
    match value {
        None => Ok(num(ZERO)),
        Some(v) => bound_number(v, values, surface, property),
    }
}

pub open spec fn style_number(
    style: StyleBinding,
    values: Seq<Option<Value>>,
    surface: Seq<char>,
    property: Seq<char>,
) -> Result<Scalar, TrackFault> {
    match style.value {
        StyleValue::Static { value } => match value@ {
            Value::Number(x) => finite_or(x, surface, property),
            Value::Length(l) => finite_or(l.value, surface, property),
            _ => Err(TrackFault::Unbound(surface, property)),
        },
        StyleValue::Expr { expr } => expr_number(expr, values, surface, property),
    }
}

/// The first style from `i` on with a property; the number of styles where there is none.
pub open spec fn style_at(styles: Seq<StyleBinding>, property: Seq<char>, i: int) -> int
    decreases styles.len() - i,
{
    if i < 0 || i >= styles.len() {
        styles.len() as int
    } else if styles[i].property@ == property {
        i
    } else {
        style_at(styles, property, i + 1)
    }
}

/// A placing number of a node; `fallback` is taken where no style gives it.
pub open spec fn placed(
    node: SceneNode,
    values: Seq<Option<Value>>,
    surface: Seq<char>,
    property: Seq<char>,
    fallback: Option<Scalar>,
) -> Result<Scalar, TrackFault> {
    let i = style_at(node.styles@, property, 0);
    if i < node.styles@.len() {
        style_number(node.styles@[i], values, surface, property)
    } else {
        match fallback {
            Some(x) => Ok(x),
            None => Err(TrackFault::Unbound(surface, property)),
        }
    }
}

pub open spec fn drive_point(value: Option<PointValue>, values: Seq<Option<Value>>) -> Result<
    Point,
    TrackFault,
> {
    match value {
        None => Ok(Point { x: num(ZERO), y: num(ZERO) }),
        Some(PointValue::Static { value }) => Ok(value),
        Some(PointValue::Expr { expr }) => match slot(values, expr) {
            Some(Value::Point(p)) => Ok(p),
            Some(Value::Vec2(p)) => Ok(p),
            _ => Err(TrackFault::Unbound("drive"@, "translation"@)),
        },
    }
}

/// The box of a surface.
pub open spec fn placed_rect(node: SceneNode, values: Seq<Option<Value>>, surface: Seq<char>) -> Result<
    Rect,
    TrackFault,
> {
    match placed(node, values, surface, "left"@, Some(num(ZERO))) {
        Err(f) => Err(f),
        Ok(x) => match placed(node, values, surface, "top"@, Some(num(ZERO))) {
            Err(f) => Err(f),
            Ok(y) => match placed(node, values, surface, "width"@, None) {
                Err(f) => Err(f),
                Ok(width) => match placed(node, values, surface, "height"@, None) {
                    Err(f) => Err(f),
                    Ok(height) => Ok(Rect { x, y, width, height }),
                },
            },
        },
    }
}

/// The local shape that a slice's values give a surface; the first number that is missing or not
/// finite decides the error.
pub open spec fn shape_of(node: SceneNode, glass: GlassNode, values: Seq<Option<Value>>) -> Result<
    GlassLocalShape,
    TrackFault,
> {
    let surface = glass.surface_id@;
    match placed_rect(node, values, surface) {
        Err(f) => Err(f),
        Ok(rect) => match bound_number(glass.presence, values, surface, "presence"@) {
            Err(f) => Err(f),
            Ok(presence) => match bound_number(
                glass.motion.intensity,
                values,
                surface,
                "intensity"@,
            ) {
                Err(f) => Err(f),
                Ok(intensity) => match drive_point(glass.motion.drive.translation, values) {
                    Err(f) => Err(f),
                    Ok(drive_translation) => match optional_number(
                        glass.motion.drive.pressure,
                        values,
                        surface,
                        "pressure"@,
                    ) {
                        Err(f) => Err(f),
                        Ok(drive_pressure) => match optional_number(
                            glass.motion.drive.twist,
                            values,
                            surface,
                            "twist"@,
                        ) {
                            Err(f) => Err(f),
                            Ok(drive_twist) => Ok(
                                GlassLocalShape {
                                    rect,
                                    presence,
                                    intensity,
                                    drive_translation,
                                    drive_pressure,
                                    drive_twist,
                                },
                            ),
                        },
                    },
                },
            },
        },
    }
}

/// Slots by their contents.
pub open spec fn slots(v: Seq<Option<MotionValue>>) -> Seq<Option<Value>> {
    crate::folding::folded_values(v)
}

fn check_finite(value: Scalar, surface: &str, property: &str) -> (r: Result<Scalar, GlassTrackError>)
    ensures
        track_seen(r) == finite_or(value, surface@, property@),
{
    if value.is_finite() {
        Ok(value)
    } else {
        Err(GlassTrackError::Unbound { node: surface.to_owned(), property: property.to_owned() })
    }
}

/// A result by its contents.
pub open spec fn track_seen<T>(r: Result<T, GlassTrackError>) -> Result<T, TrackFault> {
    match r {
        Ok(v) => Ok(v),
        Err(e) => Err(e@),
    }
}

fn slot_at<'a>(values: &'a Vec<Option<MotionValue>>, id: ExprId) -> (r: Option<&'a MotionValue>)
    ensures
        match r {
            Some(v) => slot(slots(values@), id) == Some(v@),
            None => slot(slots(values@), id) is None,
        },
{
    if (id.0 as usize) < values.len() {
        match &values[id.0 as usize] {
            Some(v) => Some(v),
            None => None,
        }
    } else {
        None
    }
}

fn read_expr_number(
    id: ExprId,
    values: &Vec<Option<MotionValue>>,
    surface: &str,
    property: &str,
) -> (r: Result<Scalar, GlassTrackError>)
    ensures
        track_seen(r) == expr_number(id, slots(values@), surface@, property@),
{
    match slot_at(values, id) {
        Some(MotionValue::Number(x)) => check_finite(*x, surface, property),
        Some(MotionValue::Length(l)) => check_finite(l.value, surface, property),
        _ => Err(GlassTrackError::IncompleteSlice { node: surface.to_owned() }),
    }
}

fn read_number(
    value: NumberValue,
    values: &Vec<Option<MotionValue>>,
    surface: &str,
    property: &str,
) -> (r: Result<Scalar, GlassTrackError>)
    ensures
        track_seen(r) == bound_number(value, slots(values@), surface@, property@),
{
    match value {
        NumberValue::Static { value } => check_finite(value, surface, property),
        NumberValue::Expr { expr } => read_expr_number(expr, values, surface, property),
    }
}

fn read_optional_number(
    value: Option<NumberValue>,
    values: &Vec<Option<MotionValue>>,
    surface: &str,
    property: &str,
) -> (r: Result<Scalar, GlassTrackError>)
    ensures
        track_seen(r) == optional_number(value, slots(values@), surface@, property@),
{
    match value {
        None => Ok(Scalar::from_bits(ZERO)),
        Some(v) => read_number(v, values, surface, property),
    }
}

fn read_style_number(
    style: &StyleBinding,
    values: &Vec<Option<MotionValue>>,
    surface: &str,
    property: &str,
) -> (r: Result<Scalar, GlassTrackError>)
    ensures
        track_seen(r) == style_number(*style, slots(values@), surface@, property@),
{
    match &style.value {
        StyleValue::Static { value } => match value {
            MotionValue::Number(x) => check_finite(*x, surface, property),
            MotionValue::Length(l) => check_finite(l.value, surface, property),
            _ => Err(
                GlassTrackError::Unbound {
                    node: surface.to_owned(),
                    property: property.to_owned(),
                },
            ),
        },
        StyleValue::Expr { expr } => read_expr_number(*expr, values, surface, property),
    }
}

fn read_placed(
    node: &SceneNode,
    values: &Vec<Option<MotionValue>>,
    surface: &str,
    property: &str,
    fallback: Option<Scalar>,
) -> (r: Result<Scalar, GlassTrackError>)
    ensures
        track_seen(r) == placed(*node, slots(values@), surface@, property@, fallback),
{
    let mut i: usize = 0;
    while i < node.styles.len()
        invariant
            i <= node.styles@.len(),
            style_at(node.styles@, property@, 0) == style_at(node.styles@, property@, i as int),
        decreases node.styles@.len() - i,
    {
        if same_text(node.styles[i].property.as_str(), property) {
            return read_style_number(&node.styles[i], values, surface, property);
        }
        i = i + 1;
    }
    match fallback {
        Some(x) => Ok(x),
        None => Err(
            GlassTrackError::Unbound { node: surface.to_owned(), property: property.to_owned() },
        ),
    }
}

fn read_point(value: Option<PointValue>, values: &Vec<Option<MotionValue>>) -> (r: Result<
    Point,
    GlassTrackError,
>)
    ensures
        track_seen(r) == drive_point(value, slots(values@)),
{
    match value {
        None => Ok(Point { x: Scalar::from_bits(ZERO), y: Scalar::from_bits(ZERO) }),
        Some(PointValue::Static { value }) => Ok(value),
        Some(PointValue::Expr { expr }) => match slot_at(values, expr) {
            Some(MotionValue::Point(p)) => Ok(*p),
            Some(MotionValue::Vec2(p)) => Ok(*p),
            _ => Err(
                GlassTrackError::Unbound {
                    node: "drive".to_owned(),
                    property: "translation".to_owned(),
                },
            ),
        },
    }
}

fn read_rect(node: &SceneNode, values: &Vec<Option<MotionValue>>, surface: &str) -> (r: Result<
    Rect,
    GlassTrackError,
>)
    ensures
        track_seen(r) == placed_rect(*node, slots(values@), surface@),
{
    let zero = Scalar::from_bits(ZERO);
    let x = match read_placed(node, values, surface, "left", Some(zero)) {
        Ok(v) => v,
        Err(e) => {
            return Err(e);
        },
    };
    let y = match read_placed(node, values, surface, "top", Some(zero)) {
        Ok(v) => v,
        Err(e) => {
            return Err(e);
        },
    };
    let width = match read_placed(node, values, surface, "width", None) {
        Ok(v) => v,
        Err(e) => {
            return Err(e);
        },
    };
    match read_placed(node, values, surface, "height", None) {
        Ok(height) => Ok(Rect { x, y, width, height }),
        Err(e) => Err(e),
    }
}

/// Reads the local shape of a surface from the values of its slice.
pub fn local_shape(node: &SceneNode, glass: &GlassNode, values: &Vec<Option<MotionValue>>) -> (r:
    Result<GlassLocalShape, GlassTrackError>)
    ensures
        track_seen(r) == shape_of(*node, *glass, slots(values@)),
{
    let surface = glass.surface_id.as_str();
    let rect = match read_rect(node, values, surface) {
        Ok(v) => v,
        Err(e) => {
            return Err(e);
        },
    };
    let presence = match read_number(glass.presence, values, surface, "presence") {
        Ok(v) => v,
        Err(e) => {
            return Err(e);
        },
    };
    let intensity = match read_number(glass.motion.intensity, values, surface, "intensity") {
        Ok(v) => v,
        Err(e) => {
            return Err(e);
        },
    };
    let drive_translation = match read_point(glass.motion.drive.translation, values) {
        Ok(v) => v,
        Err(e) => {
            return Err(e);
        },
    };
    let drive_pressure = match read_optional_number(
        glass.motion.drive.pressure,
        values,
        surface,
        "pressure",
    ) {
        Ok(v) => v,
        Err(e) => {
            return Err(e);
        },
    };
    match read_optional_number(glass.motion.drive.twist, values, surface, "twist") {
        Ok(drive_twist) => Ok(
            GlassLocalShape {
                rect,
                presence,
                intensity,
                drive_translation,
                drive_pressure,
                drive_twist,
            },
        ),
        Err(e) => Err(e),
    }
}

/// Inputs of a track: the instant, and nothing that a clip could bring in.
pub open spec fn bare(inputs: EvalInputs, ctx: MotionContext) -> bool {
    &&& *inputs.ctx == ctx
    &&& inputs.props.values@.len() == 0
    &&& inputs.signals@.len() == 0
    &&& inputs.unit is None
    &&& inputs.viewport is None
}

/// Values of a slice; the others have none.
pub open spec fn sliced(live: Seq<ExprId>, values: Seq<Value>) -> Seq<Option<Value>> {
    Seq::new(values.len(), |i: int| if live_at(live, i) { Some(values[i]) } else { None })
}

/// Whether `r` is a possible outcome of sampling the surface at a node.
pub open spec fn sample_gives<
    K: Fn(&Kernel) -> Result<MotionValue, KernelError>,
    T: Fn(&MotionValue) -> String,
>(
    host: K,
    tokens: T,
    a: SceneArtifact,
    at: int,
    ctx: MotionContext,
    r: Result<GlassLocalShape, TrackFault>,
) -> bool {
    exists|inputs: EvalInputs, live: Seq<ExprId>, out: Result<Seq<Value>, Fault>|
        #![trigger bare(inputs, ctx), pass_gives(host, tokens, a.exprs@, slice_active(a.exprs@, false, live), None, inputs, before_layout(), out)]
        bare(inputs, ctx) && slice_of(a, at, live) && pass_gives(
            host,
            tokens,
            a.exprs@,
            slice_active(a.exprs@, false, live),
            None,
            inputs,
            before_layout(),
            out,
        ) && r == sample_result(a, at, live, out)
}

/// Whether a list is the dependency slice of a surface.
pub open spec fn slice_of(a: SceneArtifact, at: int, live: Seq<ExprId>) -> bool {
    &&& forall|id: u32| #[trigger]
        live_at(live, id as int) <==> reached(a.exprs@, sample_roots(a, at), id)
    &&& closed_slice(a.exprs@, live)
}

/// What the evaluation of a slice makes of a surface.
pub open spec fn sample_result(
    a: SceneArtifact,
    at: int,
    live: Seq<ExprId>,
    out: Result<Seq<Value>, Fault>,
) -> Result<GlassLocalShape, TrackFault> {
    match out {
        Err(f) => Err(TrackFault::Eval(f)),
        Ok(values) => match a.nodes@[at].kind {
            NodeKind::Glass(glass) => shape_of(a.nodes@[at], glass, sliced(live, values)),
            _ => Err(TrackFault::Time),
        },
    }
}

/// Positions of the surfaces among the first `n` nodes.
pub open spec fn surfaces(a: SceneArtifact, n: nat) -> Seq<usize>
    decreases n,
{
    if n == 0 {
        Seq::empty()
    } else if a.nodes@[n - 1].kind is Glass {
        surfaces(a, (n - 1) as nat).push((n - 1) as usize)
    } else {
        surfaces(a, (n - 1) as nat)
    }
}

/// Whether a sample says what it should of a surface at an instant.
pub open spec fn is_sample<
    K: Fn(&Kernel) -> Result<MotionValue, KernelError>,
    T: Fn(&MotionValue) -> String,
>(
    host: K,
    tokens: T,
    a: SceneArtifact,
    at: usize,
    time: int,
    ctx: MotionContext,
    s: GlassSurfaceTrackSample,
) -> bool {
    &&& s.node == at
    &&& s.time == time
    &&& a.nodes@[at as int].kind matches NodeKind::Glass(glass) && s.surface_id@ == glass.surface_id@
    &&& sample_gives(host, tokens, a, at as int, ctx, Ok(s.local))
}

/// Whether samples are those of the first surfaces at one instant.
pub open spec fn are_samples<
    K: Fn(&Kernel) -> Result<MotionValue, KernelError>,
    T: Fn(&MotionValue) -> String,
>(
    host: K,
    tokens: T,
    a: SceneArtifact,
    time: int,
    ctx: MotionContext,
    list: Seq<GlassSurfaceTrackSample>,
) -> bool {
    let all = surfaces(a, a.nodes@.len());
    &&& list.len() <= all.len()
    &&& forall|i: int|
        0 <= i < list.len() ==> is_sample(host, tokens, a, all[i], time, ctx, #[trigger] list[i])
}

/// Whether sampling all surfaces at one instant can fail with `f`.
pub open spec fn instant_fails<
    K: Fn(&Kernel) -> Result<MotionValue, KernelError>,
    T: Fn(&MotionValue) -> String,
>(host: K, tokens: T, a: SceneArtifact, time: int, ctx: MotionContext, f: TrackFault) -> bool {
    exists|list: Seq<GlassSurfaceTrackSample>| #[trigger]
        are_samples(host, tokens, a, time, ctx, list) && list.len() < surfaces(
            a,
            a.nodes@.len(),
        ).len() && sample_gives(
            host,
            tokens,
            a,
            surfaces(a, a.nodes@.len())[list.len() as int] as int,
            ctx,
            Err(f),
        )
}

fn surface_list(artifact: &SceneArtifact) -> (r: Vec<usize>)
    ensures
        r@ == surfaces(*artifact, artifact.nodes@.len()),
        forall|i: int|
            0 <= i < r@.len() ==> (#[trigger] r@[i]) < artifact.nodes@.len()
                && artifact.nodes@[r@[i] as int].kind is Glass,
{
    let mut out: Vec<usize> = Vec::new();
    let mut n: usize = 0;
    while n < artifact.nodes.len()
        invariant
            n <= artifact.nodes@.len(),
            out@ == surfaces(*artifact, n as nat),
            forall|i: int|
                0 <= i < out@.len() ==> (#[trigger] out@[i]) < artifact.nodes@.len()
                    && artifact.nodes@[out@[i] as int].kind is Glass,
        decreases artifact.nodes@.len() - n,
    {
        match &artifact.nodes[n].kind {
            NodeKind::Glass(_) => {
                out.push(n);
            },
            _ => {},
        }
        n = n + 1;
    }
    out
}

/// Samples one surface at one instant through its dependency slice.
pub fn sample_surface<
    K: Fn(&Kernel) -> Result<MotionValue, KernelError>,
    T: Fn(&MotionValue) -> String,
>(host: &K, tokens: &T, artifact: &SceneArtifact, at: usize, ctx: &MotionContext) -> (r: Result<
    GlassLocalShape,
    GlassTrackError,
>)
    requires
        at < artifact.nodes@.len(),
        artifact.nodes@[at as int].kind is Glass,
        forall|k: Kernel| call_requires(*host, (&k,)),
        forall|v: MotionValue| call_requires(*tokens, (&v,)),
    ensures
        sample_gives(*host, *tokens, *artifact, at as int, *ctx, track_seen(r)),
{
    let props = ResolvedProps::empty();
    let signals: Vec<Entry<CueSignal>> = Vec::new();
    let inputs = EvalInputs { ctx, props: &props, signals: &signals, unit: None, viewport: None };
    assert(bare(inputs, *ctx));
    let roots = glass_track_expr_roots(artifact, at);
    let live = reachable_exprs(&artifact.exprs, &roots);
    assert(slice_of(*artifact, at as int, live@));
    let values = match eval_slice(host, tokens, &artifact.exprs, &inputs, &live) {
        Ok(v) => v,
        Err(e) => {
            return Err(GlassTrackError::Eval(e));
        },
    };
    let ghost all = choose|all: Seq<Value>| #[trigger]
        pass_gives(
            *host,
            *tokens,
            artifact.exprs@,
            slice_active(artifact.exprs@, false, live@),
            None,
            inputs,
            before_layout(),
            Ok(all),
        ) && shows(artifact.exprs@, live@, all, values@);
    proof {
        assert(slots(values@) =~= sliced(live@, all)) by {
            assert forall|i: int| 0 <= i < values@.len() implies slots(values@)[i] == sliced(
                live@,
                all,
            )[i] by {
                assert(values@[i] == values@[i]);
                closed_lists_are_their_slice(artifact.exprs@, live@, i);
            }
        }
        assert(bare(inputs, *ctx) && pass_gives(
            *host,
            *tokens,
            artifact.exprs@,
            slice_active(artifact.exprs@, false, live@),
            None,
            inputs,
            before_layout(),
            Ok(all),
        ));
    }
    match &artifact.nodes[at].kind {
        NodeKind::Glass(glass) => local_shape(&artifact.nodes[at], glass, &values),
        _ => Err(GlassTrackError::Time),
    }
}

fn sample_instant<
    K: Fn(&Kernel) -> Result<MotionValue, KernelError>,
    T: Fn(&MotionValue) -> String,
>(
    host: &K,
    tokens: &T,
    artifact: &SceneArtifact,
    all: &Vec<usize>,
    time: usize,
    ctx: &MotionContext,
    instance: &String,
    epoch: &TrackEpoch,
) -> (r: Result<Vec<GlassSurfaceTrackSample>, GlassTrackError>)
    requires
        all@ == surfaces(*artifact, artifact.nodes@.len()),
        forall|i: int|
            0 <= i < all@.len() ==> (#[trigger] all@[i]) < artifact.nodes@.len()
                && artifact.nodes@[all@[i] as int].kind is Glass,
        forall|k: Kernel| call_requires(*host, (&k,)),
        forall|v: MotionValue| call_requires(*tokens, (&v,)),
    ensures
        match r {
            Ok(list) => list@.len() == all@.len() && are_samples(
                *host,
                *tokens,
                *artifact,
                time as int,
                *ctx,
                list@,
            ) && are_of(list@, instance@, epoch@),
            Err(e) => instant_fails(*host, *tokens, *artifact, time as int, *ctx, e@),
        },
{
    let mut out: Vec<GlassSurfaceTrackSample> = Vec::new();
    let mut i: usize = 0;
    while i < all.len()
        invariant
            i <= all@.len(),
            all@ == surfaces(*artifact, artifact.nodes@.len()),
            forall|i: int|
                0 <= i < all@.len() ==> (#[trigger] all@[i]) < artifact.nodes@.len()
                    && artifact.nodes@[all@[i] as int].kind is Glass,
            forall|k: Kernel| call_requires(*host, (&k,)),
            forall|v: MotionValue| call_requires(*tokens, (&v,)),
            out@.len() == i,
            are_of(out@, instance@, epoch@),
            are_samples(*host, *tokens, *artifact, time as int, *ctx, out@),
        decreases all@.len() - i,
    {
        let at: usize = all[i];
        assert(all@[i as int] < artifact.nodes@.len());
        match sample_surface(host, tokens, artifact, at, ctx) {
            Err(e) => {
                assert(are_samples(*host, *tokens, *artifact, time as int, *ctx, out@));
                return Err(e);
            },
            Ok(local) => {
                let surface_id: String = match &artifact.nodes[at].kind {
                    NodeKind::Glass(glass) => glass.surface_id.as_str().to_owned(),
                    _ => String::new(),
                };
                let ghost before = out@;
                out.push(
                    GlassSurfaceTrackSample {
                        node: at,
                        time,
                        surface_id,
                        instance: instance.clone(),
                        epoch: epoch.duplicate(),
                        local,
                    },
                );
                proof {
                    assert forall|k: int| 0 <= k < out@.len() implies is_sample(
                        *host,
                        *tokens,
                        *artifact,
                        all@[k],
                        time as int,
                        *ctx,
                        #[trigger] out@[k],
                    ) by {
                        if k < i {
                            assert(out@[k] == before[k]);
                        }
                    }
                }
            },
        }
        i = i + 1;
    }
    Ok(out)
}

/// Lists in a row.
pub open spec fn in_a_row(lists: Seq<Seq<GlassSurfaceTrackSample>>, n: nat) -> Seq<
    GlassSurfaceTrackSample,
>
    decreases n,
{
    if n == 0 { Seq::empty() } else { in_a_row(lists, (n - 1) as nat) + lists[n - 1] }
}

/// Whether lists are the complete samples of the first instants.
pub open spec fn instants_sampled<
    K: Fn(&Kernel) -> Result<MotionValue, KernelError>,
    T: Fn(&MotionValue) -> String,
>(
    host: K,
    tokens: T,
    a: SceneArtifact,
    contexts: Seq<Option<MotionContext>>,
    lists: Seq<Seq<GlassSurfaceTrackSample>>,
) -> bool {
    &&& lists.len() <= contexts.len()
    &&& forall|t: int|
        0 <= t < lists.len() ==> instant_sampled(
            host,
            tokens,
            a,
            t,
            contexts[t],
            #[trigger] lists[t],
        )
}

/// Whether a list is the complete samples of one instant.
pub open spec fn instant_sampled<
    K: Fn(&Kernel) -> Result<MotionValue, KernelError>,
    T: Fn(&MotionValue) -> String,
>(
    host: K,
    tokens: T,
    a: SceneArtifact,
    time: int,
    ctx: Option<MotionContext>,
    list: Seq<GlassSurfaceTrackSample>,
) -> bool {
    ctx matches Some(ctx) && list.len() == surfaces(a, a.nodes@.len()).len() && are_samples(
        host,
        tokens,
        a,
        time,
        ctx,
        list,
    )
}

/// Whether `r` is a possible result of sampling all surfaces at all instants: instant by instant,
/// surface by surface; the first failure ends it.
pub open spec fn tracks_give<
    K: Fn(&Kernel) -> Result<MotionValue, KernelError>,
    T: Fn(&MotionValue) -> String,
>(
    host: K,
    tokens: T,
    a: SceneArtifact,
    contexts: Seq<Option<MotionContext>>,
    r: Result<Seq<GlassSurfaceTrackSample>, TrackFault>,
) -> bool {
    exists|lists: Seq<Seq<GlassSurfaceTrackSample>>| #[trigger]
        instants_sampled(host, tokens, a, contexts, lists) && match r {
            Ok(list) => lists.len() == contexts.len() && list == in_a_row(lists, lists.len()),
            Err(f) => lists.len() < contexts.len() && match contexts[lists.len() as int] {
                None => f == TrackFault::Time,
                Some(ctx) => instant_fails(host, tokens, a, lists.len() as int, ctx, f),
            },
        }
}

/// A sample list by its contents.
pub open spec fn samples_seen(r: Result<Vec<GlassSurfaceTrackSample>, GlassTrackError>) -> Result<
    Seq<GlassSurfaceTrackSample>,
    TrackFault,
> {
    match r {
        Ok(v) => Ok(v@),
        Err(e) => Err(e@),
    }
}

proof fn row_prefix(
    lists: Seq<Seq<GlassSurfaceTrackSample>>,
    more: Seq<GlassSurfaceTrackSample>,
    n: nat,
)
    requires
        n <= lists.len(),
    ensures
        in_a_row(lists.push(more), n) == in_a_row(lists, n),
    decreases n,
{
    if n > 0 {
        row_prefix(lists, more, (n - 1) as nat);
    }
}

/// Whether the schema refuses a scene, with the message of its first finding.
pub open spec fn schema_refuses(
    a: SceneArtifact,
    lengths: Seq<Scalar>,
    message: Seq<char>,
) -> bool {
    exists|all: Seq<(Seq<char>, Seq<char>)>| #[trigger]
        schema_found(a, lengths, all) && all.len() > 0 && all[0].1 == message
}

/// Whether `r` is a possible result for a whole scene: refused by its schema, or sampled.
pub open spec fn tracks_told<
    K: Fn(&Kernel) -> Result<MotionValue, KernelError>,
    T: Fn(&MotionValue) -> String,
>(
    host: K,
    tokens: T,
    a: SceneArtifact,
    lengths: Seq<Scalar>,
    contexts: Seq<Option<MotionContext>>,
    r: Result<Seq<GlassSurfaceTrackSample>, TrackFault>,
) -> bool {
    (r matches Err(TrackFault::Schema(m)) && schema_refuses(a, lengths, m)) || (schema_found(
        a,
        lengths,
        Seq::empty(),
    ) && tracks_give(host, tokens, a, contexts, r))
}

/// Samples every surface at the requested instants through its dependency slice. `contexts` holds the
/// timing of each instant, absent where it cannot be represented; `lengths` the length of each node's
/// fixed light direction.
pub fn sample_tracks<
    K: Fn(&Kernel) -> Result<MotionValue, KernelError>,
    T: Fn(&MotionValue) -> String,
>(
    host: &K,
    tokens: &T,
    artifact: &SceneArtifact,
    lengths: &Vec<Scalar>,
    instance: &String,
    contexts: &Vec<Option<MotionContext>>,
    epoch: &TrackEpoch,
) -> (r: Result<Vec<GlassSurfaceTrackSample>, GlassTrackError>)
    requires
        lengths@.len() == artifact.nodes@.len(),
        forall|k: Kernel| call_requires(*host, (&k,)),
        forall|v: MotionValue| call_requires(*tokens, (&v,)),
    ensures
        tracks_told(*host, *tokens, *artifact, lengths@, contexts@, samples_seen(r)),
        r matches Ok(list) ==> are_of(list@, instance@, epoch@),
{
    match validate_glass_schema(artifact, lengths) {
        Ok(_) => {},
        Err(errors) => {
            let message: String = errors[0].message.clone();
            proof {
                let all = findings(errors@);
                assert(all[0].1 == message@);
                assert(schema_refuses(*artifact, lengths@, message@));
            }
            return Err(GlassTrackError::Schema(message));
        },
    }
    let all = surface_list(artifact);
    let mut samples: Vec<GlassSurfaceTrackSample> = Vec::new();
    let ghost mut lists: Seq<Seq<GlassSurfaceTrackSample>> = Seq::empty();
    let mut t: usize = 0;
    assert(samples@ =~= in_a_row(lists, 0));
    while t < contexts.len()
        invariant
            t <= contexts@.len(),
            schema_found(*artifact, lengths@, Seq::empty()),
            all@ == surfaces(*artifact, artifact.nodes@.len()),
            forall|i: int|
                0 <= i < all@.len() ==> (#[trigger] all@[i]) < artifact.nodes@.len()
                    && artifact.nodes@[all@[i] as int].kind is Glass,
            forall|k: Kernel| call_requires(*host, (&k,)),
            forall|v: MotionValue| call_requires(*tokens, (&v,)),
            lists.len() == t,
            instants_sampled(*host, *tokens, *artifact, contexts@, lists),
            samples@ == in_a_row(lists, t as nat),
            are_of(samples@, instance@, epoch@),
        decreases contexts@.len() - t,
    {
        match &contexts[t] {
            None => {
                assert(instants_sampled(*host, *tokens, *artifact, contexts@, lists));
                return Err(GlassTrackError::Time);
            },
            Some(ctx) => match sample_instant(
                host,
                tokens,
                artifact,
                &all,
                t,
                ctx,
                instance,
                epoch,
            ) {
                Err(e) => {
                    assert(instants_sampled(*host, *tokens, *artifact, contexts@, lists));
                    return Err(e);
                },
                Ok(list) => {
                    let ghost here = list@;
                    let ghost sampled = samples@;
                    let mut rest = list;
                    samples.append(&mut rest);
                    proof {
                        assert forall|i: int| 0 <= i < samples@.len() implies (
                        #[trigger] samples@[i]).instance@ == instance@ && samples@[i].epoch@
                            == epoch@ by {
                            if i < sampled.len() {
                                assert(samples@[i] == sampled[i]);
                            } else {
                                assert(samples@[i] == here[i - sampled.len()]);
                            }
                        }
                        row_prefix(lists, here, t as nat);
                        let now = lists.push(here);
                        assert forall|k: int| 0 <= k < now.len() implies instant_sampled(
                            *host,
                            *tokens,
                            *artifact,
                            k,
                            contexts@[k],
                            #[trigger] now[k],
                        ) by {
                            if k < t {
                                assert(now[k] == lists[k]);
                            }
                        }
                        lists = now;
                        assert(samples@ =~= in_a_row(lists, (t + 1) as nat));
                    }
                },
            },
        }
        t = t + 1;
    }
    assert(instants_sampled(*host, *tokens, *artifact, contexts@, lists));
    Ok(samples)
}

/// Where evaluating the whole arena succeeds, so does a surface's slice, and the sample taken through
/// it is the one that the whole's values give.
pub proof fn samples_agree_with_the_whole<
    K: Fn(&Kernel) -> Result<MotionValue, KernelError>,
    T: Fn(&MotionValue) -> String,
>(
    host: K,
    tokens: T,
    a: SceneArtifact,
    at: int,
    inputs: EvalInputs,
    live: Seq<ExprId>,
    whole: Seq<Value>,
    out: Result<Seq<Value>, Fault>,
)
    requires
        single_answer(host),
        single_text(tokens),
        slice_of(a, at, live),
        inputs.unit is None,
        pass_gives(
            host,
            tokens,
            a.exprs@,
            base_active(a.exprs@, false),
            None,
            inputs,
            before_layout(),
            Ok(whole),
        ),
        pass_gives(
            host,
            tokens,
            a.exprs@,
            slice_active(a.exprs@, false, live),
            None,
            inputs,
            before_layout(),
            out,
        ),
    ensures
        out is Ok,
        sample_result(a, at, live, out) == sample_result(a, at, live, Ok(whole)),
{
    match out {
        Err(f) => {
            slice_cannot_fail(host, tokens, a.exprs@, live, inputs, whole, f);
        },
        Ok(slice) => {
            assert(sliced(live, slice) =~= sliced(live, whole)) by {
                assert forall|i: int| 0 <= i < whole.len() implies sliced(live, slice)[i] == sliced(
                    live,
                    whole,
                )[i] by {
                    if live_at(live, i) {
                        listed_is_in_slice(a.exprs@, live, i);
                        slice_prefix_agrees(
                            host,
                            tokens,
                            a.exprs@,
                            live,
                            inputs,
                            whole,
                            slice,
                            i,
                        );
                    }
                }
            }
        },
    }
}

proof fn rows_are_regular(lists: Seq<Seq<GlassSurfaceTrackSample>>, n: nat, width: nat, t: int, i: int)
    requires
        n <= lists.len(),
        forall|k: int| 0 <= k < n ==> (#[trigger] lists[k]).len() == width,
    ensures
        in_a_row(lists, n).len() == n * width,
        0 <= t < n && 0 <= i < width ==> 0 <= t * width + i < n * width && in_a_row(lists, n)[t
            * width + i] == lists[t][i],
    decreases n,
{
    if n > 0 {
        let m = (n - 1) as nat;
        rows_are_regular(lists, m, width, t, i);
        assert(m * width + width == n * width) by (nonlinear_arith)
            requires
                n == m + 1,
        ;
        assert(lists[m as int].len() == width);
        if 0 <= t < m && 0 <= i < width {
            assert(in_a_row(lists, n)[t * width + i] == in_a_row(lists, m)[t * width + i]);
        } else if t == m && 0 <= i < width {
            assert(t * width + i == m * width + i);
            assert(m * width >= 0) by (nonlinear_arith);
        }
    } else {
        assert(0 * width == 0);
    }
}

/// Sampling gives one sample for each surface at each instant: instant by instant, and at each
/// instant in the order of the nodes.
pub proof fn tracks_are_complete<
    K: Fn(&Kernel) -> Result<MotionValue, KernelError>,
    T: Fn(&MotionValue) -> String,
>(
    host: K,
    tokens: T,
    a: SceneArtifact,
    contexts: Seq<Option<MotionContext>>,
    list: Seq<GlassSurfaceTrackSample>,
    t: int,
    i: int,
)
    requires
        tracks_give(host, tokens, a, contexts, Ok(list)),
    ensures
        list.len() == contexts.len() * surfaces(a, a.nodes@.len()).len(),
        0 <= t < contexts.len() && 0 <= i < surfaces(a, a.nodes@.len()).len() ==> ({
            let n = surfaces(a, a.nodes@.len()).len();
            &&& 0 <= t * n + i < list.len()
            &&& contexts[t] is Some
            &&& is_sample(
                host,
                tokens,
                a,
                surfaces(a, a.nodes@.len())[i],
                t,
                contexts[t]->0,
                list[t * n + i],
            )
        }),
{
    let lists = choose|lists: Seq<Seq<GlassSurfaceTrackSample>>| #[trigger]
        instants_sampled(host, tokens, a, contexts, lists) && lists.len() == contexts.len() && list
            == in_a_row(lists, lists.len());
    let all = surfaces(a, a.nodes@.len());
    assert forall|k: int| 0 <= k < lists.len() implies (#[trigger] lists[k]).len() == all.len() by {
        assert(instant_sampled(host, tokens, a, k, contexts[k], lists[k]));
    }
    rows_are_regular(lists, lists.len(), all.len(), t, i);
    if 0 <= t < contexts.len() && 0 <= i < all.len() {
        assert(instant_sampled(host, tokens, a, t, contexts[t], lists[t]));
        assert(is_sample(host, tokens, a, all[i], t, contexts[t]->0, lists[t][i]));
    }
}

/// Where evaluating the whole arena at an instant succeeds, what sampling a surface there gives, the
/// error in its place too, is what the whole's values give.
pub proof fn samples_are_those_of_the_whole<
    K: Fn(&Kernel) -> Result<MotionValue, KernelError>,
    T: Fn(&MotionValue) -> String,
>(
    host: K,
    tokens: T,
    a: SceneArtifact,
    at: int,
    ctx: MotionContext,
    r: Result<GlassLocalShape, TrackFault>,
    inputs: EvalInputs,
    whole: Seq<Value>,
)
    requires
        single_answer(host),
        single_text(tokens),
        sample_gives(host, tokens, a, at, ctx, r),
        bare(inputs, ctx),
        pass_gives(
            host,
            tokens,
            a.exprs@,
            base_active(a.exprs@, false),
            None,
            inputs,
            before_layout(),
            Ok(whole),
        ),
    ensures
        exists|live: Seq<ExprId>| #[trigger]
            slice_of(a, at, live) && r == sample_result(a, at, live, Ok(whole)),
{
    let (mine, live, out) = choose|
        inputs: EvalInputs,
        live: Seq<ExprId>,
        out: Result<Seq<Value>, Fault>,
    |
        #![trigger bare(inputs, ctx), pass_gives(host, tokens, a.exprs@, slice_active(a.exprs@, false, live), None, inputs, before_layout(), out)]
        bare(inputs, ctx) && slice_of(a, at, live) && pass_gives(
            host,
            tokens,
            a.exprs@,
            slice_active(a.exprs@, false, live),
            None,
            inputs,
            before_layout(),
            out,
        ) && r == sample_result(a, at, live, out);
    assert(mine.props.values@ =~= inputs.props.values@);
    assert(mine.signals@ =~= inputs.signals@);
    evaluation_reads_contents(
        host,
        tokens,
        a.exprs@,
        base_active(a.exprs@, false),
        None,
        inputs,
        mine,
        before_layout(),
        Ok(whole),
    );
    samples_agree_with_the_whole(host, tokens, a, at, mine, live, whole, out);
    assert(slice_of(a, at, live));
}

} // verus!
