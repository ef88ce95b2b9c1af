//! The boxes that a scene hands to the layout engine: every node with its styles, fields replaced by
//! their children, and the world of a camera inside its wrapper.

use vstd::prelude::*;

use crate::artifact::{NodeId, NodeKind, SceneArtifact};
use crate::camera::CameraStyles;
use crate::eval::values_of;
use crate::frame::option_text;
use crate::layout_error::{plain, LayoutError, LayoutFault};
use crate::nodes::{
    box_shape, formula_for, node_plan, node_presets, planes_given, plans, presets_of, shape_of,
    texts, BoxShape, FormulaBox, NodePlan, PlanePlacement, Shape,
};
use crate::stylesheet::{parsed_style, read_style};
use crate::table::{lookup, Entry};
use crate::trees::{is_on_screen, on_screen};
use crate::value::{MotionValue, Value};

verus! {

/// A box of the layout engine. A list of boxes stands in post-order: the children of a box are the
/// boxes that were left over right before it.
pub enum LayoutNode {
    /// The wrapper around what a camera moves.
    World { children: usize },
    Box {
        node: usize,
        children: usize,
        shape: BoxShape,
        /// The preset that counts: a later one replaces an earlier one.
        preset: Option<takumi_core::style::Style>,
        class_name: Option<String>,
        style: Option<takumi_core::style::Style>,
    },
}

/// A box by its contents.
pub enum Boxed {
    World(nat),
    Box(int, nat, Dress),
}

/// What a single box looks like.
pub struct Dress {
    pub shape: Shape,
    pub preset: Option<takumi_core::style::Style>,
    pub class_name: Option<Seq<char>>,
    pub style: Option<takumi_core::style::Style>,
}

impl View for LayoutNode {
    type V = Boxed;

    open spec fn view(&self) -> Boxed {
        match *self {
            LayoutNode::World { children } => Boxed::World(children as nat),
            LayoutNode::Box { node, children, shape, preset, class_name, style } => Boxed::Box(
                node as int,
                children as nat,
                Dress { shape: shape@, preset, class_name: option_text(class_name), style },
            ),
        }
    }
}

pub open spec fn boxes_seen(v: Seq<LayoutNode>) -> Seq<Boxed> {
    v.map_values(|b: LayoutNode| b@)
}

/// Boxes in post-order, and how many of them stand beside one another at the top.
#[verifier::ext_equal]
pub struct Grown {
    pub boxes: Seq<Boxed>,
    pub roots: nat,
}

pub open spec fn bare() -> Grown {
    Grown { boxes: Seq::empty(), roots: 0 }
}

impl Grown {
    pub open spec fn beside(self, other: Grown) -> Grown {
        Grown { boxes: self.boxes + other.boxes, roots: self.roots + other.roots }
    }
}

/// A scene with the plans of its nodes. `camera` says whether its world is wrapped.
pub struct Planned<'a> {
    pub artifact: &'a SceneArtifact,
    pub values: &'a Vec<MotionValue>,
    pub formulas: &'a Vec<Entry<FormulaBox>>,
    pub plans: &'a Vec<Result<NodePlan, LayoutError>>,
    pub camera: bool,
}

/// A planned scene by its contents.
pub struct Layout {
    pub artifact: SceneArtifact,
    pub values: Seq<Value>,
    pub formulas: Seq<Entry<FormulaBox>>,
    pub plans: Seq<Result<NodePlan, LayoutFault>>,
    pub camera: bool,
}

pub open spec fn plans_seen(v: Seq<Result<NodePlan, LayoutError>>) -> Seq<
    Result<NodePlan, LayoutFault>,
> {
    v.map_values(|r: Result<NodePlan, LayoutError>| plain(r))
}

impl<'a> View for Planned<'a> {
    type V = Layout;

    open spec fn view(&self) -> Layout {
        Layout {
            artifact: *self.artifact,
            values: values_of(self.values@),
            formulas: self.formulas@,
            plans: plans_seen(self.plans@),
            camera: self.camera,
        }
    }
}

/// The style of a declaration list, or the error of the node that declares it.
pub open spec fn styled(node: Seq<char>, declarations: Seq<char>) -> Result<
    takumi_core::style::Style,
    LayoutFault,
> {
    match parsed_style(declarations) {
        Ok(style) => Ok(style),
        Err(reason) => Err(LayoutFault::BadStyle(node, declarations, reason)),
    }
}

/// The last of the first `n` presets, where they all can be parsed.
pub open spec fn last_preset(node: Seq<char>, presets: Seq<Seq<char>>, n: nat) -> Result<
    Option<takumi_core::style::Style>,
    LayoutFault,
>
    decreases n,
{
    if n == 0 {
        Ok(None)
    } else {
        match last_preset(node, presets, (n - 1) as nat) {
            Err(f) => Err(f),
            Ok(_) => match styled(node, presets[n - 1]) {
                Err(f) => Err(f),
                Ok(style) => Ok(Some(style)),
            },
        }
    }
}

/// The style of a plan; a plan without declarations has none.
pub open spec fn plan_style(node: Seq<char>, declarations: Seq<char>) -> Result<
    Option<takumi_core::style::Style>,
    LayoutFault,
> {
    if declarations.len() == 0 {
        Ok(None)
    } else {
        match styled(node, declarations) {
            Err(f) => Err(f),
            Ok(style) => Ok(Some(style)),
        }
    }
}

/// What the box of a node looks like: its shape, then its presets, then its plan must be in order.
pub open spec fn dressed(w: Layout, at: int) -> Result<Dress, LayoutFault> {
    let node = w.artifact.nodes@[at];
    let formula = formula_for(w.formulas, node);
    let presets = presets_of(w.artifact, node, formula);
    match shape_of(node, w.values, at, formula) {
        Err(f) => Err(f),
        Ok(shape) => match last_preset(node.key@, presets, presets.len()) {
            Err(f) => Err(f),
            Ok(preset) => match w.plans[at] {
                Err(f) => Err(f),
                Ok(plan) => match plan_style(node.key@, plan.declarations@) {
                    Err(f) => Err(f),
                    Ok(style) => Ok(
                        Dress { shape, preset, class_name: option_text(plan.class_name), style },
                    ),
                },
            },
        },
    }
}

/// The boxes of a node and everything below it: a field only has those of its children, and only
/// containers keep theirs. A scene that is a tree is nested no deeper than it has nodes.
pub open spec fn grown(w: Layout, at: int, fuel: nat) -> Result<Grown, LayoutFault>
    decreases fuel, 0nat,
{
    if fuel == 0 || at < 0 || at >= w.artifact.nodes@.len() {
        Err(LayoutFault::BadNode(at))
    } else {
        match w.artifact.children_of(at) {
            None => Err(LayoutFault::BadNode(at)),
            Some(ids) => {
                let split = w.camera && at == w.artifact.root.0;
                match all_grown(w, ids, ids.len(), split, (fuel - 1) as nat) {
                    Err(f) => Err(f),
                    Ok((world, screen)) => finished(w, at, gathered(split, world, screen)),
                }
            },
        }
    }
}

/// The children of a node: inside the wrapper of a camera what it moves, behind it the rest.
pub open spec fn gathered(split: bool, world: Grown, screen: Grown) -> Grown {
    if split {
        Grown { boxes: world.boxes.push(Boxed::World(world.roots)), roots: 1 }.beside(screen)
    } else {
        world
    }
}

/// A node on top of its children.
pub open spec fn finished(w: Layout, at: int, children: Grown) -> Result<Grown, LayoutFault> {
    if w.artifact.nodes@[at].kind is GlassField {
        Ok(children)
    } else {
        match dressed(w, at) {
            Err(f) => Err(f),
            Ok(dress) => {
                let kept = if dress.shape == Shape::Container { children } else { bare() };
                Ok(
                    Grown {
                        boxes: kept.boxes.push(Boxed::Box(at, kept.roots, dress)),
                        roots: 1,
                    },
                )
            },
        }
    }
}

/// The boxes of the first `n` children, those that stay on the screen apart where `split` is set.
pub open spec fn all_grown(w: Layout, ids: Seq<NodeId>, n: nat, split: bool, fuel: nat) -> Result<
    (Grown, Grown),
    LayoutFault,
>
    decreases fuel, n + 1,
{
    if n == 0 {
        Ok((bare(), bare()))
    } else {
        match all_grown(w, ids, (n - 1) as nat, split, fuel) {
            Err(f) => Err(f),
            Ok((world, screen)) => match grown(w, ids[n - 1].0 as int, fuel) {
                Err(f) => Err(f),
                Ok(more) => if split && on_screen(w.artifact, ids[n - 1]) {
                    Ok((world, screen.beside(more)))
                } else {
                    Ok((world.beside(more), screen))
                },
            },
        }
    }
}

/// The boxes of a whole scene: there must be exactly one at the top.
pub open spec fn scene_grown(w: Layout) -> Result<Seq<Boxed>, LayoutFault> {
    let root = w.artifact.root.0 as int;
    match grown(w, root, w.artifact.nodes@.len()) {
        Err(f) => Err(f),
        Ok(g) => if g.roots == 1 { Ok(g.boxes) } else { Err(LayoutFault::BadNode(root)) },
    }
}

/// Boxes and how many of them stand at the top.
struct Grove {
    boxes: Vec<LayoutNode>,
    roots: usize,
}

impl Grove {
    spec fn seen(self) -> Grown {
        Grown { boxes: boxes_seen(self.boxes@), roots: self.roots as nat }
    }

    spec fn wf(self) -> bool {
        self.roots <= self.boxes@.len()
    }

    fn bare() -> (r: Grove)
        ensures
            r.wf(),
            r.seen() == bare(),
    {
        let r = Grove { boxes: Vec::new(), roots: 0 };
        assert(r.seen() =~= bare());
        r
    }

    fn join(&mut self, more: Grove)
        requires
            old(self).wf(),
            more.wf(),
        ensures
            final(self).wf(),
            final(self).seen() == old(self).seen().beside(more.seen()),
    {
        let ghost a = self.boxes@;
        let ghost b = more.boxes@;
        let mut rest = more.boxes;
        self.boxes.append(&mut rest);
        let total: usize = self.boxes.len();
        assert(total == a.len() + b.len());
        self.roots = self.roots + more.roots;
        assert(boxes_seen(self.boxes@) =~= boxes_seen(a) + boxes_seen(b));
    }

    fn cover(&mut self, top: LayoutNode)
        ensures
            final(self).wf(),
            final(self).seen() == (Grown {
                boxes: old(self).seen().boxes.push(top@),
                roots: 1,
            }),
    {
        let ghost a = self.boxes@;
        self.boxes.push(top);
        self.roots = 1;
        assert(boxes_seen(self.boxes@) =~= boxes_seen(a).push(top@));
    }
}

/// Why a walk ended early: an error of its own, or the error of a plan.
enum Halt {
    Fault(LayoutError),
    Plan(usize),
}

impl Halt {
    spec fn told(self, plans: Seq<Result<NodePlan, LayoutFault>>, f: LayoutFault) -> bool {
        match self {
            Halt::Fault(e) => e@ == f,
            Halt::Plan(at) => at < plans.len() && plans[at as int] == Err::<NodePlan, LayoutFault>(f),
        }
    }
}

fn parse_text(node: &str, declarations: &str) -> (r: Result<takumi_core::style::Style, LayoutError>)
    ensures
        plain(r) == styled(node@, declarations@),
{
    match read_style(declarations) {
        Ok(style) => Ok(style),
        Err(reason) => Err(
            LayoutError::BadStyle {
                node: node.to_owned(),
                declarations: declarations.to_owned(),
                reason,
            },
        ),
    }
}

proof fn presets_stuck(node: Seq<char>, presets: Seq<Seq<char>>, m: nat, n: nat)
    requires
        m <= n,
        last_preset(node, presets, m) is Err,
    ensures
        last_preset(node, presets, n) == last_preset(node, presets, m),
    decreases n - m,
{
    if m < n {
        presets_stuck(node, presets, m, (n - 1) as nat);
    }
}

fn parse_presets(node: &str, presets: &Vec<String>) -> (r: Result<
    Option<takumi_core::style::Style>,
    LayoutError,
>)
    ensures
        plain(r) == last_preset(node@, texts(presets@), presets@.len()),
{
    let ghost all = texts(presets@);
    let mut last: Option<takumi_core::style::Style> = None;
    let mut n: usize = 0;
    while n < presets.len()
        invariant
            n <= presets@.len(),
            all == texts(presets@),
            last_preset(node@, all, n as nat) == Ok::<
                Option<takumi_core::style::Style>,
                LayoutFault,
            >(last),
        decreases presets@.len() - n,
    {
        assert(all[n as int] == presets@[n as int]@);
        match parse_text(node, presets[n].as_str()) {
            Ok(style) => {
                last = Some(style);
            },
            Err(e) => {
                proof {
                    presets_stuck(node@, all, (n + 1) as nat, presets@.len());
                }
                return Err(e);
            },
        }
        n = n + 1;
    }
    Ok(last)
}

/// The looks of a single box.
struct Outfit {
    shape: BoxShape,
    preset: Option<takumi_core::style::Style>,
    class_name: Option<String>,
    style: Option<takumi_core::style::Style>,
}

impl Outfit {
    spec fn seen(self) -> Dress {
        Dress {
            shape: self.shape@,
            preset: self.preset,
            class_name: option_text(self.class_name),
            style: self.style,
        }
    }
}

fn dress(w: &Planned, at: usize) -> (r: Result<Outfit, Halt>)
    requires
        at < w.artifact.nodes@.len(),
        w.plans@.len() == w.artifact.nodes@.len(),
    ensures
        match r {
            Ok(o) => dressed(w@, at as int) == Ok::<Dress, LayoutFault>(o.seen()),
            Err(h) => dressed(w@, at as int) is Err && h.told(
                w@.plans,
                dressed(w@, at as int)->Err_0,
            ),
        },
{
    let node = &w.artifact.nodes[at];
    let key = node.key.as_str();
    let formula = lookup(w.formulas, key);
    let shape = match box_shape(node, w.values, at, formula) {
        Ok(shape) => shape,
        Err(e) => {
            return Err(Halt::Fault(e));
        },
    };
    let presets = node_presets(w.artifact, node, formula);
    assert(texts(presets@).len() == presets@.len());
    let preset = match parse_presets(key, &presets) {
        Ok(preset) => preset,
        Err(e) => {
            return Err(Halt::Fault(e));
        },
    };
    assert(w@.plans[at as int] == plain(w.plans@[at as int]));
    match &w.plans[at] {
        Err(_) => Err(Halt::Plan(at)),
        Ok(plan) => {
            let class_name = match &plan.class_name {
                Some(name) => Some(name.clone()),
                None => None,
            };
            if crate::text::characters(plan.declarations.as_str()).len() == 0 {
                return Ok(Outfit { shape, preset, class_name, style: None });
            }
            match parse_text(key, plan.declarations.as_str()) {
                Ok(style) => Ok(Outfit { shape, preset, class_name, style: Some(style) }),
                Err(e) => Err(Halt::Fault(e)),
            }
        },
    }
}

proof fn growth_stuck(w: Layout, ids: Seq<NodeId>, m: nat, n: nat, split: bool, fuel: nat)
    requires
        m <= n,
        all_grown(w, ids, m, split, fuel) is Err,
    ensures
        all_grown(w, ids, n, split, fuel) == all_grown(w, ids, m, split, fuel),
    decreases n - m,
{
    if m < n {
        growth_stuck(w, ids, m, (n - 1) as nat, split, fuel);
    }
}

fn projected_nodes_of(w: &Planned, at: usize, fuel: usize) -> (r: Result<Grove, Halt>)
    requires
        w.plans@.len() == w.artifact.nodes@.len(),
    ensures
        match r {
            Ok(g) => g.wf() && grown(w@, at as int, fuel as nat) == Ok::<Grown, LayoutFault>(
                g.seen(),
            ),
            Err(h) => grown(w@, at as int, fuel as nat) is Err && h.told(
                w@.plans,
                grown(w@, at as int, fuel as nat)->Err_0,
            ),
        },
    decreases fuel, 0nat,
{
    if fuel == 0 || at >= w.artifact.nodes.len() {
        return Err(Halt::Fault(LayoutError::BadNode { at }));
    }
    let ids = match w.artifact.child_ids(at) {
        Some(ids) => ids,
        None => {
            return Err(Halt::Fault(LayoutError::BadNode { at }));
        },
    };
    let split: bool = w.camera && at == w.artifact.root.0 as usize;
    let (mut children, screen) = match project_all(w, &ids, split, fuel - 1) {
        Ok(both) => both,
        Err(h) => {
            return Err(h);
        },
    };
    if split {
        let world: usize = children.roots;
        children.cover(LayoutNode::World { children: world });
        children.join(screen);
    }
    match &w.artifact.nodes[at].kind {
        NodeKind::GlassField(_) => {
            return Ok(children);
        },
        _ => {},
    }
    let outfit = match dress(w, at) {
        Ok(outfit) => outfit,
        Err(h) => {
            return Err(h);
        },
    };
    let keeps: bool = match &outfit.shape {
        BoxShape::Container => true,
        _ => false,
    };
    let mut kept = if keeps { children } else { Grove::bare() };
    let count: usize = kept.roots;
    kept.cover(
        LayoutNode::Box {
            node: at,
            children: count,
            shape: outfit.shape,
            preset: outfit.preset,
            class_name: outfit.class_name,
            style: outfit.style,
        },
    );
    Ok(kept)
}

fn project_all(w: &Planned, ids: &Vec<NodeId>, split: bool, fuel: usize) -> (r: Result<
    (Grove, Grove),
    Halt,
>)
    requires
        w.plans@.len() == w.artifact.nodes@.len(),
    ensures
        ({
            let all = all_grown(w@, ids@, ids@.len(), split, fuel as nat);
            match r {
                Ok((world, screen)) => world.wf() && screen.wf() && all == Ok::<
                    (Grown, Grown),
                    LayoutFault,
                >((world.seen(), screen.seen())),
                Err(h) => all is Err && h.told(w@.plans, all->Err_0),
            }
        }),
    decreases fuel, 1nat,
{
    let mut world = Grove::bare();
    let mut screen = Grove::bare();
    let mut n: usize = 0;
    while n < ids.len()
        invariant
            w.plans@.len() == w.artifact.nodes@.len(),
            n <= ids@.len(),
            world.wf(),
            screen.wf(),
            all_grown(w@, ids@, n as nat, split, fuel as nat) == Ok::<(Grown, Grown), LayoutFault>(
                (world.seen(), screen.seen()),
            ),
        decreases ids@.len() - n,
    {
        match projected_nodes_of(w, ids[n].0 as usize, fuel) {
            Ok(more) => {
                if split && is_on_screen(w.artifact, ids[n]) {
                    screen.join(more);
                } else {
                    world.join(more);
                }
            },
            Err(h) => {
                proof {
                    growth_stuck(w@, ids@, (n + 1) as nat, ids@.len(), split, fuel as nat);
                }
                return Err(h);
            },
        }
        n = n + 1;
    }
    Ok((world, screen))
}

/// Whether every node of a scene has its plan.
pub open spec fn all_planned<T: Fn(&MotionValue) -> String>(
    tokens: T,
    a: SceneArtifact,
    values: Seq<Value>,
    formulas: Seq<Entry<FormulaBox>>,
    planes: Option<Seq<Entry<PlanePlacement>>>,
    all: Seq<Result<NodePlan, LayoutFault>>,
) -> bool {
    all.len() == a.nodes@.len() && forall|i: int|
        0 <= i < all.len() ==> plans(tokens, a, i, values, formulas, planes, #[trigger] all[i])
}

/// Whether `r` holds the boxes of a scene this frame.
pub open spec fn boxes_told<T: Fn(&MotionValue) -> String>(
    tokens: T,
    a: SceneArtifact,
    values: Seq<Value>,
    formulas: Seq<Entry<FormulaBox>>,
    planes: Option<Seq<Entry<PlanePlacement>>>,
    camera: bool,
    r: Result<Seq<Boxed>, LayoutFault>,
) -> bool {
    exists|all: Seq<Result<NodePlan, LayoutFault>>| #[trigger]
        all_planned(tokens, a, values, formulas, planes, all) && r == scene_grown(
            Layout { artifact: a, values, formulas, plans: all, camera },
        )
}

/// A list of boxes by its contents.
pub open spec fn list_seen(r: Result<Vec<LayoutNode>, LayoutError>) -> Result<Seq<Boxed>, LayoutFault> {
    match r {
        Ok(v) => Ok(boxes_seen(v@)),
        Err(e) => Err(e@),
    }
}

/// The boxes of a scene this frame, in post-order. `camera` says whether its world is wrapped.
pub fn node_of<T: Fn(&MotionValue) -> String>(
    tokens: &T,
    artifact: &SceneArtifact,
    values: &Vec<MotionValue>,
    formulas: &Vec<Entry<FormulaBox>>,
    planes: Option<&Vec<Entry<PlanePlacement>>>,
    camera: bool,
) -> (r: Result<Vec<LayoutNode>, LayoutError>)
    requires
        forall|v: MotionValue| call_requires(*tokens, (&v,)),
    ensures
        boxes_told(
            *tokens,
            *artifact,
            values_of(values@),
            formulas@,
            planes_given(planes),
            camera,
            list_seen(r),
        ),
{
    let mut all: Vec<Result<NodePlan, LayoutError>> = Vec::new();
    let mut i: usize = 0;
    while i < artifact.nodes.len()
        invariant
            forall|v: MotionValue| call_requires(*tokens, (&v,)),
            i <= artifact.nodes@.len(),
            all@.len() == i,
            forall|k: int|
                0 <= k < i ==> plans(
                    *tokens,
                    *artifact,
                    k,
                    values_of(values@),
                    formulas@,
                    planes_given(planes),
                    plain(#[trigger] all@[k]),
                ),
        decreases artifact.nodes@.len() - i,
    {
        all.push(node_plan(tokens, artifact, i, values, formulas, planes));
        i = i + 1;
    }
    let ghost told = plans_seen(all@);
    assert(all_planned(
        *tokens,
        *artifact,
        values_of(values@),
        formulas@,
        planes_given(planes),
        told,
    ));
    let root: usize = artifact.root.0 as usize;
    let walked = projected_nodes_of(
        &Planned { artifact, values, formulas, plans: &all, camera },
        root,
        artifact.nodes.len(),
    );
    match walked {
        Ok(grove) => {
            if grove.roots != 1 {
                return Err(LayoutError::BadNode { at: root });
            }
            Ok(grove.boxes)
        },
        Err(Halt::Fault(e)) => Err(e),
        Err(Halt::Plan(at)) => {
            assert(told[at as int] == plain(all@[at as int]));
            match all.swap_remove(at) {
                Ok(_) => Err(LayoutError::BadNode { at }),
                Err(e) => Err(e),
            }
        },
    }
}

/// The parsed styles of a camera: its two wrappers, and the block around the world.
pub struct CameraWrappers {
    pub outer: takumi_core::style::Style,
    pub inner: takumi_core::style::Style,
    pub block: takumi_core::style::Style,
}

/// What the styles of a camera parse to, in order; errors name `owner`.
pub open spec fn camera_parsed(owner: Seq<char>, outer: Seq<char>, inner: Seq<char>) -> Result<
    CameraWrappers,
    LayoutFault,
> {
    match styled(owner, outer) {
        Err(f) => Err(f),
        Ok(outer) => match styled(owner, inner) {
            Err(f) => Err(f),
            Ok(inner) => match styled(owner, "display: block"@) {
                Err(f) => Err(f),
                Ok(block) => Ok(CameraWrappers { outer, inner, block }),
            },
        },
    }
}

/// Parses the styles of a camera; `probe` says whether it only measures.
pub fn camera_wrappers(styles: &CameraStyles, probe: bool) -> (r: Result<CameraWrappers, LayoutError>)
    ensures
        plain(r) == camera_parsed(
            if probe { "<camera-probe>"@ } else { "<camera>"@ },
            styles.outer@,
            styles.inner@,
        ),
{
    let owner = if probe { "<camera-probe>" } else { "<camera>" };
    let outer = match parse_text(owner, styles.outer.as_str()) {
        Ok(style) => style,
        Err(e) => {
            return Err(e);
        },
    };
    let inner = match parse_text(owner, styles.inner.as_str()) {
        Ok(style) => style,
        Err(e) => {
            return Err(e);
        },
    };
    match parse_text(owner, "display: block") {
        Ok(block) => Ok(CameraWrappers { outer, inner, block }),
        Err(e) => Err(e),
    }
}

/// Fields have no boxes of their own: what a field grows are the boxes of its children.
pub proof fn fields_leave_no_box(w: Layout, at: int, fuel: nat, ids: Seq<NodeId>)
    requires
        fuel > 0,
        0 <= at < w.artifact.nodes@.len(),
        w.artifact.nodes@[at].kind is GlassField,
        w.artifact.children_of(at) == Some(ids),
        !(w.camera && at == w.artifact.root.0),
        grown(w, at, fuel) is Ok,
    ensures
        grown(w, at, fuel)->Ok_0 == all_grown(w, ids, ids.len(), false, (fuel - 1) as nat)->Ok_0.0,
{
}

/// Every node but a field becomes exactly one box at the top of what it grows, and that box is its
/// own.
pub proof fn nodes_grow_one_box(w: Layout, at: int, fuel: nat)
    requires
        grown(w, at, fuel) is Ok,
        !(w.artifact.nodes@[at].kind is GlassField),
    ensures
        ({
            let g = grown(w, at, fuel)->Ok_0;
            g.roots == 1 && g.boxes.len() > 0 && (g.boxes.last() matches Boxed::Box(node, _, _)
                && node == at)
        }),
{
}

/// Which node a box stands for, and how many boxes it holds; the wrapper of a world stands for none.
pub open spec fn joint(b: Boxed) -> (Option<int>, nat) {
    match b {
        Boxed::World(children) => (None, children),
        Boxed::Box(node, children, _) => (Some(node), children),
    }
}

/// Boxes without what they look like.
pub open spec fn skeleton(boxes: Seq<Boxed>) -> Seq<(Option<int>, nat)> {
    boxes.map_values(|b: Boxed| joint(b))
}

/// Whether boxes stand for the same nodes, nested in the same way.
pub open spec fn alike(a: Grown, b: Grown) -> bool {
    skeleton(a.boxes) == skeleton(b.boxes) && a.roots == b.roots
}

proof fn skeletons_join(a: Seq<Boxed>, b: Seq<Boxed>)
    ensures
        skeleton(a + b) == skeleton(a) + skeleton(b),
{
    assert(skeleton(a + b) =~= skeleton(a) + skeleton(b));
}

proof fn skeletons_grow(a: Seq<Boxed>, b: Boxed)
    ensures
        skeleton(a.push(b)) == skeleton(a).push(joint(b)),
{
    assert(skeleton(a.push(b)) =~= skeleton(a).push(joint(b)));
}

proof fn nodes_grow_alike(w: Layout, v: Layout, at: int, fuel: nat)
    requires
        w.artifact == v.artifact,
        w.camera == v.camera,
        grown(w, at, fuel) is Ok,
        grown(v, at, fuel) is Ok,
    ensures
        alike(grown(w, at, fuel)->Ok_0, grown(v, at, fuel)->Ok_0),
    decreases fuel, 0nat,
{
    let ids = w.artifact.children_of(at)->0;
    let split = w.camera && at == w.artifact.root.0;
    let less = (fuel - 1) as nat;
    children_grow_alike(w, v, ids, ids.len(), split, less);
    let (world, screen) = all_grown(w, ids, ids.len(), split, less)->Ok_0;
    let (earth, sky) = all_grown(v, ids, ids.len(), split, less)->Ok_0;
    let a = gathered(split, world, screen);
    let b = gathered(split, earth, sky);
    if split {
        let x = world.boxes.push(Boxed::World(world.roots));
        let y = earth.boxes.push(Boxed::World(earth.roots));
        skeletons_grow(world.boxes, Boxed::World(world.roots));
        skeletons_grow(earth.boxes, Boxed::World(earth.roots));
        skeletons_join(x, screen.boxes);
        skeletons_join(y, sky.boxes);
    }
    assert(alike(a, b));
    if !(w.artifact.nodes@[at].kind is GlassField) {
        let left = dressed(w, at)->Ok_0;
        let right = dressed(v, at)->Ok_0;
        assert((left.shape == Shape::Container) == (right.shape == Shape::Container));
        let kept = if left.shape == Shape::Container { a } else { bare() };
        let held = if right.shape == Shape::Container { b } else { bare() };
        skeletons_grow(kept.boxes, Boxed::Box(at, kept.roots, left));
        skeletons_grow(held.boxes, Boxed::Box(at, held.roots, right));
    }
}

proof fn children_grow_alike(
    w: Layout,
    v: Layout,
    ids: Seq<NodeId>,
    n: nat,
    split: bool,
    fuel: nat,
)
    requires
        w.artifact == v.artifact,
        w.camera == v.camera,
        all_grown(w, ids, n, split, fuel) is Ok,
        all_grown(v, ids, n, split, fuel) is Ok,
    ensures
        alike(all_grown(w, ids, n, split, fuel)->Ok_0.0, all_grown(v, ids, n, split, fuel)->Ok_0.0),
        alike(all_grown(w, ids, n, split, fuel)->Ok_0.1, all_grown(v, ids, n, split, fuel)->Ok_0.1),
    decreases fuel, n + 1,
{
    if n > 0 {
        let m = (n - 1) as nat;
        let at = ids[n - 1].0 as int;
        children_grow_alike(w, v, ids, m, split, fuel);
        nodes_grow_alike(w, v, at, fuel);
        let (world, screen) = all_grown(w, ids, m, split, fuel)->Ok_0;
        let (earth, sky) = all_grown(v, ids, m, split, fuel)->Ok_0;
        let x = grown(w, at, fuel)->Ok_0;
        let y = grown(v, at, fuel)->Ok_0;
        skeletons_join(world.boxes, x.boxes);
        skeletons_join(earth.boxes, y.boxes);
        skeletons_join(screen.boxes, x.boxes);
        skeletons_join(sky.boxes, y.boxes);
    }
}

/// The topology of a scene is fixed: whatever its values are, those of visibility too, the boxes that
/// are handed to layout stand for the same nodes and are nested in the same way.
pub proof fn topology_is_fixed<T: Fn(&MotionValue) -> String>(
    tokens: T,
    a: SceneArtifact,
    values: Seq<Value>,
    others: Seq<Value>,
    formulas: Seq<Entry<FormulaBox>>,
    fragments: Seq<Entry<FormulaBox>>,
    planes: Option<Seq<Entry<PlanePlacement>>>,
    spaces: Option<Seq<Entry<PlanePlacement>>>,
    camera: bool,
    r: Seq<Boxed>,
    s: Seq<Boxed>,
)
    requires
        boxes_told(tokens, a, values, formulas, planes, camera, Ok(r)),
        boxes_told(tokens, a, others, fragments, spaces, camera, Ok(s)),
    ensures
        skeleton(r) == skeleton(s),
{
    let p = choose|all: Seq<Result<NodePlan, LayoutFault>>| #[trigger]
        all_planned(tokens, a, values, formulas, planes, all) && Ok::<Seq<Boxed>, LayoutFault>(r)
            == scene_grown(Layout { artifact: a, values, formulas, plans: all, camera });
    let q = choose|all: Seq<Result<NodePlan, LayoutFault>>| #[trigger]
        all_planned(tokens, a, others, fragments, spaces, all) && Ok::<Seq<Boxed>, LayoutFault>(s)
            == scene_grown(
            Layout { artifact: a, values: others, formulas: fragments, plans: all, camera },
        );
    let w = Layout { artifact: a, values, formulas, plans: p, camera };
    let v = Layout { artifact: a, values: others, formulas: fragments, plans: q, camera };
    nodes_grow_alike(w, v, a.root.0 as int, a.nodes@.len());
}

} // verus!
