//! Painting a whole frame: stacking contexts in paint order, the material fields inside them, and
//! the account of formulas.

use vstd::prelude::*;

use crate::content::{
    concealed_marked, content_painted, run_entered, runs_after, unplaced_reported, BatchContent,
    ContentStep, ContentTree, FieldRuns, ImageContent, RenderEntry, Runs,
};
use crate::emitter::{
    closing_balances, grew, grew_more, grew_nothing, note_texts, texts, EmitError, Emitter, Note,
    Open, Recorded,
};
use crate::frame::{
    field_begun, field_failure, field_owner, field_step, innermost_of, is_culled, is_skipped,
    node_begun, node_failure, option_text, quoted, Failure, GlassOwners, NodePaint, PaintTree,
    RelativeStep,
};
use crate::recording::{balanced, depth_of, Affine, Command, FilterOp};
use crate::runs::{
    address_reports, inlines_painted, layers_painted, shadows_painted, text_painted, InlineItem,
    RunLayer, TextContent, TextRun, TextShadow,
};
use crate::scalar::{num, Scalar, ONE, ZERO};
use crate::scene_frames::{
    frames_fail, frames_told, scene3d_frames, CanonicalError, GeneratedTexture, Scene3DFrameRequest,
};
use crate::table::{find, lookup, mapped, store, Entry};

verus! {

/// A node of the paint order with what it shows.
pub struct PaintNode {
    pub paint: NodePaint,
    pub image: Option<ImageContent>,
    pub text: Option<TextContent>,
}

/// One entry of a stacking context's paint order.
pub enum PaintItem {
    Node(PaintNode),
    /// A nested stacking context.
    Context(usize),
}

/// A stacking context: the node that owns it, and its items from back to front.
pub struct StackingContext {
    pub root: Option<PaintNode>,
    pub items: Vec<PaintItem>,
}

/// A laid-out scene, ready to be painted.
pub struct PaintScene {
    pub tree: PaintTree,
    pub content: ContentTree,
    /// The outermost context stands first.
    pub contexts: Vec<StackingContext>,
    /// The render nodes in pre-order.
    pub nodes: Vec<RenderEntry>,
}

/// Instances of the first `n` batches.
pub open spec fn instance_sum(batches: Seq<Entry<BatchContent>>, n: nat) -> int
    decreases n,
{
    if n == 0 {
        0
    } else {
        instance_sum(batches, (n - 1) as nat) + batch_size(batches[n - 1].value)
    }
}

/// Instances of one batch.
pub open spec fn batch_size(batch: BatchContent) -> int {
    if batch.instances.start < batch.instances.end {
        batch.instances.end - batch.instances.start
    } else {
        0
    }
}

/// What the authored batches take of the frame's instance budget, at most all that can be counted.
pub open spec fn reserved_of(batches: Seq<Entry<BatchContent>>, n: nat) -> int {
    let sum = instance_sum(batches, n);
    if sum > usize::MAX {
        usize::MAX as int
    } else {
        sum
    }
}

/// Counts the instances of all authored batches, without passing the greatest count.
pub fn reserved_instances(batches: &Vec<Entry<BatchContent>>) -> (r: usize)
    ensures
        r == reserved_of(batches@, batches@.len()),
{
    let mut total: usize = 0;
    let mut i: usize = 0;
    while i < batches.len()
        invariant
            i <= batches@.len(),
            total == reserved_of(batches@, i as nat),
            instance_sum(batches@, i as nat) >= 0,
        decreases batches@.len() - i,
    {
        let range = batches[i].value.instances;
        let size: usize = if range.start < range.end {
            range.end - range.start
        } else {
            0
        };
        total = if total > usize::MAX - size {
            usize::MAX
        } else {
            total + size
        };
        i = i + 1;
    }
    total
}

/// Whether the text of a node can be painted.
#[verifier::opaque]
pub open spec fn node_wf(n: PaintNode) -> bool {
    n.text matches Some(t) ==> t.wf()
}

pub open spec fn item_wf(item: PaintItem, index: int) -> bool {
    match item {
        PaintItem::Node(n) => node_wf(n),
        PaintItem::Context(c) => index < c,
    }
}

/// Whether a context holds only nodes that can be painted and contexts that stand after it.
#[verifier::opaque]
pub open spec fn context_wf(cx: StackingContext, index: int) -> bool {
    &&& cx.root matches Some(n) ==> node_wf(n)
    &&& forall|k: int| 0 <= k < cx.items@.len() ==> item_wf(#[trigger] cx.items@[k], index)
}

impl PaintScene {
    /// Nested contexts stand after the context that holds them, texts are well-formed, and the
    /// budget knows the authored batches.
    pub open spec fn wf(self) -> bool {
        &&& forall|i: int|
            0 <= i < self.contexts@.len() ==> context_wf(#[trigger] self.contexts@[i], i)
        &&& self.tree.reserved == reserved_of(self.content.batches@, self.content.batches@.len())
    }

    /// The material field of a painted node.
    pub open spec fn node_field(self, np: NodePaint) -> Option<Seq<char>> {
        match self.tree.any_key(np) {
            Some(key) => match find(self.tree.glass.node_fields@, key) {
                Some(field) => Some(field@),
                None => None,
            },
            None => None,
        }
    }

    /// The material field of an item: that of its node, or of the node that owns its context.
    pub open spec fn item_field(self, item: PaintItem) -> Option<Seq<char>> {
        match item {
            PaintItem::Node(n) => self.node_field(n.paint),
            PaintItem::Context(c) => if c < self.contexts@.len() {
                match self.contexts@[c as int].root {
                    Some(n) => self.node_field(n.paint),
                    None => None,
                }
            } else {
                None
            },
        }
    }

    /// The material fields of a context's items, in paint order.
    pub open spec fn fields_of(self, index: int) -> Seq<Option<Seq<char>>> {
        self.contexts@[index].items@.map_values(|item: PaintItem| self.item_field(item))
    }
}

/// Whether a host relates every two transforms, always in the same way.
pub open spec fn relates<F: Fn(&Affine, &Affine) -> RelativeStep>(relate: F) -> bool {
    &&& forall|cur: Affine, target: Affine| #[trigger] call_requires(relate, (&cur, &target))
    &&& forall|cur: Affine, target: Affine, a: RelativeStep, b: RelativeStep|
        #[trigger] call_ensures(relate, (&cur, &target), a) && #[trigger] call_ensures(
            relate,
            (&cur, &target),
            b,
        ) ==> a == b
}

/// How the host relates a target to the cursor.
pub open spec fn step_of<F: Fn(&Affine, &Affine) -> RelativeStep>(
    relate: F,
    cur: Affine,
    target: Affine,
) -> RelativeStep {
    choose|step: RelativeStep| call_ensures(relate, (&cur, &target), step)
}

/// What to close once `opened` has followed `r`.
pub open spec fn open_of(r: Recorded, opened: Recorded, hidden: bool) -> Open {
    Open {
        depth: depth_of(opened.commands.skip(r.commands.len() as int)) as usize,
        prev: r.cur,
        materials: r.materials.len() as usize,
        hidden,
    }
}

/// The state once a node is open, and what to close after it.
#[verifier::opaque]
pub open spec fn node_entered<F: Fn(&Affine, &Affine) -> RelativeStep>(
    relate: F,
    tree: PaintTree,
    np: NodePaint,
    r: Recorded,
) -> Result<(Recorded, Open), Failure> {
    let step = step_of(relate, r.cur, np.facts.transform);
    match node_failure(r, tree, np, step) {
        Some(e) => Err(e),
        None => {
            let opened = node_begun(r, tree, np, step);
            Ok((opened, open_of(r, opened, !is_skipped(np) && is_culled(tree, np))))
        },
    }
}

/// The state once a node's content is painted.
#[verifier::opaque]
pub open spec fn node_filled(s: PaintScene, n: PaintNode, r: Recorded) -> Recorded {
    let (painted, step) = content_painted(r, s.tree, n.paint, s.content, n.image, n.text is Some);
    if step == ContentStep::Text {
        text_painted(painted, s.tree.label(n.paint), n.text->0)
    } else {
        painted
    }
}

/// A single node: its groups are opened, filled unless it is hidden, and closed.
#[verifier::opaque]
pub open spec fn node_shown<F: Fn(&Affine, &Affine) -> RelativeStep>(
    relate: F,
    s: PaintScene,
    n: PaintNode,
    r: Recorded,
) -> Result<Recorded, Failure> {
    match node_entered(relate, s.tree, n.paint, r) {
        Err(e) => Err(e),
        Ok((opened, open)) => Ok(
            if open.hidden {
                opened.closed(open)
            } else {
                node_filled(s, n, opened).closed(open)
            },
        ),
    }
}

/// How far painting the items of a context has come.
pub struct Stage {
    pub recorded: Recorded,
    pub runs: Runs,
    /// What to close when the open field ends.
    pub field: Option<Open>,
}

/// The state once a field is open, and what to close after it.
#[verifier::opaque]
pub open spec fn field_entered<F: Fn(&Affine, &Affine) -> RelativeStep>(
    relate: F,
    glass: GlassOwners,
    id: Seq<char>,
    r: Recorded,
) -> Result<(Recorded, Open), Failure> {
    match field_step(glass, id) {
        Err(after) => Err(Failure::Program(quoted("GlassField "@, id, after))),
        Ok((owner, program)) => {
            let step = step_of(relate, r.cur, owner);
            match field_failure(glass, id, step) {
                Some(e) => Err(e),
                None => {
                    let opened = field_begun(r, id, owner, program, step);
                    Ok((opened, open_of(r, opened, false)))
                },
            }
        },
    }
}

/// The stage before an item of a field is painted: a run of another field is closed, and the run
/// of this one is opened.
#[verifier::opaque]
pub open spec fn field_changed<F: Fn(&Affine, &Affine) -> RelativeStep>(
    relate: F,
    s: PaintScene,
    st: Stage,
    desired: Option<Seq<char>>,
    inherited: Option<Seq<char>>,
) -> Result<Stage, Failure> {
    match run_entered(st.runs, desired, inherited) {
        Err(field) => Err(
            Failure::Program(
                quoted("GlassField "@, field, " is split into discontiguous painter-order runs"@),
            ),
        ),
        Ok((runs, change)) => {
            let left = if change.close {
                st.recorded.closed(st.field->0)
            } else {
                st.recorded
            };
            if change.open {
                match field_entered(relate, s.tree.glass, desired->0, left) {
                    Err(e) => Err(e),
                    Ok((opened, open)) => Ok(Stage { recorded: opened, runs, field: Some(open) }),
                }
            } else {
                Ok(
                    Stage {
                        recorded: left,
                        runs,
                        field: if change.close {
                            None
                        } else {
                            st.field
                        },
                    },
                )
            }
        },
    }
}

/// The state once an item of the context `index` is painted.
pub open spec fn item_shown<F: Fn(&Affine, &Affine) -> RelativeStep>(
    relate: F,
    s: PaintScene,
    index: int,
    item: PaintItem,
    r: Recorded,
) -> Result<Recorded, Failure>
    decreases s.contexts@.len() - index, 0nat, 0int,
{
    match item {
        PaintItem::Node(n) => node_shown(relate, s, n, r),
        PaintItem::Context(c) => if index < c < s.contexts@.len() {
            context_shown(relate, s, c as int, r)
        } else {
            Ok(r)
        },
    }
}

/// The stage once the first `k` items of a context are painted.
pub open spec fn items_shown<F: Fn(&Affine, &Affine) -> RelativeStep>(
    relate: F,
    s: PaintScene,
    index: int,
    k: nat,
    r: Recorded,
    inherited: Option<Seq<char>>,
) -> Result<Stage, Failure>
    decreases s.contexts@.len() - index, k, 1int,
{
    if k == 0 || index >= s.contexts@.len() {
        Ok(
            Stage {
                recorded: r,
                runs: Runs { open: None, closed: Seq::empty() },
                field: None,
            },
        )
    } else {
        let item = s.contexts@[index].items@[k - 1];
        match items_shown(relate, s, index, (k - 1) as nat, r, inherited) {
            Err(e) => Err(e),
            Ok(before) => match field_changed(relate, s, before, s.item_field(item), inherited) {
                Err(e) => Err(e),
                Ok(st) => match item_shown(relate, s, index, item, st.recorded) {
                    Err(e) => Err(e),
                    Ok(recorded) => Ok(Stage { recorded, ..st }),
                },
            },
        }
    }
}

/// The state once a stacking context is painted: its owner's groups and content, its items in
/// order, and the ends. A hidden owner suppresses the complete context.
pub open spec fn context_shown<F: Fn(&Affine, &Affine) -> RelativeStep>(
    relate: F,
    s: PaintScene,
    index: int,
    r: Recorded,
) -> Result<Recorded, Failure>
    decreases
            s.contexts@.len() - index,
            s.contexts@[index].items@.len() + 1,
            0int,
{
    if index < 0 || index >= s.contexts@.len() {
        Ok(r)
    } else {
        let cx = s.contexts@[index];
        match root_entered(relate, s, index, r) {
            Err(e) => Err(e),
            Ok((opened, open)) => if open.hidden {
                Ok(opened.closed(open))
            } else {
                let filled = root_filled(s, index, opened);
                match items_shown(
                    relate,
                    s,
                    index,
                    cx.items@.len(),
                    filled,
                    innermost_of(filled.materials),
                ) {
                    Err(e) => Err(e),
                    Ok(st) => Ok(stage_left(st).closed(open)),
                }
            },
        }
    }
}

/// The state once the node that owns a context is open.
pub open spec fn root_entered<F: Fn(&Affine, &Affine) -> RelativeStep>(
    relate: F,
    s: PaintScene,
    index: int,
    r: Recorded,
) -> Result<(Recorded, Open), Failure> {
    match s.contexts@[index].root {
        Some(n) => node_entered(relate, s.tree, n.paint, r),
        None => Ok((r, r.nothing_open())),
    }
}

/// The state once the node that owns a context has painted its content.
pub open spec fn root_filled(s: PaintScene, index: int, r: Recorded) -> Recorded {
    match s.contexts@[index].root {
        Some(n) => node_filled(s, n, r),
        None => r,
    }
}

/// The state once the last field run of a context is closed.
pub open spec fn stage_left(st: Stage) -> Recorded {
    match st.field {
        Some(open) => st.recorded.closed(open),
        None => st.recorded,
    }
}

proof fn layers_are_local(r: Recorded, node: Seq<char>, layers: Seq<RunLayer>, n: nat)
    ensures
        layers_painted(r, node, layers, n).materials == r.materials,
        layers_painted(r, node, layers, n).cur == r.cur,
    decreases n,
{
    if n > 0 {
        layers_are_local(r, node, layers, (n - 1) as nat);
    }
}

proof fn shadows_are_local(r: Recorded, node: Seq<char>, shadows: Seq<TextShadow>, n: nat)
    ensures
        shadows_painted(r, node, shadows, n).materials == r.materials,
        shadows_painted(r, node, shadows, n).cur == r.cur,
    decreases n,
{
    if n > 0 {
        shadows_are_local(r, node, shadows, (n - 1) as nat);
        let before = shadows_painted(r, node, shadows, (n - 1) as nat);
        let shadow = shadows[shadows.len() - n];
        match shadow.sigma {
            Some(sigma) => {
                let ops = seq![FilterOp::Blur { sigma }];
                layers_are_local(
                    before.intern_filters(ops).put(
                        Command::BeginFilter { filters: before.filter_range(ops) },
                    ),
                    node,
                    shadow.layers@,
                    shadow.layers@.len(),
                );
            },
            None => {
                layers_are_local(before, node, shadow.layers@, shadow.layers@.len());
            },
        }
    }
}

proof fn inlines_are_local(r: Recorded, node: Seq<char>, items: Seq<InlineItem>, n: nat)
    ensures
        inlines_painted(r, node, items, n).materials == r.materials,
        inlines_painted(r, node, items, n).cur == r.cur,
    decreases n,
{
    if n > 0 {
        inlines_are_local(r, node, items, (n - 1) as nat);
    }
}

proof fn addresses_are_local(r: Recorded, node: Seq<char>, runs: Seq<TextRun>, n: nat)
    ensures
        address_reports(r, node, runs, n).materials == r.materials,
        address_reports(r, node, runs, n).cur == r.cur,
    decreases n,
{
    if n > 0 {
        addresses_are_local(r, node, runs, (n - 1) as nat);
    }
}

/// Painting the content of a node moves neither the cursor nor the material stack.
pub proof fn content_is_local(s: PaintScene, n: PaintNode, r: Recorded)
    ensures
        node_filled(s, n, r).materials == r.materials,
        node_filled(s, n, r).cur == r.cur,
{
    reveal(node_filled);
    let (painted, step) = content_painted(r, s.tree, n.paint, s.content, n.image, n.text is Some);
    if step == ContentStep::Text {
        let t = n.text->0;
        let node = s.tree.label(n.paint);
        addresses_are_local(painted, node, t.runs@, t.runs@.len());
        let r1 = address_reports(painted, node, t.runs@, t.runs@.len());
        let r2 = crate::runs::path_reports(r1, node, t.paths@, t.runs@);
        shadows_are_local(r2, node, t.shadows@, t.shadows@.len());
        let r3 = shadows_painted(r2, node, t.shadows@, t.shadows@.len());
        layers_are_local(r3, node, t.layers@, t.layers@.len());
        let r4 = layers_painted(r3, node, t.layers@, t.layers@.len());
        inlines_are_local(r4, node, t.inline@, t.inline@.len());
    }
}

/// Copies the innermost material.
fn innermost(materials: &Vec<String>) -> (r: Option<String>)
    ensures
        option_text(r) == innermost_of(texts(materials@)),
{
    let n: usize = materials.len();
    if n == 0 {
        return None;
    }
    assert(texts(materials@).last() == materials@[n - 1]@);
    Some(materials[n - 1].clone())
}

impl PaintScene {
    fn field_of_node(&self, np: &NodePaint) -> (r: Option<String>)
        ensures
            option_text(r) == self.node_field(*np),
    {
        match self.tree.node_key(np) {
            Some(key) => match lookup(&self.tree.glass.node_fields, key.as_str()) {
                Some(field) => Some(field.clone()),
                None => None,
            },
            None => None,
        }
    }

    /// The material field that an item belongs to.
    pub fn field_for_item(&self, item: &PaintItem) -> (r: Option<String>)
        ensures
            option_text(r) == self.item_field(*item),
    {
        match item {
            PaintItem::Node(n) => self.field_of_node(&n.paint),
            PaintItem::Context(c) => {
                if *c < self.contexts.len() {
                    match &self.contexts[*c].root {
                        Some(n) => self.field_of_node(&n.paint),
                        None => None,
                    }
                } else {
                    None
                }
            },
        }
    }
}

/// Whether a context or an item left the cursor, the material stack and the groups as they were.
#[verifier::opaque]
pub open spec fn kept_level(a: Recorded, b: Recorded) -> bool {
    grew(a, b, 0) && b.cur == a.cur && b.materials == a.materials
}

proof fn level_again(a: Recorded, b: Recorded, c: Recorded)
    requires
        kept_level(a, b),
        kept_level(b, c),
    ensures
        kept_level(a, c),
{
    reveal(kept_level);
    grew_more(a, b, c, 0, 0);
}

proof fn stays_level(a: Recorded)
    ensures
        kept_level(a, a),
{
    reveal(kept_level);
    grew_nothing(a, a);
}

/// Whether `open` closes exactly what `b` has opened since `a`.
#[verifier::opaque]
pub open spec fn opened_since(a: Recorded, b: Recorded, open: Open) -> bool {
    &&& grew(a, b, open.depth as int)
    &&& open.prev == a.cur
    &&& open.materials == a.materials.len()
    &&& a.materials.is_prefix_of(b.materials)
}

proof fn open_further(a: Recorded, b: Recorded, c: Recorded, open: Open)
    requires
        opened_since(a, b, open),
        kept_level(b, c),
    ensures
        opened_since(a, c, open),
{
    reveal(kept_level);
    reveal(opened_since);
    grew_more(a, b, c, open.depth as int, 0);
}

proof fn nothing_opened(a: Recorded, open: Open)
    requires
        open == a.nothing_open(),
        open.materials == a.materials.len(),
    ensures
        opened_since(a, a, open),
{
    reveal(opened_since);
    grew_nothing(a, a);
    assert(a.materials.subrange(0, a.materials.len() as int) =~= a.materials);
}

proof fn closes_level(a: Recorded, b: Recorded, open: Open)
    requires
        opened_since(a, b, open),
    ensures
        kept_level(a, b.closed(open)),
        open.materials <= b.materials.len(),
{
    reveal(kept_level);
    reveal(opened_since);
    closing_balances(a, b, open);
    assert(b.materials.take(open.materials as int) =~= a.materials);
}

impl Emitter {
    /// Opens a node's groups.
    fn enter_node<F: Fn(&Affine, &Affine) -> RelativeStep>(
        &mut self,
        relate: &F,
        tree: &PaintTree,
        np: &NodePaint,
    ) -> (r: Result<Open, EmitError>)
        requires
            relates(*relate),
        ensures
            match r {
                Ok(open) => node_entered(*relate, *tree, *np, old(self)@) == Ok::<
                    (Recorded, Open),
                    Failure,
                >((final(self)@, open)) && opened_since(old(self)@, final(self)@, open),
                Err(e) => node_entered(*relate, *tree, *np, old(self)@) == Err::<
                    (Recorded, Open),
                    Failure,
                >(e@),
            },
    {
        proof {
            reveal(node_entered);
            reveal(opened_since);
        }
        let step = relate(&self.cur, &np.facts.transform);
        assert(step == step_of(*relate, self@.cur, np.facts.transform));
        self.begin_node(tree, np, step)
    }

    /// Paints what a node shows.
    fn fill_node(&mut self, s: &PaintScene, n: &PaintNode)
        requires
            node_wf(*n),
        ensures
            final(self)@ == node_filled(*s, *n, old(self)@),
            kept_level(old(self)@, final(self)@),
    {
        proof {
            reveal(node_filled);
            reveal(node_wf);
            reveal(kept_level);
            content_is_local(*s, *n, old(self)@);
        }
        let step = self.node_content(&s.tree, &n.paint, &s.content, &n.image, n.text.is_some());
        let ghost painted = self@;
        if step == ContentStep::Text {
            match &n.text {
                Some(t) => {
                    let label = s.tree.node_label(&n.paint);
                    self.text(label.as_str(), t);
                    proof {
                        grew_more(old(self)@, painted, self@, 0, 0);
                    }
                },
                None => {},
            }
        }
    }

    /// Closes and opens material fields as the next item wants it. `base` is the state before the
    /// context's first item.
    fn change_field<F: Fn(&Affine, &Affine) -> RelativeStep>(
        &mut self,
        relate: &F,
        s: &PaintScene,
        runs: &mut FieldRuns,
        field: Option<Open>,
        desired: &Option<String>,
        inherited: &Option<String>,
        Ghost(base): Ghost<Recorded>,
    ) -> (r: Result<Option<Open>, EmitError>)
        requires
            relates(*relate),
            on_level(base, old(self)@, old(runs)@, field),
        ensures
            ({
                let before = Stage { recorded: old(self)@, runs: old(runs)@, field };
                let changed = field_changed(
                    *relate,
                    *s,
                    before,
                    option_text(*desired),
                    option_text(*inherited),
                );
                match r {
                    Ok(next) => changed == Ok::<Stage, Failure>(
                        Stage { recorded: final(self)@, runs: final(runs)@, field: next },
                    ) && on_level(base, final(self)@, final(runs)@, next),
                    Err(e) => changed == Err::<Stage, Failure>(e@),
                }
            }),
    {
        proof {
            reveal(field_changed);
            reveal(field_entered);
            reveal(kept_level);
            reveal(opened_since);
        }
        let change = match runs.enter(desired, inherited) {
            Ok(change) => change,
            Err(e) => {
                return Err(e);
            },
        };
        let mut next: Option<Open> = field;
        if change.close {
            match field {
                Some(open) => {
                    proof {
                        closes_level(base, self@, open);
                    }
                    self.end(open);
                },
                None => {},
            }
            next = None;
        }
        let ghost left = self@;
        if change.open {
            match desired {
                Some(id) => {
                    let step = match field_owner(&s.tree.glass, id.as_str()) {
                        Some(owner) => {
                            let step = relate(&self.cur, &owner);
                            assert(step == step_of(*relate, self@.cur, owner));
                            step
                        },
                        None => RelativeStep::Identity,
                    };
                    match self.begin_field(&s.tree.glass, id.as_str(), step) {
                        Ok(open) => {
                            proof {
                                grew_more(base, left, self@, 0, open.depth as int);
                            }
                            next = Some(open);
                        },
                        Err(e) => {
                            return Err(e);
                        },
                    }
                },
                None => {},
            }
        }
        Ok(next)
    }
}

/// Where painting stands between two items: on the level of the context, or inside one field.
pub open spec fn on_level(base: Recorded, now: Recorded, runs: Runs, field: Option<Open>) -> bool {
    match field {
        Some(open) => opened_since(base, now, open) && runs.open is Some,
        None => kept_level(base, now) && runs.open is None,
    }
}

impl Emitter {
    /// Paints one item of the context `index`.
    #[verifier::spinoff_prover]
    fn paint_item<F: Fn(&Affine, &Affine) -> RelativeStep>(
        &mut self,
        relate: &F,
        s: &PaintScene,
        index: usize,
        item: &PaintItem,
    ) -> (r: Result<(), EmitError>)
        requires
            relates(*relate),
            s.wf(),
            index < s.contexts@.len(),
            item_wf(*item, index as int),
        ensures
            match r {
                Ok(_) => item_shown(*relate, *s, index as int, *item, old(self)@) == Ok::<
                    Recorded,
                    Failure,
                >(final(self)@) && kept_level(old(self)@, final(self)@),
                Err(e) => item_shown(*relate, *s, index as int, *item, old(self)@) == Err::<
                    Recorded,
                    Failure,
                >(e@),
            },
        decreases s.contexts@.len() - index, 0int,
    {
        proof {
            reveal(node_shown);
        }
        match item {
            PaintItem::Node(n) => {
                let open = match self.enter_node(relate, &s.tree, &n.paint) {
                    Ok(open) => open,
                    Err(e) => {
                        return Err(e);
                    },
                };
                let ghost opened = self@;
                if !open.hidden {
                    self.fill_node(s, n);
                    proof {
                        open_further(old(self)@, opened, self@, open);
                    }
                }
                proof {
                    closes_level(old(self)@, self@, open);
                }
                self.end(open);
                Ok(())
            },
            PaintItem::Context(c) => {
                if *c < s.contexts.len() {
                    self.context(relate, s, *c)
                } else {
                    proof {
                        stays_level(self@);
                    }
                    Ok(())
                }
            },
        }
    }

    /// Paints the items of the context `index` in order, each inside its material field.
    #[verifier::spinoff_prover]
    #[verifier::rlimit(40)]
    fn paint_items<F: Fn(&Affine, &Affine) -> RelativeStep>(
        &mut self,
        relate: &F,
        s: &PaintScene,
        index: usize,
    ) -> (r: Result<(), EmitError>)
        requires
            relates(*relate),
            s.wf(),
            index < s.contexts@.len(),
        ensures
            ({
                let shown = items_shown(
                    *relate,
                    *s,
                    index as int,
                    s.contexts@[index as int].items@.len(),
                    old(self)@,
                    innermost_of(old(self)@.materials),
                );
                match r {
                    Ok(_) => shown is Ok && stage_left(shown->Ok_0) == final(self)@ && kept_level(
                        old(self)@,
                        final(self)@,
                    ),
                    Err(e) => shown == Err::<Stage, Failure>(e@),
                }
            }),
        decreases s.contexts@.len() - index, 1int,
    {
        let cx = &s.contexts[index];
        proof {
            reveal(context_wf);
            assert(context_wf(s.contexts@[index as int], index as int));
        }
        let ghost filled = self@;
        let inherited = innermost(&self.materials);
        let mut runs = FieldRuns::new();
        let mut field: Option<Open> = None;
        let total: usize = cx.items.len();
        let mut k: usize = 0;
        proof {
            stays_level(filled);
        }
        while k < total
            invariant
                relates(*relate),
                s.wf(),
                index < s.contexts@.len(),
                *cx == s.contexts@[index as int],
                context_wf(*cx, index as int),
                total == cx.items@.len(),
                k <= total,
                filled == old(self)@,
                option_text(inherited) == innermost_of(filled.materials),
                items_shown(
                    *relate,
                    *s,
                    index as int,
                    k as nat,
                    filled,
                    innermost_of(filled.materials),
                ) == Ok::<Stage, Failure>(Stage { recorded: self@, runs: runs@, field }),
                on_level(filled, self@, runs@, field),
            decreases total - k,
        {
            let item = &cx.items[k];
            let desired = s.field_for_item(item);
            proof {
                reveal(context_wf);
                assert(item_wf(cx.items@[k as int], index as int));
                items_stuck(
                    *relate,
                    *s,
                    index as int,
                    (k + 1) as nat,
                    total as nat,
                    filled,
                    innermost_of(filled.materials),
                );
            }
            match self.change_field(relate, s, &mut runs, field, &desired, &inherited, Ghost(filled)) {
                Ok(next) => {
                    field = next;
                },
                Err(e) => {
                    return Err(e);
                },
            }
            let ghost entered = self@;
            match self.paint_item(relate, s, index, item) {
                Ok(_) => {},
                Err(e) => {
                    return Err(e);
                },
            }
            proof {
                match field {
                    Some(o) => {
                        open_further(filled, entered, self@, o);
                    },
                    None => {
                        level_again(filled, entered, self@);
                    },
                }
            }
            k = k + 1;
        }
        match field {
            Some(o) => {
                proof {
                    closes_level(filled, self@, o);
                }
                self.end(o);
            },
            None => {},
        }
        Ok(())
    }

    /// Paints a stacking context: its owner, then its items in paint order.
    #[verifier::spinoff_prover]
    #[verifier::rlimit(40)]
    pub fn context<F: Fn(&Affine, &Affine) -> RelativeStep>(
        &mut self,
        relate: &F,
        s: &PaintScene,
        index: usize,
    ) -> (r: Result<(), EmitError>)
        requires
            relates(*relate),
            s.wf(),
        ensures
            match r {
                Ok(_) => context_shown(*relate, *s, index as int, old(self)@) == Ok::<
                    Recorded,
                    Failure,
                >(final(self)@) && kept_level(old(self)@, final(self)@),
                Err(e) => context_shown(*relate, *s, index as int, old(self)@) == Err::<
                    Recorded,
                    Failure,
                >(e@),
            },
        decreases s.contexts@.len() - index, 2int,
    {
        proof {
            stays_level(self@);
        }
        if index >= s.contexts.len() {
            return Ok(());
        }
        let cx = &s.contexts[index];
        proof {
            reveal(context_wf);
            assert(context_wf(s.contexts@[index as int], index as int));
        }
        let open = match &cx.root {
            Some(n) => match self.enter_node(relate, &s.tree, &n.paint) {
                Ok(open) => open,
                Err(e) => {
                    return Err(e);
                },
            },
            None => {
                let open = self.nothing_open();
                proof {
                    nothing_opened(self@, open);
                }
                open
            },
        };
        let ghost opened = self@;
        if open.hidden {
            proof {
                closes_level(old(self)@, opened, open);
            }
            self.end(open);
            return Ok(());
        }
        proof {
            stays_level(opened);
        }
        match &cx.root {
            Some(n) => {
                self.fill_node(s, n);
            },
            None => {},
        }
        let ghost filled = self@;
        proof {
            open_further(old(self)@, opened, filled, open);
        }
        match self.paint_items(relate, s, index) {
            Ok(_) => {},
            Err(e) => {
                return Err(e);
            },
        }
        proof {
            open_further(old(self)@, filled, self@, open);
            closes_level(old(self)@, self@, open);
        }
        self.end(open);
        Ok(())
    }
}

/// A failure among the first `k` items is the failure of them all.
proof fn items_stuck<F: Fn(&Affine, &Affine) -> RelativeStep>(
    relate: F,
    s: PaintScene,
    index: int,
    k: nat,
    n: nat,
    r: Recorded,
    inherited: Option<Seq<char>>,
)
    requires
        k <= n,
        index < s.contexts@.len(),
    ensures
        items_shown(relate, s, index, k, r, inherited) is Err ==> items_shown(
            relate,
            s,
            index,
            n,
            r,
            inherited,
        ) == items_shown(relate, s, index, k, r, inherited),
    decreases n - k,
{
    if k < n {
        items_stuck(relate, s, index, k, (n - 1) as nat, r, inherited);
    }
}

/// What layout and the stacking order made of a scene.
pub enum LaidOut {
    /// There is no layout of the root, for a reason.
    NoRoot(String),
    /// There are no stacking contexts, for a reason.
    NoContexts(String),
    Ready(PaintScene),
}

/// The recording of one frame, and the features that could not be drawn.
pub struct EmitReport {
    pub commands: Vec<Command>,
    pub filters: Vec<FilterOp>,
    /// The 3D rasters that the frame shows, in painting order.
    pub scene3d_frames: Vec<Scene3DFrameRequest>,
    /// The texture of each of these rasters; a texture command names its place here.
    pub textures: Vec<GeneratedTexture>,
    pub unsupported: Vec<Note>,
}

pub open spec fn identity() -> Affine {
    Affine {
        a: num(ONE),
        b: num(ZERO),
        c: num(ZERO),
        d: num(ONE),
        x: num(ZERO),
        y: num(ZERO),
    }
}

/// A recording with nothing in it.
pub open spec fn blank() -> Recorded {
    Recorded {
        commands: Seq::empty(),
        filters: Seq::empty(),
        notes: Seq::empty(),
        materials: Seq::empty(),
        painted: Seq::empty(),
        rasters: Seq::empty(),
        cur: identity(),
        grain: 0,
    }
}

/// A whole frame: the outermost context, then the account of formulas.
pub open spec fn emitted<F: Fn(&Affine, &Affine) -> RelativeStep>(relate: F, laid: LaidOut) -> Result<
    Recorded,
    Failure,
> {
    match laid {
        LaidOut::NoRoot(m) => Err(Failure::RootLayout(m@)),
        LaidOut::NoContexts(m) => Err(Failure::Scene(m@)),
        LaidOut::Ready(s) => match context_shown(relate, s, 0, blank()) {
            Err(e) => Err(e),
            Ok(r) => Ok(accounted(s, r)),
        },
    }
}

/// The state once every formula is accounted for.
pub open spec fn accounted(s: PaintScene, r: Recorded) -> Recorded {
    let formulas = s.content.formulas@;
    unplaced_reported(
        concealed_marked(r, s.nodes@, formulas, s.nodes@.len()),
        formulas,
        formulas.len(),
    )
}

proof fn marking_keeps_commands(s: PaintScene, r: Recorded, n: nat)
    ensures
        concealed_marked(r, s.nodes@, s.content.formulas@, n).commands == r.commands,
        concealed_marked(r, s.nodes@, s.content.formulas@, n).filters == r.filters,
    decreases n,
{
    if n > 0 {
        marking_keeps_commands(s, r, (n - 1) as nat);
    }
}

proof fn reporting_keeps_commands(s: PaintScene, r: Recorded, n: nat)
    ensures
        unplaced_reported(r, s.content.formulas@, n).commands == r.commands,
        unplaced_reported(r, s.content.formulas@, n).filters == r.filters,
        unplaced_reported(r, s.content.formulas@, n).painted == r.painted,
    decreases n,
{
    if n > 0 {
        reporting_keeps_commands(s, r, (n - 1) as nat);
    }
}

/// Records one frame. `relate` gives the product of the cursor's inverse and a target transform,
/// `digest` the content of a bound control, and `canonical` the canonical form of a raster request.
#[verifier::spinoff_prover]
pub fn emit<
    F: Fn(&Affine, &Affine) -> RelativeStep,
    D: Fn(&String) -> Option<[u8; 32]>,
    C: Fn(&Scene3DFrameRequest) -> Result<Vec<u8>, CanonicalError>,
>(relate: &F, digest: &D, canonical: &C, laid: &LaidOut) -> (r: Result<EmitReport, EmitError>)
    requires
        relates(*relate),
        forall|name: String| call_requires(*digest, (&name,)),
        forall|v: Scene3DFrameRequest| call_requires(*canonical, (&v,)),
        laid matches LaidOut::Ready(s) ==> s.wf(),
    ensures
        match r {
            Ok(e) => {
                &&& emitted(*relate, *laid) is Ok
                &&& e.commands@ == emitted(*relate, *laid)->Ok_0.commands
                &&& e.filters@ == emitted(*relate, *laid)->Ok_0.filters
                &&& frames_told(
                    *digest,
                    *canonical,
                    emitted(*relate, *laid)->Ok_0.rasters,
                    e.scene3d_frames@,
                    e.textures@,
                )
                &&& note_texts(e.unsupported@) == emitted(*relate, *laid)->Ok_0.notes
                &&& balanced(e.commands@)
            },
            Err(e) => match emitted(*relate, *laid) {
                Err(f) => e@ == f,
                Ok(shown) => e matches EmitError::Program(reason) && frames_fail(
                    *digest,
                    *canonical,
                    shown.rasters,
                    reason@,
                ),
            },
        },
{
    let s = match laid {
        LaidOut::NoRoot(m) => {
            return Err(EmitError::RootLayout(m.clone()));
        },
        LaidOut::NoContexts(m) => {
            return Err(EmitError::Scene(m.clone()));
        },
        LaidOut::Ready(s) => s,
    };
    let one = Scalar::from_bits(ONE);
    let zero = Scalar::from_bits(ZERO);
    let mut e = Emitter::new(Affine { a: one, b: zero, c: zero, d: one, x: zero, y: zero });
    assert(e@ == blank());
    match e.context(relate, s, 0) {
        Ok(_) => {},
        Err(failure) => {
            return Err(failure);
        },
    }
    let ghost shown = e@;
    e.account_invisible_formulas(&s.nodes, &s.content.formulas);
    let ghost marked = e@;
    e.report_unplaced_formulas(&s.content.formulas);
    proof {
        reveal(kept_level);
        marking_keeps_commands(*s, shown, s.nodes@.len());
        reporting_keeps_commands(*s, marked, s.content.formulas@.len());
        assert(shown.commands.skip(0) =~= shown.commands);
    }
    let (scene3d_frames, textures) = match scene3d_frames(digest, canonical, &e.rasters) {
        Ok(listed) => listed,
        Err(refused) => {
            return Err(EmitError::Program(refused.reason));
        },
    };
    Ok(
        EmitReport {
            commands: e.commands,
            filters: e.filters,
            scene3d_frames,
            textures,
            unsupported: e.notes,
        },
    )
}

proof fn stages_follow_runs<F: Fn(&Affine, &Affine) -> RelativeStep>(
    relate: F,
    s: PaintScene,
    index: int,
    k: nat,
    r: Recorded,
    inherited: Option<Seq<char>>,
)
    requires
        0 <= index < s.contexts@.len(),
        k <= s.contexts@[index].items@.len(),
        items_shown(relate, s, index, k, r, inherited) is Ok,
    ensures
        runs_after(s.fields_of(index), inherited, k) == Ok::<Runs, Seq<char>>(
            items_shown(relate, s, index, k, r, inherited)->Ok_0.runs,
        ),
    decreases k,
{
    reveal(field_changed);
    if k > 0 {
        stages_follow_runs(relate, s, index, (k - 1) as nat, r, inherited);
    }
}

/// A context is painted only where the items of every material field that opens inside it form one
/// unbroken run.
pub proof fn painted_fields_are_contiguous<F: Fn(&Affine, &Affine) -> RelativeStep>(
    relate: F,
    s: PaintScene,
    index: int,
    r: Recorded,
    i: int,
    j: int,
    k: int,
)
    requires
        0 <= index < s.contexts@.len(),
        context_shown(relate, s, index, r) is Ok,
        !root_entered(relate, s, index, r)->Ok_0.1.hidden,
        0 <= i <= j <= k < s.contexts@[index].items@.len(),
        s.fields_of(index)[i] is Some,
        s.fields_of(index)[i] != innermost_of(
            root_filled(s, index, root_entered(relate, s, index, r)->Ok_0.0).materials,
        ),
        s.fields_of(index)[k] == s.fields_of(index)[i],
    ensures
        s.fields_of(index)[j] == s.fields_of(index)[i],
{
    let filled = root_filled(s, index, root_entered(relate, s, index, r)->Ok_0.0);
    let inherited = innermost_of(filled.materials);
    let n = s.contexts@[index].items@.len();
    stages_follow_runs(relate, s, index, n, filled, inherited);
    crate::content::fields_are_contiguous(s.fields_of(index), inherited, i, j, k);
}

/// A context whose owner is a culled plane paints nothing at all.
pub proof fn culled_contexts_paint_nothing<F: Fn(&Affine, &Affine) -> RelativeStep>(
    relate: F,
    s: PaintScene,
    index: int,
    n: PaintNode,
    r: Recorded,
)
    requires
        0 <= index < s.contexts@.len(),
        s.contexts@[index].root == Some(n),
        !is_skipped(n.paint),
        is_culled(s.tree, n.paint),
        r.materials.len() <= usize::MAX,
    ensures
        context_shown(relate, s, index, r) == Ok::<Recorded, Failure>(r),
{
    reveal(node_entered);
    let opened = root_entered(relate, s, index, r)->Ok_0.0;
    let open = root_entered(relate, s, index, r)->Ok_0.1;
    assert(opened == r);
    assert(r.commands.skip(r.commands.len() as int) =~= Seq::<Command>::empty());
    crate::recording::empty_is_balanced();
    assert(open.depth == 0);
    assert(r.closed(open).commands =~= r.commands);
    assert(r.materials.take(r.materials.len() as int) =~= r.materials);
}

proof fn reports_remain(s: PaintScene, r: Recorded, n: nat, m: nat, note: (Seq<char>, Seq<char>))
    requires
        n <= m,
        unplaced_reported(r, s.content.formulas@, n).notes.contains(note),
    ensures
        unplaced_reported(r, s.content.formulas@, m).notes.contains(note),
    decreases m - n,
{
    if n < m {
        reports_remain(s, r, n, (m - 1) as nat, note);
        let before = unplaced_reported(r, s.content.formulas@, (m - 1) as nat).notes;
        let after = unplaced_reported(r, s.content.formulas@, m).notes;
        let at = choose|at: int| 0 <= at < before.len() && before[at] == note;
        assert(after[at] == note);
    }
}

/// No formula is lost in silence: each is placed, or concealed on purpose, or reported.
pub proof fn formulas_are_accounted_for<F: Fn(&Affine, &Affine) -> RelativeStep>(
    relate: F,
    s: PaintScene,
    k: int,
)
    requires
        emitted(relate, LaidOut::Ready(s)) is Ok,
        0 <= k < s.content.formulas@.len(),
    ensures
        ({
            let r = emitted(relate, LaidOut::Ready(s))->Ok_0;
            let key = s.content.formulas@[k].key@;
            r.painted.contains(key) || r.notes.contains(
                (key, "formula fragment not placed by Takumi replaced leaf"@),
            )
        }),
{
    let formulas = s.content.formulas@;
    let shown = context_shown(relate, s, 0, blank())->Ok_0;
    let marked = concealed_marked(shown, s.nodes@, formulas, s.nodes@.len());
    let key = formulas[k].key@;
    reporting_keeps_commands(s, marked, formulas.len());
    if !marked.painted.contains(key) {
        let note = (key, "formula fragment not placed by Takumi replaced leaf"@);
        let after = unplaced_reported(marked, formulas, (k + 1) as nat).notes;
        assert(after.last() == note);
        assert(after.contains(note));
        reports_remain(s, marked, (k + 1) as nat, formulas.len(), note);
    }
}

/// The transforms once a painted node is looked at.
pub open spec fn transform_noted(
    s: PaintScene,
    np: NodePaint,
    out: Map<Seq<char>, Affine>,
) -> Map<Seq<char>, Affine> {
    match s.tree.layout_key(np) {
        Some(key) => out.insert(key, np.facts.transform),
        None => out,
    }
}

/// The transforms once the first `k` items of a context are looked at.
pub open spec fn item_transforms(
    s: PaintScene,
    index: int,
    k: nat,
    out: Map<Seq<char>, Affine>,
) -> Map<Seq<char>, Affine>
    decreases s.contexts@.len() - index, k,
{
    if k == 0 || index >= s.contexts@.len() {
        out
    } else {
        let before = item_transforms(s, index, (k - 1) as nat, out);
        match s.contexts@[index].items@[k - 1] {
            PaintItem::Node(n) => transform_noted(s, n.paint, before),
            PaintItem::Context(c) => if index < c < s.contexts@.len() {
                context_transforms(s, c as int, before)
            } else {
                before
            },
        }
    }
}

/// The absolute transforms of the nodes painted in a context, by node key.
pub open spec fn context_transforms(
    s: PaintScene,
    index: int,
    out: Map<Seq<char>, Affine>,
) -> Map<Seq<char>, Affine>
    decreases s.contexts@.len() - index, s.contexts@[index].items@.len() + 1,
{
    if index < 0 || index >= s.contexts@.len() {
        out
    } else {
        item_transforms(
            s,
            index,
            s.contexts@[index].items@.len(),
            match s.contexts@[index].root {
                Some(n) => transform_noted(s, n.paint, out),
                None => out,
            },
        )
    }
}

impl PaintScene {
    fn note_transform(&self, np: &NodePaint, out: &mut Vec<Entry<Affine>>)
        ensures
            mapped(final(out)@) == transform_noted(*self, *np, mapped(old(out)@)),
    {
        match self.tree.key_of(np) {
            Some(key) => {
                store(out, key.as_str(), np.facts.transform);
            },
            None => {},
        }
    }

    /// Collects the absolute transforms of the nodes painted in a context, by node key.
    #[verifier::spinoff_prover]
    pub fn collect_paint_transforms(&self, index: usize, out: &mut Vec<Entry<Affine>>)
        requires
            self.wf(),
        ensures
            mapped(final(out)@) == context_transforms(*self, index as int, mapped(old(out)@)),
        decreases self.contexts@.len() - index,
    {
        if index >= self.contexts.len() {
            return ;
        }
        let cx = &self.contexts[index];
        proof {
            reveal(context_wf);
            assert(context_wf(self.contexts@[index as int], index as int));
        }
        match &cx.root {
            Some(n) => {
                self.note_transform(&n.paint, out);
            },
            None => {},
        }
        let ghost start = mapped(out@);
        let mut k: usize = 0;
        while k < cx.items.len()
            invariant
                self.wf(),
                index < self.contexts@.len(),
                *cx == self.contexts@[index as int],
                context_wf(*cx, index as int),
                k <= cx.items@.len(),
                mapped(out@) == item_transforms(*self, index as int, k as nat, start),
            decreases cx.items@.len() - k,
        {
            proof {
                reveal(context_wf);
                assert(item_wf(cx.items@[k as int], index as int));
            }
            match &cx.items[k] {
                PaintItem::Node(n) => {
                    self.note_transform(&n.paint, out);
                },
                PaintItem::Context(c) => {
                    if *c < self.contexts.len() {
                        self.collect_paint_transforms(*c, out);
                    }
                },
            }
            k = k + 1;
        }
    }
}

} // verus!
