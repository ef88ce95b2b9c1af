//! Whether a laid-out scene can be painted, for hosts that put one together.

use vstd::prelude::*;

use crate::painting::{
    context_wf, item_wf, node_wf, reserved_instances, PaintItem, PaintNode, PaintScene,
    StackingContext,
};
use crate::recording::{balanced, depth_of, never_underflows, Command};
use crate::runs::{ColorTables, RunLayer, TextContent};

verus! {

/// Whether every group that commands open is closed, and none other.
pub fn is_balanced(commands: &Vec<Command>) -> (r: bool)
    ensures
        r == balanced(commands@),
{
    let mut depth: usize = 0;
    let mut i: usize = 0;
    assert(commands@.take(0) =~= Seq::empty());
    while i < commands.len()
        invariant
            i <= commands@.len(),
            depth <= i,
            depth == depth_of(commands@.take(i as int)),
            forall|n: int| 0 <= n <= i ==> depth_of(#[trigger] commands@.take(n)) >= 0,
        decreases commands@.len() - i,
    {
        let ghost next = commands@.take(i + 1);
        assert(next.drop_last() =~= commands@.take(i as int));
        assert(next.last() == commands@[i as int]);
        match commands[i] {
            Command::End => {
                if depth == 0 {
                    assert(depth_of(commands@.take(i + 1)) < 0);
                    return false;
                }
                depth = depth - 1;
            },
            Command::Path { .. }
            | Command::Shadow { .. }
            | Command::Image { .. }
            | Command::Texture { .. }
            | Command::GlyphRun { .. }
            | Command::GeometryBatch { .. } => {},
            _ => {
                depth = depth + 1;
            },
        }
        i = i + 1;
    }
    assert(commands@.take(i as int) =~= commands@);
    assert(never_underflows(commands@));
    depth == 0
}

/// Whether the side tables of a layer hold one entry per glyph.
fn is_ready_layer(l: &RunLayer) -> (r: bool)
    ensures
        r == l.wf(),
{
    let matched: bool = l.glyphs.start <= l.glyphs.end && (l.glyphs.end - l.glyphs.start) as usize
        == l.count && l.transforms.len() == l.count && l.colored.len() == l.count;
    let addressed: bool = match &l.source {
        Some(s) => s.ranges.start <= s.ranges.end && (s.ranges.end - s.ranges.start) as usize
            == l.count,
        None => true,
    };
    let closed: bool = match &l.tables {
        ColorTables::Emitted(c) => is_balanced(c),
        _ => true,
    };
    matched && addressed && closed
}

fn are_ready_layers(layers: &Vec<RunLayer>) -> (r: bool)
    ensures
        r == (forall|i: int| 0 <= i < layers@.len() ==> (#[trigger] layers@[i]).wf()),
{
    let mut i: usize = 0;
    while i < layers.len()
        invariant
            i <= layers@.len(),
            forall|k: int| 0 <= k < i ==> (#[trigger] layers@[k]).wf(),
        decreases layers@.len() - i,
    {
        if !is_ready_layer(&layers[i]) {
            assert(!layers@[i as int].wf());
            return false;
        }
        i = i + 1;
    }
    true
}

fn is_ready_text(t: &TextContent) -> (r: bool)
    ensures
        r == t.wf(),
{
    if !are_ready_layers(&t.layers) {
        return false;
    }
    let mut i: usize = 0;
    while i < t.shadows.len()
        invariant
            i <= t.shadows@.len(),
            forall|k: int, j: int|
                0 <= k < i && 0 <= j < t.shadows@[k].layers@.len() ==> (
                #[trigger] t.shadows@[k].layers@[j]).wf(),
        decreases t.shadows@.len() - i,
    {
        if !are_ready_layers(&t.shadows[i].layers) {
            let ghost layers = t.shadows@[i as int].layers@;
            proof {
                let j = choose|j: int| 0 <= j < layers.len() && !(#[trigger] layers[j]).wf();
                assert(!t.shadows@[i as int].layers@[j].wf());
            }
            return false;
        }
        i = i + 1;
    }
    true
}

fn is_ready_node(n: &PaintNode) -> (r: bool)
    ensures
        r == node_wf(*n),
{
    proof {
        reveal(node_wf);
    }
    match &n.text {
        Some(t) => is_ready_text(t),
        None => true,
    }
}

fn is_ready_context(cx: &StackingContext, index: usize) -> (r: bool)
    ensures
        r == context_wf(*cx, index as int),
{
    proof {
        reveal(context_wf);
    }
    match &cx.root {
        Some(n) => {
            if !is_ready_node(n) {
                return false;
            }
        },
        None => {},
    }
    let mut k: usize = 0;
    while k < cx.items.len()
        invariant
            k <= cx.items@.len(),
            forall|j: int| 0 <= j < k ==> item_wf(#[trigger] cx.items@[j], index as int),
        decreases cx.items@.len() - k,
    {
        let ready: bool = match &cx.items[k] {
            PaintItem::Node(n) => is_ready_node(n),
            PaintItem::Context(c) => index < *c,
        };
        if !ready {
            proof {
                reveal(context_wf);
                assert(!item_wf(cx.items@[k as int], index as int));
            }
            return false;
        }
        k = k + 1;
    }
    true
}

impl PaintScene {
    /// Whether the scene can be painted: nested contexts stand after the context that holds them,
    /// texts are well-formed, and the budget knows the authored batches.
    pub fn is_ready(&self) -> (r: bool)
        ensures
            r == self.wf(),
    {
        let mut i: usize = 0;
        while i < self.contexts.len()
            invariant
                i <= self.contexts@.len(),
                forall|k: int| 0 <= k < i ==> context_wf(#[trigger] self.contexts@[k], k),
            decreases self.contexts@.len() - i,
        {
            if !is_ready_context(&self.contexts[i], i) {
                assert(!context_wf(self.contexts@[i as int], i as int));
                return false;
            }
            i = i + 1;
        }
        self.tree.reserved == reserved_instances(&self.content.batches)
    }
}

} // verus!
