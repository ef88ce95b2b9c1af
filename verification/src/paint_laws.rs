//! The order of painting: a node is opened, filled and closed; a context paints what owns it, then its items;
//! and a frame begins blank.

use vstd::prelude::*;

use crate::content::{content_painted, BatchContent, ContentStep};
use crate::emitter::{Open, Recorded};
use crate::frame::{node_begun, node_failure, Failure, NodePaint, PaintTree, RelativeStep};
use crate::painting::{
    blank, context_shown, emitted, field_changed, instance_sum, item_shown, items_shown,
    node_entered, node_filled, node_shown, reserved_of, root_filled, step_of, LaidOut,
    PaintItem, PaintNode, PaintScene, Stage,
};
use crate::recording::{Affine, Command};
use crate::runs::text_painted;
use crate::scalar::num;
use crate::table::Entry;

verus! {

/// A node is opened from the cursor to its own transform, and fails where that fails.
pub proof fn nodes_are_opened_from_the_cursor<F: Fn(&Affine, &Affine) -> RelativeStep>(
    relate: F,
    tree: PaintTree,
    np: NodePaint,
    r: Recorded,
)
    ensures
        ({
            let step = step_of(relate, r.cur, np.facts.transform);
            match node_entered(relate, tree, np, r) {
                Ok((opened, open)) => {
                    &&& node_failure(r, tree, np, step) is None
                    &&& opened == node_begun(r, tree, np, step)
                    &&& open.prev == r.cur
                    &&& open.materials == r.materials.len() as usize
                },
                Err(e) => node_failure(r, tree, np, step) == Some(e),
            }
        }),
{
    reveal(node_entered);
}

/// A node is filled with its content, and with its text where nothing else comes before that.
pub proof fn nodes_are_filled_with_their_content(s: PaintScene, n: PaintNode, r: Recorded)
    ensures
        ({
            let (painted, step) = content_painted(
                r,
                s.tree,
                n.paint,
                s.content,
                n.image,
                n.text is Some,
            );
            &&& step == ContentStep::Done ==> node_filled(s, n, r) == painted
            &&& step == ContentStep::Text ==> node_filled(s, n, r) == text_painted(
                painted,
                s.tree.label(n.paint),
                n.text->0,
            )
        }),
{
    reveal(node_filled);
}

/// A node that was opened is filled, unless it is hidden, and then closed: an end for every group that it
/// opened, and cursor and materials as they were.
pub proof fn nodes_are_closed_behind_their_content<F: Fn(&Affine, &Affine) -> RelativeStep>(
    relate: F,
    s: PaintScene,
    n: PaintNode,
    r: Recorded,
    opened: Recorded,
    open: Open,
)
    requires
        node_entered(relate, s.tree, n.paint, r) == Ok::<(Recorded, Open), Failure>((opened, open)),
    ensures
        node_shown(relate, s, n, r) is Ok,
        ({
            let filled = if open.hidden { opened } else { node_filled(s, n, opened) };
            let shown = node_shown(relate, s, n, r)->Ok_0;
            &&& shown.commands.len() == filled.commands.len() + open.depth
            &&& shown.commands.take(filled.commands.len() as int) == filled.commands
            &&& forall|i: int|
                filled.commands.len() <= i < shown.commands.len() ==> #[trigger] shown.commands[i]
                    == Command::End
            &&& shown.cur == r.cur
            &&& shown.notes == filled.notes
            &&& shown.painted == filled.painted
        }),
{
    reveal(node_shown);
    reveal(node_entered);
    let filled = if open.hidden { opened } else { node_filled(s, n, opened) };
    let shown = node_shown(relate, s, n, r)->Ok_0;
    assert(shown.commands.take(filled.commands.len() as int) =~= filled.commands);
}

/// Items are painted one behind the other: each after those before it, within the run of its field.
pub proof fn items_are_painted_in_order<F: Fn(&Affine, &Affine) -> RelativeStep>(
    relate: F,
    s: PaintScene,
    index: int,
    k: nat,
    r: Recorded,
    inherited: Option<Seq<char>>,
    before: Stage,
    entered: Stage,
    after: Recorded,
)
    requires
        0 <= index < s.contexts@.len(),
        k < s.contexts@[index].items@.len(),
        items_shown(relate, s, index, k, r, inherited) == Ok::<Stage, Failure>(before),
        field_changed(
            relate,
            s,
            before,
            s.item_field(s.contexts@[index].items@[k as int]),
            inherited,
        ) == Ok::<Stage, Failure>(entered),
        item_shown(relate, s, index, s.contexts@[index].items@[k as int], entered.recorded) == Ok::<
            Recorded,
            Failure,
        >(after),
    ensures
        items_shown(relate, s, index, k + 1, r, inherited) is Ok,
        items_shown(relate, s, index, k + 1, r, inherited)->Ok_0.recorded == after,
        items_shown(relate, s, index, k + 1, r, inherited)->Ok_0.runs == entered.runs,
        items_shown(relate, s, index, 0, r, inherited)->Ok_0.recorded == r,
{
}

/// An item is a node, or a context that stands behind its own; one that does not is passed over.
pub proof fn items_are_nodes_or_contexts<F: Fn(&Affine, &Affine) -> RelativeStep>(
    relate: F,
    s: PaintScene,
    index: int,
    item: PaintItem,
    r: Recorded,
)
    ensures
        match item {
            PaintItem::Node(n) => item_shown(relate, s, index, item, r) == node_shown(relate, s, n, r),
            PaintItem::Context(c) => if index < c < s.contexts@.len() {
                item_shown(relate, s, index, item, r) == context_shown(relate, s, c as int, r)
            } else {
                item_shown(relate, s, index, item, r) == Ok::<Recorded, Failure>(r)
            },
        },
{
}

/// A context without an owner is its items, from what was recorded before it.
pub proof fn contexts_without_an_owner_are_their_items<F: Fn(&Affine, &Affine) -> RelativeStep>(
    relate: F,
    s: PaintScene,
    index: int,
    r: Recorded,
)
    requires
        0 <= index < s.contexts@.len(),
        s.contexts@[index].root is None,
        s.contexts@[index].items@.len() == 0,
    ensures
        context_shown(relate, s, index, r) is Ok,
        context_shown(relate, s, index, r)->Ok_0.commands == r.commands,
        context_shown(relate, s, index, r)->Ok_0.cur == r.cur,
{
    assert(r.commands + crate::recording::ends(0) =~= r.commands);
}

/// What owns a context paints its content before the items.
pub proof fn owners_are_filled_first(s: PaintScene, index: int, r: Recorded)
    requires
        0 <= index < s.contexts@.len(),
    ensures
        match s.contexts@[index].root {
            Some(n) => root_filled(s, index, r) == node_filled(s, n, r),
            None => root_filled(s, index, r) == r,
        },
{
}

/// A frame is painted from the outermost context on a blank recording: nothing recorded, nothing moved.
pub proof fn frames_begin_blank<F: Fn(&Affine, &Affine) -> RelativeStep>(
    relate: F,
    s: PaintScene,
    r: Recorded,
)
    requires
        context_shown(relate, s, 0, blank()) == Ok::<Recorded, Failure>(r),
    ensures
        blank().commands.len() == 0 && blank().filters.len() == 0 && blank().notes.len() == 0,
        blank().materials.len() == 0 && blank().painted.len() == 0 && blank().rasters.len() == 0,
        blank().grain == 0,
        ({
            let (one, zero) = (num(0x3ff0_0000_0000_0000), num(0));
            let cur = blank().cur;
            &&& cur.a == one && cur.b == zero && cur.c == zero && cur.d == one
            &&& cur.x == zero && cur.y == zero
        }),
        emitted(relate, LaidOut::Ready(s)) is Ok,
        emitted(relate, LaidOut::Ready(s))->Ok_0.commands == r.commands,
{
    let marked = crate::content::concealed_marked(
        r,
        s.nodes@,
        s.content.formulas@,
        s.nodes@.len(),
    );
    formulas_add_no_commands(s, r, s.nodes@.len(), 0);
    formulas_add_no_commands(s, marked, 0, s.content.formulas@.len());
}

proof fn formulas_add_no_commands(s: PaintScene, r: Recorded, n: nat, m: nat)
    ensures
        crate::content::concealed_marked(r, s.nodes@, s.content.formulas@, n).commands == r.commands,
        crate::content::unplaced_reported(r, s.content.formulas@, m).commands == r.commands,
    decreases n + m,
{
    if n > 0 {
        formulas_add_no_commands(s, r, (n - 1) as nat, m);
    } else if m > 0 {
        formulas_add_no_commands(s, r, n, (m - 1) as nat);
    }
}

/// Batches take as many instances as their ranges hold, and all of them together what they take one by
/// one.
pub proof fn batches_take_their_instances(batches: Seq<Entry<BatchContent>>, n: nat)
    requires
        n < batches.len(),
    ensures
        instance_sum(batches, 0) == 0,
        ({
            let range = batches[n as int].value.instances;
            instance_sum(batches, n + 1) == instance_sum(batches, n) + if range.start < range.end {
                range.end - range.start
            } else {
                0
            }
        }),
        instance_sum(batches, n) <= usize::MAX ==> reserved_of(batches, n) == instance_sum(batches, n),
{
}

} // verus!
