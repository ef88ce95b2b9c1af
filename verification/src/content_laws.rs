//! What a node shows: which of its contents comes first, how each is drawn, and when a run of a glass
//! field ends.

use vstd::prelude::*;

use crate::content::{
    concealed, concealed_marked, content_painted, formula_commands, prefixed_at, run_entered,
    unplaced_reported, Arrow, ArrowKind, BatchContent, ContentStep, ContentTree,
    FormulaFragment, ImageContent, RenderEntry, Runs,
};
use crate::emitter::Recorded;
use crate::frame::{NodePaint, PaintTree};
use crate::frame_laws::{keyed_at, nodes_go_by_their_key, only_if};
use crate::recording::{Command, Corners, FillRule, ObjectFit};
use crate::scalar::{num, ZERO};
use crate::table::{find, Entry};

verus! {

/// Whether a node is laid out and not hidden.
pub open spec fn is_seen(np: NodePaint) -> bool {
    np.facts.laid_out && !np.facts.invisible
}

/// A node that is not laid out or hidden shows nothing.
pub proof fn unseen_nodes_show_nothing(
    r: Recorded,
    tree: PaintTree,
    np: NodePaint,
    t: ContentTree,
    image: Option<ImageContent>,
    has_text: bool,
)
    requires
        !is_seen(np),
    ensures
        content_painted(r, tree, np, t, image, has_text) == (r, ContentStep::Done),
{
}

/// A node with none of the other contents shows its text, where it has any.
pub proof fn text_comes_last(
    r: Recorded,
    tree: PaintTree,
    np: NodePaint,
    k: int,
    t: ContentTree,
    has_text: bool,
)
    requires
        is_seen(np),
        keyed_at(tree, np, k),
        find(t.formulas@, tree.keys@[k].key@) is None,
        find(t.batches@, tree.keys@[k].key@) is None,
        find(t.paths@, tree.keys@[k].key@) is None,
    ensures
        content_painted(r, tree, np, t, None, has_text) == (
            r,
            if has_text { ContentStep::Text } else { ContentStep::Done },
        ),
{
    nodes_go_by_their_key(tree, np, k);
}

/// A formula comes before everything else: its key counts as painted, and its commands follow.
pub proof fn formulas_come_first(
    r: Recorded,
    tree: PaintTree,
    np: NodePaint,
    k: int,
    t: ContentTree,
    image: Option<ImageContent>,
    has_text: bool,
)
    requires
        is_seen(np),
        keyed_at(tree, np, k),
        find(t.formulas@, tree.keys@[k].key@) is Some,
    ensures
        ({
            let key = tree.keys@[k].key@;
            let fragment = find(t.formulas@, key)->0.commands@;
            let (s, step) = content_painted(r, tree, np, t, image, has_text);
            &&& step == ContentStep::Done
            &&& s.commands == r.commands + formula_commands(fragment, fragment.len())
            &&& s.painted.contains(key)
            &&& forall|other: Seq<char>| #[trigger]
                s.painted.contains(other) ==> other == key || r.painted.contains(other)
            &&& forall|other: Seq<char>|
                r.painted.contains(other) ==> #[trigger] s.painted.contains(other)
            &&& s.notes == r.notes
        }),
{
    nodes_go_by_their_key(tree, np, k);
    let key = tree.keys@[k].key@;
    let s = content_painted(r, tree, np, t, image, has_text).0;
    if !r.painted.contains(key) {
        assert(s.painted.last() == key);
        assert forall|other: Seq<char>| r.painted.contains(other) implies #[trigger] s.painted.contains(
            other,
        ) by {
            let j = choose|j: int| 0 <= j < r.painted.len() && r.painted[j] == other;
            assert(s.painted[j] == other);
        }
    }
}

/// A batch comes next, unless it has no instances; then a path with its arrow heads; then an image.
pub proof fn batches_are_drawn_whole(
    r: Recorded,
    tree: PaintTree,
    np: NodePaint,
    k: int,
    t: ContentTree,
    image: Option<ImageContent>,
    has_text: bool,
    batch: BatchContent,
)
    requires
        is_seen(np),
        keyed_at(tree, np, k),
        find(t.formulas@, tree.keys@[k].key@) is None,
        find(t.batches@, tree.keys@[k].key@) == Some(batch),
    ensures
        ({
            let (s, step) = content_painted(r, tree, np, t, image, has_text);
            &&& step == ContentStep::Done
            &&& s.commands == r.commands + only_if(
                batch.instances.start != batch.instances.end,
                Command::GeometryBatch { geometry: batch.geometry, instances: batch.instances },
            )
            &&& s.notes == r.notes
            &&& s.painted == r.painted
        }),
{
    nodes_go_by_their_key(tree, np, k);
    assert(content_painted(r, tree, np, t, image, has_text).0.commands =~= r.commands + only_if(
        batch.instances.start != batch.instances.end,
        Command::GeometryBatch { geometry: batch.geometry, instances: batch.instances },
    ));
}

/// An arrow head needs a stroke to stand on and a tangent to point along. A triangle is filled with the
/// paint of the stroke; an open head is stroked without dashes.
pub open spec fn head(stroked: bool, arrow: Option<Arrow>) -> Seq<Command> {
    only_if(
        stroked && arrow is Some && arrow->0.path is Some && arrow->0.kind == ArrowKind::Triangle,
        Command::Path {
            path: arrow->0.path->0,
            fill_rule: FillRule::NonZero,
            fill: Some(arrow->0.paint),
            stroke: None,
        },
    ) + only_if(
        stroked && arrow is Some && arrow->0.path is Some && arrow->0.kind == ArrowKind::Open,
        Command::Path {
            path: arrow->0.path->0,
            fill_rule: FillRule::NonZero,
            fill: None,
            stroke: Some(arrow->0.undashed),
        },
    )
}

/// A path is drawn with its fill and its stroke, then the head at its start, then the one at its end.
pub proof fn paths_carry_their_arrows(
    r: Recorded,
    tree: PaintTree,
    np: NodePaint,
    k: int,
    t: ContentTree,
    image: Option<ImageContent>,
    has_text: bool,
)
    requires
        is_seen(np),
        keyed_at(tree, np, k),
        find(t.formulas@, tree.keys@[k].key@) is None,
        find(t.batches@, tree.keys@[k].key@) is None,
        find(t.paths@, tree.keys@[k].key@) is Some,
    ensures
        ({
            let (s, step) = content_painted(r, tree, np, t, image, has_text);
            let p = find(t.paths@, tree.keys@[k].key@)->0;
            &&& step == ContentStep::Done
            &&& p.path is None ==> s.commands == r.commands
            &&& p.path is Some ==> s.commands == r.commands + seq![
                Command::Path {
                    path: p.path->0,
                    fill_rule: FillRule::NonZero,
                    fill: p.fill,
                    stroke: p.stroke,
                },
            ] + head(p.stroke is Some, p.arrow_start) + head(p.stroke is Some, p.arrow_end)
            &&& s.notes == r.notes
            &&& s.painted == r.painted
        }),
{
    nodes_go_by_their_key(tree, np, k);
    let p = find(t.paths@, tree.keys@[k].key@)->0;
    let s = content_painted(r, tree, np, t, image, has_text).0;
    assert(crate::content::arrow_commands(p.stroke, p.arrow_start) =~= head(
        p.stroke is Some,
        p.arrow_start,
    ));
    assert(crate::content::arrow_commands(p.stroke, p.arrow_end) =~= head(
        p.stroke is Some,
        p.arrow_end,
    ));
    if p.path is Some {
        assert(s.commands =~= r.commands + seq![
            Command::Path {
                path: p.path->0,
                fill_rule: FillRule::NonZero,
                fill: p.fill,
                stroke: p.stroke,
            },
        ] + head(p.stroke is Some, p.arrow_start) + head(p.stroke is Some, p.arrow_end));
    } else {
        assert(s.commands =~= r.commands);
    }
}

/// Whether a node has an image and nothing that comes before one.
pub open spec fn shows_image(
    tree: PaintTree,
    np: NodePaint,
    k: int,
    t: ContentTree,
    c: ImageContent,
) -> bool {
    &&& is_seen(np)
    &&& keyed_at(tree, np, k)
    &&& find(t.formulas@, tree.keys@[k].key@) is None
    &&& find(t.batches@, tree.keys@[k].key@) is None
    &&& find(t.paths@, tree.keys@[k].key@) is None
}

/// Whether a corner is seen.
pub open spec fn has_corner(radii: Corners) -> bool {
    let (a, b) = (radii.top_left, radii.top_right);
    let (c, d) = (radii.bottom_right, radii.bottom_left);
    ||| crate::shell::visible(a)
    ||| crate::shell::visible(b)
    ||| crate::shell::visible(c)
    ||| crate::shell::visible(d)
}

/// Whether a fit may reach past the content box.
pub open spec fn reaches_out(fit: ObjectFit) -> bool {
    match fit {
        ObjectFit::Cover => true,
        ObjectFit::Natural => true,
        _ => false,
    }
}

proof fn no_prefixed<V>(entries: Seq<Entry<V>>, prefix: Seq<char>, asset: Seq<char>, n: nat)
    requires
        n <= entries.len(),
        forall|k: int| 0 <= k < n ==> prefix + (#[trigger] entries[k]).key@ != asset,
    ensures
        prefixed_at(entries, prefix, asset, n) == n,
    decreases n,
{
    if n > 0 {
        no_prefixed(entries, prefix, asset, (n - 1) as nat);
    }
}

proof fn first_prefixed<V>(
    entries: Seq<Entry<V>>,
    prefix: Seq<char>,
    asset: Seq<char>,
    k: int,
    n: nat,
)
    requires
        n <= entries.len(),
        0 <= k < entries.len(),
        prefix + entries[k].key@ == asset,
        forall|j: int| 0 <= j < k ==> prefix + (#[trigger] entries[j]).key@ != asset,
    ensures
        n <= k ==> prefixed_at(entries, prefix, asset, n) == n,
        n > k ==> prefixed_at(entries, prefix, asset, n) == k,
    decreases n,
{
    if n > 0 {
        first_prefixed(entries, prefix, asset, k, (n - 1) as nat);
    }
}

/// An image fills its content box: the sampled video frame of the node where there is one, otherwise the
/// asset. It is cut by the rounded padding box, or by the content box where its fit reaches out. A box
/// without an area shows nothing.
pub proof fn images_fill_their_box(
    r: Recorded,
    tree: PaintTree,
    np: NodePaint,
    k: int,
    t: ContentTree,
    c: ImageContent,
    has_text: bool,
)
    requires
        shows_image(tree, np, k, t, c),
        !"generated://formula/"@.is_prefix_of(c.asset@),
        forall|j: int|
            0 <= j < t.scene3d@.len() ==> "generated://scene3d/"@ + (#[trigger] t.scene3d@[j]).key@
                != c.asset@,
    ensures
        ({
            let (s, step) = content_painted(r, tree, np, t, Some(c), has_text);
            let video = find(t.videos@, tree.keys@[k].key@);
            let image = if video is Some { video->0 } else { c.image };
            let area = num(ZERO).lt_spec(c.dst.width) && num(ZERO).lt_spec(c.dst.height);
            let draw = Command::Image { image, dst: c.dst, fit: c.fit };
            &&& step == ContentStep::Done
            &&& s.notes == r.notes
            &&& s.rasters == r.rasters
            &&& s.commands == r.commands + if !area {
                seq![]
            } else if has_corner(c.radii) {
                seq![
                    Command::BeginClipRoundRect { rect: c.clip, radii: c.radii },
                    draw,
                    Command::End,
                ]
            } else if reaches_out(c.fit) {
                seq![Command::BeginClipRect { rect: c.dst }, draw, Command::End]
            } else {
                seq![draw]
            }
        }),
{
    nodes_go_by_their_key(tree, np, k);
    no_prefixed(t.scene3d@, "generated://scene3d/"@, c.asset@, t.scene3d@.len());
    assert(r.commands + Seq::<Command>::empty() =~= r.commands);
}

/// A 3D scene is drawn as the texture that is asked for next, at the size of the content box, which it
/// has to fill.
pub proof fn scenes_are_drawn_as_textures(
    r: Recorded,
    tree: PaintTree,
    np: NodePaint,
    k: int,
    t: ContentTree,
    c: ImageContent,
    has_text: bool,
    at: int,
)
    requires
        shows_image(tree, np, k, t, c),
        !"generated://formula/"@.is_prefix_of(c.asset@),
        0 <= at < t.scene3d@.len(),
        "generated://scene3d/"@ + t.scene3d@[at].key@ == c.asset@,
        forall|j: int|
            0 <= j < at ==> "generated://scene3d/"@ + (#[trigger] t.scene3d@[j]).key@ != c.asset@,
    ensures
        ({
            let (s, step) = content_painted(r, tree, np, t, Some(c), has_text);
            let area = num(ZERO).lt_spec(c.dst.width) && num(ZERO).lt_spec(c.dst.height);
            let draw = Command::Texture { texture: r.rasters.len() as usize, dst: c.dst };
            &&& step == ContentStep::Done
            &&& c.fit != ObjectFit::Fill ==> s.commands == r.commands && s.rasters == r.rasters
            &&& c.fit == ObjectFit::Fill && !area ==> s == r
            &&& c.fit == ObjectFit::Fill && area ==> {
                &&& s.rasters.len() == r.rasters.len() + 1
                &&& s.rasters.drop_last() == r.rasters
                &&& s.rasters.last().width == c.raster_width
                &&& s.rasters.last().height == c.raster_height
                &&& s.rasters.last().provider_key == t.scene3d@[at].value.request.provider_key@
                &&& s.rasters.last().scene == t.scene3d@[at].value.request.scene@
                &&& s.rasters.last().frame == t.scene3d@[at].value.request.frame@
                &&& s.notes == r.notes
                &&& s.commands == r.commands + if has_corner(c.radii) {
                    seq![
                        Command::BeginClipRoundRect { rect: c.clip, radii: c.radii },
                        draw,
                        Command::End,
                    ]
                } else {
                    seq![draw]
                }
            }
        }),
{
    nodes_go_by_their_key(tree, np, k);
    first_prefixed(t.scene3d@, "generated://scene3d/"@, c.asset@, at, t.scene3d@.len());
    let s = content_painted(r, tree, np, t, Some(c), has_text).0;
    if c.fit == ObjectFit::Fill && num(ZERO).lt_spec(c.dst.width) && num(ZERO).lt_spec(c.dst.height) {
        assert(s.rasters.drop_last() =~= r.rasters);
    }
}

/// An image that stands for a formula is the formula of the key behind its prefix.
pub proof fn formula_images_are_formulas(
    r: Recorded,
    tree: PaintTree,
    np: NodePaint,
    k: int,
    t: ContentTree,
    c: ImageContent,
    has_text: bool,
    at: int,
)
    requires
        shows_image(tree, np, k, t, c),
        0 <= at < t.formulas@.len(),
        "generated://formula/"@ + t.formulas@[at].key@ == c.asset@,
        forall|j: int|
            0 <= j < at ==> "generated://formula/"@ + (#[trigger] t.formulas@[j]).key@ != c.asset@,
    ensures
        ({
            let (s, step) = content_painted(r, tree, np, t, Some(c), has_text);
            let commands = t.formulas@[at].value.commands@;
            &&& step == ContentStep::Done
            &&& s.commands == r.commands + formula_commands(commands, commands.len())
            &&& s.painted.contains(t.formulas@[at].key@)
            &&& s.notes == r.notes
        }),
{
    nodes_go_by_their_key(tree, np, k);
    first_prefixed(t.formulas@, "generated://formula/"@, c.asset@, at, t.formulas@.len());
    assert("generated://formula/"@ =~= c.asset@.subrange(0, "generated://formula/"@.len() as int));
    let s = content_painted(r, tree, np, t, Some(c), has_text).0;
    if !r.painted.contains(t.formulas@[at].key@) {
        assert(s.painted.last() == t.formulas@[at].key@);
    }
}

proof fn formulas_read_prefixes(commands: Seq<Command>, more: Command, n: nat)
    requires
        n <= commands.len(),
    ensures
        formula_commands(commands.push(more), n) == formula_commands(commands, n),
    decreases n,
{
    if n > 0 {
        formulas_read_prefixes(commands, more, (n - 1) as nat);
    }
}

/// Placing a formula keeps its paths as they are and its glyphs without their text source, in their
/// order, and drops everything else.
pub proof fn formulas_keep_glyphs_and_paths(commands: Seq<Command>, more: Command)
    ensures
        formula_commands(Seq::empty(), 0) == Seq::<Command>::empty(),
        ({
            let before = formula_commands(commands, commands.len());
            let after = formula_commands(commands.push(more), commands.len() + 1);
            match more {
                Command::GlyphRun { font, glyphs, paint, stroke, .. } => after == before.push(
                    Command::GlyphRun { font, glyphs, paint, stroke, source: None },
                ),
                Command::Path { .. } => after == before.push(more),
                _ => after == before,
            }
        }),
{
    formulas_read_prefixes(commands, more, commands.len());
}

/// A node is concealed where it or a node above it is invisible.
pub proof fn concealment_is_handed_down(nodes: Seq<RenderEntry>, at: int)
    requires
        0 <= at < nodes.len(),
        nodes[at].parent is Some ==> nodes[at].parent->0 < at,
    ensures
        nodes[at].invisible ==> concealed(nodes, at),
        !nodes[at].invisible && nodes[at].parent is None ==> !concealed(nodes, at),
        !nodes[at].invisible && nodes[at].parent is Some ==> concealed(nodes, at) == concealed(
            nodes,
            nodes[at].parent->0 as int,
        ),
{
}

/// Exactly the formulas of concealed nodes are accounted for as painted.
pub proof fn concealed_formulas_are_accounted_for(
    r: Recorded,
    nodes: Seq<RenderEntry>,
    formulas: Seq<Entry<FormulaFragment>>,
    n: nat,
    key: Seq<char>,
)
    requires
        n <= nodes.len(),
    ensures
        concealed_marked(r, nodes, formulas, n).painted.contains(key) <==> (r.painted.contains(key)
            || exists|k: int| #[trigger] conceals(nodes, formulas, k, key) && 0 <= k < n),
        concealed_marked(r, nodes, formulas, n).commands == r.commands,
        concealed_marked(r, nodes, formulas, n).notes == r.notes,
    decreases n,
{
    if n > 0 {
        let m = (n - 1) as nat;
        concealed_formulas_are_accounted_for(r, nodes, formulas, m, key);
        let before = concealed_marked(r, nodes, formulas, m);
        let after = concealed_marked(r, nodes, formulas, n);
        if after != before {
            let name = nodes[n - 1].key->0@;
            assert(after.painted == before.painted.push(name));
            assert(after.painted.last() == name);
            if before.painted.contains(key) {
                let j = choose|j: int| 0 <= j < before.painted.len() && before.painted[j] == key;
                assert(after.painted[j] == key);
            }
            assert(conceals(nodes, formulas, n - 1, name));
        }
        if conceals(nodes, formulas, n - 1, key) {
            assert(after.painted.contains(key));
        }
    }
}

/// Whether a node is concealed and has a formula under this key.
pub open spec fn conceals(
    nodes: Seq<RenderEntry>,
    formulas: Seq<Entry<FormulaFragment>>,
    k: int,
    key: Seq<char>,
) -> bool {
    &&& concealed(nodes, k)
    &&& nodes[k].key is Some
    &&& nodes[k].key->0@ == key
    &&& find(formulas, key) is Some
}

proof fn reports_read_prefixes(
    r: Recorded,
    formulas: Seq<Entry<FormulaFragment>>,
    more: Entry<FormulaFragment>,
    n: nat,
)
    requires
        n <= formulas.len(),
    ensures
        unplaced_reported(r, formulas.push(more), n) == unplaced_reported(r, formulas, n),
    decreases n,
{
    if n > 0 {
        reports_read_prefixes(r, formulas, more, (n - 1) as nat);
    }
}

/// A formula is reported exactly where it was not painted, in the order of the formulas.
pub proof fn unplaced_formulas_are_reported(
    r: Recorded,
    formulas: Seq<Entry<FormulaFragment>>,
    more: Entry<FormulaFragment>,
)
    ensures
        unplaced_reported(r, Seq::empty(), 0) == r,
        ({
            let before = unplaced_reported(r, formulas, formulas.len());
            let after = unplaced_reported(r, formulas.push(more), formulas.len() + 1);
            &&& after.commands == before.commands
            &&& after.painted == before.painted
            &&& r.painted.contains(more.key@) ==> after.notes == before.notes
            &&& !r.painted.contains(more.key@) ==> after.notes == before.notes.push(
                (more.key@, "formula fragment not placed by Takumi replaced leaf"@),
            )
        }),
{
    reports_read_prefixes(r, formulas, more, formulas.len());
}

/// Between two items, the run of a field goes on where the next item belongs to it, ends where it does
/// not, and one begins where the next item belongs to a field that is neither open nor around them all. A
/// field that was left is not entered again.
pub proof fn runs_follow_their_field(
    runs: Runs,
    desired: Option<Seq<char>>,
    inherited: Option<Seq<char>>,
)
    ensures
        ({
            let goes_on = runs.open is Some && desired == runs.open;
            let begins = !goes_on && desired is Some && desired != inherited;
            let was_left = runs.closed.contains(desired->0) || (runs.open is Some && runs.open
                == desired);
            match run_entered(runs, desired, inherited) {
                Err(field) => begins && desired == Some(field) && was_left,
                Ok((next, change)) => {
                    &&& !(begins && was_left)
                    &&& change.close == (runs.open is Some && !goes_on)
                    &&& change.open == begins
                    &&& next.open == if goes_on || begins { desired } else { None }
                    &&& goes_on || runs.open is None ==> next.closed == runs.closed
                    &&& runs.open is Some && !goes_on ==> next.closed == runs.closed.push(
                        runs.open->0,
                    )
                },
            }
        }),
{
    if runs.open is Some && desired != runs.open {
        let left = runs.closed.push(runs.open->0);
        assert(left.last() == runs.open->0);
        if desired is Some {
            if runs.closed.contains(desired->0) {
                let j = choose|j: int| 0 <= j < runs.closed.len() && runs.closed[j] == desired->0;
                assert(left[j] == desired->0);
            }
            if left.contains(desired->0) {
                let j = choose|j: int| 0 <= j < left.len() && left[j] == desired->0;
                assert(desired->0 != runs.open->0);
                assert(runs.closed[j] == desired->0);
            }
        }
    }
}

} // verus!
