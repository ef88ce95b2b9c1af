//! What painted text looks like: which glyphs a recorded run holds, in which paint and inside which
//! groups, told by the unit that holds the first byte of each glyph.

use vstd::prelude::*;

use crate::clusters::Span;
use crate::emitter::Recorded;
use crate::recording::{ends, Command, FillRule, GlyphSource, Paint};
use crate::runs::{
    chunk_commands, chunk_end, color_commands, flat_chunk, glyph_unit, inline_painted,
    inlines_painted, layer_commands, layers_painted, paints_colors, placed_chunk, run_painted,
    shadow_painted, shadows_painted, text_painted, unit_at, ColorGlyph, ColorLayer, ColorTables,
    InlineImage, InlineItem, ResolvedUnit, RunLayer, TextContent, TextRun, TextShadow,
};
use crate::scalar::{num, Scalar, ONE, ZERO};

verus! {

/// Whether a unit holds a byte.
pub open spec fn holds(u: ResolvedUnit, byte: u32) -> bool {
    u.start <= byte && byte < u.end
}

/// Whether a glyph belongs to a unit: the first one that holds the first byte of its cluster. A glyph
/// without address belongs to none.
pub open spec fn belongs(l: RunLayer, g: int, unit: Option<int>) -> bool {
    match (l.ranges, l.units) {
        (Some(ranges), Some(units)) => if 0 <= g < ranges@.len() {
            match unit {
                Some(k) => 0 <= k < units@.len() && holds(units@[k], ranges@[g].start) && forall|
                    j: int,
                |
                    0 <= j < k ==> !holds(#[trigger] units@[j], ranges@[g].start),
                None => forall|j: int|
                    0 <= j < units@.len() ==> !holds(#[trigger] units@[j], ranges@[g].start),
            }
        } else {
            unit is None
        },
        _ => unit is None,
    }
}

proof fn first_units_hold(units: Seq<ResolvedUnit>, byte: u32, n: nat)
    requires
        n <= units.len(),
    ensures
        unit_at(units, byte, n) <= n,
        unit_at(units, byte, n) < n ==> holds(units[unit_at(units, byte, n) as int], byte),
        forall|j: int| 0 <= j < unit_at(units, byte, n) ==> !holds(#[trigger] units[j], byte),
    decreases n,
{
    if n > 0 {
        first_units_hold(units, byte, (n - 1) as nat);
    }
}

/// The unit that a glyph belongs to, as a position.
spec fn unit_of(l: RunLayer, g: int) -> Option<int> {
    match glyph_unit(l, g) {
        Some(k) => Some(k as int),
        None => None,
    }
}

proof fn glyphs_belong(l: RunLayer, g: int)
    requires
        0 <= g,
    ensures
        belongs(l, g, unit_of(l, g)),
{
    match (l.ranges, l.units) {
        (Some(ranges), Some(units)) => {
            if g < ranges@.len() {
                first_units_hold(units@, ranges@[g].start, units@.len());
            }
        },
        _ => {},
    }
}

/// The paint of glyphs: the color of their unit, else that of the run.
pub open spec fn paint_for(l: RunLayer, unit: Option<int>) -> Paint {
    match unit {
        Some(k) => match l.units->0@[k].color {
            Some(c) => Paint::Solid(c),
            None => l.paint,
        },
        None => l.paint,
    }
}

/// The groups around the glyphs of a unit: its opacity, kept within 0..=1, then its transform where it is
/// moved, scaled or turned.
pub open spec fn groups_for(l: RunLayer, unit: Option<int>, start: int) -> Seq<Command> {
    match unit {
        Some(k) => {
            let u = l.units->0@[k];
            let faded = match u.opacity {
                Some(x) => seq![
                    Command::BeginOpacity {
                        alpha: if x.lt_spec(num(ZERO)) {
                            num(ZERO)
                        } else if num(ONE).lt_spec(x) {
                            num(ONE)
                        } else {
                            x
                        },
                    },
                ],
                None => Seq::empty(),
            };
            if (u.translate is Some || u.scale is Some || u.rotate is Some)
                && l.transforms@[start] is Some {
                faded.push(Command::BeginTransform { transform: l.transforms@[start]->0 })
            } else {
                faded
            }
        },
        None => Seq::empty(),
    }
}

/// The run of glyphs `from..to` of a unit, inside its groups.
pub open spec fn drawn(l: RunLayer, unit: Option<int>, start: int, from: int, to: int) -> Seq<Command> {
    let groups = groups_for(l, unit, start);
    groups.push(
        Command::GlyphRun {
            font: l.font,
            glyphs: Span {
                start: (l.glyphs.start + from) as u32,
                end: (l.glyphs.start + to) as u32,
            },
            paint: paint_for(l, unit),
            stroke: l.stroke,
            source: match l.source {
                Some(s) => Some(
                    GlyphSource {
                        node: s.node,
                        ranges: Span {
                            start: (s.ranges.start + from) as u32,
                            end: (s.ranges.start + to) as u32,
                        },
                    },
                ),
                None => None,
            },
        },
    ) + Seq::new(groups.len(), |i: int| Command::End)
}

/// A glyph alone at its place on a path; nothing where it has none.
pub open spec fn placed(l: RunLayer, unit: Option<int>, start: int, g: int) -> Seq<Command> {
    let places = l.placements->0@;
    if g < places.len() && places[g] is Some {
        seq![Command::BeginTransform { transform: places[g]->0 }] + drawn(l, unit, start, g, g + 1)
            + seq![Command::End]
    } else {
        Seq::empty()
    }
}

/// Whether commands show the glyphs `from..to`, all of one unit: together, or on a path one by one.
pub open spec fn shows(
    l: RunLayer,
    unit: Option<int>,
    from: int,
    to: int,
    c: Seq<Command>,
) -> bool {
    &&& 0 <= from < to <= l.count
    &&& forall|g: int| from <= g < to ==> #[trigger] belongs(l, g, unit)
    &&& l.placements is None ==> c == drawn(l, unit, from, from, to)
    &&& l.placements is Some ==> c == Seq::new(
        (to - from) as nat,
        |i: int| placed(l, unit, from, from + i),
    ).flatten()
}

/// Whether a run is shown in stretches: from `start` to its end, each of one unit, one behind the other.
pub open spec fn shown_in(
    l: RunLayer,
    start: int,
    cuts: Seq<int>,
    units: Seq<Option<int>>,
    pieces: Seq<Seq<Command>>,
) -> bool {
    &&& cuts.len() == pieces.len() + 1
    &&& units.len() == pieces.len()
    &&& cuts[0] == start
    &&& cuts.last() == l.count
    &&& forall|k: int|
        0 <= k < pieces.len() ==> shows(l, units[k], cuts[k], cuts[k + 1], #[trigger] pieces[k])
}

proof fn chunks_end_with_their_unit(l: RunLayer, at: int, end: int)
    requires
        0 <= at < end <= l.count,
        forall|g: int| at <= g < end ==> glyph_unit(l, g) == glyph_unit(l, at),
    ensures
        end <= chunk_end(l, at, end) <= l.count,
        forall|g: int| at <= g < chunk_end(l, at, end) ==> glyph_unit(l, g) == glyph_unit(l, at),
    decreases l.count - end,
{
    if end < l.count && glyph_unit(l, end) == glyph_unit(l, at) {
        chunks_end_with_their_unit(l, at, end + 1);
    }
}

proof fn chunks_are_drawn(l: RunLayer, at: int, from: int, to: int)
    requires
        0 <= at < l.count,
    ensures
        flat_chunk(l, at, from, to) == drawn(l, unit_of(l, at), at, from, to),
{
    assert(crate::runs::unit_groups(l, at) =~= groups_for(l, unit_of(l, at), at));
    assert(flat_chunk(l, at, from, to) =~= drawn(l, unit_of(l, at), at, from, to));
}

proof fn chunks_are_placed(l: RunLayer, at: int, from: int, to: int)
    requires
        0 <= at < l.count,
        from <= to,
        l.placements is Some,
    ensures
        placed_chunk(l, at, from, to) == Seq::new(
            (to - from) as nat,
            |i: int| placed(l, unit_of(l, at), at, from + i),
        ).flatten(),
    decreases to - from,
{
    let u = unit_of(l, at);
    let all = Seq::new((to - from) as nat, |i: int| placed(l, u, at, from + i));
    if from < to {
        chunks_are_placed(l, at, from + 1, to);
        chunks_are_drawn(l, at, from, from + 1);
        let rest = Seq::new((to - (from + 1)) as nat, |i: int| placed(l, u, at, from + 1 + i));
        assert(all.drop_first() =~= rest);
        assert(all.first() == placed(l, u, at, from));
        assert(ends(1) =~= seq![Command::End]);
    } else {
        assert(all =~= Seq::empty());
    }
}

proof fn chunks_show(l: RunLayer, at: int) -> (r: (Seq<int>, Seq<Option<int>>, Seq<Seq<Command>>))
    requires
        0 <= at <= l.count,
    ensures
        shown_in(l, at, r.0, r.1, r.2),
        chunk_commands(l, at) == r.2.flatten(),
    decreases l.count - at,
{
    if at >= l.count {
        let none: Seq<Seq<Command>> = Seq::empty();
        assert(chunk_commands(l, at) =~= none.flatten());
        (seq![at], Seq::empty(), none)
    } else {
        chunks_end_with_their_unit(l, at, at + 1);
        let end = chunk_end(l, at, at + 1);
        let u = unit_of(l, at);
        let (cuts, units, pieces) = chunks_show(l, end);
        let here = if l.placements is Some {
            placed_chunk(l, at, at, end)
        } else {
            flat_chunk(l, at, at, end)
        };
        assert forall|g: int| at <= g < end implies #[trigger] belongs(l, g, u) by {
            glyphs_belong(l, g);
        }
        if l.placements is Some {
            chunks_are_placed(l, at, at, end);
        } else {
            chunks_are_drawn(l, at, at, end);
        }
        assert(shows(l, u, at, end, here));
        let c = seq![at] + cuts;
        let v = seq![u] + units;
        let p = seq![here] + pieces;
        assert forall|k: int| 0 <= k < p.len() implies shows(
            l,
            v[k],
            c[k],
            c[k + 1],
            #[trigger] p[k],
        ) by {
            if k > 0 {
                assert(p[k] == pieces[k - 1]);
                assert(v[k] == units[k - 1]);
                assert(c[k] == cuts[k - 1]);
                assert(c[k + 1] == cuts[k]);
            } else {
                assert(c[1] == cuts[0]);
            }
        }
        assert(c.last() == cuts.last());
        assert(p.drop_first() =~= pieces);
        assert(p.first() == here);
        assert(p.flatten() =~= here + pieces.flatten());
        (c, v, p)
    }
}

/// The groups around a whole run: its fit, then its opacity where it is below one.
pub open spec fn around_run(l: RunLayer) -> Seq<Command> {
    let fitted = match l.fit {
        Some(transform) => seq![Command::BeginTransform { transform }],
        None => Seq::empty(),
    };
    if l.opacity.lt_spec(num(ONE)) {
        fitted.push(Command::BeginOpacity { alpha: l.opacity })
    } else {
        fitted
    }
}

/// A run is painted in stretches of one text unit each. Every glyph is shown once, in order, in the font
/// and stroke of the run and in the color of its unit, or of the run where its unit has none; inside the
/// opacity and the transform of the unit; and on a path at its place, if it has one there.
pub proof fn runs_paint_their_units(r: Recorded, node: Seq<char>, l: RunLayer)
    requires
        l.tables is Unused,
        l.count > 0,
        !paints_colors(l),
    ensures
        exists|cuts: Seq<int>, units: Seq<Option<int>>, pieces: Seq<Seq<Command>>| #[trigger]
            shown_in(l, 0, cuts, units, pieces) && run_painted(r, node, l).commands == r.commands
                + around_run(l) + pieces.flatten() + Seq::new(
                around_run(l).len(),
                |i: int| Command::End,
            ),
{
    let (cuts, units, pieces) = chunks_show(l, 0);
    assert(crate::runs::run_groups(l) =~= around_run(l));
    assert(ends(around_run(l).len()) =~= Seq::new(around_run(l).len(), |i: int| Command::End));
    assert(run_painted(r, node, l).commands =~= r.commands + around_run(l) + pieces.flatten()
        + Seq::new(around_run(l).len(), |i: int| Command::End));
}

/// A run whose glyphs all have colored outlines, that casts no shadow and follows no path, is painted as
/// outlines: no glyph run is recorded for it.
pub proof fn colored_runs_are_outlines(r: Recorded, node: Seq<char>, l: RunLayer)
    requires
        l.tables is Unused,
        l.count > 0,
        !l.is_shadow,
        l.placements is None,
        l.colored@.len() > 0,
        forall|i: int| 0 <= i < l.colored@.len() ==> (#[trigger] l.colored@[i]) is Some,
    ensures
        run_painted(r, node, l).commands == r.commands + around_run(l) + color_commands(
            l.colored@,
            l.colored@.len(),
        ) + Seq::new(around_run(l).len(), |i: int| Command::End),
        run_painted(r, node, l).notes == r.notes,
{
    assert(crate::runs::run_groups(l) =~= around_run(l));
    assert(ends(around_run(l).len()) =~= Seq::new(around_run(l).len(), |i: int| Command::End));
    assert(run_painted(r, node, l).commands =~= r.commands + around_run(l) + color_commands(
        l.colored@,
        l.colored@.len(),
    ) + Seq::new(around_run(l).len(), |i: int| Command::End));
}

/// A colored glyph is shown at its place, behind the glyphs before it; one without layers leaves nothing.
pub proof fn colored_glyphs_stand_at_their_place(glyphs: Seq<Option<ColorGlyph>>, g: ColorGlyph)
    ensures
        color_commands(Seq::empty(), 0) == Seq::<Command>::empty(),
        color_commands(glyphs.push(None), (glyphs.len() + 1) as nat) == color_commands(
            glyphs,
            glyphs.len(),
        ),
        g.layers@.len() == 0 ==> color_commands(glyphs.push(Some(g)), (glyphs.len() + 1) as nat)
            == color_commands(glyphs, glyphs.len()),
        g.layers@.len() > 0 ==> color_commands(glyphs.push(Some(g)), (glyphs.len() + 1) as nat)
            == color_commands(glyphs, glyphs.len()) + seq![
            Command::BeginTransform { transform: g.place },
        ] + layer_commands(g.layers@, g.layers@.len()) + seq![Command::End],
{
    colors_read_prefixes(glyphs, Some(g), glyphs.len());
    colors_read_prefixes(glyphs, None, glyphs.len());
    assert(ends(1) =~= seq![Command::End]);
}

proof fn colors_read_prefixes(glyphs: Seq<Option<ColorGlyph>>, more: Option<ColorGlyph>, n: nat)
    requires
        n <= glyphs.len(),
    ensures
        color_commands(glyphs.push(more), n) == color_commands(glyphs, n),
    decreases n,
{
    if n > 0 {
        colors_read_prefixes(glyphs, more, (n - 1) as nat);
    }
}

/// A colored layer fills its path with its color, over the layers before it.
pub proof fn colored_layers_fill_their_path(layers: Seq<ColorLayer>, x: ColorLayer)
    ensures
        layer_commands(Seq::empty(), 0) == Seq::<Command>::empty(),
        x.path is None ==> layer_commands(layers.push(x), (layers.len() + 1) as nat)
            == layer_commands(layers, layers.len()),
        x.path is Some ==> layer_commands(layers.push(x), (layers.len() + 1) as nat)
            == layer_commands(layers, layers.len()).push(
            Command::Path {
                path: x.path->0,
                fill_rule: FillRule::NonZero,
                fill: Some(Paint::Solid(x.color)),
                stroke: None,
            },
        ),
{
    layers_read_prefixes(layers, x, layers.len());
}

proof fn layers_read_prefixes(layers: Seq<ColorLayer>, x: ColorLayer, n: nat)
    requires
        n <= layers.len(),
    ensures
        layer_commands(layers.push(x), n) == layer_commands(layers, n),
    decreases n,
{
    if n > 0 {
        layers_read_prefixes(layers, x, (n - 1) as nat);
    }
}

/// Layers that the color tables emitted are taken as they are; a failure is reported and paints nothing;
/// a run without glyphs paints nothing.
pub proof fn tables_decide_first(r: Recorded, node: Seq<char>, l: RunLayer)
    ensures
        l.tables matches ColorTables::Emitted(c) ==> run_painted(r, node, l).commands == r.commands
            + c@,
        l.tables matches ColorTables::Failed(why) ==> run_painted(r, node, l).commands == r.commands
            && run_painted(r, node, l).notes.contains((node, why@)),
        l.tables is Unused && l.count == 0 ==> run_painted(r, node, l) == r,
{
    if let ColorTables::Failed(why) = l.tables {
        let more = r.notes.push((node, why@));
        assert(more[r.notes.len() as int] == (node, why@));
    }
}

/// The layers of a text are painted in their order.
pub proof fn layers_are_painted_in_order(
    r: Recorded,
    node: Seq<char>,
    layers: Seq<RunLayer>,
    l: RunLayer,
)
    ensures
        layers_painted(r, node, Seq::empty(), 0) == r,
        layers_painted(r, node, layers.push(l), (layers.len() + 1) as nat) == run_painted(
            layers_painted(r, node, layers, layers.len()),
            node,
            l,
        ),
{
    layers_painted_prefix(r, node, layers, l, layers.len());
}

proof fn layers_painted_prefix(
    r: Recorded,
    node: Seq<char>,
    layers: Seq<RunLayer>,
    l: RunLayer,
    n: nat,
)
    requires
        n <= layers.len(),
    ensures
        layers_painted(r, node, layers.push(l), n) == layers_painted(r, node, layers, n),
    decreases n,
{
    if n > 0 {
        layers_painted_prefix(r, node, layers, l, (n - 1) as nat);
    }
}

/// The shadow that is declared first lies on top: it is painted after all the others.
pub proof fn first_shadows_lie_on_top(
    r: Recorded,
    node: Seq<char>,
    first: TextShadow,
    others: Seq<TextShadow>,
)
    ensures
        shadows_painted(r, node, Seq::empty(), 0) == r,
        shadows_painted(r, node, seq![first] + others, (others.len() + 1) as nat) == shadow_painted(
            shadows_painted(r, node, others, others.len()),
            node,
            first,
        ),
{
    shadows_painted_suffix(r, node, first, others, others.len());
    assert((seq![first] + others)[0] == first);
}

proof fn shadows_painted_suffix(
    r: Recorded,
    node: Seq<char>,
    first: TextShadow,
    others: Seq<TextShadow>,
    n: nat,
)
    requires
        n <= others.len(),
    ensures
        shadows_painted(r, node, seq![first] + others, n) == shadows_painted(r, node, others, n),
    decreases n,
{
    if n > 0 {
        shadows_painted_suffix(r, node, first, others, (n - 1) as nat);
        let all = seq![first] + others;
        assert(all[all.len() - n] == others[others.len() - n]);
    }
}

/// A text is painted from back to front: its shadows, its ink, the boxes inside its lines. What could not
/// be shaped, or has no glyphs, paints nothing and is reported.
pub proof fn texts_are_painted_from_back_to_front(r: Recorded, node: Seq<char>, t: TextContent)
    ensures
        !t.shaped ==> text_painted(r, node, t).commands == r.commands && text_painted(
            r,
            node,
            t,
        ).notes.contains((node, "text shaping failed"@)),
        t.shaped && (forall|i: int| 0 <= i < t.runs@.len() ==> (#[trigger] t.runs@[i]).count == 0)
            ==> text_painted(r, node, t).commands == r.commands && text_painted(
            r,
            node,
            t,
        ).notes.contains((node, "text produced no glyphs (no usable font?)"@)),
{
    let a = (node, "text shaping failed"@);
    let b = (node, "text produced no glyphs (no usable font?)"@);
    assert(r.notes.push(a)[r.notes.len() as int] == a);
    assert(r.notes.push(b)[r.notes.len() as int] == b);
}

/// The ink of a shaped text lies over its shadows and under its inline boxes; reports add no command.
pub proof fn ink_lies_over_shadows(r: Recorded, node: Seq<char>, t: TextContent, i: int)
    requires
        t.shaped,
        0 <= i < t.runs@.len(),
        t.runs@[i].count != 0,
    ensures
        exists|s: Recorded|
            s.commands == r.commands && s.filters == r.filters && text_painted(r, node, t).commands
                == (#[trigger] inlines_painted(
                layers_painted(
                    shadows_painted(s, node, t.shadows@, t.shadows@.len()),
                    node,
                    t.layers@,
                    t.layers@.len(),
                ),
                node,
                t.inline@,
                t.inline@.len(),
            )).commands,
{
    let s1 = crate::runs::address_reports(r, node, t.runs@, t.runs@.len());
    addresses_add_no_command(r, node, t.runs@, t.runs@.len());
    let s = crate::runs::path_reports(s1, node, t.paths@, t.runs@);
    assert(s.commands == r.commands && s.filters == r.filters);
    let p = |run: TextRun| run.count != 0;
    assert(p(t.runs@[i]));
    assert(crate::runs::any_run(t.runs@, p));
    let last = inlines_painted(
        layers_painted(
            shadows_painted(s, node, t.shadows@, t.shadows@.len()),
            node,
            t.layers@,
            t.layers@.len(),
        ),
        node,
        t.inline@,
        t.inline@.len(),
    );
    assert(text_painted(r, node, t).commands == last.commands);
}

proof fn addresses_add_no_command(r: Recorded, node: Seq<char>, runs: Seq<TextRun>, n: nat)
    ensures
        crate::runs::address_reports(r, node, runs, n).commands == r.commands,
        crate::runs::address_reports(r, node, runs, n).filters == r.filters,
    decreases n,
{
    if n > 0 {
        addresses_add_no_command(r, node, runs, (n - 1) as nat);
    }
}

/// A blurred shadow is painted inside a blur of its own; another one as it is.
pub proof fn shadows_are_blurred(r: Recorded, node: Seq<char>, s: TextShadow, sigma: Scalar)
    ensures
        s.sigma is None ==> shadow_painted(r, node, s) == layers_painted(
            r,
            node,
            s.layers@,
            s.layers@.len(),
        ),
        s.sigma == Some(sigma) && s.layers@.len() == 0 ==> {
            let q = shadow_painted(r, node, s);
            &&& q.filters == r.filters.push(crate::recording::FilterOp::Blur { sigma })
            &&& q.commands == r.commands + seq![
                Command::BeginFilter {
                    filters: crate::recording::TableRange {
                        start: r.filters.len() as usize,
                        end: (r.filters.len() + 1) as usize,
                    },
                },
                Command::End,
            ]
        },
{
    if s.sigma == Some(sigma) && s.layers@.len() == 0 {
        let q = shadow_painted(r, node, s);
        assert(q.filters =~= r.filters.push(crate::recording::FilterOp::Blur { sigma }));
        assert(q.commands =~= r.commands + seq![
            Command::BeginFilter {
                filters: crate::recording::TableRange {
                    start: r.filters.len() as usize,
                    end: (r.filters.len() + 1) as usize,
                },
            },
            Command::End,
        ]);
    }
}

/// An image inside a line is drawn in its place, clipped to its round corners or where its fit can leave
/// the box, and faded by its opacity; without an area it is not drawn.
pub proof fn inline_images_are_drawn_in_place(r: Recorded, node: Seq<char>, c: InlineImage)
    requires
        !c.transformed,
        c.dst.width.finite() && c.dst.height.finite(),
        c.opacity.finite(),
    ensures
        c.dst.width.order() <= 0 || c.dst.height.order() <= 0 ==> inline_painted(
            r,
            node,
            InlineItem::Image(c),
        ) == r,
        c.dst.width.order() > 0 && c.dst.height.order() > 0 && !crate::shell::rounded(c.radii)
            && c.fit == crate::recording::ObjectFit::Fill && c.opacity.order() >= num(ONE).order()
            ==> inline_painted(r, node, InlineItem::Image(c)).commands == r.commands.push(
            Command::Image { image: c.image, dst: c.dst, fit: c.fit },
        ),
        c.dst.width.order() > 0 && c.dst.height.order() > 0 && crate::shell::rounded(c.radii)
            && c.opacity.order() >= num(ONE).order() ==> inline_painted(
            r,
            node,
            InlineItem::Image(c),
        ).commands == r.commands + seq![
            Command::BeginClipRoundRect { rect: c.dst, radii: c.radii },
            Command::Image { image: c.image, dst: c.dst, fit: c.fit },
            Command::End,
        ],
        c.dst.width.order() > 0 && c.dst.height.order() > 0 && !crate::shell::rounded(c.radii)
            && c.fit == crate::recording::ObjectFit::Cover && 0 <= c.opacity.order() < num(
            ONE,
        ).order() ==> inline_painted(r, node, InlineItem::Image(c)).commands == r.commands + seq![
            Command::BeginClipRect { rect: c.dst },
            Command::BeginOpacity { alpha: c.opacity },
            Command::Image { image: c.image, dst: c.dst, fit: c.fit },
            Command::End,
            Command::End,
        ],
{
    let q = inline_painted(r, node, InlineItem::Image(c));
    if c.dst.width.order() > 0 && c.dst.height.order() > 0 {
        assert(q.commands == r.commands + crate::runs::inline_commands(c));
        if !crate::shell::rounded(c.radii) && c.fit == crate::recording::ObjectFit::Fill
            && c.opacity.order() >= num(ONE).order() {
            assert(q.commands =~= r.commands.push(
                Command::Image { image: c.image, dst: c.dst, fit: c.fit },
            ));
        }
        if crate::shell::rounded(c.radii) && c.opacity.order() >= num(ONE).order() {
            assert(q.commands =~= r.commands + seq![
                Command::BeginClipRoundRect { rect: c.dst, radii: c.radii },
                Command::Image { image: c.image, dst: c.dst, fit: c.fit },
                Command::End,
            ]);
        }
        if !crate::shell::rounded(c.radii) && c.fit == crate::recording::ObjectFit::Cover && 0
            <= c.opacity.order() < num(ONE).order() {
            assert(q.commands =~= r.commands + seq![
                Command::BeginClipRect { rect: c.dst },
                Command::BeginOpacity { alpha: c.opacity },
                Command::Image { image: c.image, dst: c.dst, fit: c.fit },
                Command::End,
                Command::End,
            ]);
        }
    }
}

} // verus!
