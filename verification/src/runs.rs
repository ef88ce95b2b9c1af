//! Recording shaped text: per-unit chunks, text on paths, shadows, inline images, and the reports
//! that go with them.

use vstd::prelude::*;

use crate::clusters::Span;
use crate::emitter::{grew, grew_by, grew_more, grew_nothing, grew_one, Emitter, Recorded};
use crate::glyphs::GlyphAddress;
use crate::recording::{
    balanced, ends, Affine, Command, Corners, FillRule, FilterOp, GlyphSource, ObjectFit, Paint,
    PathRef, Point, Rect, Rgba, StrokeRef,
};
use crate::scalar::{num, Scalar, ONE, ZERO};
use crate::shell::{close_one, is_rounded, rounded};
use crate::table::{find, lookup, Entry};

verus! {

/// The animated style of one text unit.
#[derive(Clone, Copy, Debug, PartialEq, Eq, Structural)]
pub struct ResolvedUnit {
    pub start: u32,
    pub end: u32,
    pub opacity: Option<Scalar>,
    pub translate: Option<Point>,
    pub scale: Option<Point>,
    pub rotate: Option<Scalar>,
    pub color: Option<Rgba>,
}

/// Whether a unit moves its glyphs.
pub open spec fn moves(unit: ResolvedUnit) -> bool {
    unit.translate is Some || unit.scale is Some || unit.rotate is Some
}

/// A shadow's color at the coverage of the ink that casts it.
pub open spec fn tinted(shadow: Rgba, a: u8) -> Rgba {
    Rgba { a: (shadow.a as int * a as int / 255) as u8, ..shadow }
}

pub fn tint(shadow: Rgba, a: u8) -> (r: Rgba)
    ensures
        r == tinted(shadow, a),
        r.a <= shadow.a,
{
    assert(shadow.a as int * a as int <= 255 * 255) by (nonlinear_arith)
        requires
            shadow.a <= 255,
            a <= 255,
    ;
    let product: u32 = shadow.a as u32 * a as u32;
    assert(product <= 255 * shadow.a as int) by (nonlinear_arith)
        requires
            product == shadow.a as int * a as int,
            a <= 255,
    ;
    let alpha: u32 = product / 255;
    Rgba { r: shadow.r, g: shadow.g, b: shadow.b, a: alpha as u8 }
}

/// One colored layer of a glyph; the path is absent where it is empty.
#[derive(Clone, Copy, Debug, PartialEq, Eq, Structural)]
pub struct ColorLayer {
    pub path: Option<PathRef>,
    pub color: Rgba,
}

/// A glyph made of colored outlines.
pub struct ColorGlyph {
    pub place: Affine,
    pub layers: Vec<ColorLayer>,
}

/// What the color-table painter made of a run.
pub enum ColorTables {
    Emitted(Vec<Command>),
    Failed(&'static str),
    /// The run is painted as ordinary glyphs.
    Unused,
}

/// One layer of a shaped run: its ink, or one of its shadows.
pub struct RunLayer {
    pub tables: ColorTables,
    pub count: usize,
    pub font: u32,
    pub glyphs: Span,
    /// Colored outlines, glyph by glyph.
    pub colored: Vec<Option<ColorGlyph>>,
    pub is_shadow: bool,
    pub has_bitmap: bool,
    pub paint: Paint,
    pub stroke: Option<StrokeRef>,
    pub source: Option<GlyphSource>,
    /// Byte ranges of the glyphs, where they are addressed.
    pub ranges: Option<Vec<Span>>,
    pub units: Option<Vec<ResolvedUnit>>,
    /// For each glyph, the transform of the unit chunk that starts there.
    pub transforms: Vec<Option<Affine>>,
    /// For each glyph, its place on a path; glyphs beyond the path have none.
    pub placements: Option<Vec<Option<Affine>>>,
    /// Text-fit transform, absent where it is the identity.
    pub fit: Option<Affine>,
    /// Opacity of the run, inside 0..=1.
    pub opacity: Scalar,
}

impl RunLayer {
    /// Whether the side tables hold one entry per glyph.
    pub open spec fn wf(self) -> bool {
        &&& self.glyphs.end - self.glyphs.start == self.count
        &&& self.transforms@.len() == self.count
        &&& self.colored@.len() == self.count
        &&& self.source matches Some(s) ==> s.ranges.end - s.ranges.start == self.count
        &&& self.tables matches ColorTables::Emitted(c) ==> balanced(c@)
    }
}

/// Position of the first unit among the first `n` that holds a byte, or `n`.
pub open spec fn unit_at(units: Seq<ResolvedUnit>, byte: u32, n: nat) -> nat
    decreases n,
{
    if n == 0 {
        0
    } else {
        let before = unit_at(units, byte, (n - 1) as nat);
        if before < n - 1 {
            before
        } else if units[n - 1].start <= byte < units[n - 1].end {
            (n - 1) as nat
        } else {
            n
        }
    }
}

/// The unit of a glyph: the one that holds its cluster's first byte.
pub open spec fn glyph_unit(l: RunLayer, at: int) -> Option<nat> {
    if l.ranges is Some && l.units is Some && at < l.ranges->0@.len() && unit_at(
        l.units->0@,
        l.ranges->0@[at].start,
        l.units->0@.len(),
    ) < l.units->0@.len() {
        Some(unit_at(l.units->0@, l.ranges->0@[at].start, l.units->0@.len()))
    } else {
        None
    }
}

/// End of the chunk that starts at `at`, looked for from `end`: the longest stretch of one unit.
pub open spec fn chunk_end(l: RunLayer, at: int, end: int) -> int
    decreases l.count - end,
{
    if end >= l.count || glyph_unit(l, end) != glyph_unit(l, at) {
        end
    } else {
        chunk_end(l, at, end + 1)
    }
}

pub open spec fn chunk_unit(l: RunLayer, at: int) -> Option<ResolvedUnit> {
    match glyph_unit(l, at) {
        Some(k) => Some(l.units->0@[k as int]),
        None => None,
    }
}

/// The groups that a chunk's unit puts around its glyphs.
pub open spec fn unit_groups(l: RunLayer, at: int) -> Seq<Command> {
    match chunk_unit(l, at) {
        None => Seq::empty(),
        Some(u) => (match u.opacity {
            Some(alpha) => seq![
                Command::BeginOpacity { alpha: alpha.clamp_spec(num(ZERO), num(ONE)) },
            ],
            None => Seq::empty(),
        }) + (if moves(u) {
            match l.transforms@[at] {
                Some(transform) => seq![Command::BeginTransform { transform }],
                None => Seq::empty(),
            }
        } else {
            Seq::empty()
        }),
    }
}

/// The run of glyphs `from..to` with its paint and text source.
pub open spec fn glyph_command(l: RunLayer, at: int, from: int, to: int) -> Command {
    Command::GlyphRun {
        font: l.font,
        glyphs: Span {
            start: (l.glyphs.start + from) as u32,
            end: (l.glyphs.start + to) as u32,
        },
        paint: match chunk_unit(l, at) {
            Some(u) => match u.color {
                Some(c) => Paint::Solid(c),
                None => l.paint,
            },
            None => l.paint,
        },
        stroke: l.stroke,
        source: match l.source {
            Some(s) => Some(
                GlyphSource {
                    node: s.node,
                    ranges: Span {
                        start: (s.ranges.start + from) as u32,
                        end: (s.ranges.start + to) as u32,
                    },
                },
            ),
            None => None,
        },
    }
}

/// One chunk drawn in place.
pub open spec fn flat_chunk(l: RunLayer, at: int, from: int, to: int) -> Seq<Command> {
    unit_groups(l, at).push(glyph_command(l, at, from, to)) + ends(unit_groups(l, at).len())
}

/// One chunk drawn glyph by glyph on a path; glyphs beyond the path are left out.
pub open spec fn placed_chunk(l: RunLayer, at: int, from: int, to: int) -> Seq<Command>
    decreases to - from,
{
    if from >= to {
        Seq::empty()
    } else {
        let places = l.placements->0@;
        let here = if from < places.len() && places[from] is Some {
            seq![Command::BeginTransform { transform: places[from]->0 }] + flat_chunk(
                l,
                at,
                from,
                from + 1,
            ) + ends(1)
        } else {
            Seq::empty()
        };
        here + placed_chunk(l, at, from + 1, to)
    }
}

/// The chunks of a run from `at` on.
pub open spec fn chunk_commands(l: RunLayer, at: int) -> Seq<Command>
    decreases l.count - at,
{
    if at < 0 || at >= l.count {
        Seq::empty()
    } else {
        let end = chunk_end(l, at, at + 1);
        let here = if l.placements is Some {
            placed_chunk(l, at, at, end)
        } else {
            flat_chunk(l, at, at, end)
        };
        if end <= at || end > l.count {
            here
        } else {
            here + chunk_commands(l, end)
        }
    }
}

/// The layers of a colored glyph, as filled paths.
pub open spec fn layer_commands(layers: Seq<ColorLayer>, n: nat) -> Seq<Command>
    decreases n,
{
    if n == 0 {
        Seq::empty()
    } else {
        let rest = layer_commands(layers, (n - 1) as nat);
        match layers[n - 1].path {
            Some(path) => rest.push(
                Command::Path {
                    path,
                    fill_rule: FillRule::NonZero,
                    fill: Some(Paint::Solid(layers[n - 1].color)),
                    stroke: None,
                },
            ),
            None => rest,
        }
    }
}

/// The first `n` glyphs as colored outlines; glyphs without layers leave no group.
pub open spec fn color_commands(glyphs: Seq<Option<ColorGlyph>>, n: nat) -> Seq<Command>
    decreases n,
{
    if n == 0 {
        Seq::empty()
    } else {
        let rest = color_commands(glyphs, (n - 1) as nat);
        match glyphs[n - 1] {
            Some(g) => if g.layers@.len() == 0 {
                rest
            } else {
                rest + seq![Command::BeginTransform { transform: g.place }] + layer_commands(
                    g.layers@,
                    g.layers@.len(),
                ) + ends(1)
            },
            None => rest,
        }
    }
}

/// Whether a run is painted as colored outlines: it is no shadow, follows no path, and every glyph
/// has colored layers.
pub open spec fn paints_colors(l: RunLayer) -> bool {
    !l.is_shadow && l.placements is None && l.colored@.len() > 0 && forall|i: int|
        0 <= i < l.colored@.len() ==> (#[trigger] l.colored@[i]) is Some
}

/// The groups around a run.
pub open spec fn run_groups(l: RunLayer) -> Seq<Command> {
    (match l.fit {
        Some(transform) => seq![Command::BeginTransform { transform }],
        None => Seq::empty(),
    }) + (if l.opacity.lt_spec(num(ONE)) {
        seq![Command::BeginOpacity { alpha: l.opacity }]
    } else {
        Seq::empty()
    })
}

pub open spec fn run_wrapped(l: RunLayer, inner: Seq<Command>) -> Seq<Command> {
    run_groups(l) + inner + ends(run_groups(l).len())
}

/// The state once a layer of a run is recorded.
pub open spec fn run_painted(r: Recorded, node: Seq<char>, l: RunLayer) -> Recorded {
    match l.tables {
        ColorTables::Emitted(c) => r.put_all(c@),
        ColorTables::Failed(why) => r.note(node, why@),
        ColorTables::Unused => if l.count == 0 {
            r
        } else if paints_colors(l) {
            r.put_all(run_wrapped(l, color_commands(l.colored@, l.colored@.len())))
        } else {
            let r1 = if l.has_bitmap { r.note(node, "bitmap emoji glyphs"@) } else { r };
            r1.put_all(run_wrapped(l, chunk_commands(l, 0)))
        },
    }
}

proof fn unit_at_settles(units: Seq<ResolvedUnit>, byte: u32, m: nat, n: nat)
    requires
        m < n <= units.len(),
        units[m as int].start <= byte < units[m as int].end,
        unit_at(units, byte, m) == m,
    ensures
        unit_at(units, byte, n) == m,
    decreases n - m,
{
    if m + 1 < n {
        unit_at_settles(units, byte, m, (n - 1) as nat);
    }
}

fn find_unit(l: &RunLayer, at: usize) -> (r: Option<usize>)
    ensures
        match r {
            Some(k) => glyph_unit(*l, at as int) == Some(k as nat) && l.units is Some && k
                < l.units->0@.len(),
            None => glyph_unit(*l, at as int) is None,
        },
{
    match (&l.ranges, &l.units) {
        (Some(ranges), Some(units)) => {
            if at >= ranges.len() {
                return None;
            }
            let byte: u32 = ranges[at].start;
            let mut k: usize = 0;
            while k < units.len()
                invariant
                    k <= units@.len(),
                    unit_at(units@, byte, k as nat) == k,
                    l.units == Some(*units),
                    l.ranges == Some(*ranges),
                    at < ranges@.len(),
                    byte == ranges@[at as int].start,
                decreases units@.len() - k,
            {
                if units[k].start <= byte && byte < units[k].end {
                    proof {
                        unit_at_settles(units@, byte, k as nat, units@.len());
                    }
                    return Some(k);
                }
                k = k + 1;
            }
            None
        },
        _ => None,
    }
}

fn same_index(a: Option<usize>, b: Option<usize>) -> (r: bool)
    ensures
        r == (a == b),
{
    match (a, b) {
        (Some(x), Some(y)) => x == y,
        (None, None) => true,
        _ => false,
    }
}

impl Emitter {
    /// Records a prepared list of commands.
    pub fn push_all(&mut self, commands: &Vec<Command>)
        ensures
            final(self)@ == old(self)@.put_all(commands@),
    {
        let mut i: usize = 0;
        assert(self@.commands + commands@.take(0) =~= self@.commands);
        while i < commands.len()
            invariant
                i <= commands@.len(),
                self@ == old(self)@.put_all(commands@.take(i as int)),
            decreases commands@.len() - i,
        {
            self.push(commands[i]);
            i = i + 1;
            assert(self@.commands =~= old(self)@.commands + commands@.take(i as int));
        }
        assert(commands@.take(commands@.len() as int) =~= commands@);
    }

    fn open_unit(&mut self, l: &RunLayer, at: usize) -> (r: usize)
        requires
            at < l.count,
            l.wf(),
        ensures
            final(self)@ == old(self)@.put_all(unit_groups(*l, at as int)),
            r == unit_groups(*l, at as int).len(),
            grew(old(self)@, final(self)@, r as int),
    {
        let mut depth: usize = 0;
        proof {
            grew_nothing(old(self)@, self@);
            assert(self@.commands + Seq::<Command>::empty() =~= self@.commands);
        }
        match find_unit(l, at) {
            None => {},
            Some(k) => {
                match &l.units {
                    None => {},
                    Some(units) => {
                        let unit = units[k];
                        assert(chunk_unit(*l, at as int) == Some(unit));
                        match unit.opacity {
                            Some(alpha) => {
                                let c = Command::BeginOpacity {
                                    alpha: alpha.clamp(
                                        Scalar::from_bits(ZERO),
                                        Scalar::from_bits(ONE),
                                    ),
                                };
                                self.push(c);
                                depth = 1;
                                proof {
                                    grew_one(old(self)@, self@, c);
                                }
                            },
                            None => {},
                        }
                        let ghost faded = self@;
                        if unit.translate.is_some() || unit.scale.is_some()
                            || unit.rotate.is_some() {
                            match l.transforms[at] {
                                Some(transform) => {
                                    let c = Command::BeginTransform { transform };
                                    self.push(c);
                                    depth = depth + 1;
                                    proof {
                                        grew_one(faded, self@, c);
                                        grew_more(old(self)@, faded, self@, depth - 1, 1);
                                    }
                                },
                                None => {},
                            }
                        }
                        assert(self@.commands =~= old(self)@.commands + unit_groups(*l, at as int));
                    },
                }
            },
        }
        depth
    }

    fn push_ends(&mut self, n: usize)
        ensures
            final(self)@ == old(self)@.put_all(ends(n as nat)),
    {
        let mut i: usize = 0;
        assert(self@.commands + ends(0) =~= self@.commands);
        while i < n
            invariant
                i <= n,
                self@ == old(self)@.put_all(ends(i as nat)),
            decreases n - i,
        {
            self.push(Command::End);
            i = i + 1;
            assert(self@.commands =~= old(self)@.commands + ends(i as nat));
        }
    }

    fn paint_flat(&mut self, l: &RunLayer, at: usize, from: usize, to: usize)
        requires
            l.wf(),
            at <= from < to <= l.count,
        ensures
            final(self)@ == old(self)@.put_all(flat_chunk(*l, at as int, from as int, to as int)),
            grew(old(self)@, final(self)@, 0),
    {
        let depth: usize = self.open_unit(l, at);
        let ghost opened = self@;
        let mut paint: Paint = l.paint;
        match find_unit(l, at) {
            Some(k) => {
                match &l.units {
                    Some(units) => {
                        match units[k].color {
                            Some(c) => {
                                paint = Paint::Solid(c);
                            },
                            None => {},
                        }
                    },
                    None => {},
                }
            },
            None => {},
        }
        let source: Option<GlyphSource> = match l.source {
            Some(s) => Some(
                GlyphSource {
                    node: s.node,
                    ranges: Span {
                        start: s.ranges.start + from as u32,
                        end: s.ranges.start + to as u32,
                    },
                },
            ),
            None => None,
        };
        let c = Command::GlyphRun {
            font: l.font,
            glyphs: Span {
                start: l.glyphs.start + from as u32,
                end: l.glyphs.start + to as u32,
            },
            paint,
            stroke: l.stroke,
            source,
        };
        assert(c == glyph_command(*l, at as int, from as int, to as int));
        self.push(c);
        let ghost drawn = self@;
        self.push_ends(depth);
        proof {
            grew_one(opened, drawn, c);
            grew_more(old(self)@, opened, drawn, depth as int, 0);
            close_many(old(self)@, drawn, self@, depth as nat);
            assert(self@.commands =~= old(self)@.commands + flat_chunk(
                *l,
                at as int,
                from as int,
                to as int,
            ));
        }
    }

    fn paint_placed(&mut self, l: &RunLayer, at: usize, to: usize)
        requires
            l.wf(),
            at < to <= l.count,
            l.placements is Some,
        ensures
            final(self)@ == old(self)@.put_all(placed_chunk(*l, at as int, at as int, to as int)),
            grew(old(self)@, final(self)@, 0),
    {
        proof {
            grew_nothing(old(self)@, self@);
        }
        match &l.placements {
            None => {},
            Some(places) => {
                let mut i: usize = at;
                let ghost whole = placed_chunk(*l, at as int, at as int, to as int);
                assert(self@.commands + whole =~= old(self)@.commands + whole);
                while i < to
                    invariant
                        l.wf(),
                        at <= i <= to <= l.count,
                        at < l.count,
                        l.placements == Some(*places),
                        whole == placed_chunk(*l, at as int, at as int, to as int),
                        self@.commands + placed_chunk(*l, at as int, i as int, to as int)
                            == old(self)@.commands + whole,
                        self@ == (Recorded { commands: self@.commands, ..old(self)@ }),
                        grew(old(self)@, self@, 0),
                    decreases to - i,
                {
                    let ghost before = self@;
                    let place: Option<Affine> = if i < places.len() { places[i] } else { None };
                    match place {
                        Some(transform) => {
                            let c = Command::BeginTransform { transform };
                            self.push(c);
                            let ghost moved = self@;
                            self.paint_flat(l, at, i, i + 1);
                            let ghost drawn = self@;
                            self.push(Command::End);
                            proof {
                                grew_one(before, moved, c);
                                grew_more(before, moved, drawn, 1, 0);
                                close_one(before, drawn, self@);
                                grew_more(old(self)@, before, self@, 0, 0);
                                let here = seq![c] + flat_chunk(
                                    *l,
                                    at as int,
                                    i as int,
                                    i as int + 1,
                                ) + ends(1);
                                let rest = placed_chunk(*l, at as int, i as int + 1, to as int);
                                assert(self@.commands =~= before.commands + here);
                                assert(placed_chunk(*l, at as int, i as int, to as int) == here
                                    + rest);
                                assert(self@.commands + rest =~= before.commands + (here + rest));
                            }
                        },
                        None => {
                            proof {
                                let rest = placed_chunk(*l, at as int, i as int + 1, to as int);
                                assert(placed_chunk(*l, at as int, i as int, to as int)
                                    =~= Seq::<Command>::empty() + rest);
                                assert(placed_chunk(*l, at as int, i as int, to as int) =~= rest);
                            }
                        },
                    }
                    i = i + 1;
                }
                assert(placed_chunk(*l, at as int, to as int, to as int) =~= Seq::empty());
                assert(self@.commands =~= old(self)@.commands + whole);
            },
        }
    }

    /// Records a run chunk by chunk; a chunk is the longest stretch of glyphs of one unit.
    pub fn glyph_chunks(&mut self, l: &RunLayer)
        requires
            l.wf(),
        ensures
            final(self)@ == old(self)@.put_all(chunk_commands(*l, 0)),
            grew(old(self)@, final(self)@, 0),
    {
        let mut at: usize = 0;
        let ghost whole = chunk_commands(*l, 0);
        proof {
            grew_nothing(old(self)@, self@);
        }
        while at < l.count
            invariant
                l.wf(),
                at <= l.count,
                whole == chunk_commands(*l, 0),
                self@.commands + chunk_commands(*l, at as int) == old(self)@.commands + whole,
                self@ == (Recorded { commands: self@.commands, ..old(self)@ }),
                grew(old(self)@, self@, 0),
            decreases l.count - at,
        {
            let ghost before = self@;
            let current = find_unit(l, at);
            let mut end: usize = at + 1;
            while end < l.count && same_index(find_unit(l, end), current)
                invariant
                    at < end <= l.count,
                    match current {
                        Some(k) => glyph_unit(*l, at as int) == Some(k as nat),
                        None => glyph_unit(*l, at as int) is None,
                    },
                    chunk_end(*l, at as int, at as int + 1) == chunk_end(
                        *l,
                        at as int,
                        end as int,
                    ),
                decreases l.count - end,
            {
                end = end + 1;
            }
            assert(chunk_end(*l, at as int, at as int + 1) == end);
            let ghost here;
            if l.placements.is_some() {
                self.paint_placed(l, at, end);
                proof {
                    here = placed_chunk(*l, at as int, at as int, end as int);
                }
            } else {
                self.paint_flat(l, at, at, end);
                proof {
                    here = flat_chunk(*l, at as int, at as int, end as int);
                }
            }
            proof {
                grew_more(old(self)@, before, self@, 0, 0);
                let rest = chunk_commands(*l, end as int);
                assert(chunk_commands(*l, at as int) == here + rest);
                assert(self@.commands + rest =~= before.commands + (here + rest));
            }
            at = end;
        }
        assert(chunk_commands(*l, at as int) =~= Seq::empty());
        assert(self@.commands =~= old(self)@.commands + whole);
    }

    fn paint_colors(&mut self, l: &RunLayer)
        ensures
            final(self)@ == old(self)@.put_all(color_commands(l.colored@, l.colored@.len())),
            grew(old(self)@, final(self)@, 0),
    {
        let mut i: usize = 0;
        proof {
            grew_nothing(old(self)@, self@);
            assert(self@.commands + Seq::<Command>::empty() =~= self@.commands);
        }
        while i < l.colored.len()
            invariant
                i <= l.colored@.len(),
                self@ == old(self)@.put_all(color_commands(l.colored@, i as nat)),
                grew(old(self)@, self@, 0),
            decreases l.colored@.len() - i,
        {
            let ghost before = self@;
            match &l.colored[i] {
                None => {},
                Some(glyph) => {
                    if glyph.layers.len() > 0 {
                        let c = Command::BeginTransform { transform: glyph.place };
                        self.push(c);
                        let ghost placed = self@;
                        self.paint_layers(&glyph.layers);
                        let ghost drawn = self@;
                        self.push(Command::End);
                        proof {
                            grew_one(before, placed, c);
                            grew_more(before, placed, drawn, 1, 0);
                            close_one(before, drawn, self@);
                            grew_more(old(self)@, before, self@, 0, 0);
                            assert(self@.commands =~= old(self)@.commands + color_commands(
                                l.colored@,
                                (i + 1) as nat,
                            ));
                        }
                    }
                },
            }
            i = i + 1;
        }
    }

    fn paint_layers(&mut self, layers: &Vec<ColorLayer>)
        ensures
            final(self)@ == old(self)@.put_all(layer_commands(layers@, layers@.len())),
            grew(old(self)@, final(self)@, 0),
    {
        let mut i: usize = 0;
        proof {
            grew_nothing(old(self)@, self@);
            assert(self@.commands + Seq::<Command>::empty() =~= self@.commands);
        }
        while i < layers.len()
            invariant
                i <= layers@.len(),
                self@ == old(self)@.put_all(layer_commands(layers@, i as nat)),
                grew(old(self)@, self@, 0),
            decreases layers@.len() - i,
        {
            let ghost before = self@;
            match layers[i].path {
                Some(path) => {
                    let c = Command::Path {
                        path,
                        fill_rule: FillRule::NonZero,
                        fill: Some(Paint::Solid(layers[i].color)),
                        stroke: None,
                    };
                    self.push(c);
                    proof {
                        grew_one(before, self@, c);
                        grew_more(old(self)@, before, self@, 0, 0);
                        assert(self@.commands =~= old(self)@.commands + layer_commands(
                            layers@,
                            (i + 1) as nat,
                        ));
                    }
                },
                None => {},
            }
            i = i + 1;
        }
    }

    fn paint_ink(&mut self, l: &RunLayer, colors: bool)
        requires
            l.wf(),
        ensures
            final(self)@ == old(self)@.put_all(
                run_wrapped(
                    *l,
                    if colors {
                        color_commands(l.colored@, l.colored@.len())
                    } else {
                        chunk_commands(*l, 0)
                    },
                ),
            ),
            grew(old(self)@, final(self)@, 0),
    {
        let ghost noted = old(self)@;
        let mut depth: usize = 0;
        proof {
            grew_nothing(noted, noted);
        }
        match l.fit {
            Some(transform) => {
                let c = Command::BeginTransform { transform };
                self.push(c);
                depth = 1;
                proof {
                    grew_one(noted, self@, c);
                }
            },
            None => {},
        }
        let ghost fitted = self@;
        if l.opacity.lt(Scalar::from_bits(ONE)) {
            let c = Command::BeginOpacity { alpha: l.opacity };
            self.push(c);
            depth = depth + 1;
            proof {
                grew_one(fitted, self@, c);
                grew_more(noted, fitted, self@, depth - 1, 1);
            }
        }
        let ghost opened = self@;
        assert(opened.commands =~= noted.commands + run_groups(*l));
        assert(depth == run_groups(*l).len());
        let ghost inner;
        if colors {
            self.paint_colors(l);
            proof {
                inner = color_commands(l.colored@, l.colored@.len());
            }
        } else {
            self.glyph_chunks(l);
            proof {
                inner = chunk_commands(*l, 0);
            }
        }
        let ghost drawn = self@;
        self.push_ends(depth);
        proof {
            grew_more(noted, opened, drawn, depth as int, 0);
            close_many(noted, drawn, self@, depth as nat);
            assert(self@.commands =~= noted.commands + run_wrapped(*l, inner));
        }
    }

    /// Records one layer of a shaped run.
    pub fn glyph_run_at(&mut self, node: &str, l: &RunLayer)
        requires
            l.wf(),
        ensures
            final(self)@ == run_painted(old(self)@, node@, *l),
            grew(old(self)@, final(self)@, 0),
    {
        proof {
            grew_nothing(old(self)@, self@);
        }
        match &l.tables {
            ColorTables::Emitted(commands) => {
                self.push_all(commands);
                proof {
                    grew_by(old(self)@, self@, commands@);
                }
                return ;
            },
            ColorTables::Failed(why) => {
                self.unsupported(node, *why);
                proof {
                    grew_nothing(old(self)@, self@);
                }
                return ;
            },
            ColorTables::Unused => {},
        }
        if l.count == 0 {
            return ;
        }
        let colors: bool = !l.is_shadow && l.placements.is_none() && all_colored(&l.colored);
        assert(colors == paints_colors(*l));
        if !colors && l.has_bitmap {
            self.unsupported(node, "bitmap emoji glyphs");
            proof {
                grew_nothing(old(self)@, self@);
            }
        }
        let ghost noted = self@;
        self.paint_ink(l, colors);
        proof {
            grew_more(old(self)@, noted, self@, 0, 0);
        }
    }
}

fn all_colored(glyphs: &Vec<Option<ColorGlyph>>) -> (r: bool)
    ensures
        r == (glyphs@.len() > 0 && forall|i: int|
            0 <= i < glyphs@.len() ==> (#[trigger] glyphs@[i]) is Some),
{
    let mut i: usize = 0;
    while i < glyphs.len()
        invariant
            i <= glyphs@.len(),
            forall|k: int| 0 <= k < i ==> (#[trigger] glyphs@[k]) is Some,
        decreases glyphs@.len() - i,
    {
        if glyphs[i].is_none() {
            return false;
        }
        i = i + 1;
    }
    glyphs.len() > 0
}

/// Closing all open groups leaves nothing open.
pub proof fn close_many(a: Recorded, b: Recorded, c: Recorded, n: nat)
    requires
        grew(a, b, n as int),
        c.commands == b.commands + ends(n),
    ensures
        grew(a, c, 0),
{
    let x = b.commands.skip(a.commands.len() as int);
    assert(b.commands =~= a.commands + x);
    crate::recording::empty_is_balanced();
    crate::recording::wrapping_is_balanced(x, Seq::<Command>::empty(), n);
    assert(x + Seq::<Command>::empty() =~= x);
    assert(c.commands =~= a.commands + (x + ends(n)));
    grew_by(a, c, x + ends(n));
}

/// Splitting into chunks loses no glyph: chunks are non-empty, follow one another and end at the
/// last glyph, and all glyphs of a chunk have one unit.
pub proof fn chunks_keep_units(l: RunLayer, at: int, end: int)
    requires
        0 <= at < end <= l.count,
        forall|k: int| at <= k < end ==> #[trigger] glyph_unit(l, k) == glyph_unit(l, at),
    ensures
        end <= chunk_end(l, at, end) <= l.count,
        forall|k: int|
            at <= k < chunk_end(l, at, end) ==> #[trigger] glyph_unit(l, k) == glyph_unit(l, at),
        chunk_end(l, at, end) < l.count ==> glyph_unit(l, chunk_end(l, at, end)) != glyph_unit(
            l,
            at,
        ),
    decreases l.count - end,
{
    if end < l.count && glyph_unit(l, end) == glyph_unit(l, at) {
        chunks_keep_units(l, at, end + 1);
    }
}

/// A shaped run as text layout reports it.
pub struct TextRun {
    pub count: usize,
    pub address: GlyphAddress,
    /// Node whose text the run shows, where it is addressed.
    pub key: Option<String>,
    /// Bit pattern of the run's baseline.
    pub baseline: u32,
    /// Whether the run is raised or lowered.
    pub shifted: bool,
    /// Places on the run's path, absent where sampling failed or there is no path.
    pub placement: Option<Vec<Option<Affine>>>,
}

/// Whether a run follows a path of positive length. `paths` says of each node's path whether its
/// length is positive.
pub open spec fn follows(paths: Seq<Entry<bool>>, run: TextRun) -> bool {
    run.key is Some && find(paths, run.key->0@) == Some(true)
}

/// Whether a run's path has no length.
pub open spec fn degenerate(paths: Seq<Entry<bool>>, run: TextRun) -> bool {
    run.key is Some && find(paths, run.key->0@) == Some(false)
}

/// Whether some glyph of a run lies beyond its path.
pub open spec fn spills(run: TextRun) -> bool {
    run.placement is Some && exists|k: int|
        0 <= k < run.placement->0@.len() && (#[trigger] run.placement->0@[k]) is None
}

pub open spec fn any_run(runs: Seq<TextRun>, p: spec_fn(TextRun) -> bool) -> bool {
    exists|i: int| 0 <= i < runs.len() && p(#[trigger] runs[i])
}

pub open spec fn noted_if(r: Recorded, test: bool, node: Seq<char>, what: Seq<char>) -> Recorded {
    if test { r.note(node, what) } else { r }
}

/// The reports of text on paths, in their fixed order.
pub open spec fn path_reports(
    r: Recorded,
    node: Seq<char>,
    paths: Seq<Entry<bool>>,
    runs: Seq<TextRun>,
) -> Recorded {
    let r1 = noted_if(
        r,
        any_run(runs, |run: TextRun| degenerate(paths, run)),
        node,
        "text path has zero length or cannot be flattened"@,
    );
    if !any_run(runs, |run: TextRun| follows(paths, run)) {
        r1
    } else {
        let r2 = noted_if(
            r1,
            any_run(runs, |run: TextRun| run.baseline != runs[0].baseline),
            node,
            "text path requires one line, but the text wrapped"@,
        );
        let r3 = noted_if(
            r2,
            any_run(runs, |run: TextRun| run.shifted),
            node,
            "text path does not preserve superscript or subscript baseline offsets"@,
        );
        let r4 = noted_if(
            r3,
            any_run(runs, |run: TextRun| follows(paths, run) && run.placement is None),
            node,
            "text path sampling failed"@,
        );
        noted_if(
            r4,
            any_run(runs, |run: TextRun| spills(run)),
            node,
            "text path omitted glyphs beyond the path length"@,
        )
    }
}

/// The rejected addresses of the first `n` runs, reported in order.
pub open spec fn address_reports(r: Recorded, node: Seq<char>, runs: Seq<TextRun>, n: nat) -> Recorded
    decreases n,
{
    if n == 0 {
        r
    } else {
        let before = address_reports(r, node, runs, (n - 1) as nat);
        match runs[n - 1].address {
            GlyphAddress::Rejected(e) => before.note(node, e.text()),
            _ => before,
        }
    }
}

/// One text shadow: its blur, if it has one, and the layers that it paints.
pub struct TextShadow {
    pub sigma: Option<Scalar>,
    pub layers: Vec<RunLayer>,
}

pub open spec fn layers_painted(r: Recorded, node: Seq<char>, layers: Seq<RunLayer>, n: nat) -> Recorded
    decreases n,
{
    if n == 0 {
        r
    } else {
        run_painted(layers_painted(r, node, layers, (n - 1) as nat), node, layers[n - 1])
    }
}

pub open spec fn shadow_painted(r: Recorded, node: Seq<char>, s: TextShadow) -> Recorded {
    match s.sigma {
        Some(sigma) => {
            let ops = seq![FilterOp::Blur { sigma }];
            let opened = r.intern_filters(ops).put(
                Command::BeginFilter { filters: r.filter_range(ops) },
            );
            layers_painted(opened, node, s.layers@, s.layers@.len()).put(Command::End)
        },
        None => layers_painted(r, node, s.layers@, s.layers@.len()),
    }
}

/// The last `n` shadows of the declaration, painted from the last one back.
pub open spec fn shadows_painted(r: Recorded, node: Seq<char>, shadows: Seq<TextShadow>, n: nat) -> Recorded
    decreases n,
{
    if n == 0 {
        r
    } else {
        shadow_painted(
            shadows_painted(r, node, shadows, (n - 1) as nat),
            node,
            shadows[shadows.len() - n],
        )
    }
}

/// An image inside a line of text.
#[derive(Clone, Copy, Debug, PartialEq, Eq, Structural)]
pub struct InlineImage {
    pub dst: Rect,
    /// Whether the image has a transform of its own.
    pub transformed: bool,
    pub fit: ObjectFit,
    pub radii: Corners,
    pub opacity: Scalar,
    pub image: u32,
}

/// A box inside a line of text.
#[derive(Clone, Copy, Debug, PartialEq, Eq, Structural)]
pub enum InlineItem {
    /// No layout span carries its identifier.
    Unmatched,
    Empty,
    Container,
    Image(InlineImage),
}

/// Commands of an inline image.
pub open spec fn inline_commands(c: InlineImage) -> Seq<Command> {
    let alpha = c.opacity.clamp_spec(num(ZERO), num(ONE));
    let clip = if rounded(c.radii) {
        seq![Command::BeginClipRoundRect { rect: c.dst, radii: c.radii }]
    } else if crate::content::overflows(c.fit) {
        seq![Command::BeginClipRect { rect: c.dst }]
    } else {
        Seq::empty()
    };
    let fade = if alpha.lt_spec(num(ONE)) {
        seq![Command::BeginOpacity { alpha }]
    } else {
        Seq::empty()
    };
    let groups = clip + fade;
    groups.push(Command::Image { image: c.image, dst: c.dst, fit: c.fit }) + ends(groups.len())
}

pub open spec fn inline_painted(r: Recorded, node: Seq<char>, item: InlineItem) -> Recorded {
    match item {
        InlineItem::Unmatched => r.note(node, "inline box cannot be matched to its layout span"@),
        InlineItem::Empty => r.note(node, "inline box has no drawable node"@),
        InlineItem::Container => r.note(
            node,
            "inline containers and non-image boxes are unsupported"@,
        ),
        InlineItem::Image(c) => if c.dst.width.le_spec(num(ZERO)) || c.dst.height.le_spec(
            num(ZERO),
        ) {
            r
        } else {
            noted_if(
                r,
                c.transformed,
                node,
                "inline image transforms are unsupported by shared placement"@,
            ).put_all(inline_commands(c))
        },
    }
}

pub open spec fn inlines_painted(r: Recorded, node: Seq<char>, items: Seq<InlineItem>, n: nat) -> Recorded
    decreases n,
{
    if n == 0 {
        r
    } else {
        inline_painted(inlines_painted(r, node, items, (n - 1) as nat), node, items[n - 1])
    }
}

/// The text of one node as layout resolved it.
pub struct TextContent {
    /// Whether shaping succeeded.
    pub shaped: bool,
    pub runs: Vec<TextRun>,
    /// For each node with a text path, whether its length is positive.
    pub paths: Vec<Entry<bool>>,
    pub shadows: Vec<TextShadow>,
    pub layers: Vec<RunLayer>,
    pub inline: Vec<InlineItem>,
    pub has_outlines: bool,
}

impl TextContent {
    pub open spec fn wf(self) -> bool {
        &&& forall|i: int| 0 <= i < self.layers@.len() ==> (#[trigger] self.layers@[i]).wf()
        &&& forall|i: int, j: int|
            0 <= i < self.shadows@.len() && 0 <= j < self.shadows@[i].layers@.len() ==> (
            #[trigger] self.shadows@[i].layers@[j]).wf()
    }
}

/// The state once a node's text is recorded: reports, shadows from last to first, ink, inline
/// boxes.
pub open spec fn text_painted(r: Recorded, node: Seq<char>, t: TextContent) -> Recorded {
    if !t.shaped {
        r.note(node, "text shaping failed"@)
    } else if !any_run(t.runs@, |run: TextRun| run.count != 0) {
        r.note(node, "text produced no glyphs (no usable font?)"@)
    } else {
        let r1 = address_reports(r, node, t.runs@, t.runs@.len());
        let r2 = path_reports(r1, node, t.paths@, t.runs@);
        let r3 = shadows_painted(r2, node, t.shadows@, t.shadows@.len());
        let r4 = layers_painted(r3, node, t.layers@, t.layers@.len());
        let r5 = inlines_painted(r4, node, t.inline@, t.inline@.len());
        noted_if(r5, t.has_outlines, node, "inline CSS outline islands are not emitted"@)
    }
}

/// Facts about the runs that the reports rest on.
struct PathFacts {
    degenerate: bool,
    follows: bool,
    wrapped: bool,
    shifted: bool,
    failed: bool,
    spilled: bool,
    inked: bool,
}

fn spilled(run: &TextRun) -> (r: bool)
    ensures
        r == spills(*run),
{
    match &run.placement {
        None => false,
        Some(places) => {
            let mut k: usize = 0;
            while k < places.len()
                invariant
                    run.placement == Some(*places),
                    k <= places@.len(),
                    forall|j: int| 0 <= j < k ==> (#[trigger] places@[j]) is Some,
                decreases places@.len() - k,
            {
                if places[k].is_none() {
                    assert(run.placement->0@[k as int] is None);
                    return true;
                }
                k = k + 1;
            }
            false
        },
    }
}

pub open spec fn among(runs: Seq<TextRun>, n: int, p: spec_fn(TextRun) -> bool) -> bool {
    exists|i: int| 0 <= i < n && p(#[trigger] runs[i])
}

proof fn among_step(runs: Seq<TextRun>, n: int, p: spec_fn(TextRun) -> bool)
    requires
        0 <= n < runs.len(),
    ensures
        among(runs, n + 1, p) == (among(runs, n, p) || p(runs[n])),
        any_run(runs, p) == among(runs, runs.len() as int, p),
{
    if among(runs, n, p) {
        let i = choose|i: int| 0 <= i < n && p(#[trigger] runs[i]);
        assert(p(runs[i]));
    }
}

fn path_facts(paths: &Vec<Entry<bool>>, runs: &Vec<TextRun>) -> (r: PathFacts)
    ensures
        r.degenerate == any_run(runs@, |run: TextRun| degenerate(paths@, run)),
        r.follows == any_run(runs@, |run: TextRun| follows(paths@, run)),
        r.wrapped == any_run(runs@, |run: TextRun| run.baseline != runs@[0].baseline),
        r.shifted == any_run(runs@, |run: TextRun| run.shifted),
        r.failed == any_run(runs@, |run: TextRun| follows(paths@, run) && run.placement is None),
        r.spilled == any_run(runs@, |run: TextRun| spills(run)),
        r.inked == any_run(runs@, |run: TextRun| run.count != 0),
{
    let mut f = PathFacts {
        degenerate: false,
        follows: false,
        wrapped: false,
        shifted: false,
        failed: false,
        spilled: false,
        inked: false,
    };
    let ghost p1 = |run: TextRun| degenerate(paths@, run);
    let ghost p2 = |run: TextRun| follows(paths@, run);
    let ghost p3 = |run: TextRun| run.baseline != runs@[0].baseline;
    let ghost p4 = |run: TextRun| run.shifted;
    let ghost p5 = |run: TextRun| follows(paths@, run) && run.placement is None;
    let ghost p6 = |run: TextRun| spills(run);
    let ghost p7 = |run: TextRun| run.count != 0;
    let mut i: usize = 0;
    while i < runs.len()
        invariant
            i <= runs@.len(),
            p1 == (|run: TextRun| degenerate(paths@, run)),
            p2 == (|run: TextRun| follows(paths@, run)),
            p3 == (|run: TextRun| run.baseline != runs@[0].baseline),
            p4 == (|run: TextRun| run.shifted),
            p5 == (|run: TextRun| follows(paths@, run) && run.placement is None),
            p6 == (|run: TextRun| spills(run)),
            p7 == (|run: TextRun| run.count != 0),
            f.degenerate == among(runs@, i as int, p1),
            f.follows == among(runs@, i as int, p2),
            f.wrapped == among(runs@, i as int, p3),
            f.shifted == among(runs@, i as int, p4),
            f.failed == among(runs@, i as int, p5),
            f.spilled == among(runs@, i as int, p6),
            f.inked == among(runs@, i as int, p7),
        decreases runs@.len() - i,
    {
        let run = &runs[i];
        proof {
            among_step(runs@, i as int, p1);
            among_step(runs@, i as int, p2);
            among_step(runs@, i as int, p3);
            among_step(runs@, i as int, p4);
            among_step(runs@, i as int, p5);
            among_step(runs@, i as int, p6);
            among_step(runs@, i as int, p7);
        }
        let mut on_path: bool = false;
        match &run.key {
            Some(k) => {
                match lookup(paths, k.as_str()) {
                    Some(positive) => {
                        if *positive {
                            on_path = true;
                        } else {
                            f.degenerate = true;
                        }
                    },
                    None => {},
                }
            },
            None => {},
        }
        assert(on_path == follows(paths@, *run));
        if on_path {
            f.follows = true;
            if run.placement.is_none() {
                f.failed = true;
            }
        }
        if run.baseline != runs[0].baseline {
            f.wrapped = true;
        }
        if run.shifted {
            f.shifted = true;
        }
        if spilled(run) {
            f.spilled = true;
        }
        if run.count != 0 {
            f.inked = true;
        }
        i = i + 1;
    }
    proof {
        let n = runs@.len() as int;
        assert(any_run(runs@, p1) == among(runs@, n, p1));
        assert(any_run(runs@, p2) == among(runs@, n, p2));
        assert(any_run(runs@, p3) == among(runs@, n, p3));
        assert(any_run(runs@, p4) == among(runs@, n, p4));
        assert(any_run(runs@, p5) == among(runs@, n, p5));
        assert(any_run(runs@, p6) == among(runs@, n, p6));
        assert(any_run(runs@, p7) == among(runs@, n, p7));
    }
    f
}

impl Emitter {
    fn note_if(&mut self, test: bool, node: &str, what: &'static str)
        ensures
            final(self)@ == noted_if(old(self)@, test, node@, what@),
            grew(old(self)@, final(self)@, 0),
    {
        if test {
            self.unsupported(node, what);
        }
        proof {
            grew_nothing(old(self)@, self@);
        }
    }

    fn report_paths(&mut self, node: &str, facts: &PathFacts, Ghost(t): Ghost<TextContent>)
        requires
            facts.degenerate == any_run(t.runs@, |run: TextRun| degenerate(t.paths@, run)),
            facts.follows == any_run(t.runs@, |run: TextRun| follows(t.paths@, run)),
            facts.wrapped == any_run(
                t.runs@,
                |run: TextRun| run.baseline != t.runs@[0].baseline,
            ),
            facts.shifted == any_run(t.runs@, |run: TextRun| run.shifted),
            facts.failed == any_run(
                t.runs@,
                |run: TextRun| follows(t.paths@, run) && run.placement is None,
            ),
            facts.spilled == any_run(t.runs@, |run: TextRun| spills(run)),
        ensures
            final(self)@ == path_reports(old(self)@, node@, t.paths@, t.runs@),
            grew(old(self)@, final(self)@, 0),
    {
        self.note_if(
            facts.degenerate,
            node,
            "text path has zero length or cannot be flattened",
        );
        if !facts.follows {
            return ;
        }
        self.note_if(facts.wrapped, node, "text path requires one line, but the text wrapped");
        self.note_if(
            facts.shifted,
            node,
            "text path does not preserve superscript or subscript baseline offsets",
        );
        self.note_if(facts.failed, node, "text path sampling failed");
        self.note_if(facts.spilled, node, "text path omitted glyphs beyond the path length");
        proof {
            grew_nothing(old(self)@, self@);
        }
    }

    fn paint_run_layers(&mut self, node: &str, layers: &Vec<RunLayer>)
        requires
            forall|i: int| 0 <= i < layers@.len() ==> (#[trigger] layers@[i]).wf(),
        ensures
            final(self)@ == layers_painted(old(self)@, node@, layers@, layers@.len()),
            grew(old(self)@, final(self)@, 0),
    {
        let mut i: usize = 0;
        proof {
            grew_nothing(old(self)@, self@);
        }
        while i < layers.len()
            invariant
                i <= layers@.len(),
                forall|k: int| 0 <= k < layers@.len() ==> (#[trigger] layers@[k]).wf(),
                self@ == layers_painted(old(self)@, node@, layers@, i as nat),
                grew(old(self)@, self@, 0),
            decreases layers@.len() - i,
        {
            let ghost before = self@;
            self.glyph_run_at(node, &layers[i]);
            proof {
                grew_more(old(self)@, before, self@, 0, 0);
            }
            i = i + 1;
        }
    }

    fn paint_shadow(&mut self, node: &str, s: &TextShadow)
        requires
            forall|i: int| 0 <= i < s.layers@.len() ==> (#[trigger] s.layers@[i]).wf(),
        ensures
            final(self)@ == shadow_painted(old(self)@, node@, *s),
            grew(old(self)@, final(self)@, 0),
    {
        match s.sigma {
            Some(sigma) => {
                let mut ops: Vec<FilterOp> = Vec::new();
                ops.push(FilterOp::Blur { sigma });
                assert(ops@ =~= seq![FilterOp::Blur { sigma }]);
                let filters = self.intern_filters(&ops);
                let ghost interned = self@;
                let c = Command::BeginFilter { filters };
                self.push(c);
                let ghost opened = self@;
                self.paint_run_layers(node, &s.layers);
                let ghost drawn = self@;
                self.push(Command::End);
                proof {
                    grew_nothing(old(self)@, interned);
                    grew_one(interned, opened, c);
                    grew_more(old(self)@, interned, opened, 0, 1);
                    grew_more(old(self)@, opened, drawn, 1, 0);
                    close_one(old(self)@, drawn, self@);
                }
            },
            None => {
                self.paint_run_layers(node, &s.layers);
            },
        }
    }

    /// Places one inline box; anything but an image is reported.
    pub fn inline_image(&mut self, node: &str, item: &InlineItem)
        ensures
            final(self)@ == inline_painted(old(self)@, node@, *item),
            grew(old(self)@, final(self)@, 0),
    {
        proof {
            grew_nothing(old(self)@, self@);
        }
        let c = match item {
            InlineItem::Unmatched => {
                self.unsupported(node, "inline box cannot be matched to its layout span");
                proof {
                    grew_nothing(old(self)@, self@);
                }
                return ;
            },
            InlineItem::Empty => {
                self.unsupported(node, "inline box has no drawable node");
                proof {
                    grew_nothing(old(self)@, self@);
                }
                return ;
            },
            InlineItem::Container => {
                self.unsupported(node, "inline containers and non-image boxes are unsupported");
                proof {
                    grew_nothing(old(self)@, self@);
                }
                return ;
            },
            InlineItem::Image(c) => *c,
        };
        let zero = Scalar::from_bits(ZERO);
        let one = Scalar::from_bits(ONE);
        if c.dst.width.le(zero) || c.dst.height.le(zero) {
            return ;
        }
        self.note_if(
            c.transformed,
            node,
            "inline image transforms are unsupported by shared placement",
        );
        let ghost noted = self@;
        let mut depth: usize = 0;
        proof {
            grew_nothing(noted, noted);
        }
        let round = is_rounded(&c.radii);
        if round || c.fit == ObjectFit::Cover || c.fit == ObjectFit::Natural {
            let clip = if round {
                Command::BeginClipRoundRect { rect: c.dst, radii: c.radii }
            } else {
                Command::BeginClipRect { rect: c.dst }
            };
            self.push(clip);
            depth = 1;
            proof {
                grew_one(noted, self@, clip);
            }
        }
        let ghost clipped = self@;
        let alpha = c.opacity.clamp(zero, one);
        if alpha.lt(one) {
            let fade = Command::BeginOpacity { alpha };
            self.push(fade);
            depth = depth + 1;
            proof {
                grew_one(clipped, self@, fade);
                grew_more(noted, clipped, self@, depth - 1, 1);
            }
        }
        let ghost opened = self@;
        let draw = Command::Image { image: c.image, dst: c.dst, fit: c.fit };
        self.push(draw);
        let ghost drawn = self@;
        self.push_ends(depth);
        proof {
            grew_one(opened, drawn, draw);
            grew_more(noted, opened, drawn, depth as int, 0);
            close_many(noted, drawn, self@, depth as nat);
            grew_more(old(self)@, noted, self@, 0, 0);
            assert(self@.commands =~= noted.commands + inline_commands(c));
        }
    }

    /// Records the text of a node.
    #[verifier::spinoff_prover]
    #[verifier::rlimit(60)]
    pub fn text(&mut self, node: &str, t: &TextContent)
        requires
            t.wf(),
        ensures
            final(self)@ == text_painted(old(self)@, node@, *t),
            grew(old(self)@, final(self)@, 0),
    {
        proof {
            grew_nothing(old(self)@, self@);
        }
        if !t.shaped {
            self.unsupported(node, "text shaping failed");
            proof {
                grew_nothing(old(self)@, self@);
            }
            return ;
        }
        let facts = path_facts(&t.paths, &t.runs);
        if !facts.inked {
            self.unsupported(node, "text produced no glyphs (no usable font?)");
            proof {
                grew_nothing(old(self)@, self@);
            }
            return ;
        }
        let mut i: usize = 0;
        while i < t.runs.len()
            invariant
                i <= t.runs@.len(),
                self@ == address_reports(old(self)@, node@, t.runs@, i as nat),
                self@.commands == old(self)@.commands,
            decreases t.runs@.len() - i,
        {
            match &t.runs[i].address {
                GlyphAddress::Rejected(e) => {
                    self.unsupported(node, e.reason());
                },
                _ => {},
            }
            i = i + 1;
        }
        let ghost r1 = self@;
        self.report_paths(node, &facts, Ghost(*t));
        let ghost r2 = self@;
        proof {
            grew_nothing(old(self)@, r1);
            grew_more(old(self)@, r1, r2, 0, 0);
            grew_nothing(r2, r2);
        }
        let n: usize = t.shadows.len();
        let mut k: usize = 0;
        while k < n
            invariant
                t.wf(),
                n == t.shadows@.len(),
                k <= n,
                self@ == shadows_painted(r2, node@, t.shadows@, k as nat),
                grew(r2, self@, 0),
            decreases n - k,
        {
            let ghost before = self@;
            let ghost at = n - (k + 1);
            proof {
                assert forall|j: int| 0 <= j < t.shadows@[at].layers@.len() implies (
                #[trigger] t.shadows@[at].layers@[j]).wf() by {}
            }
            self.paint_shadow(node, &t.shadows[n - k - 1]);
            proof {
                grew_more(r2, before, self@, 0, 0);
            }
            k = k + 1;
        }
        let ghost r3 = self@;
        self.paint_run_layers(node, &t.layers);
        let ghost r4 = self@;
        proof {
            grew_more(old(self)@, r2, r3, 0, 0);
            grew_more(old(self)@, r3, r4, 0, 0);
            grew_nothing(r4, r4);
        }
        let mut j: usize = 0;
        while j < t.inline.len()
            invariant
                j <= t.inline@.len(),
                self@ == inlines_painted(r4, node@, t.inline@, j as nat),
                grew(r4, self@, 0),
            decreases t.inline@.len() - j,
        {
            let ghost before = self@;
            self.inline_image(node, &t.inline[j]);
            proof {
                grew_more(r4, before, self@, 0, 0);
            }
            j = j + 1;
        }
        let ghost r5 = self@;
        self.note_if(t.has_outlines, node, "inline CSS outline islands are not emitted");
        proof {
            grew_more(old(self)@, r4, r5, 0, 0);
            grew_more(old(self)@, r5, self@, 0, 0);
        }
    }
}

} // verus!
