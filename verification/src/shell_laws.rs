//! What the shell of a node looks like: borders and outlines by their style, shadows on their side, the
//! background behind them, and the order of it all.

use vstd::prelude::*;

use crate::emitter::Recorded;
use crate::recording::{
    BatchGeometry, BlendMode, Command, Corners, FillRule, FilterOp, Paint, PathRef, Rect, Rgba,
    StrokeRef, TableRange,
};
use crate::scalar::{num, Scalar, ZERO};
use crate::shell::{
    background_painted, blend_group, border_painted, box_clip, drawable_ops, fnv1a_of,
    grain_next, grain_painted, outline_painted, painted_tiles, rounded, rows_painted,
    shadow_commands, shell_painted, Background, Border, BorderStyle, BoxShadow, CssBlend,
    CssFilter, Grain, Outline, Shell, Side, Tile,
};

verus! {

/// Whether a recording has more commands than another, and differs in nothing else.
pub open spec fn adds(r: Recorded, s: Recorded, more: Seq<Command>) -> bool {
    &&& s.commands == r.commands + more
    &&& s.notes == r.notes
    &&& s.filters == r.filters
    &&& s.materials == r.materials
    &&& s.painted == r.painted
    &&& s.rasters == r.rasters
    &&& s.cur == r.cur
    &&& s.grain == r.grain
}

/// Whether all edges of a border have this width, color and style.
pub open spec fn all_edges(b: Border, width: Scalar, color: Rgba, style: BorderStyle) -> bool {
    &&& b.top.width == width && b.top.color == color && b.top.style == style
    &&& b.right.width == width && b.right.color == color && b.right.style == style
    &&& b.bottom.width == width && b.bottom.color == color && b.bottom.style == style
    &&& b.left.width == width && b.left.color == color && b.left.style == style
}

/// A path that is filled with a color by a rule, and not stroked.
pub open spec fn filled(path: PathRef, rule: FillRule, color: Rgba) -> Command {
    Command::Path { path, fill_rule: rule, fill: Some(Paint::Solid(color)), stroke: None }
}

/// A path that is stroked and not filled.
pub open spec fn stroked(path: PathRef, stroke: StrokeRef) -> Command {
    Command::Path { path, fill_rule: FillRule::NonZero, fill: None, stroke: Some(stroke) }
}

/// A border that is the same on all sides is one ring: filled whole where it is solid, two thirds of it
/// where it is double, its center line stroked where it is dashed or dotted. A hidden border, one of no
/// width and one of no color show nothing; a style that needs shades is reported.
pub proof fn even_borders_are_rings(
    r: Recorded,
    node: Seq<char>,
    b: Border,
    width: Scalar,
    color: Rgba,
)
    requires
        num(ZERO).order() < width.order(),
        width.finite(),
    ensures
        color.a != 0 && all_edges(b, width, color, BorderStyle::Solid) ==> adds(
            r,
            border_painted(r, node, b),
            seq![filled(b.ring.full, FillRule::EvenOdd, color)],
        ),
        color.a != 0 && all_edges(b, width, color, BorderStyle::Dashed) ==> adds(
            r,
            border_painted(r, node, b),
            seq![stroked(b.ring.center, b.ring.dashed)],
        ),
        color.a != 0 && all_edges(b, width, color, BorderStyle::Dotted) ==> adds(
            r,
            border_painted(r, node, b),
            seq![stroked(b.ring.center, b.ring.dotted)],
        ),
        color.a != 0 && all_edges(b, width, color, BorderStyle::Double) ==> adds(
            r,
            border_painted(r, node, b),
            seq![
                filled(b.ring.outer, FillRule::EvenOdd, color),
                filled(b.ring.inner, FillRule::EvenOdd, color),
            ],
        ),
        all_edges(b, width, color, BorderStyle::Absent) || all_edges(
            b,
            width,
            color,
            BorderStyle::Hidden,
        ) ==> adds(r, border_painted(r, node, b), Seq::empty()),
        color.a == 0 && all_edges(b, width, color, b.top.style) ==> adds(
            r,
            border_painted(r, node, b),
            Seq::empty(),
        ),
        color.a != 0 && (all_edges(b, width, color, BorderStyle::Groove) || all_edges(
            b,
            width,
            color,
            BorderStyle::Ridge,
        ) || all_edges(b, width, color, BorderStyle::Inset) || all_edges(
            b,
            width,
            color,
            BorderStyle::Outset,
        )) ==> border_painted(r, node, b).commands == r.commands && border_painted(
            r,
            node,
            b,
        ).notes.contains((node, "groove/ridge/inset/outset border styles"@)),
{
    let s = border_painted(r, node, b);
    assert(r.commands + Seq::<Command>::empty() =~= r.commands);
    if r.notes.contains((node, "groove/ridge/inset/outset border styles"@)) {
    } else {
        let more = r.notes.push((node, "groove/ridge/inset/outset border styles"@));
        assert(more[r.notes.len() as int] == (node, "groove/ridge/inset/outset border styles"@));
        assert(more.contains((node, "groove/ridge/inset/outset border styles"@)));
    }
}

/// A border without width shows nothing.
pub proof fn borders_need_a_width(r: Recorded, node: Seq<char>, b: Border)
    requires
        b.top.width.order() <= 0 && b.top.width.finite(),
        b.right.width.order() <= 0 && b.right.width.finite(),
        b.bottom.width.order() <= 0 && b.bottom.width.finite(),
        b.left.width.order() <= 0 && b.left.width.finite(),
    ensures
        border_painted(r, node, b) == r,
{
}

/// What is recorded for one edge of its own: its polygon in its color, or inside that polygon its ring
/// where the corners are round; nothing where it has no width, no color, no style or no polygon.
pub open spec fn edge_shows(side: Side, round: bool, c: Seq<Command>) -> bool {
    if side.style == BorderStyle::Solid && num(ZERO).order() < side.width.order()
        && !side.width.is_nan_spec() && side.color.a != 0 && side.polygon is Some {
        if round {
            c == seq![
                Command::BeginClipPath { path: side.polygon->0, fill_rule: FillRule::NonZero },
                filled(side.ring, FillRule::EvenOdd, side.color),
                Command::End,
            ]
        } else {
            c == seq![filled(side.polygon->0, FillRule::NonZero, side.color)]
        }
    } else {
        c == Seq::<Command>::empty()
    }
}

/// A border whose edges differ in color is painted edge by edge: top, right, bottom, left.
pub proof fn uneven_borders_are_edges(r: Recorded, node: Seq<char>, b: Border)
    requires
        b.top.color != b.right.color || b.right.color != b.bottom.color || b.bottom.color
            != b.left.color,
        b.top.style == BorderStyle::Solid || b.top.style == BorderStyle::Absent || b.top.style
            == BorderStyle::Hidden,
        b.right.style == BorderStyle::Solid || b.right.style == BorderStyle::Absent || b.right.style
            == BorderStyle::Hidden,
        b.bottom.style == BorderStyle::Solid || b.bottom.style == BorderStyle::Absent
            || b.bottom.style == BorderStyle::Hidden,
        b.left.style == BorderStyle::Solid || b.left.style == BorderStyle::Absent || b.left.style
            == BorderStyle::Hidden,
        !b.top.width.is_nan_spec() && num(ZERO).order() < b.top.width.order(),
    ensures
        exists|t: Seq<Command>, h: Seq<Command>, u: Seq<Command>, l: Seq<Command>|
            #![trigger edge_shows(b.top, rounded(b.radii), t), edge_shows(b.right, rounded(b.radii), h), edge_shows(b.bottom, rounded(b.radii), u), edge_shows(b.left, rounded(b.radii), l)]
            edge_shows(b.top, rounded(b.radii), t) && edge_shows(b.right, rounded(b.radii), h)
                && edge_shows(b.bottom, rounded(b.radii), u) && edge_shows(
                b.left,
                rounded(b.radii),
                l,
            ) && border_painted(r, node, b).commands == r.commands + t + h + u + l
                && border_painted(r, node, b).notes == r.notes,
{
    let round = rounded(b.radii);
    let t = crate::shell::side_commands(b.top, round);
    let h = crate::shell::side_commands(b.right, round);
    let u = crate::shell::side_commands(b.bottom, round);
    let l = crate::shell::side_commands(b.left, round);
    assert(edge_shows(b.top, round, t));
    assert(edge_shows(b.right, round, h));
    assert(edge_shows(b.bottom, round, u));
    assert(edge_shows(b.left, round, l));
}

/// Corners are round exactly where one of them has a radius in both directions.
pub proof fn corners_are_round_by_their_radii(radii: Corners)
    requires
        radii.top_left.x.finite() && radii.top_left.y.finite(),
        radii.top_right.x.finite() && radii.top_right.y.finite(),
        radii.bottom_right.x.finite() && radii.bottom_right.y.finite(),
        radii.bottom_left.x.finite() && radii.bottom_left.y.finite(),
    ensures
        rounded(radii) <==> (radii.top_left.x.order() > 0 && radii.top_left.y.order() > 0) || (
        radii.top_right.x.order() > 0 && radii.top_right.y.order() > 0) || (
        radii.bottom_right.x.order() > 0 && radii.bottom_right.y.order() > 0) || (
        radii.bottom_left.x.order() > 0 && radii.bottom_left.y.order() > 0),
{
}

/// An outline is a ring of its own style, width and color.
pub proof fn outlines_are_rings(r: Recorded, node: Seq<char>, o: Outline)
    requires
        num(ZERO).order() < o.width.order(),
        o.width.finite(),
        o.color.a != 0,
    ensures
        outline_painted(r, node, None) == r,
        o.style == BorderStyle::Solid ==> adds(
            r,
            outline_painted(r, node, Some(o)),
            seq![filled(o.ring.full, FillRule::EvenOdd, o.color)],
        ),
        o.style == BorderStyle::Dashed ==> adds(
            r,
            outline_painted(r, node, Some(o)),
            seq![stroked(o.ring.center, o.ring.dashed)],
        ),
        o.style == BorderStyle::Dotted ==> adds(
            r,
            outline_painted(r, node, Some(o)),
            seq![stroked(o.ring.center, o.ring.dotted)],
        ),
        o.style == BorderStyle::Double ==> adds(
            r,
            outline_painted(r, node, Some(o)),
            seq![
                filled(o.ring.outer, FillRule::EvenOdd, o.color),
                filled(o.ring.inner, FillRule::EvenOdd, o.color),
            ],
        ),
        o.style == BorderStyle::Absent || o.style == BorderStyle::Hidden ==> outline_painted(
            r,
            node,
            Some(o),
        ) == r,
{
}

/// The shadows on one side of the edge, in the order of the declaration.
pub open spec fn shadows_of(shadows: Seq<BoxShadow>, inset: bool) -> Seq<Command> {
    shadows.filter(|s: BoxShadow| s.inset == inset).map_values(
        |s: BoxShadow| Command::Shadow { shadow: s.shadow },
    )
}

proof fn shadows_are_filtered(shadows: Seq<BoxShadow>, inset: bool, n: nat)
    requires
        n <= shadows.len(),
    ensures
        shadow_commands(shadows, inset, n) == shadows_of(shadows.take(n as int), inset),
    decreases n,
{
    reveal(Seq::filter);
    let pick = |s: BoxShadow| s.inset == inset;
    let turn = |s: BoxShadow| Command::Shadow { shadow: s.shadow };
    if n == 0 {
        assert(shadows.take(0) =~= Seq::empty());
        assert(shadows_of(shadows.take(0), inset) =~= Seq::empty());
    } else {
        shadows_are_filtered(shadows, inset, (n - 1) as nat);
        let less = shadows.take(n - 1);
        let more = shadows.take(n as int);
        assert(more.drop_last() =~= less);
        assert(more.last() == shadows[n - 1]);
        assert(more.filter(pick) == if pick(more.last()) {
            less.filter(pick).push(more.last())
        } else {
            less.filter(pick)
        });
        assert(shadows_of(more, inset) =~= if shadows[n - 1].inset == inset {
            shadows_of(less, inset).push(Command::Shadow { shadow: shadows[n - 1].shadow })
        } else {
            shadows_of(less, inset)
        });
    }
}

/// The shadows of one kind are those of the declaration, in its order.
pub proof fn shadows_keep_their_order(shadows: Seq<BoxShadow>, inset: bool)
    ensures
        shadow_commands(shadows, inset, shadows.len()) == shadows_of(shadows, inset),
{
    shadows_are_filtered(shadows, inset, shadows.len());
    assert(shadows.take(shadows.len() as int) =~= shadows);
}

/// A background color fills the box of the node; a color without alpha fills nothing.
pub proof fn background_colors_fill_the_box(r: Recorded, node: Seq<char>, b: Background)
    requires
        b.rows is None,
    ensures
        b.color.a != 0 ==> adds(
            r,
            background_painted(r, node, b),
            seq![filled(b.shape, FillRule::NonZero, b.color)],
        ),
        b.color.a == 0 ==> background_painted(r, node, b) == r,
{
    if b.color.a != 0 {
        assert(background_painted(r, node, b).commands =~= r.commands + seq![
            filled(b.shape, FillRule::NonZero, b.color),
        ]);
    }
}

/// The tiles of a row.
pub open spec fn tiles_of(row: Seq<Tile>) -> Seq<Command> {
    row.map_values(
        |t: Tile|
            Command::Path {
                path: t.path,
                fill_rule: FillRule::NonZero,
                fill: t.paint,
                stroke: None,
            },
    )
}

proof fn painted_rows_have_all_tiles(row: Seq<Tile>, from: int)
    requires
        0 <= from <= row.len(),
        forall|i: int| 0 <= i < row.len() ==> (#[trigger] row[i]).paint is Some,
    ensures
        painted_tiles(row, from) == row.len(),
    decreases row.len() - from,
{
    if from < row.len() {
        assert(row[from].paint is Some);
        painted_rows_have_all_tiles(row, from + 1);
    }
}

proof fn rows_add_their_tiles(r: Recorded, node: Seq<char>, rows: Seq<Vec<Tile>>, n: nat)
    requires
        n <= rows.len(),
        forall|i: int, k: int|
            0 <= i < rows.len() && 0 <= k < rows[i]@.len() ==> (#[trigger] rows[i]@[k]).paint is Some,
    ensures
        adds(
            r,
            rows_painted(r, node, rows, n),
            rows.take(n as int).map_values(|row: Vec<Tile>| tiles_of(row@)).flatten(),
        ),
    decreases n,
{
    let f = |row: Vec<Tile>| tiles_of(row@);
    if n == 0 {
        assert(rows.take(0).map_values(f) =~= Seq::empty());
        assert(r.commands + Seq::<Command>::empty() =~= r.commands);
    } else {
        rows_add_their_tiles(r, node, rows, (n - 1) as nat);
        let row = rows[n - 1]@;
        assert forall|i: int| 0 <= i < row.len() implies (#[trigger] row[i]).paint is Some by {
            assert(rows[n - 1]@[i].paint is Some);
        }
        painted_rows_have_all_tiles(row, 0);
        let before = rows.take(n - 1).map_values(f);
        assert(rows.take(n as int).map_values(f) =~= before.push(tiles_of(row)));
        before.lemma_flatten_push(tiles_of(row));
        assert(Seq::new(row.len(), |i: int| crate::shell::tile_command(row[i])) =~= tiles_of(row));
        assert(rows_painted(r, node, rows, n).commands =~= r.commands + (before.flatten()
            + tiles_of(row)));
    }
}

/// Background images lie on the background color, inside the box: one clip, then the tiles of all rows,
/// the bottom row first, then its end.
pub proof fn background_images_lie_inside_the_box(
    r: Recorded,
    node: Seq<char>,
    b: Background,
    rows: Vec<Vec<Tile>>,
)
    requires
        b.rows == Some(rows),
        b.color.a == 0,
        forall|i: int, k: int|
            0 <= i < rows@.len() && 0 <= k < rows@[i]@.len() ==> (
            #[trigger] rows@[i]@[k]).paint is Some,
    ensures
        background_painted(r, node, b).commands == r.commands.push(
            if rounded(b.radii) {
                Command::BeginClipRoundRect { rect: b.rect, radii: b.radii }
            } else {
                Command::BeginClipRect { rect: b.rect }
            },
        ) + rows@.map_values(|row: Vec<Tile>| tiles_of(row@)).flatten() + seq![Command::End],
        background_painted(r, node, b).notes == r.notes,
{
    let clipped = r.put(box_clip(b.rect, b.radii));
    rows_add_their_tiles(clipped, node, rows@, rows@.len());
    assert(rows@.take(rows@.len() as int) =~= rows@);
    let tiles = rows@.map_values(|row: Vec<Tile>| tiles_of(row@)).flatten();
    assert(background_painted(r, node, b).commands =~= clipped.commands + tiles + seq![
        Command::End,
    ]);
}

/// The shell is painted from back to front: outer shadows, the background, inner shadows, the border,
/// the outline.
pub proof fn shells_are_painted_from_back_to_front(
    r: Recorded,
    node: Seq<char>,
    shell: Shell,
    reserved: usize,
    limit: usize,
    width: Scalar,
    color: Rgba,
    o: Outline,
)
    requires
        shell.background.rows is None,
        shell.background.color.a != 0,
        shell.grain.amount.order() <= 0,
        all_edges(shell.border, width, color, BorderStyle::Solid),
        num(ZERO).order() < width.order(),
        width.finite(),
        color.a != 0,
        shell.outline == Some(o),
        o.style == BorderStyle::Solid,
        num(ZERO).order() < o.width.order(),
        o.width.finite(),
        o.color.a != 0,
    ensures
        adds(
            r,
            shell_painted(r, node, shell, reserved, limit),
            shadows_of(shell.shadows@, false) + seq![
                filled(shell.background.shape, FillRule::NonZero, shell.background.color),
            ] + shadows_of(shell.shadows@, true) + seq![
                filled(shell.border.ring.full, FillRule::EvenOdd, color),
                filled(o.ring.full, FillRule::EvenOdd, o.color),
            ],
        ),
{
    shadows_keep_their_order(shell.shadows@, false);
    shadows_keep_their_order(shell.shadows@, true);
    let outer = shadows_of(shell.shadows@, false);
    let inner = shadows_of(shell.shadows@, true);
    let back = filled(shell.background.shape, FillRule::NonZero, shell.background.color);
    let ring = filled(shell.border.ring.full, FillRule::EvenOdd, color);
    let line = filled(o.ring.full, FillRule::EvenOdd, o.color);
    assert(shell_painted(r, node, shell, reserved, limit).commands =~= r.commands + (outer + seq![back]
        + inner + seq![ring, line]));
}

/// Grain lies between the background and the inner shadows: circles for specks, then rectangles for
/// fibers, behind the instances recorded before, as many as are asked for while the budget lasts.
pub proof fn grain_scatters_specks_and_fibers(
    r: Recorded,
    grain: Grain,
    reserved: usize,
    limit: usize,
)
    requires
        num(ZERO).order() < grain.amount.order() && grain.amount.finite(),
        num(ZERO).order() < grain.area.order() && grain.area.finite(),
        0 < grain.specks <= 2800,
        0 < grain.fibers <= 700,
        reserved + r.grain + grain.specks + grain.fibers <= limit,
    ensures
        ({
            let base = reserved + r.grain;
            let s = grain_painted(r, grain, reserved, limit);
            &&& s.commands == r.commands + seq![
                Command::GeometryBatch {
                    geometry: BatchGeometry::Circle,
                    instances: TableRange {
                        start: base as usize,
                        end: (base + grain.specks) as usize,
                    },
                },
                Command::GeometryBatch {
                    geometry: BatchGeometry::Rect,
                    instances: TableRange {
                        start: (base + grain.specks) as usize,
                        end: (base + grain.specks + grain.fibers) as usize,
                    },
                },
            ]
            &&& s.grain == r.grain + grain.specks + grain.fibers
        }),
{
    assert(grain_painted(r, grain, reserved, limit).commands =~= r.commands + seq![
        Command::GeometryBatch {
            geometry: BatchGeometry::Circle,
            instances: TableRange {
                start: (reserved + r.grain) as usize,
                end: (reserved + r.grain + grain.specks) as usize,
            },
        },
        Command::GeometryBatch {
            geometry: BatchGeometry::Rect,
            instances: TableRange {
                start: (reserved + r.grain + grain.specks) as usize,
                end: (reserved + r.grain + grain.specks + grain.fibers) as usize,
            },
        },
    ]);
}

/// Without an amount there is no grain.
pub proof fn grain_needs_an_amount(r: Recorded, grain: Grain, reserved: usize, limit: usize)
    requires
        grain.amount.order() <= 0,
    ensures
        grain_painted(r, grain, reserved, limit) == r,
{
}

/// Filters that can be drawn are kept in their order; a reference to an SVG filter is left out.
pub proof fn filters_keep_their_order(filters: Seq<CssFilter>, op: FilterOp)
    ensures
        drawable_ops(Seq::empty(), 0) == Seq::<FilterOp>::empty(),
        drawable_ops(filters.push(CssFilter::Op(op)), (filters.len() + 1) as nat) == drawable_ops(
            filters,
            filters.len(),
        ).push(op),
        drawable_ops(filters.push(CssFilter::Url), (filters.len() + 1) as nat) == drawable_ops(
            filters,
            filters.len(),
        ),
{
    filters_read_prefixes(filters, CssFilter::Op(op), filters.len());
    filters_read_prefixes(filters, CssFilter::Url, filters.len());
}

proof fn filters_read_prefixes(filters: Seq<CssFilter>, more: CssFilter, n: nat)
    requires
        n <= filters.len(),
    ensures
        drawable_ops(filters.push(more), n) == drawable_ops(filters, n),
    decreases n,
{
    if n > 0 {
        filters_read_prefixes(filters, more, (n - 1) as nat);
    }
}

/// A blend mode needs its own group; painting as usual needs none.
pub proof fn blends_need_their_group(mode: BlendMode)
    ensures
        blend_group(CssBlend::Mode(mode)) == Some(mode),
        blend_group(CssBlend::Normal) is None,
        blend_group(CssBlend::Other) is None,
{
}

/// The seed of grain starts from the offset basis and takes in one byte after the other: each is mixed
/// into the low bits before the hash is multiplied.
pub proof fn seeds_take_in_bytes(bytes: Seq<u8>, b: u8)
    ensures
        fnv1a_of(Seq::empty(), 0) == 0xcbf2_9ce4_8422_2325u64,
        fnv1a_of(bytes.push(b), (bytes.len() + 1) as nat) as int == ((fnv1a_of(bytes, bytes.len()) ^ (
        b as u64)) as int * 0x1000_0000_01b3) % 0x1_0000_0000_0000_0000,
{
    seeds_read_prefixes(bytes, b, bytes.len());
}

proof fn seeds_read_prefixes(bytes: Seq<u8>, b: u8, n: nat)
    requires
        n <= bytes.len(),
    ensures
        fnv1a_of(bytes.push(b), n) == fnv1a_of(bytes, n),
    decreases n,
{
    if n > 0 {
        seeds_read_prefixes(bytes, b, (n - 1) as nat);
    }
}

/// The grain generator is a linear congruence: it starts at one from nothing, and one more in its state
/// is its multiplier more in the next.
pub proof fn grain_is_a_linear_congruence(state: u64)
    requires
        state < u64::MAX,
    ensures
        grain_next(0) == 1,
        (grain_next((state + 1) as u64) - grain_next(state) - 6364136223846793005)
            % 0x1_0000_0000_0000_0000 == 0,
{
    let m = 0x1_0000_0000_0000_0000int;
    let k = 6364136223846793005int;
    let a = state as int * k + 1;
    let b = (state + 1) * k + 1;
    assert(b == a + k) by (nonlinear_arith)
        requires
            a == state as int * k + 1,
            b == (state + 1) * k + 1,
    ;
    vstd::arithmetic::div_mod::lemma_fundamental_div_mod(a, m);
    vstd::arithmetic::div_mod::lemma_fundamental_div_mod(b, m);
    vstd::arithmetic::div_mod::lemma_mod_multiples_basic(a / m - b / m, m);
    assert(b % m - a % m - k == (a / m - b / m) * m) by (nonlinear_arith)
        requires
            a == m * (a / m) + a % m,
            b == m * (b / m) + b % m,
            b == a + k,
    ;
}

} // verus!
