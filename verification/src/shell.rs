//! Painting the shell of a node: shadows, background, procedural grain, border and outline, in CSS
//! order.

use vstd::prelude::*;

use crate::emitter::{grew, grew_by, grew_more, grew_nothing, grew_one, Emitter, Recorded};
use crate::recording::{
    BatchGeometry, BlendMode, Command, Corners, FillRule, FilterOp, Paint, PathRef, Point, Rect,
    Rgba, StrokeRef, TableRange,
};
use crate::scalar::{num, Scalar, ZERO};

verus! {

/// One function of a CSS filter list, with its lengths resolved.
#[derive(Clone, Copy, Debug, PartialEq, Eq, Structural)]
pub enum CssFilter {
    Op(FilterOp),
    /// A reference to an SVG filter.
    Url,
}

/// The steps of the first `n` functions that can be drawn.
pub open spec fn drawable_ops(filters: Seq<CssFilter>, n: nat) -> Seq<FilterOp>
    decreases n,
{
    if n == 0 {
        Seq::empty()
    } else {
        let rest = drawable_ops(filters, (n - 1) as nat);
        match filters[n - 1] {
            CssFilter::Op(op) => rest.push(op),
            CssFilter::Url => rest,
        }
    }
}

pub open spec fn has_url(filters: Seq<CssFilter>) -> bool {
    filters.contains(CssFilter::Url)
}

/// The state after a filter list was read: an SVG filter is reported, and only once.
pub open spec fn filters_read(r: Recorded, node: Seq<char>, filters: Seq<CssFilter>) -> Recorded {
    if has_url(filters) {
        r.note(node, "filter: url()（SVG filter）"@)
    } else {
        r
    }
}

/// CSS blend modes; those without a recorded counterpart paint as `Normal`.
#[derive(Clone, Copy, Debug, PartialEq, Eq, Structural)]
pub enum CssBlend {
    Normal,
    Mode(BlendMode),
    Other,
}

pub open spec fn blend_group(blend: CssBlend) -> Option<BlendMode> {
    match blend {
        CssBlend::Mode(mode) => Some(mode),
        _ => None,
    }
}

/// The group that a blend mode needs; `Normal` needs none.
pub fn blend_of(blend: CssBlend) -> (r: Option<BlendMode>)
    ensures
        r == blend_group(blend),
{
    match blend {
        CssBlend::Mode(mode) => Some(mode),
        _ => None,
    }
}

pub open spec fn visible(radius: Point) -> bool {
    num(ZERO).lt_spec(radius.x) && num(ZERO).lt_spec(radius.y)
}

pub fn radius_is_visible(radius: &Point) -> (r: bool)
    ensures
        r == visible(*radius),
{
    Scalar::from_bits(ZERO).lt(radius.x) && Scalar::from_bits(ZERO).lt(radius.y)
}

pub open spec fn rounded(radii: Corners) -> bool {
    visible(radii.top_left) || visible(radii.top_right) || visible(radii.bottom_right) || visible(
        radii.bottom_left,
    )
}

pub fn is_rounded(radii: &Corners) -> (r: bool)
    ensures
        r == rounded(*radii),
{
    radius_is_visible(&radii.top_left) || radius_is_visible(&radii.top_right) || radius_is_visible(
        &radii.bottom_right,
    ) || radius_is_visible(&radii.bottom_left)
}

/// The clip that a rounded or plain box needs.
pub open spec fn box_clip(rect: Rect, radii: Corners) -> Command {
    if rounded(radii) {
        Command::BeginClipRoundRect { rect, radii }
    } else {
        Command::BeginClipRect { rect }
    }
}

pub fn clip_for(rect: Rect, radii: Corners) -> (r: Command)
    ensures
        r == box_clip(rect, radii),
        r.opens(),
{
    if is_rounded(&radii) {
        Command::BeginClipRoundRect { rect, radii }
    } else {
        Command::BeginClipRect { rect }
    }
}

/// A box shadow of the shadow table.
#[derive(Clone, Copy, Debug, PartialEq, Eq, Structural)]
pub struct BoxShadow {
    pub inset: bool,
    pub shadow: u32,
}

pub open spec fn shadow_commands(shadows: Seq<BoxShadow>, inset: bool, n: nat) -> Seq<Command>
    decreases n,
{
    if n == 0 {
        Seq::empty()
    } else {
        let rest = shadow_commands(shadows, inset, (n - 1) as nat);
        if shadows[n - 1].inset == inset {
            rest.push(Command::Shadow { shadow: shadows[n - 1].shadow })
        } else {
            rest
        }
    }
}

/// One background tile and what fills it; a tile without paint cannot be drawn.
#[derive(Clone, Copy, Debug, PartialEq, Eq, Structural)]
pub struct Tile {
    pub path: PathRef,
    pub paint: Option<Paint>,
}

pub open spec fn tile_command(tile: Tile) -> Command {
    Command::Path {
        path: tile.path,
        fill_rule: FillRule::NonZero,
        fill: tile.paint,
        stroke: None,
    }
}

/// Number of leading tiles of a row that have a paint.
pub open spec fn painted_tiles(row: Seq<Tile>, from: int) -> int
    decreases row.len() - from,
{
    if from < 0 || from >= row.len() || row[from].paint is None {
        from
    } else {
        painted_tiles(row, from + 1)
    }
}

/// The state after a row of tiles: it is painted up to the first tile without paint, which is
/// reported.
pub open spec fn row_painted(r: Recorded, node: Seq<char>, row: Seq<Tile>) -> Recorded {
    let n = painted_tiles(row, 0);
    let drawn = r.put_all(Seq::new(n as nat, |i: int| tile_command(row[i])));
    if n < row.len() {
        drawn.note(node, "background-image (URL or unsupported gradient)"@)
    } else {
        drawn
    }
}

pub open spec fn rows_painted(r: Recorded, node: Seq<char>, rows: Seq<Vec<Tile>>, n: nat) -> Recorded
    decreases n,
{
    if n == 0 {
        r
    } else {
        row_painted(rows_painted(r, node, rows, (n - 1) as nat), node, rows[n - 1]@)
    }
}

/// What a node paints behind its content.
pub struct Background {
    /// Path of the border box.
    pub shape: PathRef,
    pub color: Rgba,
    pub rect: Rect,
    pub radii: Corners,
    /// Tile rows of the background images, bottom layer first.
    pub rows: Option<Vec<Vec<Tile>>>,
}

pub open spec fn background_painted(r: Recorded, node: Seq<char>, b: Background) -> Recorded {
    let colored = if b.color.a != 0 {
        r.put(
            Command::Path {
                path: b.shape,
                fill_rule: FillRule::NonZero,
                fill: Some(Paint::Solid(b.color)),
                stroke: None,
            },
        )
    } else {
        r
    };
    match b.rows {
        Some(rows) => rows_painted(
            colored.put(box_clip(b.rect, b.radii)),
            node,
            rows@,
            rows@.len(),
        ).put(Command::End),
        None => colored,
    }
}

#[derive(Clone, Copy, Debug, PartialEq, Eq, Structural)]
pub enum BorderStyle {
    Absent,
    Hidden,
    Solid,
    Dashed,
    Dotted,
    Double,
    Groove,
    Ridge,
    Inset,
    Outset,
}

/// Paths and strokes of one uniform ring around a box.
#[derive(Clone, Copy, Debug, PartialEq, Eq, Structural)]
pub struct RingPaths {
    /// The whole ring.
    pub full: PathRef,
    /// The outer third.
    pub outer: PathRef,
    /// The inner third.
    pub inner: PathRef,
    /// The center line.
    pub center: PathRef,
    pub dashed: StrokeRef,
    pub dotted: StrokeRef,
}

pub open spec fn ring_fill(path: PathRef, color: Rgba) -> Command {
    Command::Path {
        path,
        fill_rule: FillRule::EvenOdd,
        fill: Some(Paint::Solid(color)),
        stroke: None,
    }
}

pub open spec fn ring_stroke(path: PathRef, stroke: StrokeRef) -> Command {
    Command::Path { path, fill_rule: FillRule::NonZero, fill: None, stroke: Some(stroke) }
}

/// Whether a border style needs light and dark shades, which are not recorded.
pub open spec fn needs_shades(style: BorderStyle) -> bool {
    style == BorderStyle::Groove || style == BorderStyle::Ridge || style == BorderStyle::Inset
        || style == BorderStyle::Outset
}

pub open spec fn is_rendered_spec(style: BorderStyle) -> bool {
    style != BorderStyle::Absent && style != BorderStyle::Hidden
}

/// Commands of one uniform ring.
pub open spec fn ring_commands(
    ring: RingPaths,
    width: Scalar,
    color: Rgba,
    style: BorderStyle,
) -> Seq<Command> {
    if width.le_spec(num(ZERO)) || color.a == 0 {
        Seq::empty()
    } else {
        match style {
            BorderStyle::Solid => seq![ring_fill(ring.full, color)],
            BorderStyle::Dashed => seq![ring_stroke(ring.center, ring.dashed)],
            BorderStyle::Dotted => seq![ring_stroke(ring.center, ring.dotted)],
            BorderStyle::Double => seq![ring_fill(ring.outer, color), ring_fill(ring.inner, color)],
            _ => Seq::empty(),
        }
    }
}

/// Whether a ring of this style can be recorded.
pub open spec fn ring_supported(width: Scalar, color: Rgba, style: BorderStyle) -> bool {
    width.le_spec(num(ZERO)) || color.a == 0 || !needs_shades(style)
}

/// One edge of a border.
#[derive(Clone, Copy, Debug, PartialEq, Eq, Structural)]
pub struct Side {
    pub width: Scalar,
    pub color: Rgba,
    pub style: BorderStyle,
    /// Polygon of the edge, absent where it is empty.
    pub polygon: Option<PathRef>,
    /// Ring of this edge's width.
    pub ring: PathRef,
}

/// A border, edge by edge.
pub struct Border {
    pub top: Side,
    pub right: Side,
    pub bottom: Side,
    pub left: Side,
    pub radii: Corners,
    pub ring: RingPaths,
}

/// Whether all four edges look alike. Widths compare as numbers.
pub open spec fn uniform(b: Border) -> bool {
    &&& b.top.color == b.right.color && b.right.color == b.bottom.color && b.bottom.color
        == b.left.color
    &&& b.left.width.eq_spec(b.right.width) && b.top.width.eq_spec(b.bottom.width)
        && b.left.width.eq_spec(b.top.width)
    &&& b.right.style == b.top.style && b.bottom.style == b.top.style && b.left.style == b.top.style
}

pub open spec fn absent(b: Border) -> bool {
    let zero = num(ZERO);
    b.left.width.le_spec(zero) && b.right.width.le_spec(zero) && b.top.width.le_spec(zero)
        && b.bottom.width.le_spec(zero)
}

pub open spec fn plain_style(style: BorderStyle) -> bool {
    style == BorderStyle::Solid || style == BorderStyle::Absent || style == BorderStyle::Hidden
}

/// Commands of one edge of a border whose edges differ.
pub open spec fn side_commands(side: Side, round: bool) -> Seq<Command> {
    if !is_rendered_spec(side.style) || !num(ZERO).lt_spec(side.width) || side.color.a
        == 0 {
        Seq::empty()
    } else {
        match side.polygon {
            None => Seq::empty(),
            Some(path) => if round {
                seq![
                    Command::BeginClipPath { path, fill_rule: FillRule::NonZero },
                    ring_fill(side.ring, side.color),
                    Command::End,
                ]
            } else {
                seq![
                    Command::Path {
                        path,
                        fill_rule: FillRule::NonZero,
                        fill: Some(Paint::Solid(side.color)),
                        stroke: None,
                    },
                ]
            },
        }
    }
}

pub open spec fn border_painted(r: Recorded, node: Seq<char>, b: Border) -> Recorded {
    if absent(b) {
        r
    } else if uniform(b) {
        let drawn = r.put_all(ring_commands(b.ring, b.left.width, b.top.color, b.top.style));
        if ring_supported(b.left.width, b.top.color, b.top.style) {
            drawn
        } else {
            drawn.note(node, "groove/ridge/inset/outset border styles"@)
        }
    } else if !(plain_style(b.top.style) && plain_style(b.right.style) && plain_style(
        b.bottom.style,
    ) && plain_style(b.left.style)) {
        r.note(node, "non-solid borders with different per-edge widths or colors"@)
    } else {
        r.put_all(side_commands(b.top, rounded(b.radii))).put_all(
            side_commands(b.right, rounded(b.radii)),
        ).put_all(side_commands(b.bottom, rounded(b.radii))).put_all(
            side_commands(b.left, rounded(b.radii)),
        )
    }
}

/// A resolved outline.
#[derive(Clone, Copy, Debug, PartialEq, Eq, Structural)]
pub struct Outline {
    pub style: BorderStyle,
    pub width: Scalar,
    pub color: Rgba,
    pub ring: RingPaths,
}

pub open spec fn outline_painted(r: Recorded, node: Seq<char>, outline: Option<Outline>) -> Recorded {
    match outline {
        None => r,
        Some(o) => if !is_rendered_spec(o.style) || o.width.le_spec(num(ZERO))
            || o.color.a == 0 {
            r
        } else {
            let drawn = r.put_all(ring_commands(o.ring, o.width, o.color, o.style));
            if ring_supported(o.width, o.color, o.style) {
                drawn
            } else {
                drawn.note(node, "groove/ridge/inset/outset outline styles"@)
            }
        },
    }
}

/// Most specks one node may scatter.
pub const PAPER_GRAIN_MAX_SPECKS: usize = 2800;

/// Most fibers one node may scatter.
pub const PAPER_GRAIN_MAX_FIBERS: usize = 700;

pub open spec fn least(a: int, b: int) -> int {
    if a <= b { a } else { b }
}

/// Speck and fiber counts: each capped, and both cut in proportion to what is left of the frame's
/// instance budget.
pub open spec fn grain_counts(area: Scalar, specks: usize, fibers: usize, remaining: usize) -> (
    int,
    int,
) {
    let s = least(specks as int, PAPER_GRAIN_MAX_SPECKS as int);
    let f = least(fibers as int, PAPER_GRAIN_MAX_FIBERS as int);
    if remaining == 0 || !area.finite() || area.le_spec(num(ZERO)) || s + f == 0 {
        (0, 0)
    } else if s + f > remaining {
        (s * remaining / (s + f), remaining - s * remaining / (s + f))
    } else {
        (s, f)
    }
}

/// Instance counts of paper grain on a box. `specks` and `fibers` are the densities rounded for the
/// box's area; the result never exceeds what remains of the frame's budget.
pub fn paper_grain_counts(area: Scalar, specks: usize, fibers: usize, remaining: usize) -> (r: (
    usize,
    usize,
))
    ensures
        (r.0 as int, r.1 as int) == grain_counts(area, specks, fibers, remaining),
{
    if remaining == 0 || !area.is_finite() || area.le(Scalar::from_bits(ZERO)) {
        return (0, 0);
    }
    let s: usize = if specks <= PAPER_GRAIN_MAX_SPECKS { specks } else { PAPER_GRAIN_MAX_SPECKS };
    let f: usize = if fibers <= PAPER_GRAIN_MAX_FIBERS { fibers } else { PAPER_GRAIN_MAX_FIBERS };
    let desired: usize = s + f;
    if desired == 0 {
        return (0, 0);
    }
    if desired > remaining {
        assert(s * remaining <= 2800 * 3500) by (nonlinear_arith)
            requires
                s <= 2800,
                remaining <= 3500,
        ;
        assert(0 <= s * remaining) by (nonlinear_arith)
            requires
                0 <= s,
                0 <= remaining,
        ;
        assert(s * remaining <= remaining * desired) by (nonlinear_arith)
            requires
                0 <= s <= desired,
                0 <= remaining,
        ;
        let kept: usize = s * remaining / desired;
        assert(kept <= remaining) by (nonlinear_arith)
            requires
                kept == s * remaining / desired as int,
                s * remaining <= remaining * desired,
                desired > 0,
        ;
        return (kept, remaining - kept);
    }
    (s, f)
}

/// Grain never exceeds the remaining budget or its own caps.
pub proof fn grain_stays_in_budget(area: Scalar, specks: usize, fibers: usize, remaining: usize)
    ensures
        ({
            let (s, f) = grain_counts(area, specks, fibers, remaining);
            &&& 0 <= s && 0 <= f
            &&& s + f <= remaining
            &&& s <= PAPER_GRAIN_MAX_SPECKS
            &&& f <= PAPER_GRAIN_MAX_FIBERS
        }),
{
    let s = least(specks as int, PAPER_GRAIN_MAX_SPECKS as int);
    let f = least(fibers as int, PAPER_GRAIN_MAX_FIBERS as int);
    if s + f > 0 && s + f > remaining {
        let d = s + f;
        let r = remaining as int;
        assert(0 <= s * r / d <= r) by (nonlinear_arith)
            requires
                0 <= s <= d,
                0 <= r,
                0 < d,
        ;
        let k = s * r / d;
        assert(k * d <= s * r < k * d + d) by (nonlinear_arith)
            requires
                k == s * r / d,
                0 < d,
        ;
        assert(k <= s) by (nonlinear_arith)
            requires
                k * d <= s * r,
                0 <= s,
                0 <= r < d,
        ;
        assert(r - k <= f) by (nonlinear_arith)
            requires
                s * r < k * d + d,
                d == s + f,
                0 <= s,
                0 <= f,
                0 <= r < d,
        {
            assert((r - k) * d < r * f + d) by (nonlinear_arith)
                requires
                    s * r < k * d + d,
                    d == s + f,
            ;
            assert(r * f <= d * f) by (nonlinear_arith)
                requires
                    0 <= f,
                    r < d,
            ;
            assert((r - k) * d < (f + 1) * d) by (nonlinear_arith)
                requires
                    (r - k) * d < r * f + d,
                    r * f <= d * f,
            ;
            assert(r - k < f + 1) by (nonlinear_arith)
                requires
                    (r - k) * d < (f + 1) * d,
                    0 < d,
            ;
        }
    }
}

/// The hash of the first `n` bytes: FNV-1a on 64 bits, with the multiplier `0x1000_0000_01b3`.
pub open spec fn fnv1a_of(bytes: Seq<u8>, n: nat) -> u64
    decreases n,
{
    if n == 0 {
        0xcbf2_9ce4_8422_2325
    } else {
        (((fnv1a_of(bytes, (n - 1) as nat) ^ (bytes[n - 1] as u64)) as int * 0x1000_0000_01b3)
            % 0x1_0000_0000_0000_0000) as u64
    }
}

/// FNV-1a, the seed of procedural grain.
pub fn fnv1a(bytes: &[u8]) -> (r: u64)
    ensures
        r == fnv1a_of(bytes@, bytes@.len()),
{
    let mut h: u64 = 0xcbf2_9ce4_8422_2325;
    let mut i: usize = 0;
    while i < bytes.len()
        invariant
            i <= bytes@.len(),
            h == fnv1a_of(bytes@, i as nat),
        decreases bytes@.len() - i,
    {
        h = h ^ (bytes[i] as u64);
        h = h.wrapping_mul(0x1000_0000_01b3);
        i = i + 1;
    }
    h
}

/// The next state of the grain generator, and the 31-bit sample taken from it.
pub open spec fn grain_next(state: u64) -> u64 {
    ((state as int * 6364136223846793005 + 1) % 0x1_0000_0000_0000_0000) as u64
}

/// Advances the grain generator. The sample is its state without the low 33 bits; divided by
/// 2^32 - 1 it is the unit sample.
pub fn grain_unit(state: &mut u64) -> (r: u64)
    ensures
        *final(state) == grain_next(*old(state)),
        r == grain_next(*old(state)) >> 33u64,
{
    let scaled: u64 = state.wrapping_mul(6364136223846793005);
    let next: u64 = scaled.wrapping_add(1);
    proof {
        let a: int = *state as int * 6364136223846793005;
        let m: int = 0x1_0000_0000_0000_0000;
        vstd::arithmetic::div_mod::lemma_add_mod_noop(a, 1, m);
        vstd::arithmetic::div_mod::lemma_small_mod(1, m as nat);
    }
    *state = next;
    next >> 33u64
}

/// Grain of one node: the instances that the host scattered, specks first.
#[derive(Clone, Copy, Debug, PartialEq, Eq, Structural)]
pub struct Grain {
    pub amount: Scalar,
    pub area: Scalar,
    pub specks: usize,
    pub fibers: usize,
}

/// Where the instances of a node's grain go: behind those recorded before.
pub open spec fn grain_painted(r: Recorded, grain: Grain, reserved: usize, limit: usize) -> Recorded {
    if !num(ZERO).lt_spec(grain.amount) {
        r
    } else {
        let free = if limit >= reserved + r.grain { (limit - reserved - r.grain) as usize } else { 0usize };
        let (s, f) = grain_counts(grain.area, grain.specks, grain.fibers, free);
        let base = reserved + r.grain;
        let first = if s > 0 {
            Recorded {
                grain: (r.grain + s) as nat,
                ..r.put(
                    Command::GeometryBatch {
                        geometry: BatchGeometry::Circle,
                        instances: TableRange { start: base as usize, end: (base + s) as usize },
                    },
                )
            }
        } else {
            r
        };
        if f > 0 {
            Recorded {
                grain: (first.grain + f) as nat,
                ..first.put(
                    Command::GeometryBatch {
                        geometry: BatchGeometry::Rect,
                        instances: TableRange {
                            start: (base + s) as usize,
                            end: (base + s + f) as usize,
                        },
                    },
                )
            }
        } else {
            first
        }
    }
}

/// Everything that the shell of a node paints.
pub struct Shell {
    pub shadows: Vec<BoxShadow>,
    pub background: Background,
    pub grain: Grain,
    pub border: Border,
    pub outline: Option<Outline>,
}

/// The shell in CSS order: outer shadows, background, grain, inner shadows, border, outline.
pub open spec fn shell_painted(
    r: Recorded,
    node: Seq<char>,
    shell: Shell,
    reserved: usize,
    limit: usize,
) -> Recorded {
    let r1 = r.put_all(shadow_commands(shell.shadows@, false, shell.shadows@.len()));
    let r2 = background_painted(r1, node, shell.background);
    let r3 = grain_painted(r2, shell.grain, reserved, limit);
    let r4 = r3.put_all(shadow_commands(shell.shadows@, true, shell.shadows@.len()));
    let r5 = border_painted(r4, node, shell.border);
    outline_painted(r5, node, shell.outline)
}

pub fn is_rendered(style: BorderStyle) -> (r: bool)
    ensures
        r == is_rendered_spec(style),
{
    style != BorderStyle::Absent && style != BorderStyle::Hidden
}

fn is_plain(style: BorderStyle) -> (r: bool)
    ensures
        r == plain_style(style),
{
    style == BorderStyle::Solid || style == BorderStyle::Absent || style == BorderStyle::Hidden
}

impl Emitter {
    /// Translates a filter list into filter steps; an SVG filter is reported.
    pub fn filter_ops(&mut self, node: &str, filters: &Vec<CssFilter>) -> (r: Vec<FilterOp>)
        ensures
            r@ == drawable_ops(filters@, filters@.len()),
            final(self)@ == filters_read(old(self)@, node@, filters@),
    {
        let mut ops: Vec<FilterOp> = Vec::new();
        let mut url: bool = false;
        let mut i: usize = 0;
        while i < filters.len()
            invariant
                i <= filters@.len(),
                ops@ == drawable_ops(filters@, i as nat),
                url == filters@.take(i as int).contains(CssFilter::Url),
                *self == *old(self),
            decreases filters@.len() - i,
        {
            let ghost seen = filters@.take(i as int);
            let ghost more = filters@.take(i as int + 1);
            assert(more =~= seen.push(filters@[i as int]));
            match filters[i] {
                CssFilter::Op(op) => {
                    ops.push(op);
                    proof {
                        if seen.contains(CssFilter::Url) {
                            let k = choose|k: int| 0 <= k < seen.len() && seen[k] == CssFilter::Url;
                            assert(more[k] == CssFilter::Url);
                        }
                        if more.contains(CssFilter::Url) {
                            let k = choose|k: int| 0 <= k < more.len() && more[k] == CssFilter::Url;
                            assert(seen[k] == CssFilter::Url);
                        }
                    }
                },
                CssFilter::Url => {
                    url = true;
                    assert(more[i as int] == CssFilter::Url);
                },
            }
            i = i + 1;
        }
        assert(filters@.take(filters@.len() as int) =~= filters@);
        if url {
            self.unsupported(node, "filter: url()（SVG filter）");
        }
        ops
    }

    /// Shadows of one kind, in declaration order.
    pub fn box_shadows(&mut self, shadows: &Vec<BoxShadow>, inset: bool)
        ensures
            final(self)@ == old(self)@.put_all(shadow_commands(shadows@, inset, shadows@.len())),
            grew(old(self)@, final(self)@, 0),
    {
        let mut i: usize = 0;
        proof {
            grew_nothing(old(self)@, self@);
            assert(self@.commands + Seq::<Command>::empty() =~= self@.commands);
        }
        while i < shadows.len()
            invariant
                i <= shadows@.len(),
                self@ == old(self)@.put_all(shadow_commands(shadows@, inset, i as nat)),
                grew(old(self)@, self@, 0),
            decreases shadows@.len() - i,
        {
            let ghost before = self@;
            if shadows[i].inset == inset {
                self.push(Command::Shadow { shadow: shadows[i].shadow });
                proof {
                    grew_one(before, self@, Command::Shadow { shadow: shadows@[i as int].shadow });
                    grew_more(old(self)@, before, self@, 0, 0);
                    assert(self@.commands =~= old(self)@.commands + shadow_commands(
                        shadows@,
                        inset,
                        (i + 1) as nat,
                    ));
                }
            }
            i = i + 1;
        }
    }

    fn paint_row(&mut self, node: &str, row: &Vec<Tile>)
        ensures
            final(self)@ == row_painted(old(self)@, node@, row@),
            grew(old(self)@, final(self)@, 0),
    {
        let mut i: usize = 0;
        proof {
            grew_nothing(old(self)@, self@);
            assert(self@.commands =~= self@.commands + Seq::new(
                0,
                |k: int| tile_command(row@[k]),
            ));
        }
        while i < row.len()
            invariant
                i <= row@.len(),
                painted_tiles(row@, 0) == painted_tiles(row@, i as int),
                self@ == old(self)@.put_all(Seq::new(i as nat, |k: int| tile_command(row@[k]))),
                grew(old(self)@, self@, 0),
            decreases row@.len() - i,
        {
            let tile = row[i];
            let ghost before = self@;
            match tile.paint {
                Some(paint) => {
                    let c = Command::Path {
                        path: tile.path,
                        fill_rule: FillRule::NonZero,
                        fill: Some(paint),
                        stroke: None,
                    };
                    self.push(c);
                    proof {
                        grew_one(before, self@, c);
                        grew_more(old(self)@, before, self@, 0, 0);
                        assert(self@.commands =~= old(self)@.commands + Seq::new(
                            (i + 1) as nat,
                            |k: int| tile_command(row@[k]),
                        ));
                    }
                },
                None => {
                    assert(painted_tiles(row@, 0) == i);
                    self.unsupported(node, "background-image (URL or unsupported gradient)");
                    proof {
                        grew_nothing(before, self@);
                        grew_more(old(self)@, before, self@, 0, 0);
                    }
                    return ;
                },
            }
            i = i + 1;
        }
    }

    /// Color first, then the image tiles inside one clip to the border box.
    pub fn background(&mut self, node: &str, b: &Background)
        ensures
            final(self)@ == background_painted(old(self)@, node@, *b),
            grew(old(self)@, final(self)@, 0),
    {
        proof {
            grew_nothing(old(self)@, self@);
        }
        if b.color.a != 0 {
            let c = Command::Path {
                path: b.shape,
                fill_rule: FillRule::NonZero,
                fill: Some(Paint::Solid(b.color)),
                stroke: None,
            };
            self.push(c);
            proof {
                grew_one(old(self)@, self@, c);
            }
        }
        let ghost colored = self@;
        match &b.rows {
            None => {},
            Some(rows) => {
                let clip = clip_for(b.rect, b.radii);
                self.push(clip);
                let ghost clipped = self@;
                proof {
                    grew_one(colored, clipped, clip);
                    grew_nothing(clipped, clipped);
                }
                let mut i: usize = 0;
                while i < rows.len()
                    invariant
                        i <= rows@.len(),
                        self@ == rows_painted(clipped, node@, rows@, i as nat),
                        grew(clipped, self@, 0),
                    decreases rows@.len() - i,
                {
                    let ghost before = self@;
                    self.paint_row(node, &rows[i]);
                    proof {
                        grew_more(clipped, before, self@, 0, 0);
                    }
                    i = i + 1;
                }
                let ghost filled = self@;
                self.push(Command::End);
                proof {
                    grew_more(colored, clipped, filled, 1, 0);
                    close_one(colored, filled, self@);
                    grew_more(old(self)@, colored, self@, 0, 0);
                }
            },
        }
    }

    /// One uniform ring; `false` where its style cannot be recorded.
    pub fn styled_ring(
        &mut self,
        ring: &RingPaths,
        width: Scalar,
        color: Rgba,
        style: BorderStyle,
    ) -> (r: bool)
        ensures
            r == ring_supported(width, color, style),
            final(self)@ == old(self)@.put_all(ring_commands(*ring, width, color, style)),
            grew(old(self)@, final(self)@, 0),
    {
        proof {
            grew_nothing(old(self)@, self@);
            assert(self@.commands + Seq::<Command>::empty() =~= self@.commands);
        }
        if width.le(Scalar::from_bits(ZERO)) || color.a == 0 {
            return true;
        }
        match style {
            BorderStyle::Solid => {
                self.fill_ring(ring.full, color);
            },
            BorderStyle::Dashed => {
                self.stroke_ring(ring.center, ring.dashed);
            },
            BorderStyle::Dotted => {
                self.stroke_ring(ring.center, ring.dotted);
            },
            BorderStyle::Double => {
                self.fill_ring(ring.outer, color);
                let ghost mid = self@;
                self.fill_ring(ring.inner, color);
                proof {
                    grew_more(old(self)@, mid, self@, 0, 0);
                    assert(self@.commands =~= old(self)@.commands + ring_commands(
                        *ring,
                        width,
                        color,
                        style,
                    ));
                }
            },
            BorderStyle::Groove | BorderStyle::Ridge | BorderStyle::Inset | BorderStyle::Outset => {
                return false;
            },
            BorderStyle::Absent | BorderStyle::Hidden => {},
        }
        true
    }

    fn fill_ring(&mut self, path: PathRef, color: Rgba)
        ensures
            final(self)@ == old(self)@.put(ring_fill(path, color)),
            final(self)@ == old(self)@.put_all(seq![ring_fill(path, color)]),
            grew(old(self)@, final(self)@, 0),
    {
        let c = Command::Path {
            path,
            fill_rule: FillRule::EvenOdd,
            fill: Some(Paint::Solid(color)),
            stroke: None,
        };
        self.push(c);
        proof {
            grew_one(old(self)@, self@, c);
            assert(self@.commands =~= old(self)@.commands + seq![c]);
        }
    }

    fn stroke_ring(&mut self, path: PathRef, stroke: StrokeRef)
        ensures
            final(self)@ == old(self)@.put_all(seq![ring_stroke(path, stroke)]),
            grew(old(self)@, final(self)@, 0),
    {
        let c = Command::Path {
            path,
            fill_rule: FillRule::NonZero,
            fill: None,
            stroke: Some(stroke),
        };
        self.push(c);
        proof {
            grew_one(old(self)@, self@, c);
            assert(self@.commands =~= old(self)@.commands + seq![c]);
        }
    }

    fn paint_side(&mut self, side: &Side, round: bool)
        ensures
            final(self)@ == old(self)@.put_all(side_commands(*side, round)),
            grew(old(self)@, final(self)@, 0),
    {
        proof {
            grew_nothing(old(self)@, self@);
            assert(self@.commands + Seq::<Command>::empty() =~= self@.commands);
        }
        if !is_rendered(side.style) || !Scalar::from_bits(ZERO).lt(side.width) || side.color.a == 0 {
            return ;
        }
        match side.polygon {
            None => {},
            Some(path) => {
                if round {
                    let clip = Command::BeginClipPath { path, fill_rule: FillRule::NonZero };
                    self.push(clip);
                    let ghost clipped = self@;
                    self.fill_ring(side.ring, side.color);
                    let ghost filled = self@;
                    self.push(Command::End);
                    proof {
                        grew_one(old(self)@, clipped, clip);
                        grew_more(old(self)@, clipped, filled, 1, 0);
                        close_one(old(self)@, filled, self@);
                        assert(self@.commands =~= old(self)@.commands + side_commands(*side, round));
                    }
                } else {
                    let c = Command::Path {
                        path,
                        fill_rule: FillRule::NonZero,
                        fill: Some(Paint::Solid(side.color)),
                        stroke: None,
                    };
                    self.push(c);
                    proof {
                        grew_one(old(self)@, self@, c);
                        assert(self@.commands =~= old(self)@.commands + side_commands(*side, round));
                    }
                }
            },
        }
    }

    /// A uniform ring where the edges agree, single edges where they are plain, a report otherwise.
    pub fn border(&mut self, node: &str, b: &Border)
        ensures
            final(self)@ == border_painted(old(self)@, node@, *b),
            grew(old(self)@, final(self)@, 0),
    {
        proof {
            grew_nothing(old(self)@, self@);
        }
        let zero = Scalar::from_bits(ZERO);
        if b.left.width.le(zero) && b.right.width.le(zero) && b.top.width.le(zero)
            && b.bottom.width.le(zero) {
            return ;
        }
        let same: bool = b.top.color == b.right.color && b.right.color == b.bottom.color
            && b.bottom.color == b.left.color && b.left.width.eq_value(b.right.width)
            && b.top.width.eq_value(b.bottom.width) && b.left.width.eq_value(b.top.width)
            && b.right.style == b.top.style && b.bottom.style == b.top.style && b.left.style
            == b.top.style;
        assert(same == uniform(*b));
        if same {
            let drawn = self.styled_ring(&b.ring, b.left.width, b.top.color, b.top.style);
            if !drawn {
                let ghost before = self@;
                self.unsupported(node, "groove/ridge/inset/outset border styles");
                proof {
                    grew_nothing(before, self@);
                    grew_more(old(self)@, before, self@, 0, 0);
                }
            }
            return ;
        }
        if !(is_plain(b.top.style) && is_plain(b.right.style) && is_plain(b.bottom.style)
            && is_plain(b.left.style)) {
            self.unsupported(node, "non-solid borders with different per-edge widths or colors");
            proof {
                grew_nothing(old(self)@, self@);
            }
            return ;
        }
        let round = is_rounded(&b.radii);
        self.paint_side(&b.top, round);
        let ghost s1 = self@;
        self.paint_side(&b.right, round);
        let ghost s2 = self@;
        self.paint_side(&b.bottom, round);
        let ghost s3 = self@;
        self.paint_side(&b.left, round);
        proof {
            grew_more(old(self)@, s1, s2, 0, 0);
            grew_more(old(self)@, s2, s3, 0, 0);
            grew_more(old(self)@, s3, self@, 0, 0);
        }
    }

    pub fn outline(&mut self, node: &str, outline: &Option<Outline>)
        ensures
            final(self)@ == outline_painted(old(self)@, node@, *outline),
            grew(old(self)@, final(self)@, 0),
    {
        proof {
            grew_nothing(old(self)@, self@);
        }
        match outline {
            None => {},
            Some(o) => {
                if !is_rendered(o.style) || o.width.le(Scalar::from_bits(ZERO)) || o.color.a == 0 {
                    return ;
                }
                let drawn = self.styled_ring(&o.ring, o.width, o.color, o.style);
                if !drawn {
                    let ghost before = self@;
                    self.unsupported(node, "groove/ridge/inset/outset outline styles");
                    proof {
                        grew_nothing(before, self@);
                        grew_more(old(self)@, before, self@, 0, 0);
                    }
                }
            },
        }
    }

    /// Procedural grain within what is left of the frame's instance budget. `reserved` counts the
    /// authored instances, `limit` is the budget of the whole frame.
    pub fn paper_grain(&mut self, grain: &Grain, reserved: usize, limit: usize)
        ensures
            final(self)@ == grain_painted(old(self)@, *grain, reserved, limit),
            grew(old(self)@, final(self)@, 0),
    {
        proof {
            grew_nothing(old(self)@, self@);
        }
        if !Scalar::from_bits(ZERO).lt(grain.amount) {
            return ;
        }
        if reserved > limit || self.grain > limit - reserved {
            return ;
        }
        let base: usize = reserved + self.grain;
        let remaining: usize = limit - base;
        let counts = paper_grain_counts(grain.area, grain.specks, grain.fibers, remaining);
        proof {
            grain_stays_in_budget(grain.area, grain.specks, grain.fibers, remaining);
        }
        if counts.0 > 0 {
            let c = Command::GeometryBatch {
                geometry: BatchGeometry::Circle,
                instances: TableRange { start: base, end: base + counts.0 },
            };
            self.push(c);
            self.grain = self.grain + counts.0;
            proof {
                grew_one(old(self)@, self@, c);
            }
        }
        let ghost mid = self@;
        if counts.1 > 0 {
            let c = Command::GeometryBatch {
                geometry: BatchGeometry::Rect,
                instances: TableRange {
                    start: base + counts.0,
                    end: base + counts.0 + counts.1,
                },
            };
            self.push(c);
            self.grain = self.grain + counts.1;
            proof {
                grew_one(mid, self@, c);
                grew_more(old(self)@, mid, self@, 0, 0);
            }
        }
    }

    /// The whole shell, in CSS order.
    pub fn shell(&mut self, node: &str, shell: &Shell, reserved: usize, limit: usize)
        ensures
            final(self)@ == shell_painted(old(self)@, node@, *shell, reserved, limit),
            grew(old(self)@, final(self)@, 0),
    {
        self.box_shadows(&shell.shadows, false);
        let ghost r1 = self@;
        self.background(node, &shell.background);
        let ghost r2 = self@;
        self.paper_grain(&shell.grain, reserved, limit);
        let ghost r3 = self@;
        self.box_shadows(&shell.shadows, true);
        let ghost r4 = self@;
        self.border(node, &shell.border);
        let ghost r5 = self@;
        self.outline(node, &shell.outline);
        proof {
            grew_more(old(self)@, r1, r2, 0, 0);
            grew_more(old(self)@, r2, r3, 0, 0);
            grew_more(old(self)@, r3, r4, 0, 0);
            grew_more(old(self)@, r4, r5, 0, 0);
            grew_more(old(self)@, r5, self@, 0, 0);
        }
    }
}

/// Recorded grain stays inside the frame's budget, counted together with the authored instances.
pub proof fn grain_keeps_the_frame_budget(r: Recorded, grain: Grain, reserved: usize, limit: usize)
    requires
        reserved + r.grain <= limit,
    ensures
        r.grain <= grain_painted(r, grain, reserved, limit).grain,
        reserved + grain_painted(r, grain, reserved, limit).grain <= limit,
{
    let free = (limit - reserved - r.grain) as usize;
    grain_stays_in_budget(grain.area, grain.specks, grain.fibers, free);
}

/// Closing the one group that is open leaves nothing open.
pub proof fn close_one(a: Recorded, b: Recorded, c: Recorded)
    requires
        grew(a, b, 1),
        c.commands == b.commands.push(Command::End),
    ensures
        grew(a, c, 0),
{
    let x = b.commands.skip(a.commands.len() as int);
    assert(b.commands =~= a.commands + x);
    crate::recording::empty_is_balanced();
    crate::recording::wrapping_is_balanced(x, Seq::<Command>::empty(), 1);
    assert(x + Seq::<Command>::empty() =~= x);
    assert(c.commands =~= a.commands + (x + crate::recording::ends(1)));
    grew_by(a, c, x + crate::recording::ends(1));
}

proof fn rows_keep_grain(r: Recorded, node: Seq<char>, rows: Seq<Vec<Tile>>, n: nat)
    ensures
        rows_painted(r, node, rows, n).grain == r.grain,
        rows_painted(r, node, rows, n).materials == r.materials,
        rows_painted(r, node, rows, n).cur == r.cur,
        rows_painted(r, node, rows, n).painted == r.painted,
        rows_painted(r, node, rows, n).filters == r.filters,
    decreases n,
{
    if n > 0 {
        rows_keep_grain(r, node, rows, (n - 1) as nat);
    }
}

proof fn background_keeps_grain(r: Recorded, node: Seq<char>, b: Background)
    ensures
        background_painted(r, node, b).grain == r.grain,
        background_painted(r, node, b).materials == r.materials,
        background_painted(r, node, b).cur == r.cur,
        background_painted(r, node, b).painted == r.painted,
        background_painted(r, node, b).filters == r.filters,
{
    let colored = if b.color.a != 0 {
        r.put(
            Command::Path {
                path: b.shape,
                fill_rule: FillRule::NonZero,
                fill: Some(Paint::Solid(b.color)),
                stroke: None,
            },
        )
    } else {
        r
    };
    if let Some(rows) = b.rows {
        rows_keep_grain(colored.put(box_clip(b.rect, b.radii)), node, rows@, rows@.len());
    }
}

/// The shell neither opens a material nor moves the cursor, nor touches filters or formulas.
pub proof fn shell_is_local(
    r: Recorded,
    node: Seq<char>,
    shell: Shell,
    reserved: usize,
    limit: usize,
)
    ensures
        shell_painted(r, node, shell, reserved, limit).materials == r.materials,
        shell_painted(r, node, shell, reserved, limit).cur == r.cur,
        shell_painted(r, node, shell, reserved, limit).painted == r.painted,
        shell_painted(r, node, shell, reserved, limit).filters == r.filters,
{
    let r1 = r.put_all(shadow_commands(shell.shadows@, false, shell.shadows@.len()));
    background_keeps_grain(r1, node, shell.background);
}

} // verus!
