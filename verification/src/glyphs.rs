//! Attributing shaped glyphs to authored text.

use core::ops::Range;

use vstd::prelude::*;

use crate::clusters::{
    checked_cluster_ranges, cluster_spans, project_cluster_ranges, projected_all, ClusterReject,
    Span, TextSourceSegment,
};
use crate::projection::{
    source_projection, text_source_projection, TextTransform, WhiteSpaceCollapse,
};
use crate::text::{byte_len, offset, offset_monotone, scan, Scanned};

verus! {

/// A span of an inline layout.
pub enum InlineSpan {
    /// A synthetic bidirectional mark.
    DirectionMark,
    /// Shaped text and its bytes in the concatenated input.
    Text { range: Range<usize>, text: String },
    /// A box or any other non-text span.
    Other,
}

/// The authored context of an inline item.
pub struct TextContext {
    /// Scene node that the item belongs to.
    pub key: Option<String>,
    /// Authored text of that node.
    pub source: Option<String>,
    pub collapse: WhiteSpaceCollapse,
    pub transform: TextTransform,
    pub tab_spaces: usize,
}

/// Scene node and byte range of one inline span.
pub struct SpanAnchor {
    pub key: String,
    /// Bytes of the span in the concatenated shaping input.
    pub range: Range<usize>,
    /// Present only where processing moved bytes.
    pub projection: Option<Vec<TextSourceSegment>>,
}

/// An anchor by its contents.
pub struct Anchor {
    pub key: Seq<char>,
    pub range: Range<usize>,
    pub projection: Option<Seq<TextSourceSegment>>,
}

impl View for SpanAnchor {
    type V = Anchor;

    open spec fn view(&self) -> Anchor {
        Anchor {
            key: self.key@,
            range: self.range,
            projection: match self.projection {
                Some(v) => Some(v@),
                None => None,
            },
        }
    }
}

pub open spec fn anchor_seen(r: Result<SpanAnchor, ClusterReject>) -> Result<Anchor, ClusterReject> {
    match r {
        Ok(a) => Ok(a@),
        Err(e) => Err(e),
    }
}

/// Number of authored items in front of span `n`: synthetic marks take none.
pub open spec fn items_before(spans: Seq<InlineSpan>, n: nat) -> nat
    decreases n,
{
    if n == 0 {
        0
    } else {
        items_before(spans, (n - 1) as nat) + if spans[n - 1] is DirectionMark { 0nat } else { 1nat }
    }
}

/// The anchor of a text span in its authored context.
pub open spec fn anchored(range: Range<usize>, text: Seq<char>, context: TextContext) -> Result<
    Anchor,
    ClusterReject,
> {
    if context.key is None {
        Err(ClusterReject::Unattributed)
    } else if context.source is None {
        Err(ClusterReject::NotVerbatim)
    } else {
        match source_projection(
            context.source->0@,
            text,
            context.collapse,
            context.transform,
            context.tab_spaces as nat,
        ) {
            Err(e) => Err(e),
            Ok(projection) => Ok(Anchor { key: context.key->0@, range, projection }),
        }
    }
}

/// The anchor of span `at`.
pub open spec fn span_anchor(
    spans: Seq<InlineSpan>,
    contexts: Seq<Option<TextContext>>,
    at: int,
) -> Result<Anchor, ClusterReject> {
    let item = items_before(spans, at as nat);
    match spans[at] {
        InlineSpan::Text { range, text } => if item < contexts.len() && contexts[item as int] is Some {
            anchored(range, text@, contexts[item as int]->0)
        } else {
            Err(ClusterReject::Unattributed)
        },
        _ => Err(ClusterReject::Unattributed),
    }
}

/// Whether expanding a context's tabs in a text stays addressable.
pub open spec fn addressable(spans: Seq<InlineSpan>, contexts: Seq<Option<TextContext>>) -> bool {
    forall|i: int, k: int|
        0 <= i < spans.len() && 0 <= k < contexts.len() && (#[trigger] spans[i]) is Text && (
        #[trigger] contexts[k]) is Some ==> byte_len(spans[i]->text@) + contexts[k]->0.tab_spaces + 4
            <= usize::MAX
}

/// Maps inline spans to scene nodes and node-relative byte ranges. Items are consumed in order;
/// synthetic marks consume none.
pub fn span_anchors(spans: &Vec<InlineSpan>, contexts: &Vec<Option<TextContext>>) -> (r: Vec<
    Result<SpanAnchor, ClusterReject>,
>)
    requires
        addressable(spans@, contexts@),
    ensures
        r@.len() == spans@.len(),
        forall|i: int|
            0 <= i < spans@.len() ==> anchor_seen(#[trigger] r@[i]) == span_anchor(
                spans@,
                contexts@,
                i,
            ),
{
    let mut out: Vec<Result<SpanAnchor, ClusterReject>> = Vec::new();
    let mut item: usize = 0;
    let mut i: usize = 0;
    while i < spans.len()
        invariant
            addressable(spans@, contexts@),
            i <= spans@.len(),
            item == items_before(spans@, i as nat),
            item <= i,
            out@.len() == i,
            forall|k: int|
                0 <= k < i ==> anchor_seen(#[trigger] out@[k]) == span_anchor(spans@, contexts@, k),
        decreases spans@.len() - i,
    {
        let anchor: Result<SpanAnchor, ClusterReject> = match &spans[i] {
            InlineSpan::DirectionMark => Err(ClusterReject::Unattributed),
            InlineSpan::Other => {
                item = item + 1;
                Err(ClusterReject::Unattributed)
            },
            InlineSpan::Text { range, text } => {
                let at: usize = item;
                item = item + 1;
                if at >= contexts.len() {
                    Err(ClusterReject::Unattributed)
                } else {
                    match &contexts[at] {
                        None => Err(ClusterReject::Unattributed),
                        Some(context) => anchor_of(range, text, context),
                    }
                }
            },
        };
        out.push(anchor);
        i = i + 1;
    }
    out
}

fn anchor_of(range: &Range<usize>, text: &String, context: &TextContext) -> (r: Result<
    SpanAnchor,
    ClusterReject,
>)
    requires
        byte_len(text@) + context.tab_spaces + 4 <= usize::MAX,
    ensures
        anchor_seen(r) == anchored(*range, text@, *context),
{
    match &context.key {
        None => Err(ClusterReject::Unattributed),
        Some(key) => match &context.source {
            None => Err(ClusterReject::NotVerbatim),
            Some(source) => match text_source_projection(
                source.as_str(),
                text.as_str(),
                context.collapse,
                context.transform,
                context.tab_spaces,
            ) {
                Err(e) => Err(e),
                Ok(projection) => Ok(
                    SpanAnchor { key: key.clone(), range: range.start..range.end, projection },
                ),
            },
        },
    }
}

/// Whether a glyph can be painted from color tables; nothing where the face does not parse.
pub uninterp spec fn color_glyph(data: Seq<u8>, index: u32, id: u16) -> Option<bool>;

/// `ttf_parser::Face::is_color_glyph` on the face at `index` of a font file: a function of the
/// file's bytes, the index and the glyph.
#[verifier::external_body]
fn is_color_glyph(data: &[u8], index: u32, id: u16) -> (r: Option<bool>)
    ensures
        r == color_glyph(data@, index, id),
{
    match ttf_parser::Face::parse(data, index) {
        Ok(face) => Some(face.is_color_glyph(ttf_parser::GlyphId(id))),
        Err(_) => None,
    }
}

/// Whether a glyph has an outline with a bounding box; nothing where the face does not parse.
pub uninterp spec fn outlined_glyph(data: Seq<u8>, index: u32, id: u16) -> Option<bool>;

/// `ttf_parser::Face::glyph_bounding_box` on the face at `index` of a font file, by whether there
/// is a box: a function of the file's bytes, the index and the glyph.
#[verifier::external_body]
fn has_bounding_box(data: &[u8], index: u32, id: u16) -> (r: Option<bool>)
    ensures
        r == outlined_glyph(data@, index, id),
{
    match ttf_parser::Face::parse(data, index) {
        Ok(face) => Some(face.glyph_bounding_box(ttf_parser::GlyphId(id)).is_some()),
        Err(_) => None,
    }
}

/// Whether a glyph has a raster image for a size; nothing where the face does not parse.
pub uninterp spec fn raster_glyph(data: Seq<u8>, index: u32, id: u16, size: u16) -> Option<bool>;

/// `ttf_parser::Face::glyph_raster_image` on the face at `index` of a font file, by whether there
/// is an image: a function of the file's bytes, the index, the glyph and the size.
#[verifier::external_body]
fn has_raster_image(data: &[u8], index: u32, id: u16, size: u16) -> (r: Option<bool>)
    ensures
        r == raster_glyph(data@, index, id, size),
{
    match ttf_parser::Face::parse(data, index) {
        Ok(face) => Some(face.glyph_raster_image(ttf_parser::GlyphId(id), size).is_some()),
        Err(_) => None,
    }
}

/// Whether a glyph has an SVG document; nothing where the face does not parse.
pub uninterp spec fn svg_glyph(data: Seq<u8>, index: u32, id: u16) -> Option<bool>;

/// `ttf_parser::Face::glyph_svg_image` on the face at `index` of a font file, by whether there is
/// a document: a function of the file's bytes, the index and the glyph.
#[verifier::external_body]
fn has_svg_image(data: &[u8], index: u32, id: u16) -> (r: Option<bool>)
    ensures
        r == svg_glyph(data@, index, id),
{
    match ttf_parser::Face::parse(data, index) {
        Ok(face) => Some(face.glyph_svg_image(ttf_parser::GlyphId(id)).is_some()),
        Err(_) => None,
    }
}

/// The answers of a font about one glyph. Each is absent where the face does not parse.
#[derive(Clone, Copy, Debug, PartialEq, Eq, Structural)]
pub struct GlyphInk {
    pub color: Option<bool>,
    pub outline: Option<bool>,
    pub raster: Option<bool>,
    pub svg: Option<bool>,
}

/// Whether the font says of every kind of ink that the glyph has none.
pub open spec fn inkless(ink: GlyphInk) -> bool {
    ink.color == Some(false) && ink.outline == Some(false) && ink.raster == Some(false) && ink.svg
        == Some(false)
}

pub fn is_inkless(ink: &GlyphInk) -> (r: bool)
    ensures
        r == inkless(*ink),
{
    let color: bool = match ink.color {
        Some(b) => !b,
        None => false,
    };
    let outline: bool = match ink.outline {
        Some(b) => !b,
        None => false,
    };
    let raster: bool = match ink.raster {
        Some(b) => !b,
        None => false,
    };
    let svg: bool = match ink.svg {
        Some(b) => !b,
        None => false,
    };
    color && outline && raster && svg
}

/// What a font says about a glyph.
pub open spec fn ink_of(data: Seq<u8>, index: u32, id: u16) -> GlyphInk {
    GlyphInk {
        color: color_glyph(data, index, id),
        outline: outlined_glyph(data, index, id),
        raster: raster_glyph(data, index, id, u16::MAX),
        svg: svg_glyph(data, index, id),
    }
}

/// Asks a font file about the ink of a glyph.
pub fn glyph_ink(data: &[u8], index: u32, id: u16) -> (r: GlyphInk)
    ensures
        r == ink_of(data@, index, id),
{
    GlyphInk {
        color: is_color_glyph(data, index, id),
        outline: has_bounding_box(data, index, id),
        raster: has_raster_image(data, index, id, u16::MAX),
        svg: has_svg_image(data, index, id),
    }
}

/// A shaped run as addressing sees it.
pub struct ShapedRun {
    pub glyph_ids: Vec<u32>,
    /// Inline span that the run was shaped from; a synthetic ellipsis has none.
    pub source_span: Option<u32>,
    pub cluster_ranges: Vec<Range<usize>>,
    pub text_range: Range<usize>,
    pub font_data: Vec<u8>,
    pub font_index: u32,
}

/// What addressing a run gives.
pub enum GlyphAddress {
    /// Nothing to address, and nothing to report.
    Silent,
    Addressed { key: String, ranges: Vec<Span> },
    Rejected(ClusterReject),
}

/// An address by its contents.
pub enum Address {
    Silent,
    Addressed(Seq<char>, Seq<Span>),
    Rejected(ClusterReject),
}

impl View for GlyphAddress {
    type V = Address;

    open spec fn view(&self) -> Address {
        match *self {
            GlyphAddress::Silent => Address::Silent,
            GlyphAddress::Addressed { key, ranges } => Address::Addressed(key@, ranges@),
            GlyphAddress::Rejected(e) => Address::Rejected(e),
        }
    }
}

/// Whether a character is a bidirectional control.
pub open spec fn bidi_mark(c: char) -> bool {
    c == '\u{61c}' || c == '\u{200e}' || c == '\u{200f}' || ('\u{202a}' <= c && c <= '\u{202e}') || (
    '\u{2066}' <= c && c <= '\u{2069}')
}

fn is_bidi_mark(c: char) -> (r: bool)
    ensures
        r == bidi_mark(c),
{
    c == '\u{61c}' || c == '\u{200e}' || c == '\u{200f}' || ('\u{202a}' <= c && c <= '\u{202e}') || (
    '\u{2066}' <= c && c <= '\u{2069}')
}

/// Whether a byte range starts and ends at characters `a` and `b` of a text and holds only
/// bidirectional controls, at least one.
pub open spec fn marks_between(s: Seq<char>, r: Range<usize>, a: int, b: int) -> bool {
    &&& 0 <= a < b <= s.len()
    &&& offset(s, a) == r.start
    &&& offset(s, b) == r.end
    &&& forall|k: int| a <= k < b ==> bidi_mark(#[trigger] s[k])
}

pub open spec fn only_marks(s: Seq<char>, r: Range<usize>) -> bool {
    exists|a: int, b: int| #[trigger] marks_between(s, r, a, b)
}

fn boundary(scanned: &Scanned, Ghost(s): Ghost<Seq<char>>, at: usize) -> (r: Option<usize>)
    requires
        scanned.of(s),
    ensures
        match r {
            Some(i) => i <= s.len() && offset(s, i as int) == at,
            None => forall|i: int| 0 <= i <= s.len() ==> #[trigger] offset(s, i) != at,
        },
{
    let n: usize = scanned.offsets.len();
    let mut i: usize = 0;
    while i < n
        invariant
            scanned.of(s),
            n == s.len() + 1,
            i <= n,
            forall|k: int| 0 <= k < i ==> #[trigger] offset(s, k) != at,
        decreases n - i,
    {
        if scanned.offsets[i] == at {
            return Some(i);
        }
        assert(offset(s, i as int) != at);
        i = i + 1;
    }
    None
}

fn holds_only_marks(scanned: &Scanned, Ghost(s): Ghost<Seq<char>>, range: &Range<usize>) -> (r: bool)
    requires
        scanned.of(s),
    ensures
        r == only_marks(s, *range),
{
    let a = boundary(scanned, Ghost(s), range.start);
    let b = boundary(scanned, Ghost(s), range.end);
    match (a, b) {
        (Some(a), Some(b)) => {
            proof {
                assert forall|x: int, y: int| #[trigger] marks_between(s, *range, x, y) implies x == a
                    && y == b by {
                    if x < a {
                        offset_monotone(s, x, a as int);
                    }
                    if a < x {
                        offset_monotone(s, a as int, x);
                    }
                    if y < b {
                        offset_monotone(s, y, b as int);
                    }
                    if b < y {
                        offset_monotone(s, b as int, y);
                    }
                }
            }
            if a >= b {
                return false;
            }
            let mut k: usize = a;
            while k < b
                invariant
                    scanned.of(s),
                    a <= k <= b <= s.len(),
                    forall|j: int| a <= j < k ==> bidi_mark(#[trigger] s[j]),
                    forall|x: int, y: int| #[trigger]
                        marks_between(s, *range, x, y) ==> x == a && y == b,
                decreases b - k,
            {
                if !is_bidi_mark(scanned.chars[k]) {
                    assert(!bidi_mark(s[k as int]));
                    return false;
                }
                k = k + 1;
            }
            assert(marks_between(s, *range, a as int, b as int));
            true
        },
        _ => {
            proof {
                assert forall|x: int, y: int| #[trigger] marks_between(s, *range, x, y) implies false by {
                    assert(offset(s, x) == range.start);
                    assert(offset(s, y) == range.end);
                }
            }
            false
        },
    }
}

/// Whether every cluster of a run names bidirectional controls only.
pub open spec fn clusters_are_marks(run: ShapedRun, s: Seq<char>) -> bool {
    run.cluster_ranges@.len() > 0 && forall|i: int|
        0 <= i < run.cluster_ranges@.len() ==> only_marks(s, #[trigger] run.cluster_ranges@[i])
}

/// The inks of a run's glyphs.
pub open spec fn run_ink(run: ShapedRun) -> Seq<GlyphInk> {
    Seq::new(
        run.glyph_ids@.len(),
        |i: int| ink_of(run.font_data@, run.font_index, run.glyph_ids@[i] as u16),
    )
}

/// The anchor that a span identifier names.
pub open spec fn named_anchor(
    anchors: Seq<Result<SpanAnchor, ClusterReject>>,
    id: u32,
) -> Result<Anchor, ClusterReject> {
    if id < anchors.len() { anchor_seen(anchors[id as int]) } else {
        Err(ClusterReject::Unattributed)
    }
}

/// The node and byte ranges of a run's glyphs, before the exception for marks.
pub open spec fn run_address(run: ShapedRun, anchor: Result<Anchor, ClusterReject>) -> Result<
    (Seq<char>, Seq<Span>),
    ClusterReject,
> {
    match anchor {
        Err(e) => Err(e),
        Ok(a) => match cluster_spans(
            run.cluster_ranges@,
            run.glyph_ids@.len() as usize,
            run.text_range,
            a.range,
        ) {
            Err(e) => Err(e),
            Ok(ranges) => match a.projection {
                None => Ok((a.key, ranges)),
                Some(projection) => match projected_all(ranges, projection, ranges.len()) {
                    Err(e) => Err(e),
                    Ok(moved) => Ok((a.key, moved)),
                },
            },
        },
    }
}

/// What addressing a run gives once the inks of its glyphs are known. A run whose clusters name
/// only bidirectional controls outside its span, and whose glyphs have no ink, is no error.
pub open spec fn settled_address(
    run: ShapedRun,
    anchors: Seq<Result<SpanAnchor, ClusterReject>>,
    inline: Seq<char>,
    inks: Seq<GlyphInk>,
) -> Address {
    if run.glyph_ids@.len() == 0 || run.source_span is None {
        Address::Silent
    } else {
        match run_address(run, named_anchor(anchors, run.source_span->0)) {
            Ok((key, ranges)) => Address::Addressed(key, ranges),
            Err(e) => if e == ClusterReject::OutOfRun && clusters_are_marks(run, inline) && (forall|
                i: int,
            |
                0 <= i < inks.len() ==> inkless(#[trigger] inks[i])) {
                Address::Silent
            } else {
                Address::Rejected(e)
            },
        }
    }
}

/// Addresses a run once the inks of its glyphs are known.
pub fn settle_address(
    run: &ShapedRun,
    anchors: &Vec<Result<SpanAnchor, ClusterReject>>,
    inline_text: &str,
    inks: &Vec<GlyphInk>,
) -> (r: GlyphAddress)
    ensures
        r@ == settled_address(*run, anchors@, inline_text@, inks@),
{
    if run.glyph_ids.len() == 0 {
        return GlyphAddress::Silent;
    }
    let id: u32 = match run.source_span {
        None => {
            return GlyphAddress::Silent;
        },
        Some(id) => id,
    };
    let reject: ClusterReject;
    if (id as usize) < anchors.len() {
        match &anchors[id as usize] {
            Err(e) => {
                reject = *e;
            },
            Ok(anchor) => {
                match checked_cluster_ranges(
                    run.cluster_ranges.as_slice(),
                    run.glyph_ids.len(),
                    &run.text_range,
                    &anchor.range,
                ) {
                    Err(e) => {
                        reject = e;
                    },
                    Ok(ranges) => {
                        match &anchor.projection {
                            None => {
                                return GlyphAddress::Addressed { key: anchor.key.clone(), ranges };
                            },
                            Some(projection) => {
                                match project_cluster_ranges(
                                    ranges.as_slice(),
                                    projection.as_slice(),
                                ) {
                                    Err(e) => {
                                        reject = e;
                                    },
                                    Ok(moved) => {
                                        return GlyphAddress::Addressed {
                                            key: anchor.key.clone(),
                                            ranges: moved,
                                        };
                                    },
                                }
                            },
                        }
                    },
                }
            },
        }
    } else {
        reject = ClusterReject::Unattributed;
    }
    assert(run_address(*run, named_anchor(anchors@, id)) == Err::<
        (Seq<char>, Seq<Span>),
        ClusterReject,
    >(reject));
    if reject == ClusterReject::OutOfRun && marks_everywhere(run, inline_text) && all_inkless(inks) {
        return GlyphAddress::Silent;
    }
    GlyphAddress::Rejected(reject)
}

fn marks_everywhere(run: &ShapedRun, inline_text: &str) -> (r: bool)
    ensures
        r == clusters_are_marks(*run, inline_text@),
{
    if run.cluster_ranges.len() == 0 {
        return false;
    }
    let scanned = scan(inline_text);
    let mut i: usize = 0;
    while i < run.cluster_ranges.len()
        invariant
            scanned.of(inline_text@),
            i <= run.cluster_ranges@.len(),
            forall|k: int|
                0 <= k < i ==> only_marks(inline_text@, #[trigger] run.cluster_ranges@[k]),
        decreases run.cluster_ranges@.len() - i,
    {
        if !holds_only_marks(&scanned, Ghost(inline_text@), &run.cluster_ranges[i]) {
            return false;
        }
        i = i + 1;
    }
    true
}

fn all_inkless(inks: &Vec<GlyphInk>) -> (r: bool)
    ensures
        r == forall|i: int| 0 <= i < inks@.len() ==> inkless(#[trigger] inks@[i]),
{
    let mut i: usize = 0;
    while i < inks.len()
        invariant
            i <= inks@.len(),
            forall|k: int| 0 <= k < i ==> inkless(#[trigger] inks@[k]),
        decreases inks@.len() - i,
    {
        if !is_inkless(&inks[i]) {
            return false;
        }
        i = i + 1;
    }
    true
}

/// Addresses the glyphs of a run. The run's font is asked about their ink only where that decides.
pub fn glyph_source(
    run: &ShapedRun,
    anchors: &Vec<Result<SpanAnchor, ClusterReject>>,
    inline_text: &str,
) -> (r: GlyphAddress)
    ensures
        r@ == settled_address(*run, anchors@, inline_text@, run_ink(*run)),
{
    let mut inks: Vec<GlyphInk> = Vec::new();
    match settle_address(run, anchors, inline_text, &inks) {
        GlyphAddress::Silent => {},
        settled => {
            return settled;
        },
    }
    let mut i: usize = 0;
    while i < run.glyph_ids.len()
        invariant
            i <= run.glyph_ids@.len(),
            inks@ == Seq::new(
                i as nat,
                |k: int| ink_of(run.font_data@, run.font_index, run.glyph_ids@[k] as u16),
            ),
        decreases run.glyph_ids@.len() - i,
    {
        #[verifier::truncate]
        let id: u16 = run.glyph_ids[i] as u16;
        inks.push(glyph_ink(run.font_data.as_slice(), run.font_index, id));
        i = i + 1;
        assert(inks@ =~= Seq::new(
            i as nat,
            |k: int| ink_of(run.font_data@, run.font_index, run.glyph_ids@[k] as u16),
        ));
    }
    assert(inks@ =~= run_ink(*run));
    settle_address(run, anchors, inline_text, &inks)
}

} // verus!
