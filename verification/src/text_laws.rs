//! How text is taken apart and addressed: where units begin and end, which bytes a glyph stands for, and
//! which authored bytes lie behind processed ones.

use vstd::prelude::*;

use core::ops::Range;

use crate::clusters::{
    cluster_spans, greatest_source, least_source, projected, rebased, ClusterReject,
    TextSourceSegment,
};
use crate::clusters::Span;
use crate::projection::{
    collapse_alignment, collapsible, expansion, source_projection, space_end, TextTransform,
    WhiteSpaceCollapse,
};
use crate::text::offset;
use crate::units::{line_runs, unit_ranges, white_space, word_runs, TextSplit};

verus! {

/// Blanks, tabs and line ends part words; what is printed in ASCII does not.
pub proof fn words_part_at_blanks(c: char)
    ensures
        white_space(' ') && white_space('\t') && white_space('\n') && white_space('\r'),
        white_space('\u{a0}') && white_space('\u{3000}'),
        '!' <= c <= '~' ==> !white_space(c),
        '\u{4e00}' <= c ==> !white_space(c),
{
}

/// Split into characters, every character is a unit of its own bytes.
pub proof fn characters_are_units(s: Seq<char>, i: int)
    requires
        0 <= i < s.len(),
    ensures
        unit_ranges(s, TextSplit::Char).len() == s.len(),
        unit_ranges(s, TextSplit::Char)[i] == (offset(s, i) as u32, offset(s, i + 1) as u32),
{
}

/// Split into words or lines, every run is a unit of its bytes, in reading order.
pub proof fn words_and_lines_are_units(s: Seq<char>, k: int, from: int, to: int)
    ensures
        unit_ranges(s, TextSplit::Word).len() == word_runs(s, 0).len(),
        unit_ranges(s, TextSplit::Line).len() == line_runs(s, 0).len(),
        0 <= k < word_runs(s, 0).len() && word_runs(s, 0)[k] == (from, to) ==> unit_ranges(
            s,
            TextSplit::Word,
        )[k] == (offset(s, from) as u32, offset(s, to) as u32),
        0 <= k < line_runs(s, 0).len() && line_runs(s, 0)[k] == (from, to) ==> unit_ranges(
            s,
            TextSplit::Line,
        )[k] == (offset(s, from) as u32, offset(s, to) as u32),
{
}

/// A cluster that lies in its run and in its span is addressed from the start of the span; any other is
/// refused.
pub proof fn clusters_are_addressed_in_their_span(
    r: Range<usize>,
    run: Range<usize>,
    span: Range<usize>,
)
    ensures
        ({
            let inside = r.start <= r.end && run.start <= r.start && span.start <= r.start && r.end
                <= run.end && r.end <= span.end;
            match rebased(r, run, span) {
                Ok(out) => inside && out.start == r.start - span.start && out.end == r.end - span.start,
                Err(e) => if inside {
                    e == ClusterReject::Overflow && r.end - span.start > u32::MAX
                } else {
                    e == ClusterReject::OutOfRun
                },
            }
        }),
{
}

/// Clusters are addressed one for each glyph, where the run and the span meet; without any they are
/// unaligned.
pub proof fn every_glyph_needs_a_cluster(
    ranges: Seq<Range<usize>>,
    glyphs: usize,
    run: Range<usize>,
    span: Range<usize>,
)
    ensures
        ranges.len() == 0 ==> cluster_spans(ranges, glyphs, run, span) == Err::<
            Seq<Span>,
            ClusterReject,
        >(ClusterReject::Unaligned),
        ranges.len() > 0 && ranges.len() != glyphs ==> cluster_spans(ranges, glyphs, run, span) == Err::<
            Seq<Span>,
            ClusterReject,
        >(ClusterReject::Arity),
        cluster_spans(ranges, glyphs, run, span) is Ok ==> run.start < span.end && span.start
            < run.end,
{
}

/// A processed range meets a segment where they share a byte; the authored range begins where one of the
/// met segments begins and ends where one of them ends.
pub proof fn authored_ranges_are_spanned_by_segments(
    projection: Seq<TextSourceSegment>,
    range: Span,
    out: Span,
)
    requires
        projected(projection, range) == Ok::<Span, ClusterReject>(out),
    ensures
        exists|k: int| #[trigger] meets(projection, range, k) && projection[k].source.start == out.start,
        exists|k: int| #[trigger] meets(projection, range, k) && projection[k].source.end == out.end,
        forall|k: int| #[trigger]
            meets(projection, range, k) ==> out.start <= projection[k].source.start
                && projection[k].source.end <= out.end,
{
    least_is_met(projection, range, projection.len());
    greatest_is_met(projection, range, projection.len());
}

/// Whether a segment shares a processed byte with a range.
pub open spec fn meets(projection: Seq<TextSourceSegment>, range: Span, k: int) -> bool {
    &&& 0 <= k < projection.len()
    &&& projection[k].processed.start < range.end
    &&& range.start < projection[k].processed.end
}

proof fn least_is_met(projection: Seq<TextSourceSegment>, range: Span, n: nat)
    requires
        n <= projection.len(),
    ensures
        least_source(projection, range, n) is Some ==> exists|k: int| #[trigger]
            meets(projection, range, k) && k < n && projection[k].source.start == least_source(
                projection,
                range,
                n,
            )->0,
        forall|k: int| #[trigger]
            meets(projection, range, k) && k < n ==> least_source(projection, range, n) is Some
                && least_source(projection, range, n)->0 <= projection[k].source.start,
    decreases n,
{
    if n > 0 {
        least_is_met(projection, range, (n - 1) as nat);
        if least_source(projection, range, n) is Some {
            if least_source(projection, range, n) == least_source(projection, range, (n - 1) as nat) {
                let k = choose|k: int| #[trigger]
                    meets(projection, range, k) && k < n - 1 && projection[k].source.start
                        == least_source(projection, range, (n - 1) as nat)->0;
                assert(meets(projection, range, k));
            } else {
                assert(meets(projection, range, n - 1));
            }
        }
    }
}

proof fn greatest_is_met(projection: Seq<TextSourceSegment>, range: Span, n: nat)
    requires
        n <= projection.len(),
    ensures
        greatest_source(projection, range, n) is Some ==> exists|k: int| #[trigger]
            meets(projection, range, k) && k < n && projection[k].source.end == greatest_source(
                projection,
                range,
                n,
            )->0,
        forall|k: int| #[trigger]
            meets(projection, range, k) && k < n ==> greatest_source(projection, range, n) is Some
                && projection[k].source.end <= greatest_source(projection, range, n)->0,
    decreases n,
{
    if n > 0 {
        greatest_is_met(projection, range, (n - 1) as nat);
        if greatest_source(projection, range, n) is Some {
            if greatest_source(projection, range, n) == greatest_source(
                projection,
                range,
                (n - 1) as nat,
            ) {
                let k = choose|k: int| #[trigger]
                    meets(projection, range, k) && k < n - 1 && projection[k].source.end
                        == greatest_source(projection, range, (n - 1) as nat)->0;
                assert(meets(projection, range, k));
            } else {
                assert(meets(projection, range, n - 1));
            }
        }
    }
}

/// Whether a character is collapsed as white space: blank, tab and line ends, and nothing else.
pub proof fn five_characters_collapse(c: char)
    ensures
        collapsible(c) <==> c == ' ' || c == '\t' || c == '\n' || c == '\r' || c == '\u{c}',
{
}

proof fn spaces_collapse(s: Seq<char>, from: int)
    requires
        0 <= from <= s.len(),
    ensures
        from <= space_end(s, from) <= s.len(),
        space_end(s, from) < s.len() ==> !collapsible(s[space_end(s, from)]),
        forall|j: int| from <= j < space_end(s, from) ==> collapsible(#[trigger] s[j]),
    decreases s.len() - from,
{
    if from < s.len() && collapsible(s[from]) {
        spaces_collapse(s, from + 1);
    }
}

/// Whether a segment ties a processed character to authored ones: an inked one to the same character, white
/// space to a whole run of it.
pub open spec fn ties(
    source: Seq<char>,
    processed: Seq<char>,
    k: int,
    segment: TextSourceSegment,
    a: int,
    b: int,
) -> bool {
    &&& 0 <= a < b <= source.len()
    &&& segment.processed.start == offset(processed, k) as usize
    &&& segment.processed.end == offset(processed, k + 1) as usize
    &&& segment.source.start == offset(source, a) as usize
    &&& segment.source.end == offset(source, b) as usize
    &&& if collapsible(processed[k]) {
        &&& forall|j: int| a <= j < b ==> collapsible(#[trigger] source[j])
        &&& b < source.len() ==> !collapsible(source[b])
    } else {
        b == a + 1 && source[a] == processed[k]
    }
}

/// In an aligned text every processed character is tied to authored ones.
pub proof fn aligned_characters_are_tied(
    source: Seq<char>,
    processed: Seq<char>,
    at: int,
    from: int,
    k: int,
)
    requires
        0 <= at <= processed.len(),
        0 <= from <= source.len(),
        collapse_alignment(source, processed, at, from) is Ok,
        at <= k < processed.len(),
    ensures
        ({
            let out = collapse_alignment(source, processed, at, from)->Ok_0;
            &&& out.len() == processed.len() - at
            &&& exists|a: int, b: int| #[trigger] ties(source, processed, k, out[k - at], a, b)
        }),
    decreases processed.len() - at,
{
    let out = collapse_alignment(source, processed, at, from)->Ok_0;
    let (a, b) = if collapsible(processed[at]) {
        (from, space_end(source, from))
    } else {
        (
            crate::projection::ink_position(source, at, from),
            crate::projection::ink_position(source, at, from) + 1,
        )
    };
    spaces_collapse(source, from);
    if collapsible(processed[at]) {
        spaces_collapse(source, from + 1);
    }
    assert(ties(source, processed, at, out[0], a, b));
    let rest = collapse_alignment(source, processed, at + 1, b)->Ok_0;
    assert(out =~= seq![out[0]] + rest);
    if at + 1 < processed.len() {
        if k > at {
            aligned_characters_are_tied(source, processed, at + 1, b, k);
            let (x, y) = choose|x: int, y: int| #[trigger]
                ties(source, processed, k, rest[k - at - 1], x, y);
            assert(ties(source, processed, k, out[k - at], x, y));
        } else {
            aligned_characters_are_tied(source, processed, at + 1, b, at + 1);
        }
    }
}

proof fn expansion_reads_prefixes(s: Seq<char>, more: char, tab: nat, n: nat)
    requires
        n <= s.len(),
    ensures
        expansion(s.push(more), tab, n) == expansion(s, tab, n),
    decreases n,
{
    if n > 0 {
        expansion_reads_prefixes(s, more, tab, (n - 1) as nat);
    }
}

/// A tab becomes as many blanks as it is wide; every other character stays.
pub proof fn tabs_become_blanks(s: Seq<char>, c: char, tab: nat)
    ensures
        expansion(Seq::empty(), tab, 0) == Seq::<char>::empty(),
        c != '\t' ==> expansion(s.push(c), tab, s.len() + 1) == expansion(s, tab, s.len()).push(c),
        expansion(s.push('\t'), tab, s.len() + 1).len() == expansion(s, tab, s.len()).len() + tab,
        forall|i: int|
            0 <= i < tab ==> #[trigger] expansion(s.push('\t'), tab, s.len() + 1)[expansion(
                s,
                tab,
                s.len(),
            ).len() + i] == ' ',
{
    expansion_reads_prefixes(s, c, tab, s.len());
    expansion_reads_prefixes(s, '\t', tab, s.len());
    if c != '\t' {
        assert(expansion(s.push(c), tab, s.len() + 1) =~= expansion(s, tab, s.len()).push(c));
    }
}

/// Text that was not changed, or only cut at its end, keeps its offsets; text in another case has none.
pub proof fn unchanged_text_keeps_its_offsets(
    source: Seq<char>,
    processed: Seq<char>,
    collapse: WhiteSpaceCollapse,
    transform: TextTransform,
    tab: nat,
)
    ensures
        source_projection(source, source, collapse, transform, tab) == Ok::<
            Option<Seq<TextSourceSegment>>,
            ClusterReject,
        >(None),
        transform == TextTransform::Verbatim && processed.is_prefix_of(source) ==> source_projection(
            source,
            processed,
            collapse,
            transform,
            tab,
        ) == Ok::<Option<Seq<TextSourceSegment>>, ClusterReject>(None),
        transform != TextTransform::Verbatim && processed != source ==> source_projection(
            source,
            processed,
            collapse,
            transform,
            tab,
        ) == Err::<Option<Seq<TextSourceSegment>>, ClusterReject>(ClusterReject::NotVerbatim),
        (collapse == WhiteSpaceCollapse::PreserveSpaces || collapse
            == WhiteSpaceCollapse::PreserveBreaks) && !processed.is_prefix_of(source)
            ==> source_projection(source, processed, collapse, transform, tab) == Err::<
            Option<Seq<TextSourceSegment>>,
            ClusterReject,
        >(ClusterReject::NotVerbatim),
{
    if processed == source {
        assert(processed =~= source.subrange(0, processed.len() as int));
    }
}

} // verus!
