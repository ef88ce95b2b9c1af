//! Byte spans of glyph clusters: from shaping input to the node that owns them, and from processed
//! text back to authored text.

use core::ops::Range;

use vstd::prelude::*;

verus! {

/// A half-open range of 32-bit positions in a side table or a text.
#[derive(Clone, Copy, Debug, PartialEq, Eq, Structural)]
pub struct Span {
    pub start: u32,
    pub end: u32,
}

/// A stretch of processed text and the authored bytes that it came from.
#[derive(Debug, PartialEq, Eq)]
pub struct TextSourceSegment {
    pub processed: Range<usize>,
    pub source: Range<usize>,
}

/// Reason source addressing is unavailable. It is reported while the visual output is kept.
#[derive(Clone, Copy, Debug, PartialEq, Eq, Structural)]
pub enum ClusterReject {
    /// The glyph run could not be aligned to its cluster sequence.
    Unaligned,
    /// Source range count differs from glyph count.
    Arity,
    /// Cluster falls outside the owning run or span.
    OutOfRun,
    /// Byte offset exceeds the 32-bit side table.
    Overflow,
    /// Source text cannot be attributed to a scene node.
    Unattributed,
    /// Text transformation or whitespace processing prevents verbatim source offsets.
    NotVerbatim,
}

impl ClusterReject {
    pub open spec fn text(self) -> Seq<char> {
        match self {
            ClusterReject::Unaligned => "glyph source address: upstream cluster alignment failed"@,
            ClusterReject::Arity => "glyph source address: cluster and glyph counts differ"@,
            ClusterReject::OutOfRun => "glyph source address: cluster exceeds the run byte range"@,
            ClusterReject::Overflow => "glyph source address: byte offset exceeds u32"@,
            ClusterReject::Unattributed => "glyph source address: Scene node is unidentified"@,
            ClusterReject::NotVerbatim => "glyph source address: CSS processing changed the source text"@,
        }
    }

    pub fn reason(self) -> (r: &'static str)
        ensures
            r@ == self.text(),
    {
        match self {
            ClusterReject::Unaligned => "glyph source address: upstream cluster alignment failed",
            ClusterReject::Arity => "glyph source address: cluster and glyph counts differ",
            ClusterReject::OutOfRun => "glyph source address: cluster exceeds the run byte range",
            ClusterReject::Overflow => "glyph source address: byte offset exceeds u32",
            ClusterReject::Unattributed => "glyph source address: Scene node is unidentified",
            ClusterReject::NotVerbatim =>
                "glyph source address: CSS processing changed the source text",
        }
    }
}

spec fn reason_len(reject: ClusterReject) -> nat {
    match reject {
        ClusterReject::Unaligned => 55,
        ClusterReject::Arity => 53,
        ClusterReject::OutOfRun => 56,
        ClusterReject::Overflow => 45,
        ClusterReject::Unattributed => 48,
        ClusterReject::NotVerbatim => 60,
    }
}

/// Two different rejections never read the same.
pub proof fn reject_reasons_are_distinct(a: ClusterReject, b: ClusterReject)
    ensures
        a.text() == b.text() ==> a == b,
{
    reveal_strlit("glyph source address: upstream cluster alignment failed");
    reveal_strlit("glyph source address: cluster and glyph counts differ");
    reveal_strlit("glyph source address: cluster exceeds the run byte range");
    reveal_strlit("glyph source address: byte offset exceeds u32");
    reveal_strlit("glyph source address: Scene node is unidentified");
    reveal_strlit("glyph source address: CSS processing changed the source text");
    assert(a.text().len() == reason_len(a));
    assert(b.text().len() == reason_len(b));
}

/// A list result by its contents.
pub open spec fn listed<T, E>(r: Result<Vec<T>, E>) -> Result<Seq<T>, E> {
    match r {
        Ok(v) => Ok(v@),
        Err(e) => Err(e),
    }
}

/// Start of the bytes that a run and a span share.
pub open spec fn shared_start(run: Range<usize>, span: Range<usize>) -> usize {
    if run.start >= span.start { run.start } else { span.start }
}

/// End of the bytes that a run and a span share.
pub open spec fn shared_end(run: Range<usize>, span: Range<usize>) -> usize {
    if run.end <= span.end { run.end } else { span.end }
}

/// One cluster as an offset pair of its owning span: it must be ordered, lie inside the bytes that
/// the run and the span share, and fit 32 bits.
pub open spec fn rebased(r: Range<usize>, run: Range<usize>, span: Range<usize>) -> Result<
    Span,
    ClusterReject,
> {
    if r.start > r.end || r.start < shared_start(run, span) || r.end > shared_end(run, span) {
        Err(ClusterReject::OutOfRun)
    } else if r.end - span.start > u32::MAX {
        Err(ClusterReject::Overflow)
    } else {
        Ok(Span { start: (r.start - span.start) as u32, end: (r.end - span.start) as u32 })
    }
}

/// The first `n` clusters rebased in order, or the first rejection among them.
pub open spec fn rebased_all(
    ranges: Seq<Range<usize>>,
    run: Range<usize>,
    span: Range<usize>,
    n: nat,
) -> Result<Seq<Span>, ClusterReject>
    decreases n,
{
    if n == 0 {
        Ok(Seq::empty())
    } else {
        match rebased_all(ranges, run, span, (n - 1) as nat) {
            Err(e) => Err(e),
            Ok(done) => match rebased(ranges[n - 1], run, span) {
                Err(e) => Err(e),
                Ok(next) => Ok(done.push(next)),
            },
        }
    }
}

/// What addressing a run's clusters inside its owning span gives.
pub open spec fn cluster_spans(
    ranges: Seq<Range<usize>>,
    glyph_count: usize,
    run: Range<usize>,
    span: Range<usize>,
) -> Result<Seq<Span>, ClusterReject> {
    if ranges.len() == 0 {
        Err(ClusterReject::Unaligned)
    } else if ranges.len() != glyph_count {
        Err(ClusterReject::Arity)
    } else if shared_start(run, span) >= shared_end(run, span) {
        Err(ClusterReject::OutOfRun)
    } else {
        rebased_all(ranges, run, span, ranges.len())
    }
}

/// Validates cluster ranges against the shaping input and the owning span, and converts them to
/// offsets relative to the span.
///
/// Every cluster is checked by itself: several spans can share one shaping range.
pub fn checked_cluster_ranges(
    cluster_ranges: &[Range<usize>],
    glyph_count: usize,
    run_range: &Range<usize>,
    span_range: &Range<usize>,
) -> (r: Result<Vec<Span>, ClusterReject>)
    ensures
        listed(r) == cluster_spans(cluster_ranges@, glyph_count, *run_range, *span_range),
{
    let n: usize = cluster_ranges.len();
    if n == 0 {
        return Err(ClusterReject::Unaligned);
    }
    if n != glyph_count {
        return Err(ClusterReject::Arity);
    }
    let lo: usize = if run_range.start >= span_range.start {
        run_range.start
    } else {
        span_range.start
    };
    let hi: usize = if run_range.end <= span_range.end { run_range.end } else { span_range.end };
    if lo >= hi {
        return Err(ClusterReject::OutOfRun);
    }
    let mut out: Vec<Span> = Vec::new();
    let mut i: usize = 0;
    while i < n
        invariant
            n == cluster_ranges@.len(),
            n == glyph_count,
            i <= n,
            0 < n,
            lo < hi,
            lo == shared_start(*run_range, *span_range),
            hi == shared_end(*run_range, *span_range),
            rebased_all(cluster_ranges@, *run_range, *span_range, i as nat) == Ok::<
                Seq<Span>,
                ClusterReject,
            >(out@),
        decreases n - i,
    {
        let start: usize = cluster_ranges[i].start;
        let end: usize = cluster_ranges[i].end;
        let next: Result<Span, ClusterReject> = if start > end || start < lo || end > hi {
            Err(ClusterReject::OutOfRun)
        } else if (end - span_range.start) as u64 > 0xffff_ffff {
            Err(ClusterReject::Overflow)
        } else {
            Ok(
                Span {
                    start: (start - span_range.start) as u32,
                    end: (end - span_range.start) as u32,
                },
            )
        };
        assert(next == rebased(cluster_ranges@[i as int], *run_range, *span_range));
        match next {
            Ok(span) => {
                out.push(span);
            },
            Err(e) => {
                proof {
                    rebased_all_stuck(
                        cluster_ranges@,
                        *run_range,
                        *span_range,
                        (i + 1) as nat,
                        n as nat,
                        e,
                    );
                }
                return Err(e);
            },
        }
        i = i + 1;
    }
    Ok(out)
}

proof fn rebased_all_stuck(
    ranges: Seq<Range<usize>>,
    run: Range<usize>,
    span: Range<usize>,
    m: nat,
    n: nat,
    e: ClusterReject,
)
    requires
        m <= n,
        rebased_all(ranges, run, span, m) == Err::<Seq<Span>, ClusterReject>(e),
    ensures
        rebased_all(ranges, run, span, n) == Err::<Seq<Span>, ClusterReject>(e),
    decreases n - m,
{
    if m < n {
        rebased_all_stuck(ranges, run, span, m, (n - 1) as nat, e);
    }
}

proof fn rebased_all_ok(ranges: Seq<Range<usize>>, run: Range<usize>, span: Range<usize>, n: nat)
    requires
        n <= ranges.len(),
        rebased_all(ranges, run, span, n) is Ok,
    ensures
        rebased_all(ranges, run, span, n)->Ok_0.len() == n,
        forall|i: int|
            0 <= i < n ==> rebased(#[trigger] ranges[i], run, span) == Ok::<Span, ClusterReject>(
                rebased_all(ranges, run, span, n)->Ok_0[i],
            ),
    decreases n,
{
    if n > 0 {
        rebased_all_ok(ranges, run, span, (n - 1) as nat);
        assert(rebased(ranges[n - 1], run, span) is Ok);
    }
}

/// Whether an address names the bytes of a cluster: relative to the span, inside both the span and
/// the shaping input.
pub open spec fn addresses(
    out: Span,
    cluster: Range<usize>,
    run: Range<usize>,
    span: Range<usize>,
) -> bool {
    &&& out.start <= out.end
    &&& out.start + span.start == cluster.start
    &&& out.end + span.start == cluster.end
    &&& span.start <= cluster.start && cluster.end <= span.end
    &&& run.start <= cluster.start && cluster.end <= run.end
}

/// Accepted clusters address bytes of their own span and of the shaping input, one per glyph; an
/// address plus the span's start is the cluster it came from.
pub proof fn accepted_clusters_stay_in_their_span(
    ranges: Seq<Range<usize>>,
    glyph_count: usize,
    run: Range<usize>,
    span: Range<usize>,
)
    requires
        cluster_spans(ranges, glyph_count, run, span) is Ok,
    ensures
        cluster_spans(ranges, glyph_count, run, span)->Ok_0.len() == glyph_count,
        forall|i: int|
            0 <= i < ranges.len() ==> addresses(
                cluster_spans(ranges, glyph_count, run, span)->Ok_0[i],
                #[trigger] ranges[i],
                run,
                span,
            ),
{
    rebased_all_ok(ranges, run, span, ranges.len());
    let out = cluster_spans(ranges, glyph_count, run, span)->Ok_0;
    assert(out == rebased_all(ranges, run, span, ranges.len())->Ok_0);
    assert forall|i: int| 0 <= i < ranges.len() implies addresses(
        out[i],
        #[trigger] ranges[i],
        run,
        span,
    ) by {
        assert(rebased(ranges[i], run, span) == Ok::<Span, ClusterReject>(out[i]));
    }
}

/// Whether a segment's processed bytes meet a processed range.
pub open spec fn covers(segment: TextSourceSegment, range: Span) -> bool {
    segment.processed.start < range.end && range.start < segment.processed.end
}

/// Least source start among the first `n` segments that a range meets.
pub open spec fn least_source(projection: Seq<TextSourceSegment>, range: Span, n: nat) -> Option<
    usize,
>
    decreases n,
{
    if n == 0 {
        None
    } else {
        let rest = least_source(projection, range, (n - 1) as nat);
        let here = projection[n - 1].source.start;
        if !covers(projection[n - 1], range) || (rest matches Some(r) && r <= here) {
            rest
        } else {
            Some(here)
        }
    }
}

/// Greatest source end among the first `n` segments that a range meets.
pub open spec fn greatest_source(projection: Seq<TextSourceSegment>, range: Span, n: nat) -> Option<
    usize,
>
    decreases n,
{
    if n == 0 {
        None
    } else {
        let rest = greatest_source(projection, range, (n - 1) as nat);
        let here = projection[n - 1].source.end;
        if !covers(projection[n - 1], range) || (rest matches Some(r) && r >= here) {
            rest
        } else {
            Some(here)
        }
    }
}

/// The authored bytes behind one processed range: from the least start to the greatest end of the
/// segments that it meets.
pub open spec fn projected(projection: Seq<TextSourceSegment>, range: Span) -> Result<
    Span,
    ClusterReject,
> {
    match (
        least_source(projection, range, projection.len()),
        greatest_source(projection, range, projection.len()),
    ) {
        (Some(start), Some(end)) => if start > u32::MAX || end > u32::MAX {
            Err(ClusterReject::Overflow)
        } else {
            Ok(Span { start: start as u32, end: end as u32 })
        },
        _ => Err(ClusterReject::NotVerbatim),
    }
}

/// The first `n` ranges projected in order, or the first rejection among them.
pub open spec fn projected_all(
    ranges: Seq<Span>,
    projection: Seq<TextSourceSegment>,
    n: nat,
) -> Result<Seq<Span>, ClusterReject>
    decreases n,
{
    if n == 0 {
        Ok(Seq::empty())
    } else {
        match projected_all(ranges, projection, (n - 1) as nat) {
            Err(e) => Err(e),
            Ok(done) => match projected(projection, ranges[n - 1]) {
                Err(e) => Err(e),
                Ok(next) => Ok(done.push(next)),
            },
        }
    }
}

proof fn projected_all_stuck(
    ranges: Seq<Span>,
    projection: Seq<TextSourceSegment>,
    m: nat,
    n: nat,
    e: ClusterReject,
)
    requires
        m <= n,
        projected_all(ranges, projection, m) == Err::<Seq<Span>, ClusterReject>(e),
    ensures
        projected_all(ranges, projection, n) == Err::<Seq<Span>, ClusterReject>(e),
    decreases n - m,
{
    if m < n {
        projected_all_stuck(ranges, projection, m, (n - 1) as nat, e);
    }
}

proof fn source_bounds(projection: Seq<TextSourceSegment>, range: Span, n: nat)
    requires
        n <= projection.len(),
    ensures
        least_source(projection, range, n) is Some == greatest_source(projection, range, n) is Some,
        least_source(projection, range, n) is Some <==> exists|k: int|
            0 <= k < n && covers(#[trigger] projection[k], range),
        forall|k: int|
            0 <= k < n && covers(#[trigger] projection[k], range) ==> least_source(
                projection,
                range,
                n,
            )->0 <= projection[k].source.start && greatest_source(projection, range, n)->0
                >= projection[k].source.end,
    decreases n,
{
    if n > 0 {
        source_bounds(projection, range, (n - 1) as nat);
        let rest = least_source(projection, range, (n - 1) as nat);
        if covers(projection[n - 1], range) {
            assert(least_source(projection, range, n) is Some);
        } else {
            assert(least_source(projection, range, n) == rest);
            if rest is Some {
                let k = choose|k: int|
                    0 <= k < n - 1 && covers(#[trigger] projection[k], range);
                assert(covers(projection[k], range));
            }
        }
    }
}

/// A projected range holds the authored bytes of every segment that the processed range meets,
/// and a range that meets none is not verbatim.
pub proof fn projection_keeps_every_met_segment(projection: Seq<TextSourceSegment>, range: Span)
    ensures
        projected(projection, range) == Err::<Span, ClusterReject>(ClusterReject::NotVerbatim)
            <==> !(exists|k: int|
            0 <= k < projection.len() && covers(#[trigger] projection[k], range)),
        projected(projection, range) matches Ok(out) ==> forall|k: int|
            0 <= k < projection.len() && covers(#[trigger] projection[k], range) ==> out.start
                <= projection[k].source.start && projection[k].source.end <= out.end,
{
    source_bounds(projection, range, projection.len());
}

/// Maps processed cluster ranges to authored byte ranges.
pub fn project_cluster_ranges(ranges: &[Span], projection: &[TextSourceSegment]) -> (r: Result<
    Vec<Span>,
    ClusterReject,
>)
    ensures
        listed(r) == projected_all(ranges@, projection@, ranges@.len()),
{
    let mut out: Vec<Span> = Vec::new();
    let n: usize = ranges.len();
    let mut i: usize = 0;
    while i < n
        invariant
            n == ranges@.len(),
            i <= n,
            projected_all(ranges@, projection@, i as nat) == Ok::<Seq<Span>, ClusterReject>(out@),
        decreases n - i,
    {
        match project_one(ranges[i], projection) {
            Ok(span) => {
                out.push(span);
            },
            Err(e) => {
                proof {
                    projected_all_stuck(ranges@, projection@, (i + 1) as nat, n as nat, e);
                }
                return Err(e);
            },
        }
        i = i + 1;
    }
    Ok(out)
}

fn project_one(range: Span, projection: &[TextSourceSegment]) -> (r: Result<Span, ClusterReject>)
    ensures
        r == projected(projection@, range),
{
    let mut low: Option<usize> = None;
    let mut high: Option<usize> = None;
    let count: usize = projection.len();
    let mut k: usize = 0;
    while k < count
        invariant
            count == projection@.len(),
            k <= count,
            low == least_source(projection@, range, k as nat),
            high == greatest_source(projection@, range, k as nat),
        decreases count - k,
    {
        let segment = &projection[k];
        if segment.processed.start < range.end as usize && (range.start as usize)
            < segment.processed.end {
            let keep_low: bool = match low {
                Some(r) => r <= segment.source.start,
                None => false,
            };
            if !keep_low {
                low = Some(segment.source.start);
            }
            let keep_high: bool = match high {
                Some(r) => r >= segment.source.end,
                None => false,
            };
            if !keep_high {
                high = Some(segment.source.end);
            }
        }
        k = k + 1;
    }
    match (low, high) {
        (Some(start), Some(end)) => if start as u64 > 0xffff_ffff || end as u64 > 0xffff_ffff {
            Err(ClusterReject::Overflow)
        } else {
            Ok(Span { start: start as u32, end: end as u32 })
        },
        _ => Err(ClusterReject::NotVerbatim),
    }
}

} // verus!
