//! Aligning processed text with the authored text that it was made from.

use vstd::prelude::*;

use crate::clusters::{listed, ClusterReject, TextSourceSegment};
use crate::text::{byte_len, offset, offset_ends, offset_monotone, offset_steps, scan, Scanned};

verus! {

/// How runs of whitespace are treated before shaping.
#[derive(Clone, Copy, Debug, PartialEq, Eq, Structural)]
pub enum WhiteSpaceCollapse {
    Preserve,
    Collapse,
    PreserveSpaces,
    PreserveBreaks,
}

/// Case transformation applied before shaping.
#[derive(Clone, Copy, Debug, PartialEq, Eq, Structural)]
pub enum TextTransform {
    Verbatim,
    Uppercase,
    Lowercase,
    Capitalize,
}

pub open spec fn collapsible(ch: char) -> bool {
    ch == ' ' || ch == '\t' || ch == '\n' || ch == '\r' || ch == '\u{c}'
}

pub fn is_css_collapsible_whitespace(ch: char) -> (r: bool)
    ensures
        r == collapsible(ch),
{
    ch == ' ' || ch == '\t' || ch == '\n' || ch == '\r' || ch == '\u{c}'
}

/// End of the run of collapsible whitespace that starts at `from`.
pub open spec fn space_end(s: Seq<char>, from: int) -> int
    decreases s.len() - from,
{
    if from < 0 || from >= s.len() || !collapsible(s[from]) {
        from
    } else {
        space_end(s, from + 1)
    }
}

/// The segment that ties a range of processed characters to a range of authored ones.
pub open spec fn char_segment(
    processed: Seq<char>,
    source: Seq<char>,
    at: int,
    from: int,
    to: int,
) -> TextSourceSegment {
    TextSourceSegment {
        processed: core::ops::Range {
            start: offset(processed, at) as usize,
            end: offset(processed, at + 1) as usize,
        },
        source: core::ops::Range {
            start: offset(source, from) as usize,
            end: offset(source, to) as usize,
        },
    }
}

/// Authored position at which the processed character `at` must be found: leading whitespace may
/// have been trimmed, whitespace inside the text may not.
pub open spec fn ink_position(source: Seq<char>, at: int, from: int) -> int {
    if at == 0 { space_end(source, from) } else { from }
}

/// Alignment of processed characters from `at` with authored characters from `from`: a collapsed
/// space owns a whole authored whitespace run, any other character must match verbatim.
pub open spec fn collapse_alignment(
    source: Seq<char>,
    processed: Seq<char>,
    at: int,
    from: int,
) -> Result<Seq<TextSourceSegment>, ClusterReject>
    decreases processed.len() - at,
{
    if at < 0 || at >= processed.len() {
        Ok(Seq::empty())
    } else if collapsible(processed[at]) {
        if 0 <= from < source.len() && collapsible(source[from]) {
            let to = space_end(source, from);
            match collapse_alignment(source, processed, at + 1, to) {
                Ok(rest) => Ok(seq![char_segment(processed, source, at, from, to)] + rest),
                Err(e) => Err(e),
            }
        } else {
            Err(ClusterReject::NotVerbatim)
        }
    } else {
        let ink = ink_position(source, at, from);
        if 0 <= ink < source.len() && source[ink] == processed[at] {
            match collapse_alignment(source, processed, at + 1, ink + 1) {
                Ok(rest) => Ok(seq![char_segment(processed, source, at, ink, ink + 1)] + rest),
                Err(e) => Err(e),
            }
        } else {
            Err(ClusterReject::NotVerbatim)
        }
    }
}

proof fn space_end_bounds(s: Seq<char>, from: int)
    requires
        0 <= from <= s.len(),
    ensures
        from <= space_end(s, from) <= s.len(),
        space_end(s, from) < s.len() ==> !collapsible(s[space_end(s, from)]),
        from < s.len() && collapsible(s[from]) ==> space_end(s, from) > from,
    decreases s.len() - from,
{
    if from < s.len() && collapsible(s[from]) {
        space_end_bounds(s, from + 1);
    }
}

fn skip_spaces(scanned: &Scanned, Ghost(s): Ghost<Seq<char>>, from: usize) -> (r: usize)
    requires
        scanned.of(s),
        from <= s.len(),
    ensures
        r == space_end(s, from as int),
        from <= r <= s.len(),
{
    let n: usize = scanned.chars.len();
    let mut at: usize = from;
    while at < n && is_css_collapsible_whitespace(scanned.chars[at])
        invariant
            scanned.of(s),
            n == s.len(),
            from <= at <= n,
            space_end(s, from as int) == space_end(s, at as int),
        decreases n - at,
    {
        at = at + 1;
    }
    at
}

/// Aligns a whitespace-collapsed text with the authored text.
///
/// A generated single space owns the whole authored whitespace run. Leading and trailing
/// whitespace may disappear; all other characters must match verbatim.
pub fn collapsed_text_projection(source: &str, processed: &str) -> (r: Result<
    Vec<TextSourceSegment>,
    ClusterReject,
>)
    ensures
        listed(r) == collapse_alignment(source@, processed@, 0, 0),
{
    let from_text = scan(source);
    let to_text = scan(processed);
    let ghost src = source@;
    let ghost dst = processed@;
    let n: usize = from_text.chars.len();
    let m: usize = to_text.chars.len();
    let mut source_at: usize = 0;
    let mut at: usize = 0;
    let mut projection: Vec<TextSourceSegment> = Vec::new();
    while at < m
        invariant
            from_text.of(src),
            to_text.of(dst),
            src == source@,
            dst == processed@,
            n == src.len(),
            m == dst.len(),
            at <= m,
            source_at <= n,
            match collapse_alignment(src, dst, at as int, source_at as int) {
                Ok(rest) => collapse_alignment(src, dst, 0, 0) == Ok::<
                    Seq<TextSourceSegment>,
                    ClusterReject,
                >(projection@ + rest),
                Err(e) => collapse_alignment(src, dst, 0, 0) == Err::<
                    Seq<TextSourceSegment>,
                    ClusterReject,
                >(e),
            },
        decreases m - at,
    {
        let ghost before = projection@;
        let ch: char = to_text.chars[at];
        if is_css_collapsible_whitespace(ch) {
            if source_at >= n || !is_css_collapsible_whitespace(from_text.chars[source_at]) {
                return Err(ClusterReject::NotVerbatim);
            }
            let end: usize = skip_spaces(&from_text, Ghost(src), source_at);
            projection.push(
                TextSourceSegment {
                    processed: to_text.offsets[at]..to_text.offsets[at + 1],
                    source: from_text.offsets[source_at]..from_text.offsets[end],
                },
            );
            proof {
                let seg = char_segment(dst, src, at as int, source_at as int, end as int);
                assert(projection@ =~= before.push(seg));
                if let Ok(rest) = collapse_alignment(src, dst, at as int + 1, end as int) {
                    assert(before + (seq![seg] + rest) =~= projection@ + rest);
                }
            }
            source_at = end;
        } else {
            let mut ink: usize = source_at;
            if at == 0 {
                ink = skip_spaces(&from_text, Ghost(src), source_at);
            }
            if ink >= n || from_text.chars[ink] != ch {
                return Err(ClusterReject::NotVerbatim);
            }
            projection.push(
                TextSourceSegment {
                    processed: to_text.offsets[at]..to_text.offsets[at + 1],
                    source: from_text.offsets[ink]..from_text.offsets[ink + 1],
                },
            );
            proof {
                let seg = char_segment(dst, src, at as int, ink as int, ink as int + 1);
                assert(projection@ =~= before.push(seg));
                if let Ok(rest) = collapse_alignment(src, dst, at as int + 1, ink as int + 1) {
                    assert(before + (seq![seg] + rest) =~= projection@ + rest);
                }
            }
            source_at = ink + 1;
        }
        at = at + 1;
    }
    assert(projection@ + Seq::<TextSourceSegment>::empty() =~= projection@);
    Ok(projection)
}

proof fn alignment_tiles(source: Seq<char>, processed: Seq<char>, at: int, from: int)
    requires
        0 <= at <= processed.len(),
        0 <= from <= source.len(),
        byte_len(source) <= usize::MAX,
        byte_len(processed) <= usize::MAX,
        collapse_alignment(source, processed, at, from) is Ok,
    ensures
        ({
            let out = collapse_alignment(source, processed, at, from)->Ok_0;
            &&& out.len() == processed.len() - at
            &&& forall|k: int|
                0 <= k < out.len() ==> (#[trigger] out[k]).processed.start == offset(
                    processed,
                    at + k,
                ) && out[k].processed.end == offset(processed, at + k + 1)
            &&& forall|k: int|
                0 <= k < out.len() ==> offset(source, from) <= (#[trigger] out[k]).source.start
                    < out[k].source.end <= byte_len(source)
            &&& forall|k: int, l: int|
                0 <= k < l < out.len() ==> (#[trigger] out[k]).source.end <= (
                #[trigger] out[l]).source.start
        }),
    decreases processed.len() - at,
{
    if at < processed.len() {
        space_end_bounds(source, from);
        let ink = ink_position(source, at, from);
        let (a, b) = if collapsible(processed[at]) {
            (from, space_end(source, from))
        } else {
            (ink, ink + 1)
        };
        let out = collapse_alignment(source, processed, at, from)->Ok_0;
        let rest = collapse_alignment(source, processed, at + 1, b)->Ok_0;
        assert(collapse_alignment(source, processed, at + 1, b) is Ok);
        assert(out =~= seq![char_segment(processed, source, at, a, b)] + rest);
        assert(from <= a < b <= source.len());
        offset_monotone(source, from, a);
        offset_monotone(source, a, b);
        offset_monotone(source, b, source.len() as int);
        offset_monotone(processed, at, at + 1);
        alignment_tiles(source, processed, at + 1, b);
        assert forall|k: int| 0 < k < out.len() implies out[k] == rest[k - 1] by {}
        assert forall|k: int| 0 <= k < out.len() implies (#[trigger] out[k]).processed.start
            == offset(processed, at + k) && out[k].processed.end == offset(
            processed,
            at + k + 1,
        ) by {
            if k > 0 {
                assert(out[k] == rest[k - 1]);
                assert(rest[k - 1].processed.start == offset(processed, at + 1 + (k - 1)));
            }
        }
        assert forall|k: int| 0 <= k < out.len() implies offset(source, from) <= (
        #[trigger] out[k]).source.start < out[k].source.end <= byte_len(source) by {
            if k > 0 {
                assert(out[k] == rest[k - 1]);
            }
        }
        assert forall|k: int, l: int| 0 <= k < l < out.len() implies (#[trigger] out[k]).source.end
            <= (#[trigger] out[l]).source.start by {
            assert(out[l] == rest[l - 1]);
            if k > 0 {
                assert(out[k] == rest[k - 1]);
            }
        }
    }
}

/// A successful alignment has one segment per processed character, covers the processed bytes
/// without gaps, and its authored ranges are non-empty, ordered, disjoint and inside the source.
pub proof fn collapsed_projection_is_monotone(source: Seq<char>, processed: Seq<char>)
    requires
        byte_len(source) <= usize::MAX,
        byte_len(processed) <= usize::MAX,
        collapse_alignment(source, processed, 0, 0) is Ok,
    ensures
        ({
            let out = collapse_alignment(source, processed, 0, 0)->Ok_0;
            &&& out.len() == processed.len()
            &&& forall|k: int|
                0 <= k < out.len() ==> (#[trigger] out[k]).processed.start == offset(processed, k)
                    && out[k].processed.end == offset(processed, k + 1)
            &&& forall|k: int|
                0 <= k < out.len() ==> (#[trigger] out[k]).source.start < out[k].source.end
                    <= byte_len(source)
            &&& forall|k: int, l: int|
                0 <= k < l < out.len() ==> (#[trigger] out[k]).source.end <= (
                #[trigger] out[l]).source.start
        }),
{
    alignment_tiles(source, processed, 0, 0);
    let out = collapse_alignment(source, processed, 0, 0)->Ok_0;
    assert forall|k: int| 0 <= k < out.len() implies (#[trigger] out[k]).processed.start == offset(
        processed,
        k,
    ) && out[k].processed.end == offset(processed, k + 1) by {
        assert(0 + k == k);
    }
}

/// What one authored character becomes when tabs are expanded to spaces.
pub open spec fn expanded_char(ch: char, tab_spaces: nat) -> Seq<char> {
    if ch == '\t' { Seq::new(tab_spaces, |i: int| ' ') } else { seq![ch] }
}

/// The first `n` authored characters with tabs expanded.
pub open spec fn expansion(source: Seq<char>, tab_spaces: nat, n: nat) -> Seq<char>
    decreases n,
{
    if n == 0 {
        Seq::empty()
    } else {
        expansion(source, tab_spaces, (n - 1) as nat) + expanded_char(source[n - 1], tab_spaces)
    }
}

/// The segments of the first `n` authored characters: each takes the processed bytes that its
/// expansion fills, cut at `limit`; a character that fills none has no segment.
pub open spec fn expansion_segments(
    source: Seq<char>,
    tab_spaces: nat,
    limit: nat,
    n: nat,
) -> Seq<TextSourceSegment>
    decreases n,
{
    if n == 0 {
        Seq::empty()
    } else {
        let rest = expansion_segments(source, tab_spaces, limit, (n - 1) as nat);
        let start = byte_len(expansion(source, tab_spaces, (n - 1) as nat));
        let full = byte_len(expansion(source, tab_spaces, n));
        let end = if full <= limit { full } else { limit };
        if start < end {
            rest.push(
                TextSourceSegment {
                    processed: core::ops::Range { start: start as usize, end: end as usize },
                    source: core::ops::Range {
                        start: offset(source, n - 1) as usize,
                        end: offset(source, n as int) as usize,
                    },
                },
            )
        } else {
            rest
        }
    }
}

/// What mapping a processed text back to the authored one gives: nothing where offsets carry over
/// unchanged, a list of segments where processing moved them.
pub open spec fn source_projection(
    source: Seq<char>,
    processed: Seq<char>,
    collapse: WhiteSpaceCollapse,
    transform: TextTransform,
    tab_spaces: nat,
) -> Result<Option<Seq<TextSourceSegment>>, ClusterReject> {
    if source == processed {
        Ok(None)
    } else if transform != TextTransform::Verbatim {
        Err(ClusterReject::NotVerbatim)
    } else if processed.is_prefix_of(source) {
        Ok(None)
    } else if collapse == WhiteSpaceCollapse::Collapse {
        match collapse_alignment(source, processed, 0, 0) {
            Ok(segments) => Ok(Some(segments)),
            Err(e) => Err(e),
        }
    } else if collapse != WhiteSpaceCollapse::Preserve {
        Err(ClusterReject::NotVerbatim)
    } else if processed.is_prefix_of(expansion(source, tab_spaces, source.len())) {
        Ok(Some(expansion_segments(source, tab_spaces, byte_len(processed), source.len())))
    } else {
        Err(ClusterReject::NotVerbatim)
    }
}

/// An optional segment list by its contents.
pub open spec fn listed_option(
    r: Result<Option<Vec<TextSourceSegment>>, ClusterReject>,
) -> Result<Option<Seq<TextSourceSegment>>, ClusterReject> {
    match r {
        Ok(Some(v)) => Ok(Some(v@)),
        Ok(None) => Ok(None),
        Err(e) => Err(e),
    }
}

fn is_prefix(short: &Vec<char>, long: &Vec<char>) -> (r: bool)
    ensures
        r == short@.is_prefix_of(long@),
{
    if short.len() > long.len() {
        return false;
    }
    let mut i: usize = 0;
    while i < short.len()
        invariant
            i <= short.len() <= long.len(),
            forall|k: int| 0 <= k < i ==> short@[k] == long@[k],
        decreases short.len() - i,
    {
        if short[i] != long[i] {
            assert(short@[i as int] != long@.subrange(0, short@.len() as int)[i as int]);
            return false;
        }
        i = i + 1;
    }
    assert(short@ =~= long@.subrange(0, short@.len() as int));
    true
}

proof fn byte_len_append(a: Seq<char>, b: Seq<char>)
    ensures
        byte_len(a + b) == byte_len(a) + byte_len(b),
    decreases b.len(),
{
    if b.len() == 0 {
        assert(a + b =~= a);
    } else {
        assert((a + b).drop_last() =~= a + b.drop_last());
        byte_len_append(a, b.drop_last());
    }
}

proof fn byte_len_spaces(n: nat)
    ensures
        byte_len(Seq::new(n, |i: int| ' ')) == n,
    decreases n,
{
    if n > 0 {
        byte_len_spaces((n - 1) as nat);
        assert(Seq::new(n, |i: int| ' ').drop_last() =~= Seq::new((n - 1) as nat, |i: int| ' '));
    }
}

proof fn expansion_grows(source: Seq<char>, tab_spaces: nat, m: nat, n: nat)
    requires
        m <= n <= source.len(),
    ensures
        expansion(source, tab_spaces, m).is_prefix_of(expansion(source, tab_spaces, n)),
        byte_len(expansion(source, tab_spaces, m)) <= byte_len(expansion(source, tab_spaces, n)),
    decreases n - m,
{
    if m < n {
        expansion_grows(source, tab_spaces, m, (n - 1) as nat);
        let a = expansion(source, tab_spaces, m);
        let b = expansion(source, tab_spaces, (n - 1) as nat);
        let c = expansion(source, tab_spaces, n);
        byte_len_append(b, expanded_char(source[n - 1], tab_spaces));
        assert(c.subrange(0, a.len() as int) =~= b.subrange(0, a.len() as int));
    } else {
        let a = expansion(source, tab_spaces, m);
        assert(a.subrange(0, a.len() as int) =~= a);
    }
}

proof fn segments_stop(source: Seq<char>, tab_spaces: nat, limit: nat, m: nat, n: nat)
    requires
        m <= n <= source.len(),
        byte_len(expansion(source, tab_spaces, m)) >= limit,
    ensures
        expansion_segments(source, tab_spaces, limit, m) == expansion_segments(
            source,
            tab_spaces,
            limit,
            n,
        ),
    decreases n - m,
{
    if m < n {
        segments_stop(source, tab_spaces, limit, m, (n - 1) as nat);
        expansion_grows(source, tab_spaces, m, (n - 1) as nat);
    }
}

proof fn prefix_of_long_enough(p: Seq<char>, a: Seq<char>, b: Seq<char>)
    requires
        a.is_prefix_of(b),
        byte_len(p) <= byte_len(a),
    ensures
        p.is_prefix_of(a) == p.is_prefix_of(b),
{
    if p.is_prefix_of(b) {
        if p.len() > a.len() {
            assert(p.take(a.len() as int) =~= a) by {
                assert forall|i: int| 0 <= i < a.len() implies p.take(a.len() as int)[i]
                    == a[i] by {
                    assert(p[i] == b.subrange(0, p.len() as int)[i]);
                    assert(a[i] == b.subrange(0, a.len() as int)[i]);
                }
            }
            offset_monotone(p, a.len() as int, p.len() as int);
            offset_ends(p);
            assert(false);
        }
        assert(p =~= a.subrange(0, p.len() as int)) by {
            assert forall|i: int| 0 <= i < p.len() implies p[i] == a.subrange(
                0,
                p.len() as int,
            )[i] by {
                assert(p[i] == b.subrange(0, p.len() as int)[i]);
                assert(a[i] == b.subrange(0, a.len() as int)[i]);
            }
        }
    }
    if p.is_prefix_of(a) {
        assert(p =~= b.subrange(0, p.len() as int)) by {
            assert forall|i: int| 0 <= i < p.len() implies p[i] == b.subrange(
                0,
                p.len() as int,
            )[i] by {
                assert(p[i] == a.subrange(0, p.len() as int)[i]);
                assert(a[i] == b.subrange(0, a.len() as int)[i]);
            }
        }
    }
}

/// Maps deterministic text processing back to authored bytes.
///
/// Identical text and a verbatim prefix keep their offsets. Collapsed whitespace and expanded tabs
/// carry an explicit byte projection. Everything else is not verbatim.
pub fn text_source_projection(
    source: &str,
    processed: &str,
    collapse: WhiteSpaceCollapse,
    transform: TextTransform,
    tab_spaces: usize,
) -> (r: Result<Option<Vec<TextSourceSegment>>, ClusterReject>)
    requires
        byte_len(processed@) + tab_spaces + 4 <= usize::MAX,
    ensures
        listed_option(r) == source_projection(
            source@,
            processed@,
            collapse,
            transform,
            tab_spaces as nat,
        ),
{
    let from_text = scan(source);
    let to_text = scan(processed);
    let ghost src = source@;
    let ghost dst = processed@;
    let verbatim: bool = is_prefix(&to_text.chars, &from_text.chars);
    proof {
        if dst.is_prefix_of(src) && src.len() == dst.len() {
            assert(src =~= src.subrange(0, dst.len() as int));
        }
        if src == dst {
            assert(dst =~= src.subrange(0, dst.len() as int));
        }
    }
    if verbatim && from_text.chars.len() == to_text.chars.len() {
        return Ok(None);
    }
    if transform != TextTransform::Verbatim {
        return Err(ClusterReject::NotVerbatim);
    }
    if verbatim {
        return Ok(None);
    }
    if collapse == WhiteSpaceCollapse::Collapse {
        return match collapsed_text_projection(source, processed) {
            Ok(segments) => Ok(Some(segments)),
            Err(e) => Err(e),
        };
    }
    if collapse != WhiteSpaceCollapse::Preserve {
        return Err(ClusterReject::NotVerbatim);
    }
    let n: usize = from_text.chars.len();
    let limit: usize = to_text.offsets[to_text.chars.len()];
    proof {
        offset_ends(dst);
    }
    let ghost tab = tab_spaces as nat;
    let mut expanded: Vec<char> = Vec::new();
    let mut length: usize = 0;
    let mut projection: Vec<TextSourceSegment> = Vec::new();
    let mut i: usize = 0;
    while i < n && length < limit
        invariant
            from_text.of(src),
            n == src.len(),
            i <= n,
            tab == tab_spaces,
            limit == byte_len(dst),
            limit + tab_spaces + 4 <= usize::MAX,
            length == byte_len(expanded@),
            length <= limit || length < limit + tab_spaces + 4,
            expanded@ == expansion(src, tab, i as nat),
            projection@ == expansion_segments(src, tab, limit as nat, i as nat),
        decreases n - i,
    {
        let ch: char = from_text.chars[i];
        let start: usize = length;
        let ghost before = expanded@;
        proof {
            byte_len_append(before, expanded_char(ch, tab));
        }
        if ch == '\t' {
            let mut k: usize = 0;
            while k < tab_spaces
                invariant
                    k <= tab_spaces,
                    expanded@ == before + Seq::new(k as nat, |j: int| ' '),
                decreases tab_spaces - k,
            {
                expanded.push(' ');
                k = k + 1;
                assert(expanded@ =~= before + Seq::new(k as nat, |j: int| ' '));
            }
            proof {
                byte_len_spaces(tab);
                assert(expanded@ =~= before + expanded_char(ch, tab));
            }
            length = length + tab_spaces;
        } else {
            expanded.push(ch);
            proof {
                assert(expanded@ =~= before + expanded_char(ch, tab));
                let one = seq![ch];
                assert(one.drop_last() =~= Seq::<char>::empty());
                assert(byte_len(one.drop_last()) == 0);
            }
            length = length + crate::text::char_width(ch);
        }
        let end: usize = if length <= limit { length } else { limit };
        if start < end {
            projection.push(
                TextSourceSegment {
                    processed: start..end,
                    source: from_text.offsets[i]..from_text.offsets[i + 1],
                },
            );
        }
        i = i + 1;
    }
    proof {
        expansion_grows(src, tab, i as nat, n as nat);
        if length >= limit {
            segments_stop(src, tab, limit as nat, i as nat, n as nat);
            prefix_of_long_enough(dst, expanded@, expansion(src, tab, n as nat));
        }
    }
    if !is_prefix(&to_text.chars, &expanded) {
        return Err(ClusterReject::NotVerbatim);
    }
    Ok(Some(projection))
}

proof fn expansion_segments_tile(source: Seq<char>, tab_spaces: nat, limit: nat, n: nat)
    requires
        n <= source.len(),
        limit <= usize::MAX,
        byte_len(source) <= usize::MAX,
    ensures
        ({
            let out = expansion_segments(source, tab_spaces, limit, n);
            let full = byte_len(expansion(source, tab_spaces, n));
            let reached = if full <= limit { full } else { limit };
            &&& out.len() == 0 ==> reached == 0
            &&& out.len() > 0 ==> out[0].processed.start == 0 && out.last().processed.end == reached
                && out.last().source.end <= offset(source, n as int)
            &&& forall|k: int|
                0 <= k < out.len() ==> (#[trigger] out[k]).processed.start < out[k].processed.end
                    <= reached && out[k].source.start < out[k].source.end <= offset(source, n as int)
            &&& forall|k: int|
                0 <= k < out.len() - 1 ==> (#[trigger] out[k]).processed.end == out[k
                    + 1].processed.start && out[k].source.end <= out[k + 1].source.start
        }),
    decreases n,
{
    if n > 0 {
        expansion_segments_tile(source, tab_spaces, limit, (n - 1) as nat);
        expansion_grows(source, tab_spaces, (n - 1) as nat, n);
        offset_steps(source, n - 1);
        offset_monotone(source, n as int, source.len() as int);
        let rest = expansion_segments(source, tab_spaces, limit, (n - 1) as nat);
        let out = expansion_segments(source, tab_spaces, limit, n);
        if out.len() > rest.len() {
            assert(out.drop_last() =~= rest);
            assert forall|k: int| 0 <= k < out.len() - 1 implies out[k] == rest[k] by {}
            assert forall|k: int| 0 <= k < out.len() - 1 implies (#[trigger] out[k]).processed.end
                == out[k + 1].processed.start && out[k].source.end <= out[k + 1].source.start by {
                assert(out[k] == rest[k]);
                if k + 1 < rest.len() {
                    assert(out[k + 1] == rest[k + 1]);
                } else {
                    assert(rest[k] == rest.last());
                }
            }
            if rest.len() > 0 {
                assert(out[0] == rest[0]);
            }
        }
    } else {
        assert(byte_len(expansion(source, tab_spaces, 0)) == 0);
    }
}

/// The segments of an expanded text cover exactly its processed bytes, in order and without gaps,
/// and their authored ranges are non-empty, ordered and inside the source.
pub proof fn preserved_projection_tiles(
    source: Seq<char>,
    processed: Seq<char>,
    tab_spaces: nat,
)
    requires
        byte_len(source) <= usize::MAX,
        byte_len(processed) <= usize::MAX,
        processed.is_prefix_of(expansion(source, tab_spaces, source.len())),
    ensures
        ({
            let out = expansion_segments(source, tab_spaces, byte_len(processed), source.len());
            &&& out.len() == 0 ==> byte_len(processed) == 0
            &&& out.len() > 0 ==> out[0].processed.start == 0 && out.last().processed.end
                == byte_len(processed)
            &&& forall|k: int|
                0 <= k < out.len() ==> (#[trigger] out[k]).source.start < out[k].source.end
                    <= byte_len(source)
            &&& forall|k: int|
                0 <= k < out.len() - 1 ==> (#[trigger] out[k]).processed.end == out[k
                    + 1].processed.start && out[k].source.end <= out[k + 1].source.start
        }),
{
    let full = expansion(source, tab_spaces, source.len());
    expansion_segments_tile(source, tab_spaces, byte_len(processed), source.len());
    offset_ends(source);
    offset_monotone(full, processed.len() as int, full.len() as int);
    assert(full.take(processed.len() as int) =~= processed);
}

} // verus!
