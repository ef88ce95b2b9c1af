//! Splitting a text into the units that per-unit animation addresses.

use vstd::prelude::*;

use crate::text::{byte_len, offset, offset_monotone, scan};

verus! {

/// How a text is divided into units.
#[derive(Clone, Copy, Debug, PartialEq, Eq, Structural)]
pub enum TextSplit {
    Char,
    Word,
    Line,
}

/// Whether a character has Unicode's `White_Space` property.
pub open spec fn white_space(c: char) -> bool {
    ||| '\u{9}' <= c <= '\u{d}'
    ||| c == '\u{20}'
    ||| c == '\u{85}'
    ||| c == '\u{a0}'
    ||| c == '\u{1680}'
    ||| '\u{2000}' <= c <= '\u{200a}'
    ||| c == '\u{2028}'
    ||| c == '\u{2029}'
    ||| c == '\u{202f}'
    ||| c == '\u{205f}'
    ||| c == '\u{3000}'
}

fn is_white_space(c: char) -> (r: bool)
    ensures
        r == white_space(c),
{
    ('\u{9}' <= c && c <= '\u{d}') || c == '\u{20}' || c == '\u{85}' || c == '\u{a0}' || c
        == '\u{1680}' || ('\u{2000}' <= c && c <= '\u{200a}') || c == '\u{2028}' || c
        == '\u{2029}' || c == '\u{202f}' || c == '\u{205f}' || c == '\u{3000}'
}

/// End of the run of non-whitespace characters that starts at `from`.
pub open spec fn word_end(s: Seq<char>, from: int) -> int
    decreases s.len() - from,
{
    if from < 0 || from >= s.len() || white_space(s[from]) {
        from
    } else {
        word_end(s, from + 1)
    }
}

/// The maximal runs of non-whitespace characters from `from` on, as character ranges.
pub open spec fn word_runs(s: Seq<char>, from: int) -> Seq<(int, int)>
    decreases s.len() - from,
{
    if from < 0 || from >= s.len() {
        Seq::empty()
    } else if white_space(s[from]) {
        word_runs(s, from + 1)
    } else if word_end(s, from) <= from || word_end(s, from) > s.len() {
        Seq::empty()
    } else {
        seq![(from, word_end(s, from))] + word_runs(s, word_end(s, from))
    }
}

/// Position of the first line feed at or after `from`, or the end of the text.
pub open spec fn line_end(s: Seq<char>, from: int) -> int
    decreases s.len() - from,
{
    if from < 0 || from >= s.len() || s[from] == '\n' {
        from
    } else {
        line_end(s, from + 1)
    }
}

/// The stretches between line feeds from `from` on, empty ones included.
pub open spec fn line_runs(s: Seq<char>, from: int) -> Seq<(int, int)>
    decreases s.len() - from,
{
    if from < 0 || from > s.len() {
        Seq::empty()
    } else if line_end(s, from) < from || line_end(s, from) >= s.len() {
        seq![(from, s.len() as int)]
    } else {
        seq![(from, line_end(s, from))] + line_runs(s, line_end(s, from) + 1)
    }
}

/// The character ranges that a split selects.
pub open spec fn unit_runs(s: Seq<char>, split: TextSplit) -> Seq<(int, int)> {
    match split {
        TextSplit::Char => Seq::new(s.len(), |i: int| (i, i + 1)),
        TextSplit::Word => word_runs(s, 0),
        TextSplit::Line => line_runs(s, 0),
    }
}

/// A character range as a byte range, cut to 32 bits.
pub open spec fn byte_unit(s: Seq<char>, run: (int, int)) -> (u32, u32) {
    (offset(s, run.0) as u32, offset(s, run.1) as u32)
}

/// The byte ranges of a text's units, in reading order.
pub open spec fn unit_ranges(s: Seq<char>, split: TextSplit) -> Seq<(u32, u32)> {
    unit_runs(s, split).map_values(|run: (int, int)| byte_unit(s, run))
}

proof fn word_end_bounds(s: Seq<char>, from: int)
    requires
        0 <= from <= s.len(),
    ensures
        from <= word_end(s, from) <= s.len(),
        word_end(s, from) == s.len() || white_space(s[word_end(s, from)]),
        forall|k: int| from <= k < word_end(s, from) ==> !white_space(#[trigger] s[k]),
        from < s.len() && !white_space(s[from]) ==> word_end(s, from) > from,
    decreases s.len() - from,
{
    if from < s.len() && !white_space(s[from]) {
        word_end_bounds(s, from + 1);
    }
}

proof fn line_end_bounds(s: Seq<char>, from: int)
    requires
        0 <= from <= s.len(),
    ensures
        from <= line_end(s, from) <= s.len(),
        line_end(s, from) < s.len() ==> s[line_end(s, from)] == '\n',
        forall|k: int| from <= k < line_end(s, from) ==> #[trigger] s[k] != '\n',
    decreases s.len() - from,
{
    if from < s.len() && s[from] != '\n' {
        line_end_bounds(s, from + 1);
    }
}

proof fn word_runs_bounds(s: Seq<char>, from: int)
    requires
        0 <= from <= s.len(),
    ensures
        forall|k: int|
            0 <= k < word_runs(s, from).len() ==> from <= (#[trigger] word_runs(s, from)[k]).0
                < word_runs(s, from)[k].1 <= s.len(),
        forall|k: int, l: int|
            0 <= k < l < word_runs(s, from).len() ==> (#[trigger] word_runs(s, from)[k]).1
                < (#[trigger] word_runs(s, from)[l]).0,
        forall|k: int, i: int|
            0 <= k < word_runs(s, from).len() && (#[trigger] word_runs(s, from)[k]).0 <= i
                < word_runs(s, from)[k].1 ==> !white_space(#[trigger] s[i]),
        forall|i: int|
            from <= i < s.len() && !white_space(#[trigger] s[i]) ==> exists|k: int|
                0 <= k < word_runs(s, from).len() && (#[trigger] word_runs(s, from)[k]).0 <= i
                    < word_runs(s, from)[k].1,
    decreases s.len() - from,
{
    if from < s.len() {
        if white_space(s[from]) {
            word_runs_bounds(s, from + 1);
            assert(word_runs(s, from) == word_runs(s, from + 1));
        } else {
            let end = word_end(s, from);
            word_end_bounds(s, from);
            word_runs_bounds(s, end);
            let rest = word_runs(s, end);
            let all = word_runs(s, from);
            assert(all =~= seq![(from, end)] + rest);
            assert forall|k: int| 0 < k < all.len() implies all[k] == rest[k - 1] by {}
            if end < s.len() {
                assert(white_space(s[end]));
                assert forall|k: int| 0 <= k < rest.len() implies end < (#[trigger] rest[k]).0 by {
                    if rest[k].0 == end {
                        assert(!white_space(s[end]));
                    }
                }
            }
            assert forall|k: int| 0 <= k < all.len() implies from <= (#[trigger] all[k]).0
                < all[k].1 <= s.len() by {
                if k > 0 {
                    assert(all[k] == rest[k - 1]);
                }
            }
            assert forall|k: int, l: int| 0 <= k < l < all.len() implies (#[trigger] all[k]).1 < (
            #[trigger] all[l]).0 by {
                assert(all[l] == rest[l - 1]);
                if k > 0 {
                    assert(all[k] == rest[k - 1]);
                }
            }
            assert forall|i: int| from <= i < s.len() && !white_space(#[trigger] s[i]) implies exists|
                k: int,
            |
                0 <= k < all.len() && (#[trigger] all[k]).0 <= i < all[k].1 by {
                if i < end {
                    assert(all[0].0 <= i < all[0].1);
                } else {
                    let k = choose|k: int|
                        0 <= k < rest.len() && (#[trigger] rest[k]).0 <= i < rest[k].1;
                    assert(all[k + 1] == rest[k]);
                }
            }
        }
    } else {
        assert(word_runs(s, from).len() == 0);
    }
}

/// Word units hold exactly the characters that are not whitespace, in order, with whitespace
/// between any two of them.
pub proof fn word_units_cover_ink(s: Seq<char>)
    ensures
        forall|k: int|
            0 <= k < word_runs(s, 0).len() ==> 0 <= (#[trigger] word_runs(s, 0)[k]).0
                < word_runs(s, 0)[k].1 <= s.len(),
        forall|k: int, l: int|
            0 <= k < l < word_runs(s, 0).len() ==> (#[trigger] word_runs(s, 0)[k]).1
                < (#[trigger] word_runs(s, 0)[l]).0,
        forall|i: int|
            0 <= i < s.len() ==> (!white_space(#[trigger] s[i]) <==> exists|k: int|
                0 <= k < word_runs(s, 0).len() && (#[trigger] word_runs(s, 0)[k]).0 <= i
                    < word_runs(s, 0)[k].1),
{
    word_runs_bounds(s, 0);
}

/// Number of line feeds in a text.
pub open spec fn line_feeds(s: Seq<char>, from: int) -> nat
    decreases s.len() - from,
{
    if from < 0 || from >= s.len() {
        0
    } else {
        (if s[from] == '\n' { 1nat } else { 0nat }) + line_feeds(s, from + 1)
    }
}

proof fn line_feeds_skip(s: Seq<char>, from: int)
    requires
        0 <= from <= s.len(),
    ensures
        line_feeds(s, from) == (if line_end(s, from) < s.len() {
            1 + line_feeds(s, line_end(s, from) + 1)
        } else {
            0
        }),
    decreases s.len() - from,
{
    line_end_bounds(s, from);
    if from < s.len() && s[from] != '\n' {
        line_feeds_skip(s, from + 1);
    }
}

proof fn line_runs_count(s: Seq<char>, from: int)
    requires
        0 <= from <= s.len(),
    ensures
        line_runs(s, from).len() == line_feeds(s, from) + 1,
        line_runs(s, from)[0].0 == from,
        line_runs(s, from).last().1 == s.len(),
        forall|k: int|
            0 <= k < line_runs(s, from).len() ==> from <= (#[trigger] line_runs(s, from)[k]).0
                <= line_runs(s, from)[k].1 <= s.len(),
        forall|k: int|
            0 <= k < line_runs(s, from).len() - 1 ==> s[(#[trigger] line_runs(s, from)[k]).1] == '\n'
                && line_runs(s, from)[k + 1].0 == line_runs(s, from)[k].1 + 1,
        forall|k: int, i: int|
            0 <= k < line_runs(s, from).len() && (#[trigger] line_runs(s, from)[k]).0 <= i
                < line_runs(s, from)[k].1 ==> #[trigger] s[i] != '\n',
    decreases s.len() - from,
{
    line_end_bounds(s, from);
    line_feeds_skip(s, from);
    let end = line_end(s, from);
    let all = line_runs(s, from);
    if end < s.len() {
        line_runs_count(s, end + 1);
        let rest = line_runs(s, end + 1);
        assert(all =~= seq![(from, end)] + rest);
        assert forall|k: int| 0 < k < all.len() implies all[k] == rest[k - 1] by {}
        assert(all.last() == rest.last());
        assert forall|k: int| 0 <= k < all.len() - 1 implies s[(#[trigger] all[k]).1] == '\n'
            && all[k + 1].0 == all[k].1 + 1 by {
            if k > 0 {
                assert(all[k] == rest[k - 1]);
                assert(all[k + 1] == rest[k]);
            } else {
                assert(all[1] == rest[0]);
            }
        }
    } else {
        assert(all =~= seq![(from, s.len() as int)]);
    }
}

/// There is one line unit more than there are line feeds; consecutive units are separated by
/// exactly one line feed, and no unit holds one. Blank lines keep their index.
pub proof fn line_units_keep_every_line(s: Seq<char>)
    ensures
        line_runs(s, 0).len() == line_feeds(s, 0) + 1,
        line_runs(s, 0)[0].0 == 0,
        line_runs(s, 0).last().1 == s.len(),
        forall|k: int|
            0 <= k < line_runs(s, 0).len() - 1 ==> s[(#[trigger] line_runs(s, 0)[k]).1] == '\n'
                && line_runs(s, 0)[k + 1].0 == line_runs(s, 0)[k].1 + 1,
        forall|k: int, i: int|
            0 <= k < line_runs(s, 0).len() && (#[trigger] line_runs(s, 0)[k]).0 <= i < line_runs(
                s,
                0,
            )[k].1 ==> #[trigger] s[i] != '\n',
{
    line_runs_count(s, 0);
}

/// Whether both ends of a byte range are character boundaries of the text.
pub open spec fn at_boundaries(s: Seq<char>, unit: (u32, u32)) -> bool {
    exists|a: int, b: int|
        0 <= a <= b <= s.len() && #[trigger] offset(s, a) as u32 == unit.0 && #[trigger] offset(
            s,
            b,
        ) as u32 == unit.1
}

/// In a text of fewer than 2^32 bytes, every unit is an ordered byte range inside the text that
/// starts and ends at character boundaries, and units never overlap.
pub proof fn units_are_ordered_byte_ranges(s: Seq<char>, split: TextSplit)
    requires
        byte_len(s) <= u32::MAX,
    ensures
        forall|k: int|
            0 <= k < unit_ranges(s, split).len() ==> (#[trigger] unit_ranges(s, split)[k]).0
                <= unit_ranges(s, split)[k].1 <= byte_len(s),
        forall|k: int, l: int|
            0 <= k < l < unit_ranges(s, split).len() ==> (#[trigger] unit_ranges(s, split)[k]).1 <= (
            #[trigger] unit_ranges(s, split)[l]).0,
        forall|k: int|
            0 <= k < unit_ranges(s, split).len() ==> at_boundaries(
                s,
                #[trigger] unit_ranges(s, split)[k],
            ),
{
    let runs = unit_runs(s, split);
    let units = unit_ranges(s, split);
    word_runs_bounds(s, 0);
    line_runs_count(s, 0);
    assert forall|k: int| 0 <= k < runs.len() implies 0 <= (#[trigger] runs[k]).0 <= runs[k].1
        <= s.len() by {}
    assert forall|k: int, l: int| 0 <= k < l < runs.len() implies (#[trigger] runs[k]).1 <= (
    #[trigger] runs[l]).0 by {
        if split == TextSplit::Line {
            line_runs_ordered(s, k, l);
        }
    }
    assert forall|k: int| 0 <= k < units.len() implies (#[trigger] units[k]).0 <= units[k].1
        <= byte_len(s) by {
        offset_monotone(s, runs[k].0, runs[k].1);
        offset_monotone(s, runs[k].1, s.len() as int);
    }
    assert forall|k: int, l: int| 0 <= k < l < units.len() implies (#[trigger] units[k]).1 <= (
    #[trigger] units[l]).0 by {
        assert(runs[k].1 <= runs[l].0);
        offset_monotone(s, runs[k].1, runs[l].0);
        offset_monotone(s, runs[l].0, s.len() as int);
    }
    assert forall|k: int| 0 <= k < units.len() implies at_boundaries(s, #[trigger] units[k]) by {
        assert(0 <= runs[k].0 <= runs[k].1 <= s.len());
        assert(offset(s, runs[k].0) as u32 == units[k].0 && offset(s, runs[k].1) as u32
            == units[k].1);
    }
}

proof fn line_runs_ordered(s: Seq<char>, k: int, l: int)
    requires
        0 <= k < l < line_runs(s, 0).len(),
    ensures
        line_runs(s, 0)[k].1 < line_runs(s, 0)[l].0,
    decreases l - k,
{
    line_runs_count(s, 0);
    if k + 1 < l {
        line_runs_ordered(s, k + 1, l);
    }
    assert(line_runs(s, 0)[k + 1].0 == line_runs(s, 0)[k].1 + 1);
}

/// Byte ranges of the units of a text: one per character, per maximal run of non-whitespace, or
/// per line. Offsets are cut to 32 bits.
pub fn unit_boundaries(source: &str, split: TextSplit) -> (r: Vec<(u32, u32)>)
    ensures
        r@ == unit_ranges(source@, split),
{
    let scanned = scan(source);
    let ghost s = source@;
    let n: usize = scanned.chars.len();
    let mut units: Vec<(u32, u32)> = Vec::new();
    match split {
        TextSplit::Char => {
            let mut i: usize = 0;
            while i < n
                invariant
                    scanned.of(s),
                    n == s.len(),
                    i <= n,
                    units@ == Seq::new(i as nat, |k: int| byte_unit(s, (k, k + 1))),
                decreases n - i,
            {
                #[verifier::truncate]
                let start: u32 = scanned.offsets[i] as u32;
                #[verifier::truncate]
                let end: u32 = scanned.offsets[i + 1] as u32;
                units.push((start, end));
                i = i + 1;
            }
            assert(units@ =~= unit_ranges(s, split));
        },
        TextSplit::Word => {
            let mut i: usize = 0;
            let ghost f = |run: (int, int)| byte_unit(s, run);
            while i < n
                invariant
                    scanned.of(s),
                    n == s.len(),
                    i <= n,
                    f == (|run: (int, int)| byte_unit(s, run)),
                    units@ + word_runs(s, i as int).map_values(f) == word_runs(s, 0).map_values(f),
                decreases n - i,
            {
                if is_white_space(scanned.chars[i]) {
                    i = i + 1;
                } else {
                    let mut end: usize = i + 1;
                    while end < n && !is_white_space(scanned.chars[end])
                        invariant
                            scanned.of(s),
                            n == s.len(),
                            i < end <= n,
                            word_end(s, i as int) == word_end(s, end as int),
                        decreases n - end,
                    {
                        end = end + 1;
                    }
                    #[verifier::truncate]
                    let from: u32 = scanned.offsets[i] as u32;
                    #[verifier::truncate]
                    let to: u32 = scanned.offsets[end] as u32;
                    let ghost before = units@;
                    units.push((from, to));
                    assert(word_end(s, i as int) == end);
                    assert(word_runs(s, i as int) == seq![(i as int, end as int)] + word_runs(
                        s,
                        end as int,
                    ));
                    assert(units@ + word_runs(s, end as int).map_values(f) =~= before + word_runs(
                        s,
                        i as int,
                    ).map_values(f));
                    i = end;
                }
            }
            assert(units@ =~= unit_ranges(s, split));
        },
        TextSplit::Line => {
            let mut start: usize = 0;
            let mut i: usize = 0;
            let ghost f = |run: (int, int)| byte_unit(s, run);
            while i < n
                invariant
                    scanned.of(s),
                    n == s.len(),
                    start <= i <= n,
                    line_end(s, start as int) == line_end(s, i as int),
                    f == (|run: (int, int)| byte_unit(s, run)),
                    units@ + line_runs(s, start as int).map_values(f) == line_runs(s, 0).map_values(f),
                decreases n - i,
            {
                if scanned.chars[i] == '\n' {
                    #[verifier::truncate]
                    let from: u32 = scanned.offsets[start] as u32;
                    #[verifier::truncate]
                    let to: u32 = scanned.offsets[i] as u32;
                    let ghost before = units@;
                    units.push((from, to));
                    assert(line_end(s, start as int) == i);
                    assert(line_runs(s, start as int) == seq![(start as int, i as int)] + line_runs(
                        s,
                        i as int + 1,
                    ));
                    assert(units@ + line_runs(s, i as int + 1).map_values(f) =~= before + line_runs(
                        s,
                        start as int,
                    ).map_values(f));
                    start = i + 1;
                }
                i = i + 1;
            }
            #[verifier::truncate]
            let from: u32 = scanned.offsets[start] as u32;
            #[verifier::truncate]
            let to: u32 = scanned.offsets[n] as u32;
            let ghost before = units@;
            units.push((from, to));
            assert(line_runs(s, start as int) =~= seq![(start as int, n as int)]);
            assert(units@ =~= before + line_runs(s, start as int).map_values(f));
        },
    }
    units
}

} // verus!
