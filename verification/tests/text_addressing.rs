use valle_motion::clusters::{checked_cluster_ranges, project_cluster_ranges, ClusterReject, Span};
use valle_motion::digest::{default_font_naming, ContentDigest};
use valle_motion::projection::{text_source_projection, TextTransform, WhiteSpaceCollapse};
use valle_motion::scalar::Scalar;
use valle_motion::shell::{paper_grain_counts, PAPER_GRAIN_MAX_FIBERS, PAPER_GRAIN_MAX_SPECKS};
use valle_motion::units::{unit_boundaries, TextSplit};

fn num(x: f64) -> Scalar {
    Scalar::from_bits(x.to_bits())
}

fn span(start: u32, end: u32) -> Span {
    Span { start, end }
}

#[test]
fn default_font_family_carries_the_exact_font_content_digest() {
    let bytes = b"font bytes";
    let face = default_font_naming(bytes, 3, num(24.0));
    assert_eq!(
        face.family,
        format!("valle-face-{}-3", ContentDigest::of_bytes(bytes).as_hex())
    );
}

#[test]
fn a_digest_is_the_sha256_of_its_bytes() {
    assert_eq!(
        ContentDigest::of_bytes(b"abc").as_hex(),
        "ba7816bf8f01cfea414140de5dae2223b00361a396177a9cb410ff61f20015ad"
    );
}

#[test]
fn a_font_that_does_not_parse_gets_the_regular_style() {
    let face = default_font_naming(b"font bytes", 0, num(24.0));
    assert_eq!(face.weight, 400);
    assert!(!face.italic);
    assert_eq!(face.size, num(24.0));
}

#[test]
fn cjk_clusters_pass_through_as_node_local_byte_spans() {
    // A standalone text span uses identical concatenated and node-relative offsets.
    assert_eq!(
        checked_cluster_ranges(&[0..3, 3..6], 2, &(0..6), &(0..6)),
        Ok(vec![span(0, 3), span(3, 6)])
    );
}

#[test]
fn a_sibling_span_is_rebased_onto_its_own_node() {
    // Sibling text shares one shaping-input range, but the second node's first character must
    // still begin at its own byte zero.
    assert_eq!(
        checked_cluster_ranges(&[6..9, 9..12, 12..15], 3, &(0..15), &(6..15)),
        Ok(vec![span(0, 3), span(3, 6), span(6, 9)])
    );
}

#[test]
fn sibling_runs_sharing_one_shaping_range_each_rebase_onto_their_own_node() {
    // Anonymous inline blocks may contain several spans sharing one shaping-input range.
    for (span_range, cluster) in [(0..1, 0..1), (1..2, 1..2), (2..3, 2..3)] {
        assert_eq!(
            checked_cluster_ranges(core::slice::from_ref(&cluster), 1, &(0..3), &span_range),
            Ok(vec![span(0, 1)]),
            "span {span_range:?} bytes must map to its own 0..1 range"
        );
    }
}

#[test]
fn a_cluster_leaking_into_the_neighbouring_node_is_still_rejected() {
    // Reject clusters extending into a neighboring span despite a shared shaping range.
    assert_eq!(
        checked_cluster_ranges(core::slice::from_ref(&(0..2)), 1, &(0..3), &(1..2)),
        Err(ClusterReject::OutOfRun)
    );
}

#[test]
fn ligature_clusters_may_be_wider_than_one_char() {
    // One ligature glyph may cover multiple source characters.
    assert_eq!(
        checked_cluster_ranges(&[0..2, 2..3], 2, &(0..3), &(0..3)),
        Ok(vec![span(0, 2), span(2, 3)])
    );
}

#[test]
fn a_window_locked_onto_the_wrong_occurrence_is_rejected() {
    // Repeated glyph IDs must not select source offsets from an earlier differently styled span.
    assert_eq!(
        checked_cluster_ranges(core::slice::from_ref(&(0..1)), 1, &(1..2), &(0..2)),
        Err(ClusterReject::OutOfRun)
    );
}

#[test]
fn a_run_reaching_outside_its_own_span_is_rejected() {
    // Reject source ranges assigned to the wrong node.
    assert_eq!(
        checked_cluster_ranges(core::slice::from_ref(&(3..6)), 1, &(3..6), &(6..15)),
        Err(ClusterReject::OutOfRun)
    );
}

#[test]
fn upstream_unknown_and_arity_drift_are_both_rejected() {
    assert_eq!(
        checked_cluster_ranges(&[], 2, &(0..6), &(0..6)),
        Err(ClusterReject::Unaligned)
    );
    assert_eq!(
        checked_cluster_ranges(core::slice::from_ref(&(0..3)), 2, &(0..6), &(0..6)),
        Err(ClusterReject::Arity)
    );
}

#[test]
fn offsets_past_the_side_table_are_rejected() {
    let far = u32::MAX as usize + 10;
    assert_eq!(
        checked_cluster_ranges(core::slice::from_ref(&(0..far)), 1, &(0..far), &(0..far)),
        Err(ClusterReject::Overflow)
    );
}

#[test]
fn every_reject_reason_is_distinct_so_the_bill_is_readable() {
    let reasons = [
        ClusterReject::Unaligned.reason(),
        ClusterReject::Arity.reason(),
        ClusterReject::OutOfRun.reason(),
        ClusterReject::Overflow.reason(),
        ClusterReject::Unattributed.reason(),
        ClusterReject::NotVerbatim.reason(),
    ];
    for (i, a) in reasons.iter().enumerate() {
        assert!(
            reasons[i + 1..].iter().all(|b| a != b),
            "duplicate reason: {a}"
        );
    }
}

#[test]
fn preserved_tabs_project_generated_spaces_back_to_the_authored_tab() {
    let projection = text_source_projection(
        "a\tb",
        "a    b",
        WhiteSpaceCollapse::Preserve,
        TextTransform::Verbatim,
        4,
    )
    .unwrap()
    .unwrap();
    assert_eq!(
        project_cluster_ranges(&[span(1, 5), span(5, 6)], &projection),
        Ok(vec![span(1, 2), span(2, 3)])
    );
}

#[test]
fn collapsed_spaces_project_back_to_the_full_authored_runs() {
    let projection = text_source_projection(
        "7 experiments  ·  23",
        "7 experiments · 23",
        WhiteSpaceCollapse::Collapse,
        TextTransform::Verbatim,
        8,
    )
    .unwrap()
    .unwrap();
    assert_eq!(
        project_cluster_ranges(&[span(13, 14), span(14, 16), span(16, 17)], &projection),
        Ok(vec![span(13, 15), span(15, 17), span(17, 19)])
    );
}

#[test]
fn collapsed_leading_and_trailing_space_keeps_visible_offsets() {
    let projection = text_source_projection(
        "  alpha  ",
        "alpha",
        WhiteSpaceCollapse::Collapse,
        TextTransform::Verbatim,
        8,
    )
    .unwrap()
    .unwrap();
    assert_eq!(
        project_cluster_ranges(&[span(0, 1), span(4, 5)], &projection),
        Ok(vec![span(2, 3), span(6, 7)])
    );
}

#[test]
fn an_ellipsized_verbatim_prefix_keeps_authored_offsets() {
    let projection = text_source_projection(
        "abcdefgh",
        "abc",
        WhiteSpaceCollapse::Collapse,
        TextTransform::Verbatim,
        8,
    )
    .unwrap();
    assert!(projection.is_none());
    assert_eq!(
        checked_cluster_ranges(&[0..1, 2..3], 2, &(0..3), &(0..3)),
        Ok(vec![span(0, 1), span(2, 3)])
    );
}

#[test]
fn a_case_transform_is_not_verbatim() {
    assert_eq!(
        text_source_projection(
            "abc",
            "ABC",
            WhiteSpaceCollapse::Collapse,
            TextTransform::Uppercase,
            8,
        ),
        Err(ClusterReject::NotVerbatim)
    );
}

fn grain_counts(area: f64, amount: f64, remaining: usize) -> (usize, usize) {
    let specks = ((area / 110.0) * amount).round() as usize;
    let fibers = ((area / 380.0) * amount).round() as usize;
    paper_grain_counts(num(area), specks, fibers, remaining)
}

#[test]
fn paper_grain_shares_the_remaining_display_instance_budget() {
    let area = 4_000_000.0;
    let (specks, fibers) = grain_counts(area, 1.0, usize::MAX);
    assert_eq!(specks, PAPER_GRAIN_MAX_SPECKS);
    assert_eq!(fibers, PAPER_GRAIN_MAX_FIBERS);

    let (specks, fibers) = grain_counts(area, 1.0, 1_000);
    assert_eq!(specks + fibers, 1_000);
    assert!(specks > 0 && fibers > 0);

    assert_eq!(grain_counts(area, 1.0, 0), (0, 0));
    let (capped_specks, capped_fibers) = grain_counts(area, 1.0, 99_000);
    assert_eq!(
        capped_specks + capped_fibers,
        PAPER_GRAIN_MAX_SPECKS + PAPER_GRAIN_MAX_FIBERS
    );

    let remaining_after_reserved = 100_000usize.saturating_sub(99_000);
    let (specks, fibers) = grain_counts(area, 1.0, remaining_after_reserved);
    assert_eq!(specks + fibers, remaining_after_reserved);
}

fn slice<'a>(source: &'a str, split: TextSplit) -> Vec<&'a str> {
    unit_boundaries(source, split)
        .into_iter()
        .map(|(start, end)| &source[start as usize..end as usize])
        .collect()
}

#[test]
fn char_units_are_scalars_not_bytes() {
    // CJK characters occupy multiple bytes; character splitting must preserve valid Unicode
    // boundaries.
    assert_eq!(slice("订单a", TextSplit::Char), ["订", "单", "a"]);
}

#[test]
fn word_units_skip_whitespace_entirely() {
    // Whitespace does not form a word unit or affect stagger spacing.
    assert_eq!(
        slice("  hello   world  ", TextSplit::Word),
        ["hello", "world"]
    );
    assert_eq!(slice("单词 之间", TextSplit::Word), ["单词", "之间"]);
}

#[test]
fn words_end_at_any_white_space_of_unicode() {
    assert_eq!(slice("a\u{3000}b\u{2003}c", TextSplit::Word), ["a", "b", "c"]);
    assert_eq!(slice("a\u{200b}b", TextSplit::Word), ["a\u{200b}b"]);
    for c in '\0'..=char::MAX {
        let text = format!("a{c}b");
        let words = if c.is_whitespace() { 2 } else { 1 };
        assert_eq!(unit_boundaries(&text, TextSplit::Word).len(), words, "{c:?}");
    }
}

#[test]
fn word_units_of_blank_text_are_empty_not_one_empty_unit() {
    assert!(slice("   ", TextSplit::Word).is_empty());
}

#[test]
fn line_units_keep_blank_lines_so_indices_do_not_drift() {
    // Keep empty lines so later unit indices do not shift.
    assert_eq!(slice("a\n\nb", TextSplit::Line), ["a", "", "b"]);
    // A trailing newline creates a final empty unit.
    assert_eq!(slice("a\n", TextSplit::Line), ["a", ""]);
    // Text without a newline forms one unit.
    assert_eq!(slice("single", TextSplit::Line), ["single"]);
}

#[test]
fn line_units_leave_cr_on_the_preceding_segment() {
    // Split only at LF; retain CR in the preceding range to preserve source byte offsets.
    assert_eq!(slice("a\r\nb", TextSplit::Line), ["a\r", "b"]);
}
