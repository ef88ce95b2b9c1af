use valle_motion::clusters::ClusterReject;
use valle_motion::content::{FieldChange, FieldRuns};
use valle_motion::digest::ContentDigest;
use valle_motion::emitter::{EmitError, Emitter};
use valle_motion::expr::{
    geometry_eval_policy, subtree_reads_runtime_inputs, ContextInput, Expr, ExprId, ExprType,
};
use valle_motion::filters::{resolve_advanced_filters, resolve_backdrop_advanced_filters};
use valle_motion::frame::affine_from_glass_matrix;
use valle_motion::glyphs::{
    glyph_ink, glyph_source, is_inkless, span_anchors, GlyphAddress, GlyphInk, InlineSpan,
    ShapedRun, SpanAnchor, TextContext,
};
use valle_motion::gradient::{
    deterministic_linear_direction, gradient_paint, DirectionStep, GradientAxis, GradientGeometry,
    HorizontalKeyword, LinearGradientDirection, SpreadMode, VerticalKeyword,
};
use valle_motion::artifact::{ChildRange, NodeKind, SceneNode, StyleBinding, StyleValue};
use valle_motion::layout_error::LayoutError;
use valle_motion::path::{GeometryEvalPolicy, PathData, PathElement, PathVerb};
use valle_motion::planes::{
    child_space, css_3d_plane, css_3d_style, ChildSpace, Css3dOp, PlaneFacts, PlaneRecord,
};
use valle_motion::projection::{TextTransform, WhiteSpaceCollapse};
use valle_motion::recording::{
    Affine, BlendMode, Command, Corners, FillRule, FilterOp, Paint, PathRef, Point, Rect, Rgba,
    StrokeRef,
};
use valle_motion::runs::tint;
use valle_motion::scalar::Scalar;
use valle_motion::scene_frames::{
    mesh_controls, scene3d_frame, scene3d_key, scene3d_keys, CanonicalError, MeshControls,
    Scene3DFrameRequest, Scene3DRequest,
};
use valle_motion::shell::{
    blend_of, clip_for, fnv1a, grain_unit, Background, Border, BorderStyle, BoxShadow, CssBlend,
    CssFilter, RingPaths, Side, Tile,
};
use valle_motion::text::decimal;
use valle_motion::typing::validate_exprs;
use valle_motion::value::{ControlsSchema, MotionValue};

fn num(x: f64) -> Scalar {
    Scalar::from_bits(x.to_bits())
}

fn identity() -> Affine {
    Affine {
        a: num(1.0),
        b: num(0.0),
        c: num(0.0),
        d: num(1.0),
        x: num(0.0),
        y: num(0.0),
    }
}

fn rect() -> Rect {
    Rect {
        x: num(0.0),
        y: num(0.0),
        width: num(40.0),
        height: num(20.0),
    }
}

fn radii(r: f64) -> Corners {
    let p = Point {
        x: num(r),
        y: num(r),
    };
    Corners {
        top_left: p,
        top_right: p,
        bottom_right: p,
        bottom_left: p,
    }
}

fn red() -> Rgba {
    Rgba {
        r: 255,
        g: 0,
        b: 0,
        a: 255,
    }
}

#[test]
fn open_groups_are_closed_and_the_cursor_restored() {
    let mut e = Emitter::new(identity());
    let mut open = e.nothing_open();
    let moved = Affine {
        x: num(5.0),
        ..identity()
    };
    e.push(Command::BeginTransform { transform: moved });
    e.cur = moved;
    open.depth = 1;
    e.push(Command::Shadow { shadow: 3 });
    e.end(open);
    assert_eq!(
        e.commands,
        vec![
            Command::BeginTransform { transform: moved },
            Command::Shadow { shadow: 3 },
            Command::End
        ]
    );
    assert_eq!(e.cur, identity());
}

#[test]
fn a_report_is_kept_once_per_node_and_feature() {
    let mut e = Emitter::new(identity());
    e.unsupported("card", "outline");
    e.unsupported("card", "outline");
    e.unsupported("other", "outline");
    let notes: Vec<_> = e.notes.iter().map(|n| n.node.as_str()).collect();
    assert_eq!(notes, ["card", "other"]);
}

#[test]
fn an_svg_filter_is_reported_and_left_out() {
    let mut e = Emitter::new(identity());
    let blur = FilterOp::Blur { sigma: num(2.0) };
    let ops = e.filter_ops("card", &vec![CssFilter::Url, CssFilter::Op(blur), CssFilter::Url]);
    assert_eq!(ops, vec![blur]);
    assert_eq!(e.notes.len(), 1);
    let range = e.intern_filters(&ops);
    assert_eq!((range.start, range.end), (0, 1));
}

#[test]
fn shadows_are_painted_on_their_side() {
    let mut e = Emitter::new(identity());
    let shadows = vec![
        BoxShadow {
            inset: false,
            shadow: 1,
        },
        BoxShadow {
            inset: true,
            shadow: 2,
        },
    ];
    e.box_shadows(&shadows, true);
    assert_eq!(e.commands, vec![Command::Shadow { shadow: 2 }]);
}

#[test]
fn backgrounds_clip_their_tiles() {
    let mut e = Emitter::new(identity());
    let tile = |paint| Tile {
        path: PathRef(7),
        paint,
    };
    e.background(
        "card",
        &Background {
            shape: PathRef(1),
            color: red(),
            rect: rect(),
            radii: radii(0.0),
            rows: Some(vec![vec![
                tile(Some(Paint::Gradient(0))),
                tile(None),
                tile(Some(Paint::Gradient(1))),
            ]]),
        },
    );
    let fill = |path, fill| Command::Path {
        path,
        fill_rule: FillRule::NonZero,
        fill: Some(fill),
        stroke: None,
    };
    assert_eq!(
        e.commands,
        vec![
            fill(PathRef(1), Paint::Solid(red())),
            Command::BeginClipRect { rect: rect() },
            fill(PathRef(7), Paint::Gradient(0)),
            Command::End
        ]
    );
    assert_eq!(
        e.notes[0].what,
        "background-image (URL or unsupported gradient)"
    );
}

#[test]
fn rounded_boxes_clip_round() {
    assert_eq!(
        clip_for(rect(), radii(3.0)),
        Command::BeginClipRoundRect {
            rect: rect(),
            radii: radii(3.0)
        }
    );
    assert_eq!(
        clip_for(rect(), radii(0.0)),
        Command::BeginClipRect { rect: rect() }
    );
}

fn side(width: f64, style: BorderStyle) -> Side {
    Side {
        width: num(width),
        color: red(),
        style,
        polygon: Some(PathRef(4)),
        ring: PathRef(5),
    }
}

fn border(left: f64, style: BorderStyle) -> Border {
    Border {
        top: side(1.0, style),
        right: side(1.0, style),
        bottom: side(1.0, style),
        left: side(left, style),
        radii: radii(0.0),
        ring: RingPaths {
            full: PathRef(8),
            outer: PathRef(9),
            inner: PathRef(10),
            center: PathRef(11),
            dashed: StrokeRef(1),
            dotted: StrokeRef(2),
        },
    }
}

#[test]
fn uneven_borders_are_painted_side_by_side() {
    let mut e = Emitter::new(identity());
    e.border("card", &border(2.0, BorderStyle::Solid));
    assert_eq!(e.commands.len(), 4);
    assert!(e.notes.is_empty());
    let mut dashed = Emitter::new(identity());
    dashed.border("card", &border(2.0, BorderStyle::Dashed));
    assert!(dashed.commands.is_empty());
    assert_eq!(
        dashed.notes[0].what,
        "non-solid borders with different per-edge widths or colors"
    );
}

#[test]
fn normal_blending_needs_no_group() {
    assert_eq!(blend_of(CssBlend::Normal), None);
    assert_eq!(
        blend_of(CssBlend::Mode(BlendMode::Multiply)),
        Some(BlendMode::Multiply)
    );
    assert_eq!(blend_of(CssBlend::Other), None);
}

#[test]
fn grain_is_seeded_by_the_key() {
    assert_eq!(fnv1a(b""), 0xcbf2_9ce4_8422_2325);
    assert_eq!(fnv1a(b"a"), 12642967877113212044);
    let mut state = 1;
    let sample = grain_unit(&mut state);
    assert_eq!(state, 6364136223846793006);
    assert_eq!(sample, 6364136223846793006 >> 33);
}

#[test]
fn a_shadow_fades_with_its_text() {
    let half = Rgba { a: 128, ..red() };
    assert_eq!(tint(red(), 255), red());
    assert_eq!(tint(half, 255), half);
    assert_eq!(tint(red(), 0).a, 0);
}

#[test]
fn a_field_may_not_be_entered_again() {
    let mut runs = FieldRuns::new();
    let (a, b) = (Some("a".to_owned()), Some("b".to_owned()));
    assert_eq!(
        runs.enter(&a, &None).unwrap(),
        FieldChange {
            close: false,
            open: true
        }
    );
    assert_eq!(
        runs.enter(&a, &None).unwrap(),
        FieldChange {
            close: false,
            open: false
        }
    );
    assert_eq!(
        runs.enter(&b, &None).unwrap(),
        FieldChange {
            close: true,
            open: true
        }
    );
    let error = runs.enter(&a, &None).unwrap_err();
    assert_eq!(
        error.message(),
        "DrawProgram emission failed: GlassField 'a' is split into discontiguous painter-order runs"
    );
}

#[test]
fn emission_errors_read_as_sentences() {
    assert_eq!(
        EmitError::RootLayout("gone".into()).message(),
        "root layout unavailable: gone"
    );
    assert_eq!(
        EmitError::Scene("bad".into()).message(),
        "stacking contexts failed: bad"
    );
    assert_eq!(
        EmitError::BadStyle {
            node: "card".into(),
            reason: "no".into()
        }
        .message(),
        "node `card`: no"
    );
}

/// A font file with the three tables that a face needs, and one glyph without any ink.
fn empty_font() -> Vec<u8> {
    let mut head = vec![0u8; 54];
    head[0..4].copy_from_slice(&[0, 1, 0, 0]);
    head[18..20].copy_from_slice(&1000u16.to_be_bytes());
    let mut hhea = vec![0u8; 36];
    hhea[0..4].copy_from_slice(&[0, 1, 0, 0]);
    let maxp = vec![0, 0, 0x50, 0, 0, 1];
    let tables = [(*b"head", head), (*b"hhea", hhea), (*b"maxp", maxp)];
    let mut out = vec![0, 1, 0, 0, 0, 3, 0, 0, 0, 0, 0, 0];
    let mut at = 12 + 16 * 3;
    let mut body = Vec::new();
    for (tag, data) in &tables {
        out.extend(tag);
        out.extend([0, 0, 0, 0]);
        out.extend((at as u32).to_be_bytes());
        out.extend((data.len() as u32).to_be_bytes());
        body.extend(data);
        while body.len() % 4 != 0 {
            body.push(0);
        }
        at = 12 + 16 * 3 + body.len();
    }
    out.extend(body);
    out
}

#[test]
fn a_font_answers_for_the_ink_of_its_glyphs() {
    let ink = glyph_ink(&empty_font(), 0, 0);
    assert_eq!(
        ink,
        GlyphInk {
            color: Some(false),
            outline: Some(false),
            raster: Some(false),
            svg: Some(false)
        }
    );
    assert!(is_inkless(&ink));
    let unknown = glyph_ink(b"not a font", 0, 0);
    assert_eq!(
        unknown,
        GlyphInk {
            color: None,
            outline: None,
            raster: None,
            svg: None
        }
    );
    assert!(!is_inkless(&unknown));
}

#[test]
fn directions_of_gradients_are_exact_on_the_axes() {
    let exact = |x, y| DirectionStep::Exact(num(x), num(y));
    let at = |degrees| deterministic_linear_direction(LinearGradientDirection::Angle(num(degrees)));
    assert_eq!(at(90.0), exact(1.0, 0.0));
    assert_eq!(at(180.0), exact(0.0, 1.0));
    assert_eq!(at(30.0), DirectionStep::Turn(num(30.0)));
    assert!(matches!(
        deterministic_linear_direction(LinearGradientDirection::Keyword(
            Some(HorizontalKeyword::Right),
            Some(VerticalKeyword::Top)
        )),
        DirectionStep::Diagonal(_, _)
    ));
}

#[test]
fn repeating_gradients_need_a_period() {
    let linear = |period: f64| GradientGeometry::Linear {
        drawable: true,
        stops: 2,
        first: num(5.0),
        period: num(period),
        axis: num(100.0),
    };
    assert_eq!(
        gradient_paint(linear(20.0), true),
        Some(GradientAxis {
            start: num(5.0),
            extent: num(20.0),
            spread: SpreadMode::Repeat
        })
    );
    assert_eq!(gradient_paint(linear(0.0), true), None);
    assert_eq!(
        gradient_paint(linear(0.0), false),
        Some(GradientAxis {
            start: num(0.0),
            extent: num(100.0),
            spread: SpreadMode::Pad
        })
    );
}

fn controls() -> ControlsSchema {
    ControlsSchema {
        props: vec![],
        cues: vec![],
    }
}

#[test]
fn admission_types_expressions_and_reports_the_rest() {
    let exprs = vec![
        Expr::Const {
            value: MotionValue::Number(num(1.0)),
        },
        Expr::Context {
            input: ContextInput::LocalFrame,
        },
        Expr::Add {
            lhs: ExprId(0),
            rhs: ExprId(1),
        },
        Expr::Neg { input: ExprId(9) },
        Expr::Prop {
            name: "missing".into(),
        },
    ];
    let mut errors = vec![];
    let admission = validate_exprs(&exprs, &controls(), &mut errors);
    assert_eq!(admission.types[2], Some(ExprType::Number));
    assert_eq!(admission.admitted, vec![true, true, true, false, false]);
    let paths: Vec<_> = errors.iter().map(|e| e.path.as_str()).collect();
    assert!(paths.contains(&"/exprs/3"), "{errors:?}");
    assert!(paths.contains(&"/exprs/4/name"), "{errors:?}");
    assert!(!paths.contains(&"/exprs/2"), "{errors:?}");
}

fn styled(styles: Vec<(&str, MotionValue)>) -> SceneNode {
    SceneNode {
        key: "card".into(),
        kind: NodeKind::Box,
        space: None,
        class_names: vec![],
        styles: styles
            .into_iter()
            .map(|(property, value)| StyleBinding {
                property: property.into(),
                value: StyleValue::Static { value },
            })
            .collect(),
        visibility: None,
        children: ChildRange { start: 0, end: 0 },
    }
}

fn number(x: f64) -> MotionValue {
    MotionValue::Number(num(x))
}

fn displaced(seed: f64) -> SceneNode {
    styled(vec![
        ("motion-displacement-seed", number(seed)),
        (
            "motion-displacement-frequency",
            MotionValue::Point(Point {
                x: num(0.02),
                y: num(0.03),
            }),
        ),
        ("motion-displacement-scale", number(12.0)),
        ("motion-displacement-octaves", number(2.0)),
        (
            "motion-displacement-mode",
            MotionValue::Enum("turbulence".into()),
        ),
    ])
}

#[test]
fn a_displacement_is_one_filter_step() {
    let ops = resolve_advanced_filters(&displaced(7.0), &vec![], 0).unwrap();
    assert_eq!(
        ops,
        vec![FilterOp::NoiseDisplacement {
            frequency_x: num(0.02),
            frequency_y: num(0.03),
            octaves: 2,
            seed: 7,
            scale: num(12.0),
            turbulence: true
        }]
    );
    assert!(matches!(
        resolve_advanced_filters(&displaced(7.5), &vec![], 0),
        Err(LayoutError::BadStyle { .. })
    ));
    assert_eq!(
        resolve_backdrop_advanced_filters(&displaced(7.0), &vec![], 0).unwrap(),
        vec![]
    );
}

#[test]
fn a_turned_plane_is_hidden_from_behind() {
    let node = styled(vec![
        ("rotate-y", number(180.0)),
        (
            "backface-visibility",
            MotionValue::Enum("hidden".into()),
        ),
    ]);
    let style = css_3d_style(&node, &vec![], 0).unwrap();
    assert!(style.backface_hidden);
    assert_eq!(style.ops, vec![Css3dOp::RotateY(num(180.0))]);
    assert_eq!(child_space(&style), ChildSpace::Flat);
    let facts = |signed_area: f64| PlaneFacts {
        corners: true,
        distances: None,
        signed_area: num(signed_area),
        depth: Some(num(0.0)),
    };
    assert!(matches!(
        css_3d_plane(&style, false, rect(), facts(-800.0), "card"),
        Ok(PlaneRecord::Projected { hidden: true, .. })
    ));
    assert!(matches!(
        css_3d_plane(&style, false, rect(), facts(800.0), "card"),
        Ok(PlaneRecord::Projected { hidden: false, .. })
    ));
}

#[test]
fn numbers_are_written_in_decimal() {
    assert_eq!(decimal(0), "0");
    assert_eq!(decimal(18446744073709551615), "18446744073709551615");
}

fn text_context(key: Option<&str>, source: &str) -> Option<TextContext> {
    Some(TextContext {
        key: key.map(str::to_owned),
        source: Some(source.to_owned()),
        collapse: WhiteSpaceCollapse::Preserve,
        transform: TextTransform::Verbatim,
        tab_spaces: 4,
    })
}

#[test]
fn spans_take_their_authored_items_in_order() {
    let text = |range: core::ops::Range<usize>, text: &str| InlineSpan::Text {
        range,
        text: text.to_owned(),
    };
    let anchors = span_anchors(
        &vec![
            text(0..2, "ab"),
            InlineSpan::DirectionMark,
            InlineSpan::Other,
            text(5..7, "cd"),
            text(7..8, "e"),
        ],
        &vec![
            text_context(Some("first"), "ab"),
            None,
            text_context(Some("second"), "cd"),
            text_context(None, "e"),
        ],
    );
    let named = |i: usize| anchors[i].as_ref().map(|a| a.key.as_str()).map_err(|e| *e);
    assert_eq!(named(0), Ok("first"));
    assert_eq!(named(1), Err(ClusterReject::Unattributed));
    assert_eq!(named(3), Ok("second"));
    assert_eq!(named(4), Err(ClusterReject::Unattributed));
}

fn shaped(cluster: core::ops::Range<usize>, font_data: Vec<u8>) -> ShapedRun {
    ShapedRun {
        glyph_ids: vec![0],
        source_span: Some(0),
        cluster_ranges: vec![cluster],
        text_range: 0..2,
        font_data,
        font_index: 0,
    }
}

#[test]
fn a_mark_outside_its_run_is_silent_only_without_ink() {
    let anchors = || {
        vec![Ok(SpanAnchor {
            key: "card".to_owned(),
            range: 0..2,
            projection: None,
        })]
    };
    let inline = "ab\u{200e}";
    match glyph_source(&shaped(1..2, empty_font()), &anchors(), inline) {
        GlyphAddress::Addressed { key, ranges } => {
            assert_eq!(key, "card");
            assert_eq!((ranges[0].start, ranges[0].end), (1, 2));
        }
        _ => panic!("addressed"),
    }
    assert!(matches!(
        glyph_source(&shaped(2..5, empty_font()), &anchors(), inline),
        GlyphAddress::Silent
    ));
    assert!(matches!(
        glyph_source(&shaped(2..5, b"not a font".to_vec()), &anchors(), inline),
        GlyphAddress::Rejected(ClusterReject::OutOfRun)
    ));
}

#[test]
fn only_affine_matrices_are_read() {
    let m = [1.0, 2.0, 3.0, 4.0, 5.0, 6.0, 0.0, 0.0, 1.0].map(num);
    let read = affine_from_glass_matrix(&m).unwrap();
    assert_eq!(
        read,
        Affine {
            a: num(1.0),
            b: num(4.0),
            c: num(2.0),
            d: num(5.0),
            x: num(3.0),
            y: num(6.0),
        }
    );
    for (at, value) in [(0, f64::NAN), (6, 1e-3), (8, 2.0), (2, 1e300)] {
        let mut bad = m;
        bad[at] = num(value);
        assert_eq!(affine_from_glass_matrix(&bad), None);
    }
}

fn canonical(request: &Scene3DFrameRequest) -> Result<Vec<u8>, CanonicalError> {
    if request.frame.is_empty() {
        return Err(CanonicalError {
            reason: "not finite".to_owned(),
        });
    }
    Ok([request.scene.clone(), vec![0], request.frame.clone()].concat())
}

#[test]
fn a_generated_texture_is_found_by_its_address() {
    let request = |scene: &[u8], frame: &[u8]| Scene3DRequest {
        provider_key: "p".to_owned(),
        scene: scene.to_vec(),
        frame: frame.to_vec(),
    };
    let unbound = |_: &String| None;
    let (one, first) =
        scene3d_frame(&request(b"s", b"one"), &vec![], 4, 2, &unbound, &canonical).unwrap();
    let (two, second) =
        scene3d_frame(&request(b"s", b"two"), &vec![], 4, 2, &unbound, &canonical).unwrap();
    assert_eq!((one.width, one.height), (4, 2));
    assert_eq!(one.canonical_bytes(&canonical).unwrap(), b"s\0one");
    let mut tagged = b"valle-scene3d-frame-request-v1\0".to_vec();
    tagged.extend(b"s\0one");
    let content = ContentDigest::of_bytes(&tagged);
    assert_eq!(one.content_digest(&canonical).unwrap(), content);
    assert_eq!(first, format!("scene3d-frame://{}", content.as_hex()));
    let frames = vec![one, two];
    let keys = scene3d_keys(&canonical, &frames).unwrap();
    let key = scene3d_key(&keys, &second).unwrap();
    assert_eq!(key.content, frames[1].content_digest(&canonical).unwrap());
    assert_eq!(key.topology, frames[0].topology_digest());
    assert_ne!(key.content, content);
    assert_eq!(ContentDigest::from_bytes(key.content.bytes), key.content);
    assert!(scene3d_key(&keys, "scene3d-frame://").is_none());
}

#[test]
fn a_request_without_canonical_form_is_refused() {
    let request = Scene3DRequest {
        provider_key: "p".to_owned(),
        scene: b"s".to_vec(),
        frame: vec![],
    };
    let refused = Scene3DFrameRequest::new(&request, 4, 2, vec![], &canonical);
    assert_eq!(refused.err().unwrap().reason, "not finite");
}

#[test]
fn a_request_binds_the_controls_that_are_known() {
    let request = Scene3DRequest {
        provider_key: "p".to_owned(),
        scene: b"s".to_vec(),
        frame: b"f".to_vec(),
    };
    let controls = mesh_controls(&vec![
        MeshControls {
            model: "rock".to_owned(),
            texture: Some("moss".to_owned()),
        },
        MeshControls {
            model: "rock".to_owned(),
            texture: None,
        },
        MeshControls {
            model: "lost".to_owned(),
            texture: None,
        },
    ]);
    assert_eq!(controls, ["rock", "moss", "rock", "lost"]);
    let known = |name: &String| match name.as_str() {
        "lost" => None,
        other => Some([other.len() as u8 + other.as_bytes()[0]; 32]),
    };
    let (frame, _) = scene3d_frame(&request, &controls, 1, 1, &known, &canonical).unwrap();
    let names: Vec<&str> = frame
        .resource_bindings
        .iter()
        .map(|b| b.key.as_str())
        .collect();
    assert_eq!(names, ["moss", "rock"]);
    assert_eq!(frame.resource_bindings[1].value.bytes, [4 + b'r'; 32]);
}

#[test]
fn geometry_is_prepared_where_no_frame_changes_it() {
    let point = |x: f64| MotionValue::Point(Point {
        x: num(x),
        y: num(0.0),
    });
    let exprs = vec![
        Expr::Const { value: point(0.0) },
        Expr::Const { value: point(1.0) },
        Expr::PathLine {
            points: vec![ExprId(0), ExprId(1)],
        },
        Expr::Context {
            input: ContextInput::LocalFrame,
        },
        Expr::MakePoint {
            x: ExprId(3),
            y: ExprId(3),
        },
        Expr::PathLine {
            points: vec![ExprId(0), ExprId(4)],
        },
    ];
    assert!(!subtree_reads_runtime_inputs(&exprs, ExprId(2)));
    assert!(subtree_reads_runtime_inputs(&exprs, ExprId(5)));
    assert_eq!(
        geometry_eval_policy(&exprs, ExprId(2)),
        Some(GeometryEvalPolicy::PrepareCached)
    );
    assert_eq!(
        geometry_eval_policy(&exprs, ExprId(5)),
        Some(GeometryEvalPolicy::FrameExpr)
    );
    assert_eq!(geometry_eval_policy(&exprs, ExprId(9)), None);
}

#[test]
fn a_path_is_drawn_verb_by_verb() {
    let at = |x: f64| Point {
        x: num(x),
        y: num(0.0),
    };
    let path = PathData::new(
        vec![PathVerb::Move, PathVerb::Quad, PathVerb::Close],
        vec![at(0.0), at(1.0), at(2.0)],
    )
    .unwrap();
    assert_eq!(
        path.path_ref(),
        Some(vec![
            PathElement::MoveTo(at(0.0)),
            PathElement::QuadTo(at(1.0), at(2.0)),
            PathElement::Close,
        ])
    );
    assert_eq!(PathData::new(vec![], vec![]).unwrap().path_ref(), None);
}
