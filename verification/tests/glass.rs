use valle_motion::artifact::{
    ChildRange, NodeId, NodeKind, NumberValue, SceneArtifact, SceneNode, StyleBinding, StyleValue,
    TextValue,
};
use valle_motion::continuity::{infer_continuity, RationalTime, TemporalContinuity};
use valle_motion::contours::SegmentGeometry;
use valle_motion::eval::{
    EvalInputs, Kernel, KernelError, MotionContext, PhaseContext, ResolvedProps,
};
use valle_motion::expr::{ContextInput, Expr, ExprId};
use valle_motion::foreground::{
    foreground_colors, foreground_node_paints, foreground_order, ForegroundColors, RectTask,
};
use valle_motion::glass::{
    GlassEnvironmentBinding, GlassFieldId, GlassFieldMotionBinding, GlassFieldNode,
    GlassForegroundIntent, GlassForegroundTone, GlassIdError, GlassMaterialBinding,
    GlassMergeIntent, GlassNode, GlassShapeBinding, GlassSurfaceId, GlassSurfaceMotionBinding,
};
use valle_motion::glass_frame::{PlacedPlane, GlassHost, GlassShapeKind, Placed, Quad};
use valle_motion::glass_layout::resolve_glass_layout;
use valle_motion::glass_parts::GlassSum;
use valle_motion::layout_error::LayoutError;
use valle_motion::lineage::subtree_has_unknown_foreground;
use valle_motion::membership::field_membership;
use valle_motion::order::sorted_positions;
use valle_motion::passes::eval_all;
use valle_motion::recording::{Affine, Homography, Point, Rect, Rgba};
use valle_motion::scalar::Scalar;
use valle_motion::structure::validate_glass_schema;
use valle_motion::table::Entry;
use valle_motion::tracks::{
    glass_track_expr_roots, reachable_exprs, sample_tracks, GlassTrackError, TrackEpoch,
};
use valle_motion::value::{ControlsSchema, MotionValue};

fn num(x: f64) -> Scalar {
    Scalar::from_bits(x.to_bits())
}

fn f(x: Scalar) -> f64 {
    f64::from_bits(x.to_bits())
}

fn kernel(_: &Kernel) -> Result<MotionValue, KernelError> {
    Err(KernelError::Domain)
}

fn tokens(v: &MotionValue) -> String {
    format!("{v:?}")
}

fn controls() -> ControlsSchema {
    ControlsSchema {
        props: vec![],
        cues: vec![],
    }
}

fn scene(exprs: Vec<Expr>, nodes: Vec<SceneNode>, node_children: Vec<NodeId>) -> SceneArtifact {
    SceneArtifact {
        controls: controls(),
        exprs,
        nodes,
        node_children,
        root: NodeId(0),
        camera: None,
    }
}

fn node(key: &str, kind: NodeKind, styles: Vec<StyleBinding>, start: u32, end: u32) -> SceneNode {
    SceneNode {
        key: key.into(),
        kind,
        space: None,
        class_names: vec![],
        styles,
        visibility: None,
        children: ChildRange { start, end },
    }
}

fn style(property: &str, value: MotionValue) -> StyleBinding {
    StyleBinding {
        property: property.into(),
        value: StyleValue::Static { value },
    }
}

fn number_style(property: &str, x: f64) -> StyleBinding {
    style(property, MotionValue::Number(num(x)))
}

fn lengths(artifact: &SceneArtifact) -> Vec<Scalar> {
    let of = |direction: Option<(f64, f64)>| match direction {
        Some((x, y)) => num((x * x + y * y).sqrt()),
        None => num(1.0),
    };
    artifact.nodes.iter().map(|_| of(Some((-0.35, -0.94)))).collect()
}

#[test]
fn constants_and_progress_are_c2_local_frame_is_discrete() {
    let exprs = vec![
        Expr::Const {
            value: MotionValue::Number(num(1.0)),
        },
        Expr::Context {
            input: ContextInput::LocalProgress,
        },
        Expr::Context {
            input: ContextInput::LocalFrame,
        },
        Expr::Add {
            lhs: ExprId(0),
            rhs: ExprId(1),
        },
        Expr::Add {
            lhs: ExprId(1),
            rhs: ExprId(2),
        },
    ];
    let continuity = infer_continuity(&exprs);
    assert!(matches!(continuity[0], TemporalContinuity::C2));
    assert!(matches!(continuity[1], TemporalContinuity::C2));
    assert!(matches!(continuity[2], TemporalContinuity::Discrete));
    assert!(matches!(continuity[3], TemporalContinuity::C2));
    assert!(matches!(continuity[4], TemporalContinuity::Discrete));
    assert!(continuity[3].is_track_legal());
    assert!(!continuity[4].is_track_legal());
}

#[test]
fn instants_compare_as_fractions() {
    let third = RationalTime {
        numerator: 1,
        denominator: 3,
    };
    let half = RationalTime {
        numerator: 2,
        denominator: 4,
    };
    assert!(third.earlier(half));
    assert!(!half.earlier(third));
    assert!(!half.earlier(RationalTime {
        numerator: 1,
        denominator: 2
    }));
}

fn lens(presence: NumberValue) -> GlassNode {
    GlassNode {
        surface_id: GlassSurfaceId::new("hero-lens".into()).unwrap(),
        field_id: None,
        shape: GlassShapeBinding::Circle,
        material: Some(GlassMaterialBinding::defaults()),
        environment: Some(GlassEnvironmentBinding::defaults()),
        motion: GlassSurfaceMotionBinding::independent_defaults(),
        presence,
        foreground: GlassForegroundIntent::defaults(),
    }
}

fn fixture(discrete_time: bool) -> SceneArtifact {
    let time = if discrete_time {
        Expr::Context {
            input: ContextInput::LocalFrame,
        }
    } else {
        Expr::Context {
            input: ContextInput::LocalProgress,
        }
    };
    scene(
        vec![time],
        vec![
            node("root", NodeKind::Group, vec![], 0, 1),
            node(
                "lens",
                NodeKind::Glass(lens(NumberValue::Expr { expr: ExprId(0) })),
                vec![
                    number_style("left", 10.0),
                    number_style("top", 20.0),
                    number_style("width", 80.0),
                    number_style("height", 80.0),
                ],
                0,
                0,
            ),
        ],
        vec![NodeId(1)],
    )
}

fn phase(frame: u32) -> PhaseContext {
    PhaseContext {
        active: false,
        frame,
        elapsed_frames: 0,
        duration_frames: 0,
        progress: num(0.0),
    }
}

fn context(frame: u32) -> MotionContext {
    MotionContext {
        local_frame: frame,
        progress: num(f64::from(frame) / 30.0),
        composition_seconds: num(f64::from(frame) / 30.0),
        duration_frames: 30,
        fps_numerator: num(30.0),
        fps_denominator: 1,
        fps: num(30.0),
        enter: phase(0),
        hold: phase(frame),
        hold_iteration: 0,
        hold_cycle_frame: frame,
        hold_cycle_progress: num(0.0),
        exit: phase(0),
    }
}

fn epoch() -> TrackEpoch {
    TrackEpoch {
        generation: 1,
        instance: "clip-a".to_owned(),
        segment: 0,
        start: 0,
        discontinuity: None,
    }
}

#[test]
fn samples_come_instant_by_instant_and_name_their_clip() {
    let artifact = fixture(false);
    let contexts = vec![Some(context(10)), Some(context(20)), Some(context(30))];
    let samples = sample_tracks(
        &kernel,
        &tokens,
        &artifact,
        &lengths(&artifact),
        &"clip-a".to_owned(),
        &contexts,
        &epoch(),
    )
    .unwrap();
    let times: Vec<usize> = samples.iter().map(|s| s.time).collect();
    assert_eq!(times, [0, 1, 2]);
    for sample in &samples {
        assert_eq!(sample.instance, "clip-a");
        assert_eq!(sample.epoch, epoch());
    }
}

#[test]
fn continuous_progress_binding_is_legal_and_slice_matches_full() {
    let artifact = fixture(false);
    validate_glass_schema(&artifact, &lengths(&artifact)).unwrap();
    let contexts = vec![Some(context(10))];
    let samples = sample_tracks(
        &kernel,
        &tokens,
        &artifact,
        &lengths(&artifact),
        &"clip-a".to_owned(),
        &contexts,
        &epoch(),
    )
    .unwrap();
    assert_eq!(samples.len(), 1);
    assert_eq!(samples[0].local.rect.width, num(80.0));
    let ctx = context(10);
    let props = ResolvedProps::empty();
    let signals = vec![];
    let inputs = EvalInputs {
        ctx: &ctx,
        props: &props,
        signals: &signals,
        unit: None,
        viewport: None,
    };
    let full = eval_all(&kernel, &tokens, &artifact.exprs, &inputs).unwrap();
    let slice_presence = samples[0].local.presence;
    let MotionValue::Number(full_presence) = &full[0] else {
        panic!("presence");
    };
    assert!((f(slice_presence) - f(*full_presence)).abs() < 1e-12);
    assert_eq!(samples[0].surface_id, "hero-lens");
}

#[test]
fn local_frame_binding_is_rejected_on_track_slots() {
    let artifact = fixture(true);
    let errors = validate_glass_schema(&artifact, &lengths(&artifact)).unwrap_err();
    assert!(errors
        .iter()
        .any(|error| error.message.contains("discrete")));
    let refused = sample_tracks(
        &kernel,
        &tokens,
        &artifact,
        &lengths(&artifact),
        &"clip-a".to_owned(),
        &vec![Some(context(0))],
        &epoch(),
    );
    assert!(matches!(refused, Err(GlassTrackError::Schema(_))));
}

#[test]
fn an_instant_without_context_is_a_time_error() {
    let artifact = fixture(false);
    let refused = sample_tracks(
        &kernel,
        &tokens,
        &artifact,
        &lengths(&artifact),
        &"clip-a".to_owned(),
        &vec![None],
        &epoch(),
    );
    assert_eq!(refused.err(), Some(GlassTrackError::Time));
}

#[test]
fn a_surface_reads_its_own_expressions() {
    let artifact = fixture(false);
    let roots = glass_track_expr_roots(&artifact, 1);
    assert!(roots.contains(&ExprId(0)));
    let live = reachable_exprs(&artifact.exprs, &roots);
    assert!(live.contains(&ExprId(0)));
}

/// root(0) -> [field(1) -> wrapper(2) -> member(3)] with an optional member foreground.
fn field_artifact(
    wrapper_styles: Vec<StyleBinding>,
    member_styles: Vec<StyleBinding>,
) -> SceneArtifact {
    let field = GlassFieldNode {
        field_id: GlassFieldId::new("orbit".into()).unwrap(),
        material: GlassMaterialBinding::defaults(),
        motion: GlassFieldMotionBinding::defaults(),
        merge: GlassMergeIntent::defaults(),
        environment: GlassEnvironmentBinding::defaults(),
    };
    let member = GlassNode {
        surface_id: GlassSurfaceId::new("left".into()).unwrap(),
        field_id: Some(GlassFieldId::new("orbit".into()).unwrap()),
        shape: GlassShapeBinding::Circle,
        material: None,
        environment: None,
        motion: GlassSurfaceMotionBinding::field_member_defaults(),
        presence: NumberValue::Static { value: num(1.0) },
        foreground: GlassForegroundIntent::defaults(),
    };
    scene(
        vec![],
        vec![
            node("root", NodeKind::Group, vec![], 0, 1),
            node("orbit", NodeKind::GlassField(field), vec![], 1, 2),
            node("wrapper", NodeKind::Group, wrapper_styles, 2, 3),
            node("left", NodeKind::Glass(member), member_styles, 0, 0),
        ],
        vec![NodeId(1), NodeId(2), NodeId(3)],
    )
}

fn findings(artifact: &SceneArtifact) -> Vec<String> {
    validate_glass_schema(artifact, &lengths(artifact))
        .unwrap_err()
        .into_iter()
        .map(|error| error.message)
        .collect()
}

#[test]
fn clean_field_artifact_validates() {
    let artifact = field_artifact(vec![], vec![]);
    validate_glass_schema(&artifact, &lengths(&artifact)).unwrap();
    let membership = field_membership(&artifact);
    assert_eq!(
        membership[3].as_ref().map(|id| id.as_str()),
        Some("orbit")
    );
}

#[test]
fn cyclic_and_out_of_bounds_trees_fail_closed() {
    let mut cyclic = field_artifact(vec![], vec![]);
    cyclic.nodes[3].children = ChildRange { start: 2, end: 3 };
    let errors = findings(&cyclic);
    assert!(
        errors
            .iter()
            .any(|message| message.contains("non-cyclic child links")),
        "{errors:?}"
    );
    assert!(subtree_has_unknown_foreground(&cyclic, 3));

    let mut out_of_bounds = field_artifact(vec![], vec![]);
    out_of_bounds.node_children[2] = NodeId(99);
    let errors = findings(&out_of_bounds);
    assert!(
        errors
            .iter()
            .any(|message| message.contains("valid, non-cyclic child links")),
        "{errors:?}"
    );
}

#[test]
fn painted_wrapper_inside_field_fails_closed() {
    let artifact = field_artifact(
        vec![style(
            "background",
            MotionValue::Color(Rgba {
                r: 255,
                g: 0,
                b: 0,
                a: 255,
            }),
        )],
        vec![],
    );
    let errors = findings(&artifact);
    assert!(
        errors.iter().any(|message| message.contains("paint style")),
        "{errors:?}"
    );
}

#[test]
fn member_outer_opacity_fails_closed() {
    let artifact = field_artifact(vec![], vec![number_style("opacity", 0.5)]);
    let errors = findings(&artifact);
    assert!(
        errors.iter().any(|message| message.contains("paint style")),
        "{errors:?}"
    );
}

#[test]
fn member_material_override_fails_closed() {
    let mut artifact = field_artifact(vec![], vec![]);
    let NodeKind::Glass(member) = &mut artifact.nodes[3].kind else {
        panic!("member");
    };
    member.material = Some(GlassMaterialBinding::defaults());
    let errors = findings(&artifact);
    assert!(
        errors
            .iter()
            .any(|message| message.contains("inherits material")),
        "{errors:?}"
    );
}

#[test]
fn structurally_nested_field_fails_closed() {
    let mut artifact = field_artifact(vec![], vec![]);
    // Replace the wrapper with a nested GlassField that owns the member.
    artifact.nodes[2].kind = NodeKind::GlassField(GlassFieldNode {
        field_id: GlassFieldId::new("nested".into()).unwrap(),
        material: GlassMaterialBinding::defaults(),
        motion: GlassFieldMotionBinding::defaults(),
        merge: GlassMergeIntent::defaults(),
        environment: GlassEnvironmentBinding::defaults(),
    });
    let NodeKind::Glass(member) = &mut artifact.nodes[3].kind else {
        panic!("member");
    };
    member.field_id = Some(GlassFieldId::new("nested".into()).unwrap());
    let errors = findings(&artifact);
    assert!(
        errors
            .iter()
            .any(|message| message.contains("structurally nested")),
        "{errors:?}"
    );
}

#[test]
fn identifiers_have_between_one_and_128_bytes() {
    assert_eq!(
        GlassSurfaceId::new("".into()).err(),
        Some(GlassIdError::Empty)
    );
    assert_eq!(
        GlassFieldId::new("x".repeat(129)).err(),
        Some(GlassIdError::TooLong)
    );
    assert_eq!(
        GlassFieldId::new("x".repeat(128)).unwrap().as_str(),
        "x".repeat(128)
    );
}

#[test]
fn positions_sort_by_key_and_keep_the_order_of_equal_keys() {
    let keys = ["b", "a", "b", "aa"].map(String::from).to_vec();
    assert_eq!(sorted_positions(&keys), vec![1, 3, 0, 2]);
}

fn rect(x: f64, y: f64, width: f64, height: f64) -> Rect {
    Rect {
        x: num(x),
        y: num(y),
        width: num(width),
        height: num(height),
    }
}

fn entry<V>(key: &str, value: V) -> Entry<V> {
    Entry {
        key: key.into(),
        value,
    }
}

fn sums(s: &GlassSum) -> Scalar {
    match s {
        GlassSum::Product { a, b } => num(f(*a) * f(*b)),
        GlassSum::Total { a, b } => num(f(*a) + f(*b)),
        GlassSum::Relative { field, member } => num(f(*field) * f(*member) / 0.6),
        GlassSum::Single { x } => num(f64::from(f(*x) as f32)),
    }
}

fn project(_: &Quad) -> Option<Homography> {
    None
}

fn curve(s: &SegmentGeometry, _: usize) -> Point {
    match s {
        SegmentGeometry::Line { to, .. } => *to,
        SegmentGeometry::Quad { to, .. } => *to,
        SegmentGeometry::Cubic { to, .. } => *to,
    }
}

fn rects(t: &RectTask) -> Option<Rect> {
    match t {
        RectTask::Placed { layout, .. } => Some(*layout),
        RectTask::Joined { first, .. } => Some(*first),
    }
}

fn luma(list: &Vec<ForegroundColors>) -> Option<Scalar> {
    if list.is_empty() {
        None
    } else {
        Some(num(0.25))
    }
}

fn glass_host() -> GlassHost<
    'static,
    impl Fn(&GlassSum) -> Scalar,
    impl Fn(&Quad) -> Option<Homography>,
    impl Fn(&SegmentGeometry, usize) -> Point,
    impl Fn(&RectTask) -> Option<Rect>,
    impl Fn(&Vec<ForegroundColors>) -> Option<Scalar>,
> {
    GlassHost {
        sums: &sums,
        project: &project,
        curve: &curve,
        rects: &rects,
        luma: &luma,
    }
}

fn affine(x: f64, y: f64) -> Affine {
    Affine {
        a: num(1.0),
        b: num(0.0),
        c: num(0.0),
        d: num(1.0),
        x: num(x),
        y: num(y),
    }
}

fn plane(hidden: bool, project: bool) -> PlacedPlane {
    let corner = Point {
        x: num(0.0),
        y: num(0.0),
    };
    PlacedPlane {
        quad: Quad {
            top_left: corner,
            top_right: corner,
            bottom_right: corner,
            bottom_left: corner,
        },
        depth: num(0.0),
        hidden,
        project,
    }
}

#[test]
fn a_member_takes_motion_and_owner_from_its_field() {
    let artifact = field_artifact(vec![], vec![]);
    let boxes = vec![entry("left", rect(10.0, 20.0, 40.0, 30.0))];
    let transforms = vec![entry("root", affine(3.0, 4.0))];
    let planes = vec![];
    let placed = Placed {
        boxes: &boxes,
        transforms: &transforms,
        planes: &planes,
        limit: 64,
    };
    let frame = resolve_glass_layout(&glass_host(), &artifact, &vec![], &placed).unwrap();
    assert_eq!(frame.fields.len(), 1);
    assert_eq!(frame.fields[0].member_surface_ids, vec!["left".to_owned()]);
    let surface = &frame.surfaces[0];
    assert_eq!(surface.field_id.as_deref(), Some("orbit"));
    assert_eq!(surface.shape, GlassShapeKind::Circle);
    assert_eq!(surface.radius, num(15.0));
    assert_eq!(surface.local_rect, rect(0.0, 0.0, 40.0, 30.0));
    assert_eq!(surface.owner_to_viewport.top.2, num(3.0));
    assert_eq!(surface.viewport_matrix.top, (num(40.0), num(0.0), num(10.0)));
    // Both intensities are the default, and so is their relative product.
    assert!((f(surface.motion.intensity) - 0.6).abs() < 1e-12);
    assert_eq!(
        surface.motion.character,
        frame.fields[0].motion.character
    );
    assert_eq!(frame.node_fields.len(), 3);
}

#[test]
fn a_hidden_plane_has_no_presence() {
    let artifact = field_artifact(vec![], vec![]);
    let boxes = vec![entry("left", rect(10.0, 20.0, 40.0, 30.0))];
    let transforms = vec![];
    let planes = vec![entry("left", plane(true, false))];
    let placed = Placed {
        boxes: &boxes,
        transforms: &transforms,
        planes: &planes,
        limit: 64,
    };
    let frame = resolve_glass_layout(&glass_host(), &artifact, &vec![], &placed).unwrap();
    assert_eq!(frame.surfaces[0].presence, num(0.0));
}

#[test]
fn surfaces_need_a_box_an_area_and_a_projection() {
    let artifact = field_artifact(vec![], vec![]);
    let transforms = vec![];
    let planes = vec![];
    let none = vec![];
    let missing = Placed {
        boxes: &none,
        transforms: &transforms,
        planes: &planes,
        limit: 64,
    };
    assert_eq!(
        resolve_glass_layout(&glass_host(), &artifact, &vec![], &missing).err(),
        Some(LayoutError::BadNode { at: 3 })
    );
    let thin = vec![entry("left", rect(0.0, 0.0, 0.0, 30.0))];
    let empty = Placed {
        boxes: &thin,
        transforms: &transforms,
        planes: &planes,
        limit: 64,
    };
    assert!(matches!(
        resolve_glass_layout(&glass_host(), &artifact, &vec![], &empty).err(),
        Some(LayoutError::BadStyle { reason, .. })
            if reason == "Glass requires a positive layout box"
    ));
    let good = vec![entry("left", rect(0.0, 0.0, 30.0, 30.0))];
    let turned = vec![entry("left", plane(false, true))];
    let degenerate = Placed {
        boxes: &good,
        transforms: &transforms,
        planes: &turned,
        limit: 64,
    };
    assert!(matches!(
        resolve_glass_layout(&glass_host(), &artifact, &vec![], &degenerate).err(),
        Some(LayoutError::BadStyle { declarations, .. })
            if declarations == "Glass CSS 3D projection"
    ));
}

fn lens_over_text(tone: GlassForegroundTone) -> SceneArtifact {
    let mut glass = lens(NumberValue::Static { value: num(1.0) });
    glass.foreground = GlassForegroundIntent {
        tone,
        protection: NumberValue::Static { value: num(0.5) },
    };
    scene(
        vec![],
        vec![
            node("root", NodeKind::Group, vec![], 0, 1),
            node("lens", NodeKind::Glass(glass), vec![], 1, 2),
            node(
                "label",
                NodeKind::Text {
                    text: TextValue::Static { value: "hi".into() },
                    path: None,
                    per_unit: None,
                },
                vec![],
                0,
                0,
            ),
        ],
        vec![NodeId(1), NodeId(2)],
    )
}

#[test]
fn the_foreground_of_a_surface_gives_its_luma() {
    let artifact = lens_over_text(GlassForegroundTone::Auto);
    assert_eq!(foreground_order(&artifact, 1), vec![2]);
    assert!(foreground_node_paints(&artifact.nodes[2]));
    let boxes = vec![
        entry("lens", rect(0.0, 0.0, 50.0, 50.0)),
        entry("label", rect(5.0, 5.0, 20.0, 10.0)),
    ];
    let colors = foreground_colors(&artifact, 1, &vec![], &boxes).unwrap();
    assert_eq!(colors.len(), 1);
    assert_eq!(
        colors[0].colors,
        vec![Rgba {
            r: 0,
            g: 0,
            b: 0,
            a: 255
        }]
    );
    let transforms = vec![];
    let planes = vec![];
    let placed = Placed {
        boxes: &boxes,
        transforms: &transforms,
        planes: &planes,
        limit: 64,
    };
    let frame = resolve_glass_layout(&glass_host(), &artifact, &vec![], &placed).unwrap();
    assert_eq!(frame.surfaces[0].foreground.luma, Some(num(0.25)));
    assert_eq!(
        frame.surfaces[0].foreground.bounds,
        Some(rect(5.0, 5.0, 20.0, 10.0))
    );
    let dark = lens_over_text(GlassForegroundTone::Dark);
    let frame = resolve_glass_layout(&glass_host(), &dark, &vec![], &placed).unwrap();
    assert_eq!(frame.surfaces[0].foreground.luma, None);
}

#[test]
fn a_scene_without_glass_has_no_glass_frame() {
    let artifact = scene(
        vec![],
        vec![node("root", NodeKind::Group, vec![], 0, 0)],
        vec![],
    );
    let (boxes, transforms, planes) = (vec![], vec![], vec![]);
    let placed = Placed {
        boxes: &boxes,
        transforms: &transforms,
        planes: &planes,
        limit: 64,
    };
    let frame = resolve_glass_layout(&glass_host(), &artifact, &vec![], &placed).unwrap();
    assert!(frame.surfaces.is_empty() && frame.fields.is_empty());
    assert!(frame.node_fields.is_empty());
}

#[test]
fn boundaries_meet_in_either_order() {
    let at = |numerator: i64, denominator: u32| RationalTime {
        numerator,
        denominator,
    };
    let piecewise = |boundaries: Vec<RationalTime>| TemporalContinuity::Piecewise { boundaries };
    let left = || piecewise(vec![at(1, 2), at(3, 2)]);
    let right = || piecewise(vec![at(1, 1), at(2, 4)]);
    let one = left().meet(right());
    let other = right().meet(left());
    let (TemporalContinuity::Piecewise { boundaries: a }, TemporalContinuity::Piecewise { boundaries: b }) =
        (one, other)
    else {
        panic!("piecewise");
    };
    assert_eq!(a.len(), 3);
    assert_eq!(b.len(), 3);
    for (x, y) in a.iter().zip(&b) {
        assert!(!x.earlier(*y) && !y.earlier(*x));
    }
    assert!(a[0].earlier(a[1]) && a[1].earlier(a[2]));
    assert!(matches!(
        TemporalContinuity::C1.meet(left()),
        TemporalContinuity::Piecewise { .. }
    ));
    assert!(!left().meet(TemporalContinuity::Discrete).is_track_legal());
    assert!(TemporalContinuity::C2.meet(TemporalContinuity::C1).is_track_legal());
}

fn plain_lens(key: &str) -> SceneNode {
    let mut glass = lens(NumberValue::Static { value: num(1.0) });
    glass.surface_id = GlassSurfaceId::new(key.into()).unwrap();
    node(key, NodeKind::Glass(glass), vec![], 0, 0)
}

fn field(key: &str, start: u32, end: u32) -> SceneNode {
    let kind = NodeKind::GlassField(GlassFieldNode {
        field_id: GlassFieldId::new(key.into()).unwrap(),
        material: GlassMaterialBinding::defaults(),
        motion: GlassFieldMotionBinding::defaults(),
        merge: GlassMergeIntent::defaults(),
        environment: GlassEnvironmentBinding::defaults(),
    });
    node(key, kind, vec![], start, end)
}

#[test]
fn identifiers_are_used_once() {
    let root = || node("root", NodeKind::Group, vec![], 0, 2);
    let twice = scene(
        vec![],
        vec![root(), plain_lens("a"), plain_lens("a")],
        vec![NodeId(1), NodeId(2)],
    );
    assert!(findings(&twice)
        .iter()
        .any(|m| m.contains("appears twice at the same sample time")));
    let apart = scene(
        vec![],
        vec![root(), plain_lens("a"), plain_lens("b")],
        vec![NodeId(1), NodeId(2)],
    );
    validate_glass_schema(&apart, &lengths(&apart)).unwrap();
}

#[test]
fn a_field_needs_a_member_and_a_scene_is_one_tree() {
    let root = || node("root", NodeKind::Group, vec![], 0, 1);
    let hollow = scene(vec![], vec![root(), field("f", 0, 0)], vec![NodeId(1)]);
    assert_eq!(
        findings(&hollow),
        ["GlassField 'f' must contain at least one Glass member"]
    );
    let stray = scene(vec![], vec![root(), plain_lens("a"), plain_lens("b")], vec![NodeId(1)]);
    assert_eq!(
        findings(&stray),
        ["Glass validation requires a rooted tree with valid, non-cyclic child links"]
    );
}

#[test]
fn tracks_are_refused_with_the_first_finding() {
    let artifact = fixture(true);
    let first = findings(&artifact).remove(0);
    let refused = sample_tracks(
        &kernel,
        &tokens,
        &artifact,
        &lengths(&artifact),
        &"clip-a".to_owned(),
        &vec![None],
        &epoch(),
    );
    assert_eq!(refused.err(), Some(GlassTrackError::Schema(first)));
}
