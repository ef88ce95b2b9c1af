use valle_motion::artifact::{
    CameraBinding, ChildRange, CoordinateSpace, NodeId, NodeKind, NumberValue, PerUnit, PointValue,
    SceneArtifact, SceneNode, StyleBinding, StyleValue, TextValue, UnitStyle,
};
use valle_motion::backgrounds::{gradient_background_source, legacy_gradient_defaults};
use valle_motion::camera::{
    camera_depends_on_bounds, camera_styles, check_post_layout_origins, eval_viewport,
    identity_camera_styles,
};
use valle_motion::declarations::declarations;
use valle_motion::effects::{resolve_layer_fx, LayerEffects, LengthProduct, PerspectiveLength, Sizing};
use valle_motion::eval::{
    EvalInputs, Kernel, KernelError, MotionContext, PhaseContext, ResolvedProps,
};
use valle_motion::expr::{ContextInput, Expr, ExprId, GeometryField};
use valle_motion::findings::ValidationError;
use valle_motion::formula::{formula_style_from_node, FormulaStyle};
use valle_motion::inspect::{
    phase_boundaries, sample_properties, Boundary, PropertySampleRequest,
};
use valle_motion::instants::{Moment, SampleHost};
use valle_motion::layout_error::LayoutError;
use valle_motion::nodes::{node_plan, BoxShape};
use valle_motion::recording::{Point, Rect, Rgba};
use valle_motion::reuse::{eligible, lasting_exprs, StyleRules};
use valle_motion::scalar::Scalar;
use valle_motion::scene3d::{
    project_scene3d_anchors, resolve_scene3d_requests, AnchorProjection, AnchorTask, Frame3DState,
};
use valle_motion::stages::base_values;
use valle_motion::stylesheet::StyleCache;
use valle_motion::surface::prepare_owned;
use valle_motion::table::Entry;
use valle_motion::text_units::resolve_units;
use valle_motion::trees::{projected_child_ids, split_spaces, walk_pairs, LayoutBox, LayoutChild};
use valle_motion::units::TextSplit;
use valle_motion::value::{
    Angle, AngleUnit, ControlsSchema, Length, Length2, LengthUnit, MotionValue,
};

fn num(x: f64) -> Scalar {
    Scalar::from_bits(x.to_bits())
}

fn f(x: Scalar) -> f64 {
    f64::from_bits(x.to_bits())
}

fn number(x: f64) -> MotionValue {
    MotionValue::Number(num(x))
}

fn tokens(v: &MotionValue) -> String {
    match v {
        MotionValue::Number(x) => format!("{}", f(*x)),
        other => format!("{other:?}"),
    }
}

fn write(x: Scalar) -> String {
    format!("{}", f(x))
}

fn kernel(k: &Kernel) -> Result<MotionValue, KernelError> {
    match k {
        Kernel::Add { a, b } => Ok(number(f(*a) + f(*b))),
        Kernel::Mul { a, b } => Ok(number(f(*a) * f(*b))),
        _ => Err(KernelError::Domain),
    }
}

fn static_style(property: &str, value: MotionValue) -> StyleBinding {
    StyleBinding {
        property: property.into(),
        value: StyleValue::Static { value },
    }
}

fn node(key: &str, kind: NodeKind, styles: Vec<StyleBinding>) -> SceneNode {
    SceneNode {
        key: key.into(),
        kind,
        space: None,
        class_names: vec![],
        styles,
        visibility: None,
        children: ChildRange { start: 0, end: 0 },
    }
}

fn scene(exprs: Vec<Expr>, nodes: Vec<SceneNode>) -> SceneArtifact {
    SceneArtifact {
        controls: ControlsSchema {
            props: vec![],
            cues: vec![],
        },
        exprs,
        nodes,
        node_children: vec![],
        root: NodeId(0),
        camera: None,
    }
}

#[test]
fn motion_path_center_anchor_lowers_to_box_relative_translate() {
    let node = node(
        "follower",
        NodeKind::Box,
        vec![
            static_style("motion-path-anchor", MotionValue::Enum("center".into())),
            static_style(
                "translate",
                MotionValue::Length2(Length2::px(num(30.0), num(20.0))),
            ),
            static_style("motion-path-angle-offset", number(15.0)),
            static_style("rotate", MotionValue::Angle(Angle::deg(num(45.0)))),
        ],
    );

    assert_eq!(
        declarations(&tokens, &node, &vec![], true, 0).unwrap(),
        "transform-origin: 50% 50%; translate: calc(30px - 50%) calc(20px - 50%); rotate: calc(45deg + 15deg)"
    );
}

#[test]
fn an_invisible_node_is_hidden_not_removed() {
    let node = node("card", NodeKind::Box, vec![static_style("opacity", number(0.5))]);
    let text = declarations(&tokens, &node, &vec![], false, 0).unwrap();
    assert!(text.contains("visibility: hidden"), "{text}");
    assert!(text.contains("opacity: 0.5"), "{text}");
}

fn fx_node(styles: Vec<StyleBinding>) -> SceneNode {
    node("card", NodeKind::Box, styles)
}

fn fx(
    styles: Vec<StyleBinding>,
) -> Result<Option<valle_motion::effects::LayerEffects>, LayoutError> {
    let node = fx_node(styles);
    let degrees = vec![num(0.0); node.styles.len()];
    resolve_layer_fx(&node, &vec![], 0, &degrees)
}

#[test]
fn perspective_keeps_relative_units_and_rejects_percent_or_non_positive() {
    let rem = fx(vec![
        static_style("rotate-y", number(20.0)),
        static_style(
            "perspective",
            MotionValue::Length(Length {
                value: num(2.0),
                unit: LengthUnit::Rem,
            }),
        ),
    ])
    .unwrap()
    .unwrap();
    assert_eq!(rem.perspective, Some(PerspectiveLength::Rem(num(2.0))));

    let percent = fx(vec![static_style(
        "perspective",
        MotionValue::Length(Length {
            value: num(50.0),
            unit: LengthUnit::Percent,
        }),
    )])
    .unwrap_err()
    .message(&tokens);
    assert!(percent.contains("percent"), "{percent}");

    let zero = fx(vec![static_style("perspective", number(0.0))])
        .unwrap_err()
        .message(&tokens);
    assert!(zero.contains("positive"), "{zero}");

    let negative = fx(vec![static_style(
        "perspective",
        MotionValue::Length(Length::px(num(-40.0))),
    )])
    .unwrap_err()
    .message(&tokens);
    assert!(negative.contains("positive"), "{negative}");
}

fn sizing(ratio: f64) -> Sizing {
    Sizing {
        device_pixel_ratio: num(ratio),
        rem: num(16.0 * ratio),
        em: num(16.0 * ratio),
        viewport_width: Some(640),
        viewport_height: Some(360),
    }
}

fn multiply(p: LengthProduct) -> Scalar {
    let product = f(p.value) * f(p.factor);
    num(if p.percent { product / 100.0 } else { product })
}

#[test]
fn perspective_length_resolves_against_takumi_sizing() {
    let plain = sizing(1.0);
    let px = |p: PerspectiveLength, s: &Sizing| f(p.to_px(s, &multiply).unwrap());
    assert_eq!(px(PerspectiveLength::Rem(num(2.0)), &plain), 32.0);
    assert_eq!(px(PerspectiveLength::Vw(num(50.0)), &plain), 320.0);
    assert_eq!(px(PerspectiveLength::Vh(num(25.0)), &plain), 90.0);
    assert_eq!(px(PerspectiveLength::Px(num(900.0)), &plain), 900.0);

    let retina = sizing(2.0);
    let default_px = PerspectiveLength::Px(Scalar::from_bits(
        valle_motion::effects::DEFAULT_PERSPECTIVE,
    ));
    assert_eq!(
        px(default_px, &retina),
        px(PerspectiveLength::Px(num(1200.0)), &retina)
    );
    assert_eq!(px(default_px, &retina), 2400.0);
}

#[test]
fn a_rotation_without_perspective_is_seen_from_afar() {
    let turned = |perspective| LayerEffects {
        rotate_x_deg: num(10.0),
        rotate_y_deg: num(0.0),
        perspective,
        paper_grain: num(0.0),
        contact_shadow: num(0.0),
    };
    let seen = |perspective, s: &Sizing| turned(perspective).distance(s, &multiply).map(f);
    assert_eq!(seen(None, &sizing(2.0)), Ok(2400.0));
    assert_eq!(
        seen(Some(PerspectiveLength::Px(num(300.0))), &sizing(1.0)),
        Ok(300.0)
    );
    assert_eq!(
        seen(Some(PerspectiveLength::Px(num(-1.0))), &sizing(1.0)),
        Err("perspective must resolve to a positive length")
    );
}

#[test]
fn an_error_quotes_its_declarations() {
    let error = LayoutError::BadStyle {
        node: "card".into(),
        declarations: "a \"b\"\n".into(),
        reason: "no".into(),
    };
    assert_eq!(
        error.message(&tokens),
        "node `card`: bad CSS \"a \\\"b\\\"\\n\" (no)"
    );
    assert_eq!(
        LayoutError::BadViewport.message(&tokens),
        "viewport must have non-zero size"
    );
    assert_eq!(
        LayoutError::BadNode { at: 12 }.message(&tokens),
        "node 12: out of range"
    );
}

#[test]
fn a_cached_style_is_parsed_once() {
    let mut cache = StyleCache::new();
    assert!(cache.get_or_parse("width: 10px; height: 20px").is_ok());
    assert!(cache.get_or_parse("width: 10px; height: 20px").is_ok());
    assert_eq!(cache.stats(), (1, 1));
    assert!(cache.get_or_parse("width: 30px").is_ok());
    assert_eq!(cache.stats(), (1, 2));
}

#[test]
fn gradients_without_a_space_are_legacy() {
    assert_eq!(
        legacy_gradient_defaults("linear-gradient(red, blue)"),
        vec![true]
    );
    assert_eq!(
        legacy_gradient_defaults("linear-gradient(in oklab, red, blue)"),
        vec![false]
    );
    assert_eq!(
        legacy_gradient_defaults("radial-gradient(oklch(1 0 0), blue), linear-gradient(red, blue)"),
        vec![false, true]
    );
    assert_eq!(
        legacy_gradient_defaults("/* c */ LINEAR-GRADIENT(red, blue)"),
        vec![true]
    );
}

#[test]
fn backgrounds_are_gradients_in_srgb() {
    assert!(gradient_background_source(
        "background-image",
        "linear-gradient(red, blue)"
    ));
    assert!(gradient_background_source(
        "background",
        "linear-gradient(in srgb, red, blue)"
    ));
    assert!(!gradient_background_source(
        "background-image",
        "linear-gradient(in oklab, red, blue)"
    ));
    assert!(!gradient_background_source(
        "background-image",
        "url(a.png)"
    ));
    assert!(!gradient_background_source("color", "red"));
}

#[test]
fn a_prepared_scene_was_valid_and_has_no_denied_surface() {
    let with = |property: &str, value: &str| {
        scene(
            vec![],
            vec![node(
                "card",
                NodeKind::Box,
                vec![static_style(property, MotionValue::Str(value.into()))],
            )],
        )
    };
    let variants = vec![vec![None]];
    let prepared = prepare_owned(with("width", "10px"), vec![], &variants)
        .unwrap_or_else(|e| panic!("{e:?}"));
    assert_eq!(prepared.artifact().nodes[0].key, "card");
    assert_eq!(
        prepare_owned(with("clip-path", "circle()"), vec![], &variants).err(),
        Some(LayoutError::NondeterministicSurface {
            node: "card".into(),
            surface: "clip-path".into()
        })
    );
    let finding = || ValidationError {
        path: "nodes".into(),
        message: "bad".into(),
    };
    assert_eq!(
        prepare_owned(with("width", "10px"), vec![finding()], &variants).err(),
        Some(LayoutError::InvalidArtifact(vec![finding()]))
    );
}

fn phase(frame: u32) -> PhaseContext {
    PhaseContext {
        active: true,
        frame,
        elapsed_frames: frame as i32,
        duration_frames: 10,
        progress: num(0.0),
    }
}

fn context(frame: u32) -> MotionContext {
    MotionContext {
        local_frame: frame,
        progress: num(f64::from(frame) / 10.0),
        composition_seconds: num(f64::from(frame) / 30.0),
        duration_frames: 10,
        fps_numerator: num(30.0),
        fps_denominator: 1,
        fps: num(30.0),
        enter: phase(frame),
        hold: phase(frame),
        hold_iteration: 0,
        hold_cycle_frame: 0,
        hold_cycle_progress: num(0.0),
        exit: phase(0),
    }
}

#[test]
fn a_viewport_without_area_is_refused() {
    let artifact = scene(vec![], vec![node("root", NodeKind::Group, vec![])]);
    let ctx = context(0);
    let props = ResolvedProps::empty();
    let signals = vec![];
    let inputs = EvalInputs {
        ctx: &ctx,
        props: &props,
        signals: &signals,
        unit: None,
        viewport: eval_viewport(Some(640), Some(360)),
    };
    assert_eq!(
        base_values(&kernel, &tokens, &artifact, &inputs, Some(0), Some(10)),
        Err(LayoutError::BadViewport)
    );
    assert_eq!(
        base_values(&kernel, &tokens, &artifact, &inputs, Some(1), None),
        Ok(vec![])
    );
    assert_eq!(inputs.viewport, Some((num(640.0), num(360.0))));
    assert_eq!(eval_viewport(Some(640), None), None);
}

fn camera(zoom: NumberValue) -> CameraBinding {
    CameraBinding {
        center: PointValue::Static {
            value: Point {
                x: num(10.0),
                y: num(-20.0),
            },
        },
        zoom,
        rotation: NumberValue::Static { value: num(15.0) },
    }
}

#[test]
fn a_camera_moves_its_center_to_the_middle() {
    let mut artifact = scene(vec![], vec![node("root", NodeKind::Group, vec![])]);
    assert!(camera_styles(&write, &artifact, &vec![]).unwrap().is_none());
    artifact.camera = Some(camera(NumberValue::Static { value: num(2.0) }));
    let styles = camera_styles(&write, &artifact, &vec![]).unwrap().unwrap();
    assert!(styles
        .outer
        .ends_with("; translate: 50vw 50vh; rotate: 15deg; scale: 2"));
    assert!(styles.inner.ends_with("; translate: -10px 20px"));
    assert!(identity_camera_styles()
        .outer
        .ends_with("; translate: 0px 0px; rotate: 0deg; scale: 1"));
    artifact.camera = Some(camera(NumberValue::Static { value: num(0.0) }));
    assert_eq!(
        camera_styles(&write, &artifact, &vec![]).err(),
        Some(LayoutError::BadCamera {
            reason: "zoom must be finite and positive, got 0".into()
        })
    );
}

#[test]
fn a_camera_that_reads_boxes_needs_a_layout_first() {
    let mut artifact = scene(
        vec![
            Expr::NodeBounds { key: "card".into() },
            Expr::GeometryField {
                input: ExprId(0),
                field: GeometryField::Width,
            },
        ],
        vec![node("root", NodeKind::Group, vec![])],
    );
    assert!(!camera_depends_on_bounds(&artifact));
    artifact.camera = Some(camera(NumberValue::Static { value: num(2.0) }));
    assert!(!camera_depends_on_bounds(&artifact));
    artifact.camera = Some(camera(NumberValue::Expr { expr: ExprId(1) }));
    assert!(camera_depends_on_bounds(&artifact));
}

fn rect(x: f64, y: f64, width: f64, height: f64) -> Rect {
    Rect {
        x: num(x),
        y: num(y),
        width: num(width),
        height: num(height),
    }
}

#[test]
fn scene_coordinates_are_taken_at_the_origin_only() {
    let artifact = scene(
        vec![Expr::NodeBounds { key: "card".into() }],
        vec![node("wire", NodeKind::Box, vec![])],
    );
    let values = vec![MotionValue::Rect(rect(1.0, 2.0, 3.0, 4.0))];
    let refs = vec![vec![ExprId(0)]];
    let at = |x: f64| {
        vec![Entry {
            key: "wire".into(),
            value: rect(x, 0.0, 5.0, 5.0),
        }]
    };
    assert!(check_post_layout_origins(&artifact, &refs, &values, &at(0.0)).is_ok());
    assert_eq!(
        check_post_layout_origins(&artifact, &refs, &values, &at(7.0)),
        Err(LayoutError::PostLayoutOffOrigin {
            node: "wire".into(),
            x: num(7.0),
            y: num(0.0)
        })
    );
    assert!(check_post_layout_origins(&artifact, &vec![vec![]], &values, &at(7.0)).is_ok());
}

fn animated(expr: u32) -> NumberValue {
    NumberValue::Expr { expr: ExprId(expr) }
}

#[test]
fn units_are_styled_one_by_one() {
    let artifact = scene(
        vec![
            Expr::Context {
                input: ContextInput::UnitIndex,
            },
            Expr::Const { value: number(0.5) },
            Expr::Mul {
                lhs: ExprId(0),
                rhs: ExprId(1),
            },
        ],
        vec![
            node("root", NodeKind::Group, vec![]),
            node(
                "label",
                NodeKind::Text {
                    text: TextValue::Static {
                        value: "ab c".into(),
                    },
                    path: None,
                    per_unit: Some(PerUnit {
                        split: TextSplit::Word,
                        style: UnitStyle {
                            opacity: Some(animated(2)),
                            translate: None,
                            scale: None,
                            rotate: None,
                            color: None,
                        },
                    }),
                },
                vec![],
            ),
        ],
    );
    let ctx = context(0);
    let props = ResolvedProps::empty();
    let signals = vec![];
    let inputs = EvalInputs {
        ctx: &ctx,
        props: &props,
        signals: &signals,
        unit: None,
        viewport: None,
    };
    let base = vec![number(0.0), number(0.5), number(0.0)];
    let units = resolve_units(
        &kernel,
        &tokens,
        &artifact,
        &base,
        &inputs,
        &vec![],
        &vec![],
    )
    .unwrap();
    assert_eq!(units.len(), 1);
    assert_eq!(units[0].key, "label");
    let styled: Vec<_> = units[0]
        .value
        .iter()
        .map(|u| (u.start, u.end, u.opacity))
        .collect();
    assert_eq!(
        styled,
        vec![(0, 2, Some(num(0.0))), (3, 4, Some(num(0.5)))]
    );
}

#[test]
fn an_anchor_needs_a_box_a_projection_and_a_place_in_front() {
    let exprs = vec![
        Expr::Project3D {
            scene_key: "globe".into(),
            anchor_key: "mesh::tip".into(),
        },
        Expr::Project3D {
            scene_key: "atom".into(),
            anchor_key: "mesh::core".into(),
        },
    ];
    let project = |t: &AnchorTask| -> Result<Vec<AnchorProjection>, String> {
        let address = if t.scene_key == "globe" {
            "mesh::tip"
        } else {
            "mesh::core"
        };
        Ok(vec![AnchorProjection {
            address: address.into(),
            in_front: f(t.content.width) > 1.0,
            point: Point {
                x: t.content.x,
                y: t.content.y,
            },
        }])
    };
    let boxes = |width: f64| {
        vec![
            Entry {
                key: "globe".into(),
                value: rect(1.0, 2.0, width, 10.0),
            },
            Entry {
                key: "atom".into(),
                value: rect(3.0, 4.0, 10.0, 10.0),
            },
        ]
    };
    let points = project_scene3d_anchors(&project, &exprs, &boxes(10.0)).unwrap();
    let keys: Vec<_> = points.iter().map(|p| p.scene_key.as_str()).collect();
    assert_eq!(keys, ["atom", "globe"]);
    assert_eq!(points[1].point.x, num(1.0));
    assert!(matches!(
        project_scene3d_anchors(&project, &exprs, &boxes(1.0)).err(),
        Some(LayoutError::BadScene3D { reason, .. })
            if reason == "project3d anchor `mesh::tip` is behind the near plane or beyond far"
    ));
    assert!(matches!(
        project_scene3d_anchors(&project, &exprs, &vec![]).err(),
        Some(LayoutError::BadScene3D { node, reason })
            if node == "atom" && reason == "project3d target has no content box"
    ));
}

fn fixed(x: f64) -> NumberValue {
    NumberValue::Static { value: num(x) }
}

#[test]
fn a_3d_scene_is_asked_for_with_its_state() {
    let artifact = scene(
        vec![],
        vec![node(
            "globe",
            NodeKind::Scene3D {
                frame: valle_motion::artifact::Scene3DFrameBinding {
                    camera: valle_motion::artifact::Scene3DCameraBinding {
                        orbit_yaw_degrees: fixed(30.0),
                        orbit_pitch_degrees: fixed(10.0),
                        distance: fixed(4.0),
                        fov_y_degrees: fixed(50.0),
                    },
                    meshes: vec![],
                    light_intensities: vec![fixed(1.0), fixed(0.5)],
                },
            },
            vec![],
        )],
    );
    let fine = |_: usize, _: &Frame3DState| -> Option<String> { None };
    let requests = resolve_scene3d_requests(&fine, &artifact, &vec![]).unwrap();
    assert_eq!(requests[0].value.provider_key, "scene3d://globe");
    assert_eq!(requests[0].value.frame.camera.distance, num(4.0));
    assert_eq!(
        requests[0].value.frame.light_intensities,
        vec![num(1.0), num(0.5)]
    );
    let picky = |_: usize, _: &Frame3DState| -> Option<String> { Some("too far".into()) };
    assert_eq!(
        resolve_scene3d_requests(&picky, &artifact, &vec![]).err(),
        Some(LayoutError::BadScene3D {
            node: "globe".into(),
            reason: "too far".into()
        })
    );
}

#[test]
fn layouts_are_kept_only_without_time() {
    let exprs = || {
        vec![
            Expr::Context {
                input: ContextInput::ViewportWidth,
            },
            Expr::Context {
                input: ContextInput::LocalFrame,
            },
            Expr::Add {
                lhs: ExprId(0),
                rhs: ExprId(0),
            },
            Expr::Add {
                lhs: ExprId(0),
                rhs: ExprId(1),
            },
        ]
    };
    assert_eq!(lasting_exprs(&exprs()), vec![true, false, true, false]);
    let reusable = |property: &String, lasts: bool| property == "opacity" || lasts;
    let class_property = |_: &String| -> Option<String> { None };
    let rules = StyleRules {
        reusable: &reusable,
        class_property: &class_property,
    };
    let with = |property: &str, expr: u32| {
        scene(
            exprs(),
            vec![node(
                "card",
                NodeKind::Box,
                vec![StyleBinding {
                    property: property.into(),
                    value: StyleValue::Expr { expr: ExprId(expr) },
                }],
            )],
        )
    };
    let conditions = vec![vec![]];
    assert!(eligible(&rules, &with("opacity", 3), &conditions));
    assert!(eligible(&rules, &with("width", 2), &conditions));
    assert!(!eligible(&rules, &with("width", 3), &conditions));
    assert!(!eligible(
        &rules,
        &with("opacity", 3),
        &vec![vec![ExprId(1)]]
    ));
    let mut filmed = with("opacity", 3);
    filmed.camera = Some(camera(fixed(1.0)));
    assert!(!eligible(&rules, &filmed, &conditions));
}

#[test]
fn a_formula_takes_size_and_color_from_its_styles() {
    let black = Rgba {
        r: 0,
        g: 0,
        b: 0,
        a: 255,
    };
    let red = Rgba {
        r: 255,
        g: 0,
        b: 0,
        a: 255,
    };
    let start = FormulaStyle {
        font_size: num(16.0),
        color: black,
    };
    let formula = node(
        "eq",
        NodeKind::MathFormula { latex: "x".into() },
        vec![
            static_style("font-size", number(32.0)),
            static_style("color", MotionValue::Color(red)),
        ],
    );
    let style = formula_style_from_node(start, &formula, &vec![], 0).unwrap();
    assert_eq!(
        style,
        FormulaStyle {
            font_size: num(32.0),
            color: red
        }
    );
}

fn moment(frame: u32) -> Option<Moment> {
    if frame < 10 {
        Some(Moment {
            ctx: context(frame),
            signals: vec![],
        })
    } else {
        None
    }
}

fn degrees(a: Angle) -> Scalar {
    match a.unit {
        AngleUnit::Deg => a.value,
        AngleUnit::Rad => num(f(a.value).to_degrees()),
        AngleUnit::Turn => num(f(a.value) * 360.0),
    }
}

fn parse_angle(_: &String) -> Option<Angle> {
    None
}

fn parse_lengths(_: &String) -> Option<Length2> {
    None
}

fn speed(before: Scalar, after: Scalar) -> Scalar {
    num((f(after) - f(before)) * 30.0 / 2.0)
}

fn sample_host() -> SampleHost<
    'static,
    impl Fn(u32) -> Option<Moment>,
    impl Fn(Angle) -> Scalar,
    impl Fn(&String) -> Option<Angle>,
    impl Fn(&String) -> Option<Length2>,
    impl Fn(Scalar, Scalar) -> Scalar,
> {
    SampleHost {
        moment: &moment,
        degrees: &degrees,
        parse_angle: &parse_angle,
        parse_lengths: &parse_lengths,
        speed: &speed,
    }
}

fn request() -> PropertySampleRequest {
    PropertySampleRequest {
        node: "card".into(),
        start_frame: 0,
        end_frame: 9,
        max_points: 4,
        duration_frames: 10,
        enter_frames: 3,
        hold_frames: 4,
        props: vec![],
        width: 640,
        height: 360,
    }
}

#[test]
fn phases_begin_where_those_before_them_end() {
    assert_eq!(phase_boundaries(12, 30), [12, 42]);
    assert_eq!(phase_boundaries(0, u32::MAX), [0, u32::MAX]);
}

fn moving() -> SceneArtifact {
    scene(
        vec![
            Expr::Context {
                input: ContextInput::LocalFrame,
            },
            Expr::MathUnary {
                op: valle_motion::expr::MathUnaryOp::Floor,
                input: ExprId(0),
            },
        ],
        vec![node(
            "card",
            NodeKind::Box,
            vec![
                StyleBinding {
                    property: "opacity".into(),
                    value: StyleValue::Expr { expr: ExprId(0) },
                },
                static_style("rotate", MotionValue::Angle(Angle::deg(num(30.0)))),
                static_style("translate", MotionValue::Str("nowhere".into())),
                StyleBinding {
                    property: "scale".into(),
                    value: StyleValue::Expr { expr: ExprId(1) },
                },
            ],
        )],
    )
}

fn sampled(
    artifact: &SceneArtifact,
    request: &PropertySampleRequest,
) -> Result<valle_motion::inspect::PropertySamples, String> {
    let floor = |k: &Kernel| -> Result<MotionValue, KernelError> {
        match k {
            Kernel::MathUnary { x, .. } => Ok(number(f(*x).floor())),
            _ => Err(KernelError::Domain),
        }
    };
    sample_properties(
        &floor,
        &tokens,
        &sample_host(),
        artifact,
        request,
        None,
        None,
    )
}

#[test]
fn properties_are_sampled_with_their_speed() {
    let samples = sampled(&moving(), &request()).unwrap();
    assert_eq!(samples.frames, vec![0, 3, 6, 9]);
    assert_eq!(samples.phase_boundaries, [3, 7]);
    let names: Vec<_> = samples
        .channels
        .iter()
        .map(|c| c.property.property())
        .collect();
    assert_eq!(names, ["opacity", "translate", "scale", "rotate"]);
    let opacity = &samples.channels[0].samples;
    assert_eq!(opacity[1].value, vec![num(3.0)]);
    assert_eq!(opacity[1].velocity, Some(vec![num(30.0)]));
    assert_eq!(opacity[0].velocity, None);
    assert_eq!(opacity[3].velocity, None);
    assert_eq!(
        samples.channels[1].unavailable.as_deref(),
        Some("Requires resolved CSS units or a nonnumeric value")
    );
    let scale = &samples.channels[2].samples;
    assert_eq!(scale[1].boundary, Some(Boundary::Discrete));
    assert_eq!(scale[1].velocity, None);
    assert_eq!(Boundary::Discrete.text(), "discrete expression");
    assert_eq!(samples.channels[3].samples[2].value, vec![num(30.0)]);
    assert_eq!(samples.channels[3].property.unit(), "deg");
}

#[test]
fn bad_requests_are_refused() {
    let invalid = Some("invalid sample range, viewport or point limit (2..=240)".to_owned());
    for change in [
        |q: &mut PropertySampleRequest| q.duration_frames = 0,
        |q: &mut PropertySampleRequest| q.end_frame = 10,
        |q: &mut PropertySampleRequest| q.start_frame = 11,
        |q: &mut PropertySampleRequest| q.max_points = 1,
        |q: &mut PropertySampleRequest| q.max_points = 241,
        |q: &mut PropertySampleRequest| q.width = 0,
    ] {
        let mut q = request();
        change(&mut q);
        assert_eq!(sampled(&moving(), &q).err(), invalid);
    }
    let mut q = request();
    q.node = "nobody".into();
    assert_eq!(
        sampled(&moving(), &q).err(),
        Some("unknown Motion node".to_owned())
    );
}

#[test]
fn boxes_are_paired_with_their_nodes() {
    let mut artifact = scene(
        vec![],
        vec![
            node("root", NodeKind::Group, vec![]),
            node("a", NodeKind::Box, vec![]),
            node("b", NodeKind::Box, vec![]),
        ],
    );
    artifact.nodes[0].children = ChildRange { start: 0, end: 2 };
    artifact.node_children = vec![NodeId(1), NodeId(2)];
    artifact.nodes[2].space = Some(CoordinateSpace::Screen);
    assert_eq!(
        projected_child_ids(&artifact, NodeId(0)),
        Some(vec![NodeId(1), NodeId(2)])
    );
    let (world, screen) = split_spaces(&artifact, &vec![NodeId(1), NodeId(2)]);
    assert_eq!((world, screen), (vec![NodeId(1)], vec![NodeId(2)]));
    let leaf = |id: u64| LayoutBox { id, children: None };
    let tree = LayoutBox {
        id: 7,
        children: Some(vec![
            LayoutChild {
                render_index: 0,
                inner: leaf(8),
            },
            LayoutChild {
                render_index: 1,
                inner: leaf(9),
            },
        ]),
    };
    let pairs = walk_pairs(&artifact, NodeId(0), &tree).unwrap();
    let ids: Vec<_> = pairs.iter().map(|p| (p.node, p.layout)).collect();
    assert_eq!(ids, [(0, 7), (1, 8), (2, 9)]);
    assert_eq!(
        walk_pairs(&artifact, NodeId(5), &leaf(1)).err(),
        Some(LayoutError::BadNode { at: 5 })
    );
}

#[test]
fn a_text_node_hands_over_its_text() {
    let artifact = scene(
        vec![],
        vec![node(
            "label",
            NodeKind::Text {
                text: TextValue::Static { value: "hi".into() },
                path: None,
                per_unit: None,
            },
            vec![static_style("opacity", number(0.5))],
        )],
    );
    let plan = node_plan(&tokens, &artifact, 0, &vec![], &vec![], None).unwrap();
    assert!(matches!(&plan.shape, BoxShape::Text(s) if s == "hi"));
    assert!(plan.declarations.contains("opacity: 0.5"));
    assert_eq!(
        node_plan(&tokens, &artifact, 4, &vec![], &vec![], None).err(),
        Some(LayoutError::BadNode { at: 4 })
    );
}
