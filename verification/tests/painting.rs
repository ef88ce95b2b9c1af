use valle_motion::artifact::{
    ChildRange, CoordinateSpace, NodeId, NodeKind, SceneArtifact, SceneNode, StyleBinding,
    StyleValue, TextValue,
};
use valle_motion::boxes::{camera_wrappers, node_of, LayoutNode};
use valle_motion::camera::identity_camera_styles;
use valle_motion::content::{BatchContent, ContentTree, FormulaFragment, ImageContent, RenderEntry};
use valle_motion::effects::{LengthProduct, Sizing};
use valle_motion::emitter::EmitError;
use valle_motion::eval::{MotionContext, PhaseContext, ResolvedProps};
use valle_motion::frame::{
    Css3dPlane, FieldEntry, GlassOwnerKind, GlassOwners, MaterialProgram, NodeFacts, NodeKey,
    NodePaint, PaintTree, PlaneProjection, RelativeStep,
};
use valle_motion::glass::{
    GlassEnvironmentBinding, GlassFieldId, GlassFieldMotionBinding, GlassFieldNode,
    GlassMaterialBinding, GlassMergeIntent,
};
use valle_motion::glass_frame::Quad;
use valle_motion::gradient::SpreadMode;
use valle_motion::gradient_record::{
    record_gradient, GradientImage, GradientStop, GradientSum, RecordedGradient,
};
use valle_motion::identity::{preserve_identity, ScaleNode};
use valle_motion::layout_cache::{GeometryKey, LayoutCache, ViewportKey};
use valle_motion::layout_error::LayoutError;
use valle_motion::painting::{
    emit, reserved_instances, EmitReport, LaidOut, PaintItem, PaintNode, PaintScene, StackingContext,
};
use valle_motion::planes::{Css3dOp, PlaneFacts};
use valle_motion::readiness::is_balanced;
use valle_motion::recording::{
    Affine, BatchGeometry, Command, Corners, ObjectFit, PathRef, Point, Rect, Rgba, StrokeRef,
    TableRange,
};
use valle_motion::scalar::Scalar;
use valle_motion::scene_frames::{
    CanonicalError, MeshControls, Scene3DFrameRequest, Scene3DRequest, SceneContent,
};
use valle_motion::shell::{
    Background, Border, BorderStyle, CssBlend, Grain, RingPaths, Shell, Side,
};
use valle_motion::spaces::{
    resolve_css_3d_planes, Matrix4, MatrixStep, PlaneTask, PlaneView, SpaceHost, SpaceScene,
};
use valle_motion::table::Entry;
use valle_motion::trees::{layout_boxes, LayoutBox, LayoutChild, PageBox};
use valle_motion::value::{ControlsSchema, Length, LengthUnit, MotionValue};

fn num(x: f64) -> Scalar {
    Scalar::from_bits(x.to_bits())
}

fn float(x: Scalar) -> f64 {
    f64::from_bits(x.to_bits())
}

fn shift(x: f64) -> Affine {
    Affine {
        a: num(1.0),
        b: num(0.0),
        c: num(0.0),
        d: num(1.0),
        x: num(x),
        y: num(0.0),
    }
}

/// Relates transforms that only shift to the right.
fn relate(cur: &Affine, target: &Affine) -> RelativeStep {
    let by = float(target.x) - float(cur.x);
    if by == 0.0 {
        RelativeStep::Identity
    } else {
        RelativeStep::Moved(shift(by))
    }
}

fn rect() -> Rect {
    Rect {
        x: num(0.0),
        y: num(0.0),
        width: num(40.0),
        height: num(20.0),
    }
}

fn square() -> Corners {
    let p = Point {
        x: num(0.0),
        y: num(0.0),
    };
    Corners {
        top_left: p,
        top_right: p,
        bottom_right: p,
        bottom_left: p,
    }
}

fn side() -> Side {
    Side {
        width: num(0.0),
        color: Rgba {
            r: 0,
            g: 0,
            b: 0,
            a: 0,
        },
        style: BorderStyle::Absent,
        polygon: None,
        ring: PathRef(0),
    }
}

fn node(id: u64, x: f64) -> NodePaint {
    NodePaint {
        node_id: id,
        path: vec![0, id as usize],
        facts: NodeFacts {
            laid_out: true,
            invisible: false,
            transform: shift(x),
            backdrop_filters: vec![],
            filters: vec![],
            opacity: num(1.0),
            blend: CssBlend::Normal,
            border_box: rect(),
            shell: Shell {
                shadows: vec![],
                background: Background {
                    shape: PathRef(0),
                    color: Rgba {
                        r: 0,
                        g: 0,
                        b: 0,
                        a: 0,
                    },
                    rect: rect(),
                    radii: square(),
                    rows: None,
                },
                grain: Grain {
                    amount: num(0.0),
                    area: num(0.0),
                    specks: 0,
                    fibers: 0,
                },
                border: Border {
                    top: side(),
                    right: side(),
                    bottom: side(),
                    left: side(),
                    radii: square(),
                    ring: RingPaths {
                        full: PathRef(0),
                        outer: PathRef(0),
                        inner: PathRef(0),
                        center: PathRef(0),
                        dashed: StrokeRef(0),
                        dotted: StrokeRef(0),
                    },
                },
                outline: None,
            },
            clips_overflow: false,
            inner: rect(),
            inner_radii: square(),
            has_shape_mask: false,
        },
    }
}

fn picture(id: u64, x: f64) -> PaintNode {
    PaintNode {
        paint: node(id, x),
        image: Some(ImageContent {
            asset: format!("asset-{id}"),
            fit: ObjectFit::Fill,
            dst: rect(),
            clip: rect(),
            radii: square(),
            image: id as u32,
            raster_width: 10,
            raster_height: 10,
        }),
        text: None,
    }
}

fn image(id: u32) -> Command {
    Command::Image {
        image: id,
        dst: rect(),
        fit: ObjectFit::Fill,
    }
}

fn key(id: u64, key: &str) -> NodeKey {
    NodeKey {
        id,
        key: key.into(),
    }
}

fn scene(contexts: Vec<StackingContext>) -> PaintScene {
    PaintScene {
        tree: PaintTree {
            keys: vec![key(1, "root"), key(2, "a"), key(3, "b"), key(4, "c")],
            render_keys: vec![],
            planes: vec![],
            clips: vec![],
            masks: vec![],
            backdrop_advanced: vec![],
            advanced: vec![],
            layer_fx: vec![],
            shaders: vec![],
            glass: GlassOwners {
                surfaces: vec![],
                fields: vec![],
                materials: vec![],
                foregrounds: vec![],
                node_fields: vec![],
            },
            reserved: 0,
            limit: 100,
        },
        content: ContentTree {
            formulas: vec![],
            batches: vec![],
            paths: vec![],
            scene3d: vec![],
            videos: vec![],
        },
        contexts,
        nodes: vec![],
    }
}

fn nested() -> Vec<StackingContext> {
    vec![
        StackingContext {
            root: Some(picture(1, 0.0)),
            items: vec![
                PaintItem::Node(picture(2, 5.0)),
                PaintItem::Context(1),
                PaintItem::Node(picture(4, 0.0)),
                PaintItem::Context(9),
            ],
        },
        StackingContext {
            root: Some(picture(3, 5.0)),
            items: vec![],
        },
    ]
}

fn emitted(s: PaintScene) -> Result<EmitReport, EmitError> {
    emit(&relate, &digest, &canonical, &LaidOut::Ready(s))
}

fn digest(control: &String) -> Option<[u8; 32]> {
    match control.as_str() {
        "model" => Some([1; 32]),
        "paint" => Some([2; 32]),
        _ => None,
    }
}

fn canonical(request: &Scene3DFrameRequest) -> Result<Vec<u8>, CanonicalError> {
    if request.frame.is_empty() {
        return Err(CanonicalError {
            reason: "not finite".into(),
        });
    }
    let mut bytes = request.provider_key.clone().into_bytes();
    bytes.extend(request.width.to_be_bytes());
    bytes.extend(request.height.to_be_bytes());
    for binding in &request.resource_bindings {
        bytes.extend(binding.key.bytes());
        bytes.extend(binding.value.bytes);
    }
    bytes.extend(&request.scene);
    bytes.extend(&request.frame);
    Ok(bytes)
}

fn globe(name: &str, frame: &[u8]) -> SceneContent {
    SceneContent {
        request: Scene3DRequest {
            provider_key: format!("scene3d://{name}"),
            scene: b"scene".to_vec(),
            frame: frame.to_vec(),
        },
        meshes: vec![
            MeshControls {
                model: "model".into(),
                texture: Some("paint".into()),
            },
            MeshControls {
                model: "unbound".into(),
                texture: None,
            },
        ],
    }
}

fn raster(id: u64, scene: &str, side: u32) -> PaintItem {
    let mut node = picture(id, 0.0);
    let image = node.image.as_mut().unwrap();
    image.asset = format!("generated://scene3d/{scene}");
    image.raster_width = side;
    image.raster_height = side;
    PaintItem::Node(node)
}

#[test]
fn painted_scenes_are_requested_in_painting_order() {
    let mut s = scene(vec![StackingContext {
        root: None,
        items: vec![raster(2, "b", 4), raster(3, "a", 8), raster(4, "b", 4)],
    }]);
    s.content.scene3d = vec![
        Entry {
            key: "a".into(),
            value: globe("a", b"f"),
        },
        Entry {
            key: "b".into(),
            value: globe("b", b"f"),
        },
    ];
    let e = emitted(s).unwrap();
    let textures: Vec<usize> = e
        .commands
        .iter()
        .filter_map(|c| match c {
            Command::Texture { texture, .. } => Some(*texture),
            _ => None,
        })
        .collect();
    assert_eq!(textures, [0, 1, 2]);
    let providers: Vec<&str> = e
        .scene3d_frames
        .iter()
        .map(|frame| frame.provider_key.as_str())
        .collect();
    assert_eq!(providers, ["scene3d://b", "scene3d://a", "scene3d://b"]);
    assert_eq!(e.scene3d_frames[1].width, 8);
    assert_eq!(e.scene3d_frames[1].frame, b"f");
    let bound: Vec<(&str, u8)> = e.scene3d_frames[0]
        .resource_bindings
        .iter()
        .map(|b| (b.key.as_str(), b.value.bytes[0]))
        .collect();
    assert_eq!(bound, [("model", 1), ("paint", 2)]);
    assert_eq!(e.textures[0].provider_key, e.textures[2].provider_key);
    assert_ne!(e.textures[0].provider_key, e.textures[1].provider_key);
    let content = e.scene3d_frames[0].content_digest(&canonical).unwrap();
    assert_eq!(
        e.textures[0].provider_key,
        format!("scene3d-frame://{}", content.as_hex())
    );
}

#[test]
fn a_scene_without_canonical_form_is_refused() {
    let mut s = scene(vec![StackingContext {
        root: None,
        items: vec![raster(2, "a", 4)],
    }]);
    s.content.scene3d = vec![Entry {
        key: "a".into(),
        value: globe("a", b""),
    }];
    assert_eq!(
        emitted(s).err().unwrap().message(),
        "DrawProgram emission failed: not finite"
    );
}

#[test]
fn contexts_are_painted_in_order_and_closed() {
    let e = emitted(scene(nested())).unwrap();
    let moved = Command::BeginTransform {
        transform: shift(5.0),
    };
    assert_eq!(
        e.commands,
        vec![
            image(1),
            moved,
            image(2),
            Command::End,
            moved,
            image(3),
            Command::End,
            image(4)
        ]
    );
    assert!(e.unsupported.is_empty());
}

#[test]
fn a_scene_whose_contexts_stand_in_the_wrong_order_is_not_ready() {
    assert!(scene(nested()).is_ready());
    let mut backwards = scene(nested());
    backwards.contexts[1].items.push(PaintItem::Context(0));
    assert!(!backwards.is_ready());
    let mut forgetful = scene(nested());
    forgetful.tree.reserved = 1;
    assert!(!forgetful.is_ready());
    let open = vec![Command::BeginOpacity { alpha: num(0.5) }];
    assert!(!is_balanced(&open));
    assert!(!is_balanced(&vec![Command::End]));
    assert!(is_balanced(&vec![open[0], image(1), Command::End]));
}

#[test]
fn a_frame_without_layout_is_refused() {
    let error = |laid| {
        emit(&relate, &digest, &canonical, &laid)
            .err()
            .unwrap()
            .message()
    };
    assert_eq!(
        error(LaidOut::NoRoot("gone".into())),
        "root layout unavailable: gone"
    );
    assert_eq!(
        error(LaidOut::NoContexts("bad".into())),
        "stacking contexts failed: bad"
    );
}

#[test]
fn a_culled_plane_hides_its_whole_context() {
    let mut s = scene(nested());
    s.tree.planes = vec![Entry {
        key: "b".into(),
        value: Css3dPlane {
            hidden: true,
            project: true,
            projection: PlaneProjection::Degenerate,
        },
    }];
    let e = emitted(s).unwrap();
    assert!(!e.commands.contains(&image(3)));
    assert!(e.commands.contains(&image(4)));
}

fn fielded(members: &[&str]) -> PaintScene {
    let mut s = scene(nested());
    s.tree.glass.fields = vec![FieldEntry {
        field_id: "f".into(),
        owner: Some(shift(0.0)),
    }];
    s.tree.glass.materials = vec![Entry {
        key: "f".into(),
        value: MaterialProgram {
            owner_kind: GlassOwnerKind::Field,
            owner_id: "f".into(),
            program: 8,
        },
    }];
    s.tree.glass.node_fields = members
        .iter()
        .map(|m| Entry {
            key: (*m).into(),
            value: "f".into(),
        })
        .collect();
    s
}

#[test]
fn the_items_of_a_field_share_one_material() {
    let e = emitted(fielded(&["a", "b"])).unwrap();
    let opens = e
        .commands
        .iter()
        .filter(|c| matches!(c, Command::BeginMotionGlass { program: 8 }))
        .count();
    assert_eq!(opens, 1);
    let last = e.commands.len() - 1;
    assert_eq!(e.commands[last - 1], Command::End);
    assert_eq!(e.commands[last], image(4));
}

#[test]
fn a_field_that_is_left_cannot_be_entered_again() {
    assert_eq!(
        emitted(fielded(&["a", "c"])).err().unwrap().message(),
        "DrawProgram emission failed: GlassField 'f' is split into discontiguous painter-order runs"
    );
    let mut unprepared = fielded(&["a"]);
    unprepared.tree.glass.materials.clear();
    assert_eq!(
        emitted(unprepared).err().unwrap().message(),
        "DrawProgram emission failed: GlassField 'f' has no temporally prepared material program"
    );
}

#[test]
fn every_formula_is_placed_concealed_or_reported() {
    let mut s = scene(nested());
    let formula = |key: &str| Entry {
        key: key.to_owned(),
        value: FormulaFragment { commands: vec![] },
    };
    s.content.formulas = vec![formula("a"), formula("hidden"), formula("lost")];
    s.nodes = vec![
        RenderEntry {
            parent: None,
            invisible: true,
            key: None,
        },
        RenderEntry {
            parent: Some(0),
            invisible: false,
            key: Some("hidden".into()),
        },
    ];
    let e = emitted(s).unwrap();
    assert_eq!(e.unsupported.len(), 1);
    assert_eq!(e.unsupported[0].node, "lost");
    assert!(!e.commands.contains(&image(2)));
}

#[test]
fn authored_batches_are_reserved() {
    let batch = |start, end| Entry {
        key: String::new(),
        value: BatchContent {
            geometry: BatchGeometry::Circle,
            instances: TableRange { start, end },
        },
    };
    assert_eq!(reserved_instances(&vec![batch(0, 3), batch(3, 8)]), 8);
    assert_eq!(
        reserved_instances(&vec![batch(0, usize::MAX), batch(0, 2)]),
        usize::MAX
    );
}

#[test]
fn transforms_are_collected_from_all_contexts() {
    let mut out = vec![];
    scene(nested()).collect_paint_transforms(0, &mut out);
    let found: Vec<_> = out
        .iter()
        .map(|e| (e.key.as_str(), float(e.value.x)))
        .collect();
    assert_eq!(
        found,
        [("a", 5.0), ("b", 5.0), ("c", 0.0), ("root", 0.0)]
    );
}

fn phase() -> PhaseContext {
    PhaseContext {
        active: false,
        frame: 0,
        elapsed_frames: 0,
        duration_frames: 0,
        progress: num(0.0),
    }
}

fn context(duration_frames: u32) -> MotionContext {
    MotionContext {
        local_frame: 0,
        progress: num(0.0),
        composition_seconds: num(0.0),
        duration_frames,
        fps_numerator: num(30.0),
        fps_denominator: 1,
        fps: num(30.0),
        enter: phase(),
        hold: phase(),
        hold_iteration: 0,
        hold_cycle_frame: 0,
        hold_cycle_progress: num(0.0),
        exit: phase(),
    }
}

fn geometry(width: u32, duration: u32, prop: f64) -> GeometryKey {
    let props = ResolvedProps {
        values: vec![Entry {
            key: "size".into(),
            value: MotionValue::Number(num(prop)),
        }],
    };
    let viewport = ViewportKey {
        width: Some(width),
        height: None,
        font_size: 16f32.to_bits(),
        device_pixel_ratio: 1f32.to_bits(),
    };
    GeometryKey::new(viewport, &props, &context(duration))
}

#[test]
fn a_layout_is_kept_for_equal_frames_only() {
    assert!(LayoutCache::<u32>::new(7, false).is_none());
    let mut cache = LayoutCache::new(7, true).unwrap();
    assert!(cache.is_for(7) && !cache.is_for(8));
    assert_eq!(cache.find(&geometry(640, 10, 0.0)), None);
    cache.keep(geometry(640, 10, 0.0), "first");
    assert_eq!(cache.find(&geometry(640, 10, -0.0)), Some(&"first"));
    assert_eq!(cache.find(&geometry(320, 10, 0.0)), None);
    assert_eq!(cache.find(&geometry(640, 11, 0.0)), None);
    assert_eq!(cache.find(&geometry(640, 10, 1.0)), None);
    cache.keep(geometry(640, 10, 1.0), "second");
    assert_eq!(cache.find(&geometry(640, 10, 0.0)), None);
    cache.clear();
    assert_eq!(cache.find(&geometry(640, 10, 1.0)), None);
}

#[test]
fn an_identity_scale_is_inherited_while_it_is_asked_for() {
    let node = |parent, important: Option<&str>, ordinary: Option<&str>, fixed| ScaleNode {
        parent,
        important: important.map(str::to_owned),
        ordinary: ordinary.map(str::to_owned),
        contains_fixed: fixed,
    };
    let nodes = vec![
        node(None, None, Some("present"), false),
        node(Some(0), None, Some("inherit"), true),
        node(Some(1), None, Some("inherit"), false),
        node(Some(2), None, None, false),
        node(Some(3), None, Some("inherit"), false),
        node(Some(0), Some("none"), Some("present"), false),
    ];
    assert_eq!(
        preserve_identity(&nodes),
        [true, false, true, false, false, false]
    );
}

fn style(property: &str, value: MotionValue) -> StyleBinding {
    StyleBinding {
        property: property.into(),
        value: StyleValue::Static { value },
    }
}

fn scene_node(key: &str, children: ChildRange, styles: Vec<StyleBinding>) -> SceneNode {
    SceneNode {
        key: key.into(),
        kind: NodeKind::Box,
        space: None,
        class_names: vec![],
        styles,
        visibility: None,
        children,
    }
}

/// A root with one child.
fn pair(root: Vec<StyleBinding>, child: Vec<StyleBinding>) -> SceneArtifact {
    SceneArtifact {
        controls: ControlsSchema {
            props: vec![],
            cues: vec![],
        },
        exprs: vec![],
        nodes: vec![
            scene_node("root", ChildRange { start: 0, end: 1 }, root),
            scene_node("card", ChildRange { start: 1, end: 1 }, child),
        ],
        node_children: vec![NodeId(1)],
        root: NodeId(0),
        camera: None,
    }
}

#[test]
fn boxes_are_keyed_by_their_nodes() {
    let artifact = pair(vec![], vec![]);
    let tree = LayoutBox {
        id: 10,
        children: Some(vec![LayoutChild {
            render_index: 0,
            inner: LayoutBox {
                id: 11,
                children: None,
            },
        }]),
    };
    let boxes = layout_boxes(
        &artifact,
        &tree,
        &vec![PageBox {
            id: 11,
            rect: rect(),
        }],
    )
    .unwrap();
    assert_eq!(boxes.len(), 1);
    assert_eq!(boxes[0].key, "card");
    assert_eq!(boxes[0].value, rect());
}

fn place(start: Scalar, p: LengthProduct) -> Scalar {
    let part = float(p.value) * float(p.factor);
    num(float(start) + if p.percent { part / 100.0 } else { part })
}

fn distance(p: LengthProduct) -> Scalar {
    num(float(p.value) * float(p.factor))
}

/// Matrices that only count depth: their last entry is a shift along z.
fn matrix(step: &MatrixStep) -> Matrix4 {
    let depth = |m: &Matrix4| float(m.rows[15]);
    let z = match step {
        MatrixStep::Identity => 0.0,
        MatrixStep::Function { matrix, op, .. } => {
            depth(matrix)
                + match op {
                    Css3dOp::TranslateZ(z) => float(*z),
                    _ => 0.0,
                }
        }
        MatrixStep::Centered { matrix, .. } => depth(matrix),
        MatrixStep::Product { left, right } => depth(left) + depth(right),
    };
    Matrix4 {
        rows: [num(z); 16],
    }
}

fn view(task: &PlaneTask) -> PlaneView {
    let z = float(task.matrix.rows[15]);
    let gap = task.perspective.map(|p| num(float(p.distance) - z));
    PlaneView {
        facts: PlaneFacts {
            corners: true,
            distances: gap.map(|d| (d, d, d, d)),
            signed_area: num(800.0),
            depth: Some(num(z)),
        },
        quad: Quad {
            top_left: task.origin,
            top_right: task.origin,
            bottom_right: task.origin,
            bottom_left: task.origin,
        },
    }
}

fn planes(artifact: &SceneArtifact) -> Result<Vec<(String, f64, bool)>, LayoutError> {
    let boxes = vec![
        Entry {
            key: "root".into(),
            value: rect(),
        },
        Entry {
            key: "card".into(),
            value: rect(),
        },
    ];
    let host = SpaceHost {
        place: &place,
        distance: &distance,
        matrix: &matrix,
        view: &view,
    };
    let sizing = Sizing {
        device_pixel_ratio: num(1.0),
        rem: num(16.0),
        em: num(16.0),
        viewport_width: Some(100),
        viewport_height: Some(100),
    };
    let scene = SpaceScene {
        artifact,
        values: &vec![],
        boxes: &boxes,
        sizing: &sizing,
    };
    let found = resolve_css_3d_planes(&host, &scene)?;
    Ok(found
        .into_iter()
        .map(|e| (e.key, float(e.value.depth), e.value.project))
        .collect())
}

fn depth(z: f64) -> StyleBinding {
    style(
        "motion-transform-3d-translate-z",
        MotionValue::Number(num(z)),
    )
}

fn preserve() -> StyleBinding {
    style(
        "transform-style",
        MotionValue::Enum("preserve-3d".to_owned()),
    )
}

#[test]
fn a_shared_space_adds_up_along_its_nodes() {
    let shared = pair(vec![preserve(), depth(10.0)], vec![depth(5.0)]);
    assert_eq!(planes(&shared).unwrap(), [("card".to_owned(), 15.0, true)]);
    let flattened = pair(vec![depth(10.0)], vec![depth(5.0)]);
    assert_eq!(
        planes(&flattened).unwrap(),
        [
            ("card".to_owned(), 5.0, true),
            ("root".to_owned(), 10.0, true)
        ]
    );
    let both = pair(vec![preserve()], vec![preserve(), depth(3.0)]);
    assert_eq!(planes(&both).unwrap(), [("card".to_owned(), 3.0, false)]);
    assert_eq!(planes(&pair(vec![], vec![])).unwrap(), []);
}

#[test]
fn a_plane_may_not_reach_the_camera() {
    let length = MotionValue::Length(Length {
        value: num(20.0),
        unit: LengthUnit::Px,
    });
    let near = |z| pair(vec![style("perspective", length.duplicate())], vec![depth(z)]);
    assert_eq!(
        planes(&near(19.0)).unwrap(),
        [("card".to_owned(), 19.0, true)]
    );
    assert!(matches!(
        planes(&near(20.0)),
        Err(LayoutError::BadStyle { declarations, .. }) if declarations == "perspective"
    ));
    let mut bad = near(1.0);
    bad.nodes[1].children = ChildRange { start: 4, end: 9 };
    assert!(matches!(planes(&bad), Err(LayoutError::BadNode { at: 1 })));
}

fn gradient_sum(s: &GradientSum) -> Scalar {
    num(match *s {
        GradientSum::Period { first, last } => float(last) - float(first),
        GradientSum::Share {
            position,
            start,
            extent,
            ..
        } => (float(position) - float(start)) / float(extent),
        GradientSum::Middle { start, size } => float(start) + float(size) / 2.0,
        GradientSum::Total { a, b } => float(a) + float(b),
        GradientSum::Along {
            middle,
            at,
            axis,
            direction,
        } => float(middle) + (float(at) - float(axis) / 2.0) * float(direction),
        GradientSum::Radius {
            inverse,
            extent,
            scale,
        } => 1.0 / float(inverse) * (float(extent) / float(scale)),
        GradientSum::Clock { from, start } => float(from) - 90.0 + float(start),
    })
}

fn stops(positions: &[f64]) -> Vec<GradientStop> {
    positions
        .iter()
        .map(|p| GradientStop {
            position: num(*p),
            color: Rgba {
                r: *p as u8,
                g: 0,
                b: 0,
                a: 255,
            },
        })
        .collect()
}

#[test]
fn a_linear_gradient_spans_its_axis_or_its_period() {
    let linear = |positions: &[f64]| GradientImage::Linear {
        direction: Some(Point {
            x: num(1.0),
            y: num(0.0),
        }),
        axis: num(40.0),
        stops: stops(positions),
    };
    let ends = |image: &GradientImage, repeating| {
        match record_gradient(&gradient_sum, image, repeating, rect()) {
            Some(RecordedGradient::Linear {
                start, end, stops, ..
            }) => Some((
                float(start.x),
                float(end.x),
                float(start.y),
                stops.iter().map(|s| float(s.position)).collect::<Vec<_>>(),
            )),
            _ => None,
        }
    };
    assert_eq!(
        ends(&linear(&[0.0, 40.0]), false),
        Some((0.0, 40.0, 10.0, vec![0.0, 1.0]))
    );
    assert_eq!(
        ends(&linear(&[10.0, 20.0]), true),
        Some((10.0, 20.0, 10.0, vec![0.0, 1.0]))
    );
    assert_eq!(ends(&linear(&[10.0, 10.0]), true), None);
    assert_eq!(ends(&linear(&[]), false), None);
}

#[test]
fn round_gradients_are_placed_in_their_box() {
    let center = Point {
        x: num(20.0),
        y: num(10.0),
    };
    let radial = GradientImage::Radial {
        center,
        inverse: Point {
            x: num(0.5),
            y: num(0.25),
        },
        scale: num(8.0),
        start: num(0.0),
        period: num(2.0),
        stops: stops(&[0.0, 2.0]),
    };
    match record_gradient(&gradient_sum, &radial, true, rect()) {
        Some(RecordedGradient::Radial { radii, spread, .. }) => {
            assert_eq!((float(radii.x), float(radii.y)), (0.5, 1.0));
            assert_eq!(spread, SpreadMode::Repeat);
        }
        other => panic!("{other:?}"),
    }
    let conic = GradientImage::Conic {
        center,
        from: num(30.0),
        start: num(0.0),
        period: num(0.0),
        stops: stops(&[0.0, 180.0]),
    };
    match record_gradient(&gradient_sum, &conic, false, rect()) {
        Some(RecordedGradient::Conic {
            start_angle,
            sweep_angle,
            stops,
            ..
        }) => {
            assert_eq!((float(start_angle), float(sweep_angle)), (-60.0, 360.0));
            assert_eq!(float(stops[1].position), 0.5);
        }
        other => panic!("{other:?}"),
    }
    assert!(record_gradient(&gradient_sum, &conic, true, rect()).is_none());
    assert!(record_gradient(&gradient_sum, &GradientImage::Other, false, rect()).is_none());
}

fn tokens(v: &MotionValue) -> String {
    match v {
        MotionValue::Number(x) => format!("{}", float(*x)),
        other => format!("{other:?}"),
    }
}

/// A root with a field of two boxes, a text with a child, and a box that stays on the screen.
fn forest() -> SceneArtifact {
    let leaf = ChildRange { start: 6, end: 6 };
    let mut artifact = pair(vec![], vec![]);
    artifact.nodes = vec![
        scene_node("root", ChildRange { start: 0, end: 3 }, vec![]),
        scene_node("field", ChildRange { start: 3, end: 5 }, vec![]),
        scene_node("text", ChildRange { start: 5, end: 6 }, vec![]),
        scene_node("hud", leaf, vec![]),
        scene_node("left", leaf, vec![]),
        scene_node("right", leaf, vec![]),
        scene_node("lost", leaf, vec![]),
    ];
    artifact.nodes[1].kind = NodeKind::GlassField(GlassFieldNode {
        field_id: GlassFieldId::new("field".into()).unwrap(),
        material: GlassMaterialBinding::defaults(),
        motion: GlassFieldMotionBinding::defaults(),
        merge: GlassMergeIntent::defaults(),
        environment: GlassEnvironmentBinding::defaults(),
    });
    artifact.nodes[2].kind = NodeKind::Text {
        text: TextValue::Static {
            value: "hello".into(),
        },
        path: None,
        per_unit: None,
    };
    artifact.nodes[3].space = Some(CoordinateSpace::Screen);
    artifact.node_children = [1, 3, 2, 4, 5, 6].map(NodeId).to_vec();
    artifact
}

fn grow(artifact: &SceneArtifact, camera: bool) -> Result<Vec<(Option<usize>, usize)>, LayoutError> {
    let boxes = node_of(&tokens, artifact, &vec![], &vec![], None, camera)?;
    Ok(boxes
        .iter()
        .map(|b| match b {
            LayoutNode::World { children } => (None, *children),
            LayoutNode::Box { node, children, .. } => (Some(*node), *children),
        })
        .collect())
}

#[test]
fn fields_give_way_to_their_children_and_texts_have_none() {
    assert_eq!(
        grow(&forest(), false).unwrap(),
        [
            (Some(4), 0),
            (Some(5), 0),
            (Some(3), 0),
            (Some(2), 0),
            (Some(0), 4)
        ]
    );
}

#[test]
fn a_camera_wraps_its_world_and_leaves_the_screen_behind_it() {
    assert_eq!(
        grow(&forest(), true).unwrap(),
        [
            (Some(4), 0),
            (Some(5), 0),
            (Some(2), 0),
            (None, 3),
            (Some(3), 0),
            (Some(0), 2)
        ]
    );
    assert!(camera_wrappers(&identity_camera_styles(), true).is_ok());
}

#[test]
fn a_node_carries_its_parsed_styles() {
    let mut artifact = forest();
    artifact.nodes[4].styles = vec![style("width", MotionValue::Number(num(4.0)))];
    artifact.nodes[4].class_names = vec!["a".into(), "b".into()];
    let boxes = node_of(&tokens, &artifact, &vec![], &vec![], None, false).unwrap();
    match &boxes[0] {
        LayoutNode::Box {
            preset,
            class_name,
            style,
            ..
        } => {
            assert!(preset.is_some() && style.is_some());
            assert_eq!(class_name.as_deref(), Some("a b"));
        }
        LayoutNode::World { .. } => panic!("box"),
    }
}

#[test]
fn hidden_nodes_keep_their_boxes() {
    let mut artifact = forest();
    artifact.nodes[5].visibility = Some(valle_motion::expr::ExprId(0));
    let grow_with = |visible: bool| {
        let values = vec![MotionValue::Bool(visible)];
        node_of(&tokens, &artifact, &values, &vec![], None, false)
            .unwrap()
            .iter()
            .map(|b| match b {
                LayoutNode::World { children } => (None, *children),
                LayoutNode::Box { node, children, .. } => (Some(*node), *children),
            })
            .collect::<Vec<_>>()
    };
    assert_eq!(grow_with(true), grow_with(false));
    assert_eq!(grow_with(false), grow(&forest(), false).unwrap());
}

#[test]
fn errors_below_a_node_come_first() {
    let mut artifact = forest();
    artifact.nodes[6].children = ChildRange { start: 9, end: 1 };
    artifact.nodes[2].visibility = Some(valle_motion::expr::ExprId(0));
    assert_eq!(grow(&artifact, false), Err(LayoutError::BadNode { at: 6 }));
    let mut two = forest();
    two.root = NodeId(1);
    assert_eq!(grow(&two, false), Err(LayoutError::BadNode { at: 1 }));
}
