use valle_motion::artifact::{
    CameraBinding, ChildRange, NodeId, NodeKind, NumberValue, PointValue, SceneArtifact, SceneNode,
    StyleBinding, StyleValue, TextValue,
};
use valle_motion::boxes::{CameraWrappers, LayoutNode};
use valle_motion::contours::SegmentGeometry;
use valle_motion::effects::{LengthProduct, Sizing};
use valle_motion::eval::{
    EvalInputs, Kernel, KernelError, MotionContext, PhaseContext, ResolvedProps,
};
use valle_motion::expr::{Expr, ExprId, GeometryField};
use valle_motion::foreground::{ForegroundColors, RectTask};
use valle_motion::formula::FormulaStyle;
use valle_motion::frames::{Drawn, FrameHost, FrameTask, Laid};
use valle_motion::glass_frame::{GlassHost, PlacedPlane, Quad};
use valle_motion::glass_parts::GlassSum;
use valle_motion::layout_error::LayoutError;
use valle_motion::layout_tree::{build_tree, LayoutTree, PaintHost, PaintTask};
use valle_motion::measure::{Calc, MeasureTools};
use valle_motion::nodes::{FormulaBox, PlanePlacement};
use valle_motion::planes::PlaneFacts;
use valle_motion::recording::{Homography, Point, Rect, Rgba};
use valle_motion::scalar::Scalar;
use valle_motion::scene3d::{AnchorProjection, AnchorTask, Frame3DState};
use valle_motion::spaces::{Matrix4, MatrixStep, PlaneTask, PlaneView, SpaceHost};
use valle_motion::table::Entry;
use valle_motion::trees::RenderShape;
use valle_motion::value::{ControlsSchema, MotionValue};

fn num(x: f64) -> Scalar {
    Scalar::from_bits(x.to_bits())
}

fn float(x: Scalar) -> f64 {
    f64::from_bits(x.to_bits())
}

fn origin() -> Point {
    Point {
        x: num(0.0),
        y: num(0.0),
    }
}

fn rect(width: f64) -> Rect {
    Rect {
        x: num(0.0),
        y: num(0.0),
        width: num(width),
        height: num(20.0),
    }
}

fn kernel(_: &Kernel) -> Result<MotionValue, KernelError> {
    Err(KernelError::Domain)
}

fn tokens(v: &MotionValue) -> String {
    match v {
        MotionValue::Number(x) => format!("{}", float(*x)),
        other => format!("{other:?}"),
    }
}

fn write(x: Scalar) -> String {
    format!("{}", float(x))
}

fn typeset(_: usize, _: &FormulaStyle) -> Result<FormulaBox, String> {
    Err("no fonts".to_owned())
}

/// Every node of the scene below is forty pixels wide.
fn lay(_: &Vec<LayoutNode>, _: &Option<CameraWrappers>) -> Result<Laid, LayoutError> {
    Ok(Laid {
        boxes: ["root", "title"]
            .map(|key| Entry {
                key: key.to_owned(),
                value: rect(40.0),
            })
            .into(),
        contents: vec![],
    })
}

fn draw(_: &Vec<LayoutNode>, _: &Option<CameraWrappers>) -> Drawn {
    Drawn {
        shape: RenderShape {
            is_anonymous_text: false,
            is_anonymous: false,
            children: Some(vec![RenderShape {
                is_anonymous_text: false,
                is_anonymous: false,
                children: None,
            }]),
        },
        transforms: Err(LayoutError::BadViewport),
    }
}

fn check(_: usize, _: &Frame3DState) -> Option<String> {
    None
}

fn project(_: &AnchorTask) -> Result<Vec<AnchorProjection>, String> {
    Ok(vec![])
}

fn place(start: Scalar, _: LengthProduct) -> Scalar {
    start
}

fn distance(p: LengthProduct) -> Scalar {
    p.value
}

fn matrix(_: &MatrixStep) -> Matrix4 {
    Matrix4 {
        rows: [num(0.0); 16],
    }
}

fn view(_: &PlaneTask) -> PlaneView {
    PlaneView {
        facts: PlaneFacts {
            corners: true,
            distances: None,
            signed_area: num(-1.0),
            depth: Some(num(3.0)),
        },
        quad: Quad {
            top_left: origin(),
            top_right: origin(),
            bottom_right: origin(),
            bottom_left: origin(),
        },
    }
}

fn order(plane: &PlacedPlane) -> PlanePlacement {
    PlanePlacement {
        z_index: (float(plane.depth) * 1024.0) as i32,
        hidden: plane.hidden,
    }
}

fn calc(_: &Calc) -> Scalar {
    num(0.0)
}

fn at(_: &SegmentGeometry, _: Scalar) -> Point {
    origin()
}

fn piece(s: &SegmentGeometry, _: Scalar, _: Scalar) -> SegmentGeometry {
    *s
}

fn sums(_: &GlassSum) -> Scalar {
    num(0.0)
}

fn homography(_: &Quad) -> Option<Homography> {
    None
}

fn curve(_: &SegmentGeometry, _: usize) -> Point {
    origin()
}

fn rects(_: &RectTask) -> Option<Rect> {
    None
}

fn luma(_: &Vec<ForegroundColors>) -> Option<Scalar> {
    None
}

fn phase() -> PhaseContext {
    PhaseContext {
        active: false,
        frame: 0,
        elapsed_frames: 0,
        duration_frames: 0,
        progress: num(0.0),
    }
}

fn context() -> MotionContext {
    MotionContext {
        local_frame: 0,
        progress: num(0.0),
        composition_seconds: num(0.0),
        duration_frames: 10,
        fps_numerator: num(30.0),
        fps_denominator: 1,
        fps: num(30.0),
        enter: phase(),
        hold: phase(),
        hold_iteration: 0,
        hold_cycle_frame: 0,
        hold_cycle_progress: num(0.0),
        exit: phase(),
    }
}

fn node(key: &str, kind: NodeKind, children: ChildRange) -> SceneNode {
    SceneNode {
        key: key.into(),
        kind,
        space: None,
        class_names: vec![],
        styles: vec![],
        visibility: None,
        children,
    }
}

/// A root with a title.
fn scene() -> SceneArtifact {
    SceneArtifact {
        controls: ControlsSchema {
            props: vec![],
            cues: vec![],
        },
        exprs: vec![],
        nodes: vec![
            node("root", NodeKind::Box, ChildRange { start: 0, end: 1 }),
            node(
                "title",
                NodeKind::Text {
                    text: TextValue::Static {
                        value: "hello".into(),
                    },
                    path: None,
                    per_unit: None,
                },
                ChildRange { start: 1, end: 1 },
            ),
        ],
        node_children: vec![NodeId(1)],
        root: NodeId(0),
        camera: None,
    }
}

fn build(artifact: &SceneArtifact, width: u32) -> Result<LayoutTree, LayoutError> {
    let ctx = context();
    let props = ResolvedProps::empty();
    let signals = vec![];
    let inputs = EvalInputs {
        ctx: &ctx,
        props: &props,
        signals: &signals,
        unit: None,
        viewport: Some((num(640.0), num(360.0))),
    };
    let host = FrameHost {
        kernel: &kernel,
        tokens: &tokens,
        write: &write,
        typeset: &typeset,
        lay: &lay,
        draw: &draw,
    };
    let paint = PaintHost {
        space: SpaceHost {
            place: &place,
            distance: &distance,
            matrix: &matrix,
            view: &view,
        },
        order: &order,
        cut: MeasureTools {
            calc: &calc,
            point: &at,
            tangent: &at,
            piece: &piece,
        },
        glass: GlassHost {
            sums: &sums,
            project: &homography,
            curve: &curve,
            rects: &rects,
            luma: &luma,
        },
    };
    let refs = vec![vec![]; artifact.nodes.len()];
    let degrees = artifact
        .nodes
        .iter()
        .map(|n| vec![num(0.0); n.styles.len()])
        .collect();
    let sizing = Sizing {
        device_pixel_ratio: num(1.0),
        rem: num(16.0),
        em: num(16.0),
        viewport_width: Some(640),
        viewport_height: Some(360),
    };
    build_tree(
        &host,
        &check,
        &project,
        &paint,
        &FrameTask {
            artifact,
            inputs: &inputs,
            width: Some(width),
            height: Some(360),
            formula: FormulaStyle {
                font_size: num(16.0),
                color: Rgba {
                    r: 0,
                    g: 0,
                    b: 0,
                    a: 255,
                },
            },
            refs: &refs,
        },
        &PaintTask {
            sizing: &sizing,
            degrees: &degrees,
            limit: 64,
        },
    )
}

#[test]
fn a_frame_is_laid_out_and_resolved() {
    let tree = build(&scene(), 640).unwrap();
    assert_eq!(tree.boxes.len(), 2);
    assert_eq!(tree.node_texts.len(), 1);
    assert_eq!(tree.node_texts[0].key, "title");
    assert_eq!(tree.node_texts[0].value, "hello");
    let keys: Vec<_> = tree
        .render_keys
        .iter()
        .map(|k| (k.path.clone(), k.key.as_str()))
        .collect();
    assert_eq!(keys, [(vec![], "root"), (vec![0], "title")]);
    assert!(tree.planes.is_empty());
    assert!(tree.placement.camera.is_none());
    assert!(tree.scene3d_requests().is_empty());
    assert!(tree.painted.glass.surfaces.is_empty());
    assert_eq!(tree.painted.nodes.len(), 2);
}

#[test]
fn a_hidden_node_keeps_its_box() {
    let frame = |visible: bool| {
        let mut artifact = scene();
        artifact.exprs = vec![Expr::Const {
            value: MotionValue::Bool(visible),
        }];
        artifact.nodes[1].visibility = Some(ExprId(0));
        build(&artifact, 640).unwrap()
    };
    let (shown, hidden) = (frame(true), frame(false));
    let rects = |tree: &LayoutTree| {
        (tree.placement.laid.boxes.iter())
            .map(|e| (e.key.clone(), e.value))
            .collect::<Vec<_>>()
    };
    assert_eq!(rects(&shown), rects(&hidden));
    assert_eq!(shown.boxes.len(), hidden.boxes.len());
}

#[test]
fn planes_are_found_after_the_layout() {
    let mut artifact = scene();
    artifact.nodes[1].styles = vec![StyleBinding {
        property: "rotate-y".into(),
        value: StyleValue::Static {
            value: MotionValue::Number(num(30.0)),
        },
    }];
    let tree = build(&artifact, 640).unwrap();
    assert_eq!(tree.planes.len(), 1);
    assert_eq!(tree.planes[0].key, "title");
    assert_eq!(float(tree.planes[0].value.depth), 3.0);
}

#[test]
fn a_camera_that_reads_boxes_is_probed() {
    let mut artifact = scene();
    artifact.exprs = vec![
        Expr::NodeBounds {
            key: "title".into(),
        },
        Expr::GeometryField {
            input: ExprId(0),
            field: GeometryField::Width,
        },
    ];
    artifact.camera = Some(CameraBinding {
        center: PointValue::Static { value: origin() },
        zoom: NumberValue::Expr { expr: ExprId(1) },
        rotation: NumberValue::Static { value: num(0.0) },
    });
    let tree = build(&artifact, 640).unwrap();
    assert!(tree.placement.camera.is_some());
    assert!(matches!(tree.boxes[1], LayoutNode::World { children: 1 }));
}

#[test]
fn the_first_failure_of_a_frame_counts() {
    let mut artifact = scene();
    artifact.nodes[1].kind = NodeKind::MathFormula { latex: "x".into() };
    artifact.nodes[0].visibility = Some(ExprId(7));
    assert_eq!(build(&artifact, 0).err(), Some(LayoutError::BadViewport));
    assert_eq!(
        build(&artifact, 640).err(),
        Some(LayoutError::BadFormula {
            node: "title".into(),
            reason: "no fonts".into()
        })
    );
    artifact.nodes[1].kind = NodeKind::Box;
    assert!(matches!(
        build(&artifact, 640).err(),
        Some(LayoutError::Eval(_))
    ));
}
