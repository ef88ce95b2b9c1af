//! The stages of building a frame around the host's layout: values before it, the camera, values
//! after it, and everything that is painted.

use vstd::prelude::*;

use crate::artifact::SceneArtifact;
use crate::camera::{
    camera_flagged, camera_given, check_post_layout_origins, stray_fault, stray_from, CameraStyles,
};
use crate::contours::SegmentGeometry;
use crate::eval::{values_of, EvalInputs, Kernel, KernelError, LayoutInputs, ProjectedAnchor};
use crate::expr::ExprId;
use crate::faults::Fault;
use crate::foreground::{ForegroundColors, RectTask};
use crate::glass_frame::{callable, GlassHost, GlassLayoutFrame, Placed, PlacedPlane, Quad};
use crate::glass_layout::{any_glass, glass_told, has_glass, resolve_glass_layout};
use crate::glass_parts::GlassSum;
use crate::layout_error::{LayoutError, LayoutFault};
use crate::passes::{
    after_layout, base_active, before_layout, bounds_active, eval_all, eval_layout_bounds,
    eval_post_layout, list_seen, of_bounds, pass_gives, sized,
};
use crate::measure::{tools_ready, Calc, MeasureTools};
use crate::recording::{Affine, Homography, Point, Rect};
use crate::resolved::{angles_given, nodes_told, resolve_nodes, ResolvedNode};
use crate::runs::ResolvedUnit;
use crate::scalar::Scalar;
use crate::scene3d::{
    anchors_told, project_scene3d_anchors, requests_told, resolve_scene3d_requests,
    AnchorProjection, AnchorTask, Frame3DState, SceneRequest,
};
use crate::table::Entry;
use crate::text_units::{resolve_units, units_told};
use crate::value::{MotionValue, Value};

verus! {

/// Whether a viewport has no area.
pub open spec fn is_flat(width: Option<u32>, height: Option<u32>) -> bool {
    width == Some(0u32) || height == Some(0u32)
}

/// Whether `r` is the values of a frame before layout: a viewport without area is refused.
pub open spec fn base_given<
    K: Fn(&Kernel) -> Result<MotionValue, KernelError>,
    T: Fn(&MotionValue) -> String,
>(
    host: K,
    tokens: T,
    a: SceneArtifact,
    inputs: EvalInputs,
    width: Option<u32>,
    height: Option<u32>,
    r: Result<Seq<Value>, LayoutFault>,
) -> bool {
    if is_flat(width, height) {
        r == Err::<Seq<Value>, LayoutFault>(LayoutFault::BadViewport)
    } else {
        exists|out: Result<Seq<Value>, Fault>| #[trigger]
            pass_gives(
                host,
                tokens,
                a.exprs@,
                base_active(a.exprs@, inputs.unit is Some),
                None,
                inputs,
                before_layout(),
                out,
            ) && r == evaluated(out)
    }
}

/// A pass as a step of building a frame.
pub open spec fn evaluated(out: Result<Seq<Value>, Fault>) -> Result<Seq<Value>, LayoutFault> {
    match out {
        Ok(v) => Ok(v),
        Err(f) => Err(LayoutFault::Eval(f)),
    }
}

pub open spec fn values_told(r: Result<Vec<MotionValue>, LayoutError>) -> Result<
    Seq<Value>,
    LayoutFault,
> {
    match r {
        Ok(v) => Ok(values_of(v@)),
        Err(e) => Err(e@),
    }
}

/// Evaluates a frame before layout.
pub fn base_values<
    K: Fn(&Kernel) -> Result<MotionValue, KernelError>,
    T: Fn(&MotionValue) -> String,
>(
    host: &K,
    tokens: &T,
    artifact: &SceneArtifact,
    inputs: &EvalInputs,
    width: Option<u32>,
    height: Option<u32>,
) -> (r: Result<Vec<MotionValue>, LayoutError>)
    requires
        forall|k: Kernel| call_requires(*host, (&k,)),
        forall|v: MotionValue| call_requires(*tokens, (&v,)),
    ensures
        base_given(*host, *tokens, *artifact, *inputs, width, height, values_told(r)),
{
    let flat = match width {
        Some(w) => w == 0,
        None => false,
    } || match height {
        Some(h) => h == 0,
        None => false,
    };
    if flat {
        return Err(LayoutError::BadViewport);
    }
    let out = eval_all(host, tokens, &artifact.exprs, inputs);
    let ghost told = list_seen(out);
    assert(pass_gives(
        *host,
        *tokens,
        artifact.exprs@,
        base_active(artifact.exprs@, inputs.unit is Some),
        None,
        *inputs,
        before_layout(),
        told,
    ));
    match out {
        Ok(v) => Ok(v),
        Err(e) => Err(LayoutError::Eval(e)),
    }
}

/// Whether `out` is the values with laid-out boxes in place.
pub open spec fn boxed<
    K: Fn(&Kernel) -> Result<MotionValue, KernelError>,
    T: Fn(&MotionValue) -> String,
>(
    host: K,
    tokens: T,
    a: SceneArtifact,
    values: Seq<Value>,
    inputs: EvalInputs,
    boxes: &Vec<Entry<Rect>>,
    out: Result<Seq<Value>, Fault>,
) -> bool {
    pass_gives(
        host,
        tokens,
        a.exprs@,
        bounds_active(a.exprs@),
        Some(sized(values, a.exprs@.len())),
        inputs,
        (LayoutInputs { bounds: Some(boxes), projected: None }),
        out,
    )
}

/// Whether a camera reads boxes.
pub open spec fn needs_probe(a: SceneArtifact) -> bool {
    a.camera matches Some(c) && camera_flagged(of_bounds(a.exprs@), c)
}

/// Whether `r` is the camera of a frame after a layout with a camera that moves nothing.
pub open spec fn probed<
    K: Fn(&Kernel) -> Result<MotionValue, KernelError>,
    T: Fn(&MotionValue) -> String,
    W: Fn(Scalar) -> String,
>(
    host: K,
    tokens: T,
    write: W,
    a: SceneArtifact,
    values: Seq<Value>,
    inputs: EvalInputs,
    laid: Result<Vec<Entry<Rect>>, LayoutError>,
    r: Result<Option<CameraStyles>, LayoutFault>,
) -> bool {
    match laid {
        Err(e) => r == Err::<Option<CameraStyles>, LayoutFault>(e@),
        Ok(boxes) => evaluates_to(host, tokens, write, a, values, inputs, &boxes, r),
    }
}

/// Whether `r` is the camera of a frame with laid-out boxes in place.
pub open spec fn evaluates_to<
    K: Fn(&Kernel) -> Result<MotionValue, KernelError>,
    T: Fn(&MotionValue) -> String,
    W: Fn(Scalar) -> String,
>(
    host: K,
    tokens: T,
    write: W,
    a: SceneArtifact,
    values: Seq<Value>,
    inputs: EvalInputs,
    boxes: &Vec<Entry<Rect>>,
    r: Result<Option<CameraStyles>, LayoutFault>,
) -> bool {
    exists|out: Result<Seq<Value>, Fault>| #[trigger]
        boxed(host, tokens, a, values, inputs, boxes, out) && match out {
            Err(f) => r == Err::<Option<CameraStyles>, LayoutFault>(LayoutFault::Eval(f)),
            Ok(v) => camera_given(write, a, v, r),
        }
}

/// Whether the style texts are those of a camera that moves nothing.
pub open spec fn moves_nothing(s: CameraStyles) -> bool {
    s.outer@ == crate::camera::camera_fill() + "; translate: 0px 0px; rotate: 0deg; scale: 1"@
        && s.inner@ == crate::camera::camera_fill() + "; translate: 0px 0px"@
}

/// The values of a frame after layout, with the 3D scenes they ask for and their anchors.
pub struct Settled {
    pub values: Vec<MotionValue>,
    pub scene3d: Vec<Entry<SceneRequest>>,
    pub projected: Vec<ProjectedAnchor>,
}

/// Whether `r` follows from values that have everything of the layout in place: no node may stray from
/// the origin.
pub open spec fn checked(
    a: SceneArtifact,
    refs: Seq<Vec<ExprId>>,
    boxes: Seq<Entry<Rect>>,
    scene3d: Vec<Entry<SceneRequest>>,
    projected: Vec<ProjectedAnchor>,
    out: Result<Seq<Value>, Fault>,
    r: Result<Settled, LayoutError>,
) -> bool {
    match out {
        Err(f) => r matches Err(e) && e@ == LayoutFault::Eval(f),
        Ok(values) => match stray_from(a, refs, values, boxes, 0) {
            Some(at) => r matches Err(e) && e@ == stray_fault(a, boxes, at),
            None => r matches Ok(s) && values_of(s.values@) == values && s.scene3d == scene3d
                && s.projected == projected,
        },
    }
}

/// Whether `r` follows from the anchors of the 3D scenes.
pub open spec fn anchored<
    K: Fn(&Kernel) -> Result<MotionValue, KernelError>,
    T: Fn(&MotionValue) -> String,
>(
    host: K,
    tokens: T,
    a: SceneArtifact,
    refs: Seq<Vec<ExprId>>,
    values: Seq<Value>,
    inputs: EvalInputs,
    boxes: &Vec<Entry<Rect>>,
    scene3d: Vec<Entry<SceneRequest>>,
    anchors: Result<Vec<ProjectedAnchor>, LayoutError>,
    r: Result<Settled, LayoutError>,
) -> bool {
    match anchors {
        Err(f) => r matches Err(e) && e@ == f@,
        Ok(projected) => exists|out: Result<Seq<Value>, Fault>| #[trigger]
            pass_gives(
                host,
                tokens,
                a.exprs@,
                after_layout(a.exprs@),
                Some(sized(values, a.exprs@.len())),
                inputs,
                (LayoutInputs { bounds: Some(boxes), projected: Some(&projected) }),
                out,
            ) && checked(a, refs, boxes@, scene3d, projected, out, r),
    }
}

/// Whether `r` follows from values with laid-out boxes in place: the 3D scenes are asked for, and
/// their anchors projected.
pub open spec fn asked<
    K: Fn(&Kernel) -> Result<MotionValue, KernelError>,
    T: Fn(&MotionValue) -> String,
    C: Fn(usize, &Frame3DState) -> Option<String>,
    J: Fn(&AnchorTask) -> Result<Vec<AnchorProjection>, String>,
>(
    host: K,
    tokens: T,
    check: C,
    project: J,
    a: SceneArtifact,
    refs: Seq<Vec<ExprId>>,
    inputs: EvalInputs,
    boxes: &Vec<Entry<Rect>>,
    contents: Seq<Entry<Rect>>,
    out: Result<Seq<Value>, Fault>,
    r: Result<Settled, LayoutError>,
) -> bool {
    match out {
        Err(f) => r matches Err(e) && e@ == LayoutFault::Eval(f),
        Ok(values) => exists|requests: Result<Vec<Entry<SceneRequest>>, LayoutError>| #[trigger]
            requests_told(check, a, values, requests) && match requests {
                Err(f) => r matches Err(e) && e@ == f@,
                Ok(scene3d) => exists|anchors: Result<Vec<ProjectedAnchor>, LayoutError>| #[trigger]
                    anchors_told(project, a.exprs@, contents, anchors) && anchored(
                        host,
                        tokens,
                        a,
                        refs,
                        values,
                        inputs,
                        boxes,
                        scene3d,
                        anchors,
                        r,
                    ),
            },
    }
}

/// Whether `r` is the values of a frame after layout.
pub open spec fn settled_given<
    K: Fn(&Kernel) -> Result<MotionValue, KernelError>,
    T: Fn(&MotionValue) -> String,
    C: Fn(usize, &Frame3DState) -> Option<String>,
    J: Fn(&AnchorTask) -> Result<Vec<AnchorProjection>, String>,
>(
    host: K,
    tokens: T,
    check: C,
    project: J,
    a: SceneArtifact,
    refs: Seq<Vec<ExprId>>,
    values: Seq<Value>,
    inputs: EvalInputs,
    boxes: &Vec<Entry<Rect>>,
    contents: Seq<Entry<Rect>>,
    r: Result<Settled, LayoutError>,
) -> bool {
    exists|out: Result<Seq<Value>, Fault>| #[trigger]
        boxed(host, tokens, a, values, inputs, boxes, out) && asked(
            host,
            tokens,
            check,
            project,
            a,
            refs,
            inputs,
            boxes,
            contents,
            out,
            r,
        )
}

/// Evaluates a frame after layout: first what reads boxes, then the requests for 3D scenes and their
/// anchors, then what reads anchors.
pub fn settle<
    K: Fn(&Kernel) -> Result<MotionValue, KernelError>,
    T: Fn(&MotionValue) -> String,
    C: Fn(usize, &Frame3DState) -> Option<String>,
    J: Fn(&AnchorTask) -> Result<Vec<AnchorProjection>, String>,
>(
    host: &K,
    tokens: &T,
    check: &C,
    project: &J,
    artifact: &SceneArtifact,
    refs: &Vec<Vec<ExprId>>,
    values: &Vec<MotionValue>,
    inputs: &EvalInputs,
    boxes: &Vec<Entry<Rect>>,
    contents: &Vec<Entry<Rect>>,
) -> (r: Result<Settled, LayoutError>)
    requires
        forall|k: Kernel| call_requires(*host, (&k,)),
        forall|v: MotionValue| call_requires(*tokens, (&v,)),
        forall|at: usize, f: Frame3DState| call_requires(*check, (at, &f)),
        forall|t: AnchorTask| call_requires(*project, (&t,)),
        refs@.len() == artifact.nodes@.len(),
    ensures
        settled_given(
            *host,
            *tokens,
            *check,
            *project,
            *artifact,
            refs@,
            values_of(values@),
            *inputs,
            boxes,
            contents@,
            r,
        ),
{
    let first = eval_layout_bounds(host, tokens, &artifact.exprs, values, inputs, boxes);
    let ghost out = list_seen(first);
    assert(boxed(*host, *tokens, *artifact, values_of(values@), *inputs, boxes, out));
    let bounds_values = match first {
        Ok(v) => v,
        Err(e) => {
            return Err(LayoutError::Eval(e));
        },
    };
    let requests = resolve_scene3d_requests(check, artifact, &bounds_values);
    let ghost requested = requests;
    assert(requests_told(*check, *artifact, values_of(bounds_values@), requested));
    let scene3d = match requests {
        Ok(v) => v,
        Err(e) => {
            return Err(e);
        },
    };
    let anchors = project_scene3d_anchors(project, &artifact.exprs, contents);
    let ghost told = anchors;
    assert(anchors_told(*project, artifact.exprs@, contents@, told));
    let projected = match anchors {
        Ok(v) => v,
        Err(e) => {
            return Err(e);
        },
    };
    let second = eval_post_layout(
        host,
        tokens,
        &artifact.exprs,
        &bounds_values,
        inputs,
        boxes,
        &projected,
    );
    let ghost renewed = list_seen(second);
    assert(pass_gives(
        *host,
        *tokens,
        artifact.exprs@,
        after_layout(artifact.exprs@),
        Some(sized(values_of(bounds_values@), artifact.exprs@.len())),
        *inputs,
        (LayoutInputs { bounds: Some(boxes), projected: Some(&projected) }),
        renewed,
    ));
    let values = match second {
        Ok(v) => v,
        Err(e) => {
            return Err(LayoutError::Eval(e));
        },
    };
    match check_post_layout_origins(artifact, refs, &values, boxes) {
        Ok(_) => Ok(Settled { values, scene3d, projected }),
        Err(e) => Err(e),
    }
}

/// Everything of a frame that is painted.
pub struct Painted {
    pub units: Vec<Entry<Vec<ResolvedUnit>>>,
    pub nodes: Vec<ResolvedNode>,
    pub glass: GlassLayoutFrame,
}

/// Where the nodes of a frame stand: their boxes and 3D planes, and how many points the outline of a
/// surface may have.
pub struct Ground<'a> {
    pub boxes: &'a Vec<Entry<Rect>>,
    pub planes: &'a Vec<Entry<PlacedPlane>>,
    pub limit: usize,
}

/// Whether `r` is the glass of a frame; only a scene with glass asks for paint transforms.
pub open spec fn glass_painted<
    N: Fn(&GlassSum) -> Scalar,
    Q: Fn(&Quad) -> Option<Homography>,
    P: Fn(&SegmentGeometry, usize) -> Point,
    R: Fn(&RectTask) -> Option<Rect>,
    L: Fn(&Vec<ForegroundColors>) -> Option<Scalar>,
>(
    host: GlassHost<N, Q, P, R, L>,
    a: SceneArtifact,
    values: Seq<Value>,
    ground: Ground,
    transforms: Result<Vec<Entry<Affine>>, LayoutError>,
    r: Result<GlassLayoutFrame, LayoutError>,
) -> bool {
    if !has_glass(a) {
        r matches Ok(g) && g.surfaces@.len() == 0 && g.fields@.len() == 0 && g.node_fields@.len()
            == 0
    } else {
        match transforms {
            Err(f) => r matches Err(e) && e@ == f@,
            Ok(transforms) => glass_told(
                host,
                a,
                values,
                Placed {
                    boxes: ground.boxes,
                    transforms: &transforms,
                    planes: ground.planes,
                    limit: ground.limit,
                },
                r,
            ),
        }
    }
}

/// Whether `r` follows from the units of a frame: nodes, then glass.
pub open spec fn nodes_painted<
    C: Fn(&Calc) -> Scalar,
    U: Fn(&SegmentGeometry, Scalar) -> Point,
    G: Fn(&SegmentGeometry, Scalar) -> Point,
    S: Fn(&SegmentGeometry, Scalar, Scalar) -> SegmentGeometry,
    N: Fn(&GlassSum) -> Scalar,
    Q: Fn(&Quad) -> Option<Homography>,
    P: Fn(&SegmentGeometry, usize) -> Point,
    R: Fn(&RectTask) -> Option<Rect>,
    L: Fn(&Vec<ForegroundColors>) -> Option<Scalar>,
>(
    cut: MeasureTools<C, U, G, S>,
    glass_host: GlassHost<N, Q, P, R, L>,
    a: SceneArtifact,
    values: Seq<Value>,
    degrees: Seq<Vec<Scalar>>,
    ground: Ground,
    transforms: Result<Vec<Entry<Affine>>, LayoutError>,
    units: Vec<Entry<Vec<ResolvedUnit>>>,
    r: Result<Painted, LayoutError>,
) -> bool {
    exists|nodes: Result<Vec<ResolvedNode>, LayoutError>| #[trigger]
        nodes_told(cut, a, values, degrees, nodes) && match nodes {
            Err(f) => r matches Err(e) && e@ == f@,
            Ok(nodes) => exists|glass: Result<GlassLayoutFrame, LayoutError>| #[trigger]
                glass_painted(glass_host, a, values, ground, transforms, glass) && match glass {
                    Err(f) => r matches Err(e) && e@ == f@,
                    Ok(glass) => r == Ok::<Painted, LayoutError>(Painted { units, nodes, glass }),
                },
        }
}

/// Whether `r` is what is painted of a frame: units first, then nodes, then glass.
pub open spec fn painted_given<
    K: Fn(&Kernel) -> Result<MotionValue, KernelError>,
    T: Fn(&MotionValue) -> String,
    C: Fn(&Calc) -> Scalar,
    U: Fn(&SegmentGeometry, Scalar) -> Point,
    G: Fn(&SegmentGeometry, Scalar) -> Point,
    S: Fn(&SegmentGeometry, Scalar, Scalar) -> SegmentGeometry,
    N: Fn(&GlassSum) -> Scalar,
    Q: Fn(&Quad) -> Option<Homography>,
    P: Fn(&SegmentGeometry, usize) -> Point,
    R: Fn(&RectTask) -> Option<Rect>,
    L: Fn(&Vec<ForegroundColors>) -> Option<Scalar>,
>(
    host: K,
    tokens: T,
    cut: MeasureTools<C, U, G, S>,
    glass_host: GlassHost<N, Q, P, R, L>,
    a: SceneArtifact,
    values: Seq<Value>,
    inputs: EvalInputs,
    projected: &Vec<ProjectedAnchor>,
    degrees: Seq<Vec<Scalar>>,
    ground: Ground,
    transforms: Result<Vec<Entry<Affine>>, LayoutError>,
    r: Result<Painted, LayoutError>,
) -> bool {
    exists|units: Result<Vec<Entry<Vec<ResolvedUnit>>>, LayoutError>| #[trigger]
        units_told(
            host,
            tokens,
            a,
            values,
            inputs,
            (LayoutInputs { bounds: Some(ground.boxes), projected: Some(projected) }),
            units,
        ) && match units {
            Err(f) => r matches Err(e) && e@ == f@,
            Ok(units) => nodes_painted(
                cut,
                glass_host,
                a,
                values,
                degrees,
                ground,
                transforms,
                units,
                r,
            ),
        }
}

fn paint_glass<
    N: Fn(&GlassSum) -> Scalar,
    Q: Fn(&Quad) -> Option<Homography>,
    P: Fn(&SegmentGeometry, usize) -> Point,
    R: Fn(&RectTask) -> Option<Rect>,
    L: Fn(&Vec<ForegroundColors>) -> Option<Scalar>,
>(
    host: &GlassHost<N, Q, P, R, L>,
    artifact: &SceneArtifact,
    values: &Vec<MotionValue>,
    ground: &Ground,
    transforms: Result<Vec<Entry<Affine>>, LayoutError>,
) -> (r: Result<GlassLayoutFrame, LayoutError>)
    requires
        callable(*host),
    ensures
        glass_painted(*host, *artifact, values_of(values@), *ground, transforms, r),
{
    if !any_glass(artifact) {
        return Ok(
            GlassLayoutFrame {
                surfaces: Vec::new(),
                fields: Vec::new(),
                node_fields: Vec::new(),
            },
        );
    }
    match transforms {
        Err(e) => Err(e),
        Ok(list) => resolve_glass_layout(
            host,
            artifact,
            values,
            &Placed {
                boxes: ground.boxes,
                transforms: &list,
                planes: ground.planes,
                limit: ground.limit,
            },
        ),
    }
}

/// Resolves everything of a frame that is painted. `transforms` are the paint transforms of the
/// nodes, or why there are none.
pub fn paint_frame<
    K: Fn(&Kernel) -> Result<MotionValue, KernelError>,
    T: Fn(&MotionValue) -> String,
    C: Fn(&Calc) -> Scalar,
    U: Fn(&SegmentGeometry, Scalar) -> Point,
    G: Fn(&SegmentGeometry, Scalar) -> Point,
    S: Fn(&SegmentGeometry, Scalar, Scalar) -> SegmentGeometry,
    N: Fn(&GlassSum) -> Scalar,
    Q: Fn(&Quad) -> Option<Homography>,
    P: Fn(&SegmentGeometry, usize) -> Point,
    R: Fn(&RectTask) -> Option<Rect>,
    L: Fn(&Vec<ForegroundColors>) -> Option<Scalar>,
>(
    host: &K,
    tokens: &T,
    cut: &MeasureTools<C, U, G, S>,
    glass_host: &GlassHost<N, Q, P, R, L>,
    artifact: &SceneArtifact,
    settled: &Settled,
    inputs: &EvalInputs,
    degrees: &Vec<Vec<Scalar>>,
    ground: &Ground,
    transforms: Result<Vec<Entry<Affine>>, LayoutError>,
) -> (r: Result<Painted, LayoutError>)
    requires
        forall|k: Kernel| call_requires(*host, (&k,)),
        forall|v: MotionValue| call_requires(*tokens, (&v,)),
        tools_ready(*cut),
        callable(*glass_host),
        angles_given(*artifact, degrees@),
    ensures
        painted_given(
            *host,
            *tokens,
            *cut,
            *glass_host,
            *artifact,
            values_of(settled.values@),
            *inputs,
            &settled.projected,
            degrees@,
            *ground,
            transforms,
            r,
        ),
{
    let ghost given = transforms;
    let units = resolve_units(
        host,
        tokens,
        artifact,
        &settled.values,
        inputs,
        ground.boxes,
        &settled.projected,
    );
    let ghost told_units = units;
    assert(units_told(
        *host,
        *tokens,
        *artifact,
        values_of(settled.values@),
        *inputs,
        (LayoutInputs { bounds: Some(ground.boxes), projected: Some(&settled.projected) }),
        told_units,
    ));
    let units = match units {
        Ok(v) => v,
        Err(e) => {
            return Err(e);
        },
    };
    let nodes = resolve_nodes(cut, artifact, &settled.values, degrees);
    let ghost told_nodes = nodes;
    assert(nodes_told(*cut, *artifact, values_of(settled.values@), degrees@, told_nodes));
    let nodes = match nodes {
        Ok(v) => v,
        Err(e) => {
            assert(nodes_painted(
                *cut,
                *glass_host,
                *artifact,
                values_of(settled.values@),
                degrees@,
                *ground,
                given,
                units,
                Err(e),
            ));
            return Err(e);
        },
    };
    let glass = paint_glass(glass_host, artifact, &settled.values, ground, transforms);
    let ghost told_glass = glass;
    assert(glass_painted(
        *glass_host,
        *artifact,
        values_of(settled.values@),
        *ground,
        given,
        told_glass,
    ));
    let r = match glass {
        Ok(glass) => Ok(Painted { units, nodes, glass }),
        Err(e) => Err(e),
    };
    assert(nodes_painted(
        *cut,
        *glass_host,
        *artifact,
        values_of(settled.values@),
        degrees@,
        *ground,
        given,
        units,
        r,
    ));
    r
}

} // verus!
