//! What a node shows this frame, once all expressions are evaluated.

use vstd::prelude::*;

use crate::artifact::{
    BatchPositions, GeometryBatchSpec, MaskValue, NodeKind, PaintValue, PathStroke,
    SceneArtifact, SceneNode, ShaderUniformBinding, ShaderUniformValue,
};
use crate::bindings::{
    bool_bound, bool_value, color_bound, color_value, number_bound, number_value, paint_bound,
    paint_value, path_bound, path_value, point_bound, point_value, rect_bound, rect_value, value,
    valued, wrong_type, Painted, ResolvedPaint,
};
use crate::contours::SegmentGeometry;
use crate::effects::{effects_of, resolve_layer_fx, style_fault, visible_effects, LayerEffects};
use crate::eval::values_of;
use crate::expr::ExprId;
use crate::faults::{EvalError, Fault};
use crate::filters::{
    backdrop_given, filters_given, resolve_advanced_filters, resolve_backdrop_advanced_filters,
};
use crate::layout_error::{laid, plain, LayoutError, LayoutFault};
use crate::measure::{tools_ready, trim_given, Calc, MeasureTools};
use crate::path::{path_seen, GeometryError, Path, PathData};
use crate::recording::{FillRule, FilterOp, Point, Rect, Rgba};
use crate::scalar::{num, Scalar, ZERO};
use crate::value::{MotionValue, Value};

verus! {

/// A shader uniform of this frame.
#[derive(Clone, Copy, Debug, PartialEq, Eq, Structural)]
pub enum UniformValue {
    Float(Scalar),
    Float2(Point),
    Color(Rgba),
    Bool(bool),
}

#[derive(Debug)]
pub struct ResolvedUniform {
    pub name: String,
    pub value: UniformValue,
}

#[derive(Debug)]
pub struct ResolvedStroke {
    pub paint: ResolvedPaint,
    pub width: Scalar,
    pub dash_offset: Scalar,
}

#[derive(Debug)]
pub enum ResolvedMaskSource {
    Paint(ResolvedPaint),
    Image(String),
    Subtree(String),
}

/// How far the fields of a batch have progressed.
#[derive(Clone, Copy, Debug, PartialEq, Eq, Structural)]
pub struct BatchProgress {
    pub frame: Scalar,
    pub position: Scalar,
    pub size: Scalar,
    pub fill: Scalar,
    pub opacity: Scalar,
}

/// The content of a node this frame.
#[derive(Debug)]
pub enum ResolvedContent {
    /// Nothing of its own.
    Plain,
    Shader(Vec<ResolvedUniform>),
    Batch(BatchProgress),
    Path { path: PathData, fill: Option<ResolvedPaint>, stroke: Option<ResolvedStroke> },
    Video { start: Scalar, speed: Scalar },
    Clip { path: PathData, fill_rule: FillRule },
    Mask { source: ResolvedMaskSource, mode: u8, rect: Rect },
}

/// A stroke by its contents.
pub struct Stroked {
    pub paint: Painted,
    pub width: Scalar,
    pub dash_offset: Scalar,
}

pub enum MaskFrom {
    Paint(Painted),
    Image(Seq<char>),
    Subtree(Seq<char>),
}

/// Content by what it holds.
pub enum Shown {
    Plain,
    Shader(Seq<(Seq<char>, UniformValue)>),
    Batch(BatchProgress),
    Path(Path, Option<Painted>, Option<Stroked>),
    Video(Scalar, Scalar),
    Clip(Path, FillRule),
    Mask(MaskFrom, u8, Rect),
}

impl View for ResolvedStroke {
    type V = Stroked;

    open spec fn view(&self) -> Stroked {
        Stroked { paint: self.paint@, width: self.width, dash_offset: self.dash_offset }
    }
}

impl View for ResolvedMaskSource {
    type V = MaskFrom;

    open spec fn view(&self) -> MaskFrom {
        match *self {
            ResolvedMaskSource::Paint(p) => MaskFrom::Paint(p@),
            ResolvedMaskSource::Image(s) => MaskFrom::Image(s@),
            ResolvedMaskSource::Subtree(s) => MaskFrom::Subtree(s@),
        }
    }
}

pub open spec fn uniforms_seen(v: Seq<ResolvedUniform>) -> Seq<(Seq<char>, UniformValue)> {
    v.map_values(|u: ResolvedUniform| (u.name@, u.value))
}

pub open spec fn some_paint(p: Option<ResolvedPaint>) -> Option<Painted> {
    match p {
        Some(p) => Some(p@),
        None => None,
    }
}

pub open spec fn some_stroke(s: Option<ResolvedStroke>) -> Option<Stroked> {
    match s {
        Some(s) => Some(s@),
        None => None,
    }
}

impl View for ResolvedContent {
    type V = Shown;

    open spec fn view(&self) -> Shown {
        match *self {
            ResolvedContent::Plain => Shown::Plain,
            ResolvedContent::Shader(v) => Shown::Shader(uniforms_seen(v@)),
            ResolvedContent::Batch(b) => Shown::Batch(b),
            ResolvedContent::Path { path, fill, stroke } => Shown::Path(
                path@,
                some_paint(fill),
                some_stroke(stroke),
            ),
            ResolvedContent::Video { start, speed } => Shown::Video(start, speed),
            ResolvedContent::Clip { path, fill_rule } => Shown::Clip(path@, fill_rule),
            ResolvedContent::Mask { source, mode, rect } => Shown::Mask(source@, mode, rect),
        }
    }
}

/// The value of one uniform.
pub open spec fn uniform_bound(v: ShaderUniformValue, values: Seq<Value>, at: int) -> Result<
    UniformValue,
    LayoutFault,
> {
    match v {
        ShaderUniformValue::Float { value } => match number_bound(
            value,
            values,
            at,
            "shader float"@,
        ) {
            Ok(x) => Ok(UniformValue::Float(x)),
            Err(f) => Err(f),
        },
        ShaderUniformValue::Float2 { value } => match point_bound(
            value,
            values,
            at,
            "shader float2"@,
        ) {
            Ok(p) => Ok(UniformValue::Float2(p)),
            Err(f) => Err(f),
        },
        ShaderUniformValue::Color { value } => match color_bound(value, values, at) {
            Ok(c) => Ok(UniformValue::Color(c)),
            Err(f) => Err(f),
        },
        ShaderUniformValue::Bool { value } => match bool_bound(value, values, at, "shader bool"@) {
            Ok(b) => Ok(UniformValue::Bool(b)),
            Err(f) => Err(f),
        },
    }
}

fn uniform_value(v: ShaderUniformValue, values: &Vec<MotionValue>, at: usize) -> (r: Result<
    UniformValue,
    LayoutError,
>)
    ensures
        plain(r) == uniform_bound(v, values_of(values@), at as int),
{
    match v {
        ShaderUniformValue::Float { value } => match number_value(
            value,
            values,
            at,
            "shader float",
        ) {
            Ok(x) => Ok(UniformValue::Float(x)),
            Err(e) => Err(e),
        },
        ShaderUniformValue::Float2 { value } => match point_value(
            value,
            values,
            at,
            "shader float2",
        ) {
            Ok(p) => Ok(UniformValue::Float2(p)),
            Err(e) => Err(e),
        },
        ShaderUniformValue::Color { value } => match color_value(value, values, at) {
            Ok(c) => Ok(UniformValue::Color(c)),
            Err(e) => Err(e),
        },
        ShaderUniformValue::Bool { value } => match bool_value(value, values, at, "shader bool") {
            Ok(b) => Ok(UniformValue::Bool(b)),
            Err(e) => Err(e),
        },
    }
}

/// The values of the first `n` uniforms.
pub open spec fn uniforms_bound(
    bindings: Seq<ShaderUniformBinding>,
    values: Seq<Value>,
    at: int,
    n: nat,
) -> Result<Seq<(Seq<char>, UniformValue)>, LayoutFault>
    decreases n,
{
    if n == 0 {
        Ok(Seq::empty())
    } else {
        match uniforms_bound(bindings, values, at, (n - 1) as nat) {
            Err(f) => Err(f),
            Ok(before) => match uniform_bound(bindings[n - 1].value, values, at) {
                Err(f) => Err(f),
                Ok(v) => Ok(before.push((bindings[n - 1].name@, v))),
            },
        }
    }
}

proof fn uniforms_stuck(
    bindings: Seq<ShaderUniformBinding>,
    values: Seq<Value>,
    at: int,
    m: nat,
    n: nat,
)
    requires
        m <= n,
        uniforms_bound(bindings, values, at, m) is Err,
    ensures
        uniforms_bound(bindings, values, at, n) == uniforms_bound(bindings, values, at, m),
    decreases n - m,
{
    if m < n {
        uniforms_stuck(bindings, values, at, m, (n - 1) as nat);
    }
}

fn resolve_uniforms(
    bindings: &Vec<ShaderUniformBinding>,
    values: &Vec<MotionValue>,
    at: usize,
) -> (r: Result<Vec<ResolvedUniform>, LayoutError>)
    ensures
        match r {
            Ok(v) => uniforms_bound(bindings@, values_of(values@), at as int, bindings@.len())
                == Ok::<Seq<(Seq<char>, UniformValue)>, LayoutFault>(uniforms_seen(v@)),
            Err(e) => uniforms_bound(bindings@, values_of(values@), at as int, bindings@.len())
                == Err::<Seq<(Seq<char>, UniformValue)>, LayoutFault>(e@),
        },
{
    let mut out: Vec<ResolvedUniform> = Vec::new();
    let mut i: usize = 0;
    assert(uniforms_seen(out@) =~= Seq::empty());
    while i < bindings.len()
        invariant
            i <= bindings@.len(),
            uniforms_bound(bindings@, values_of(values@), at as int, i as nat) == Ok::<
                Seq<(Seq<char>, UniformValue)>,
                LayoutFault,
            >(uniforms_seen(out@)),
        decreases bindings@.len() - i,
    {
        let ghost before = out@;
        match uniform_value(bindings[i].value, values, at) {
            Ok(v) => {
                out.push(ResolvedUniform { name: bindings[i].name.clone(), value: v });
                assert(uniforms_seen(out@) =~= uniforms_seen(before).push(
                    (bindings@[i as int].name@, v),
                ));
            },
            Err(e) => {
                proof {
                    uniforms_stuck(
                        bindings@,
                        values_of(values@),
                        at as int,
                        (i + 1) as nat,
                        bindings@.len(),
                    );
                }
                return Err(e);
            },
        }
        i = i + 1;
    }
    Ok(out)
}

/// The frame of a particle batch; zero for a fixed one.
pub open spec fn batch_frame(positions: BatchPositions, values: Seq<Value>, at: int) -> Result<
    Scalar,
    LayoutFault,
> {
    match positions {
        BatchPositions::Static => Ok(num(ZERO)),
        BatchPositions::Particles { frame } => if frame.0 < values.len() {
            match values[frame.0 as int] {
                Value::Number(x) => Ok(x),
                _ => wrong_type(at, "particles frame"@),
            }
        } else {
            wrong_type(at, "particles frame"@)
        },
    }
}

/// The progress of a batch field; zero without one.
pub open spec fn field_progress(
    expr: Option<ExprId>,
    values: Seq<Value>,
    at: int,
    op: Seq<char>,
) -> Result<Scalar, LayoutFault> {
    match expr {
        None => Ok(num(ZERO)),
        Some(id) => match valued(values, id, at) {
            Err(f) => Err(f),
            Ok(Value::Number(x)) => if x.finite() { Ok(x) } else { wrong_type(at, op) },
            Ok(_) => wrong_type(at, op),
        },
    }
}

fn progress(expr: Option<ExprId>, values: &Vec<MotionValue>, at: usize, op: &'static str) -> (r:
    Result<Scalar, LayoutError>)
    ensures
        plain(r) == field_progress(expr, values_of(values@), at as int, op@),
{
    match expr {
        None => Ok(Scalar::from_bits(ZERO)),
        Some(id) => match value(values, id, at) {
            Err(e) => Err(e),
            Ok(MotionValue::Number(x)) => {
                if x.is_finite() {
                    Ok(*x)
                } else {
                    Err(LayoutError::Eval(EvalError::TypeMismatch { at, op }))
                }
            },
            Ok(_) => Err(LayoutError::Eval(EvalError::TypeMismatch { at, op })),
        },
    }
}

/// How far a batch has progressed.
pub open spec fn batch_bound(batch: GeometryBatchSpec, values: Seq<Value>, at: int) -> Result<
    BatchProgress,
    LayoutFault,
> {
    match batch_frame(batch.positions, values, at) {
        Err(f) => Err(f),
        Ok(frame) => match field_progress(
            batch.position_field,
            values,
            at,
            "GeometryBatch position field progress"@,
        ) {
            Err(f) => Err(f),
            Ok(position) => match field_progress(
                batch.size_field,
                values,
                at,
                "GeometryBatch size field progress"@,
            ) {
                Err(f) => Err(f),
                Ok(size) => match field_progress(
                    batch.fill_field,
                    values,
                    at,
                    "GeometryBatch fill field progress"@,
                ) {
                    Err(f) => Err(f),
                    Ok(fill) => match field_progress(
                        batch.opacity_field,
                        values,
                        at,
                        "GeometryBatch opacity field progress"@,
                    ) {
                        Err(f) => Err(f),
                        Ok(opacity) => Ok(BatchProgress { frame, position, size, fill, opacity }),
                    },
                },
            },
        },
    }
}

fn batch_progress(batch: &GeometryBatchSpec, values: &Vec<MotionValue>, at: usize) -> (r: Result<
    BatchProgress,
    LayoutError,
>)
    ensures
        plain(r) == batch_bound(*batch, values_of(values@), at as int),
{
    let frame = match batch.positions {
        BatchPositions::Static => Scalar::from_bits(ZERO),
        BatchPositions::Particles { frame } => {
            let mut found: Option<Scalar> = None;
            if (frame.0 as usize) < values.len() {
                match &values[frame.0 as usize] {
                    MotionValue::Number(x) => {
                        found = Some(*x);
                    },
                    _ => {},
                }
            }
            match found {
                Some(x) => x,
                None => {
                    return Err(
                        LayoutError::Eval(EvalError::TypeMismatch { at, op: "particles frame" }),
                    );
                },
            }
        },
    };
    let position = match progress(
        batch.position_field,
        values,
        at,
        "GeometryBatch position field progress",
    ) {
        Ok(x) => x,
        Err(e) => {
            return Err(e);
        },
    };
    let size = match progress(batch.size_field, values, at, "GeometryBatch size field progress") {
        Ok(x) => x,
        Err(e) => {
            return Err(e);
        },
    };
    let fill = match progress(batch.fill_field, values, at, "GeometryBatch fill field progress") {
        Ok(x) => x,
        Err(e) => {
            return Err(e);
        },
    };
    match progress(batch.opacity_field, values, at, "GeometryBatch opacity field progress") {
        Ok(opacity) => Ok(BatchProgress { frame, position, size, fill, opacity }),
        Err(e) => Err(e),
    }
}

/// The fill of a path.
pub open spec fn fill_bound(
    fill: Option<PaintValue>,
    values: Seq<Value>,
    at: int,
    node: Seq<char>,
) -> Result<Option<Painted>, LayoutFault> {
    match fill {
        None => Ok(None),
        Some(p) => match paint_bound(p, values, at, node) {
            Ok(p) => Ok(Some(p)),
            Err(f) => Err(f),
        },
    }
}

/// The stroke of a path: its width may not be negative.
pub open spec fn stroke_bound(
    stroke: Option<PathStroke>,
    values: Seq<Value>,
    at: int,
    node: Seq<char>,
) -> Result<Option<Stroked>, LayoutFault> {
    match stroke {
        None => Ok(None),
        Some(s) => match paint_bound(s.paint, values, at, node) {
            Err(f) => Err(f),
            Ok(paint) => match number_bound(s.width, values, at, "strokeWidth"@) {
                Err(f) => Err(f),
                Ok(width) => if width.lt_spec(num(ZERO)) {
                    style_fault(node, "strokeWidth"@, "strokeWidth must be non-negative"@)
                } else {
                    match number_bound(s.dash_offset, values, at, "strokeDashoffset"@) {
                        Err(f) => Err(f),
                        Ok(dash_offset) => Ok(Some(Stroked { paint, width, dash_offset })),
                    }
                },
            },
        },
    }
}

fn resolve_stroke(stroke: &PathStroke, values: &Vec<MotionValue>, at: usize, node: &str) -> (r: Result<
    ResolvedStroke,
    LayoutError,
>)
    ensures
        match r {
            Ok(s) => stroke_bound(Some(*stroke), values_of(values@), at as int, node@) == Ok::<
                Option<Stroked>,
                LayoutFault,
            >(Some(s@)),
            Err(e) => stroke_bound(Some(*stroke), values_of(values@), at as int, node@) == Err::<
                Option<Stroked>,
                LayoutFault,
            >(e@),
        },
{
    let paint = match paint_value(&stroke.paint, values, at, node) {
        Ok(p) => p,
        Err(e) => {
            return Err(e);
        },
    };
    let width = match number_value(stroke.width, values, at, "strokeWidth") {
        Ok(x) => x,
        Err(e) => {
            return Err(e);
        },
    };
    if width.lt(Scalar::from_bits(ZERO)) {
        return Err(
            LayoutError::BadStyle {
                node: node.to_owned(),
                declarations: "strokeWidth".to_owned(),
                reason: "strokeWidth must be non-negative".to_owned(),
            },
        );
    }
    match number_value(stroke.dash_offset, values, at, "strokeDashoffset") {
        Ok(dash_offset) => Ok(ResolvedStroke { paint, width, dash_offset }),
        Err(e) => Err(e),
    }
}

/// What a trimmed path shows: its fill, then its stroke.
pub open spec fn path_shown(
    path: Result<Path, GeometryError>,
    fill: Option<PaintValue>,
    stroke: Option<PathStroke>,
    values: Seq<Value>,
    at: int,
    node: Seq<char>,
) -> Result<Shown, LayoutFault> {
    match path {
        Err(reason) => Err(LayoutFault::Eval(Fault::BadGeometry(at, reason))),
        Ok(path) => match fill_bound(fill, values, at, node) {
            Err(f) => Err(f),
            Ok(fill) => match stroke_bound(stroke, values, at, node) {
                Err(f) => Err(f),
                Ok(stroke) => Ok(Shown::Path(path, fill, stroke)),
            },
        },
    }
}

/// What a mask samples.
pub open spec fn mask_bound(source: MaskValue, values: Seq<Value>, at: int, node: Seq<char>) -> Result<
    MaskFrom,
    LayoutFault,
> {
    match source {
        MaskValue::Paint { paint } => match paint_bound(paint, values, at, node) {
            Ok(p) => Ok(MaskFrom::Paint(p)),
            Err(f) => Err(f),
        },
        MaskValue::Image { source } => Ok(MaskFrom::Image(source@)),
        MaskValue::Subtree { source } => Ok(MaskFrom::Subtree(source@)),
    }
}

/// Whether `r` is the content of a path node.
pub open spec fn path_given<
    C: Fn(&Calc) -> Scalar,
    P: Fn(&SegmentGeometry, Scalar) -> Point,
    T: Fn(&SegmentGeometry, Scalar) -> Point,
    S: Fn(&SegmentGeometry, Scalar, Scalar) -> SegmentGeometry,
>(
    cut: MeasureTools<C, P, T, S>,
    node: SceneNode,
    values: Seq<Value>,
    at: int,
    r: Result<Shown, LayoutFault>,
) -> bool {
    match node.kind {
        NodeKind::Path { d, fill, stroke, trim_start, trim_end } => match path_bound(
            d,
            values,
            at,
        ) {
            Err(f) => r == Err::<Shown, LayoutFault>(f),
            Ok(path) => match number_bound(trim_start, values, at, "trimStart"@) {
                Err(f) => r == Err::<Shown, LayoutFault>(f),
                Ok(start) => match number_bound(trim_end, values, at, "trimEnd"@) {
                    Err(f) => r == Err::<Shown, LayoutFault>(f),
                    Ok(end) => exists|left: Result<Path, GeometryError>| #[trigger]
                        trim_given(cut, path, start, end, left) && r == path_shown(
                            left,
                            fill,
                            stroke,
                            values,
                            at,
                            node.key@,
                        ),
                },
            },
        },
        _ => false,
    }
}

/// Whether `r` is the content of a node.
pub open spec fn content_given<
    C: Fn(&Calc) -> Scalar,
    P: Fn(&SegmentGeometry, Scalar) -> Point,
    T: Fn(&SegmentGeometry, Scalar) -> Point,
    S: Fn(&SegmentGeometry, Scalar, Scalar) -> SegmentGeometry,
>(
    cut: MeasureTools<C, P, T, S>,
    node: SceneNode,
    values: Seq<Value>,
    at: int,
    r: Result<Shown, LayoutFault>,
) -> bool {
    match node.kind {
        NodeKind::Path { .. } => path_given(cut, node, values, at, r),
        NodeKind::ShaderLayer { uniforms } => match uniforms_bound(
            uniforms@,
            values,
            at,
            uniforms@.len(),
        ) {
            Err(f) => r == Err::<Shown, LayoutFault>(f),
            Ok(u) => r == Ok::<Shown, LayoutFault>(Shown::Shader(u)),
        },
        NodeKind::GeometryBatch { batch } => match batch_bound(batch, values, at) {
            Err(f) => r == Err::<Shown, LayoutFault>(f),
            Ok(b) => r == Ok::<Shown, LayoutFault>(Shown::Batch(b)),
        },
        NodeKind::Video { source_start, speed, .. } => match number_bound(
            source_start,
            values,
            at,
            "video.sourceStart"@,
        ) {
            Err(f) => r == Err::<Shown, LayoutFault>(f),
            Ok(start) => match number_bound(speed, values, at, "video.speed"@) {
                Err(f) => r == Err::<Shown, LayoutFault>(f),
                Ok(speed) => r == Ok::<Shown, LayoutFault>(Shown::Video(start, speed)),
            },
        },
        NodeKind::Clip { path, fill_rule } => match path_bound(path, values, at) {
            Err(f) => r == Err::<Shown, LayoutFault>(f),
            Ok(p) => r == Ok::<Shown, LayoutFault>(Shown::Clip(p, fill_rule)),
        },
        NodeKind::Mask { source, mode, rect } => match mask_bound(source, values, at, node.key@) {
            Err(f) => r == Err::<Shown, LayoutFault>(f),
            Ok(from) => match rect_bound(rect, values, at, node.key@) {
                Err(f) => r == Err::<Shown, LayoutFault>(f),
                Ok(rect) => r == Ok::<Shown, LayoutFault>(Shown::Mask(from, mode, rect)),
            },
        },
        _ => r == Ok::<Shown, LayoutFault>(Shown::Plain),
    }
}

fn path_content<
    C: Fn(&Calc) -> Scalar,
    P: Fn(&SegmentGeometry, Scalar) -> Point,
    T: Fn(&SegmentGeometry, Scalar) -> Point,
    S: Fn(&SegmentGeometry, Scalar, Scalar) -> SegmentGeometry,
>(
    cut: &MeasureTools<C, P, T, S>,
    node: &SceneNode,
    values: &Vec<MotionValue>,
    at: usize,
) -> (r: Result<ResolvedContent, LayoutError>)
    requires
        node.kind is Path,
        tools_ready(*cut),
    ensures
        path_given(*cut, *node, values_of(values@), at as int, laid(r)),
{
    match &node.kind {
        NodeKind::Path { d, fill, stroke, trim_start, trim_end } => {
            let whole = match path_value(d, values, at) {
                Ok(p) => p,
                Err(e) => {
                    return Err(e);
                },
            };
            let start = match number_value(*trim_start, values, at, "trimStart") {
                Ok(x) => x,
                Err(e) => {
                    return Err(e);
                },
            };
            let end = match number_value(*trim_end, values, at, "trimEnd") {
                Ok(x) => x,
                Err(e) => {
                    return Err(e);
                },
            };
            let left = whole.trim(cut, start, end);
            let ghost seen = path_seen(left);
            let ghost vals = values_of(values@);
            let ghost full = path_bound(*d, vals, at as int)->Ok_0;
            let ghost a = number_bound(*trim_start, vals, at as int, "trimStart"@)->Ok_0;
            let ghost b = number_bound(*trim_end, vals, at as int, "trimEnd"@)->Ok_0;
            assert(trim_given(*cut, full, a, b, seen));
            let path = match left {
                Ok(p) => p,
                Err(reason) => {
                    return Err(LayoutError::Eval(EvalError::BadGeometry { at, reason }));
                },
            };
            let fill = match fill {
                None => None,
                Some(p) => match paint_value(p, values, at, node.key.as_str()) {
                    Ok(p) => Some(p),
                    Err(e) => {
                        return Err(e);
                    },
                },
            };
            let stroke = match stroke {
                None => None,
                Some(s) => match resolve_stroke(s, values, at, node.key.as_str()) {
                    Ok(s) => Some(s),
                    Err(e) => {
                        return Err(e);
                    },
                },
            };
            Ok(ResolvedContent::Path { path, fill, stroke })
        },
        _ => Ok(ResolvedContent::Plain),
    }
}

/// The content of a node this frame. The host cuts paths.
pub fn resolve_content<
    C: Fn(&Calc) -> Scalar,
    P: Fn(&SegmentGeometry, Scalar) -> Point,
    T: Fn(&SegmentGeometry, Scalar) -> Point,
    S: Fn(&SegmentGeometry, Scalar, Scalar) -> SegmentGeometry,
>(
    cut: &MeasureTools<C, P, T, S>,
    node: &SceneNode,
    values: &Vec<MotionValue>,
    at: usize,
) -> (r: Result<ResolvedContent, LayoutError>)
    requires
        tools_ready(*cut),
    ensures
        content_given(*cut, *node, values_of(values@), at as int, laid(r)),
{
    match &node.kind {
        NodeKind::Path { .. } => path_content(cut, node, values, at),
        NodeKind::ShaderLayer { uniforms } => match resolve_uniforms(uniforms, values, at) {
            Ok(u) => Ok(ResolvedContent::Shader(u)),
            Err(e) => Err(e),
        },
        NodeKind::GeometryBatch { batch } => match batch_progress(batch, values, at) {
            Ok(b) => Ok(ResolvedContent::Batch(b)),
            Err(e) => Err(e),
        },
        NodeKind::Video { source_start, speed, .. } => match number_value(
            *source_start,
            values,
            at,
            "video.sourceStart",
        ) {
            Err(e) => Err(e),
            Ok(start) => match number_value(*speed, values, at, "video.speed") {
                Err(e) => Err(e),
                Ok(speed) => Ok(ResolvedContent::Video { start, speed }),
            },
        },
        NodeKind::Clip { path, fill_rule } => match path_value(path, values, at) {
            Err(e) => Err(e),
            Ok(p) => Ok(ResolvedContent::Clip { path: p.duplicate(), fill_rule: *fill_rule }),
        },
        NodeKind::Mask { source, mode, rect } => {
            let from = match source {
                MaskValue::Paint { paint } => match paint_value(
                    paint,
                    values,
                    at,
                    node.key.as_str(),
                ) {
                    Ok(p) => ResolvedMaskSource::Paint(p),
                    Err(e) => {
                        return Err(e);
                    },
                },
                MaskValue::Image { source } => ResolvedMaskSource::Image(source.clone()),
                MaskValue::Subtree { source } => ResolvedMaskSource::Subtree(source.clone()),
            };
            match rect_value(*rect, values, at, node.key.as_str()) {
                Err(e) => Err(e),
                Ok(rect) => Ok(ResolvedContent::Mask { source: from, mode: *mode, rect }),
            }
        },
        _ => Ok(ResolvedContent::Plain),
    }
}

/// Everything that painting needs of a node this frame.
#[derive(Debug)]
pub struct ResolvedNode {
    pub filters: Vec<FilterOp>,
    pub backdrop_filters: Vec<FilterOp>,
    pub effects: Option<LayerEffects>,
    pub text_path: Option<PathData>,
    pub content: ResolvedContent,
}

/// The path that a text follows.
pub open spec fn text_path_bound(node: SceneNode, values: Seq<Value>, at: int) -> Result<
    Option<Path>,
    LayoutFault,
> {
    match node.kind {
        NodeKind::Text { path: Some(p), .. } => match path_bound(p, values, at) {
            Ok(p) => Ok(Some(p)),
            Err(f) => Err(f),
        },
        _ => Ok(None),
    }
}

pub open spec fn some_path(p: Option<PathData>) -> Option<Path> {
    match p {
        Some(p) => Some(p@),
        None => None,
    }
}

/// Whether a node resolves to `n`.
pub open spec fn resolves<
    C: Fn(&Calc) -> Scalar,
    P: Fn(&SegmentGeometry, Scalar) -> Point,
    T: Fn(&SegmentGeometry, Scalar) -> Point,
    S: Fn(&SegmentGeometry, Scalar, Scalar) -> SegmentGeometry,
>(
    cut: MeasureTools<C, P, T, S>,
    node: SceneNode,
    values: Seq<Value>,
    at: int,
    degrees: Seq<Scalar>,
    n: ResolvedNode,
) -> bool {
    &&& filters_given(node, values, at, Ok(n.filters@))
    &&& backdrop_given(node, values, at, Ok(n.backdrop_filters@))
    &&& visible_effects(effects_of(node, values, at, degrees, node.styles@.len())) == Ok::<
        Option<LayerEffects>,
        LayoutFault,
    >(n.effects)
    &&& text_path_bound(node, values, at) == Ok::<Option<Path>, LayoutFault>(some_path(n.text_path))
    &&& content_given(cut, node, values, at, Ok(n.content@))
}

/// Whether a node cannot be resolved because of `f`: the first of its filters, backdrop filters,
/// effects, text path and content that fails.
pub open spec fn unresolved<
    C: Fn(&Calc) -> Scalar,
    P: Fn(&SegmentGeometry, Scalar) -> Point,
    T: Fn(&SegmentGeometry, Scalar) -> Point,
    S: Fn(&SegmentGeometry, Scalar, Scalar) -> SegmentGeometry,
>(
    cut: MeasureTools<C, P, T, S>,
    node: SceneNode,
    values: Seq<Value>,
    at: int,
    degrees: Seq<Scalar>,
    f: LayoutFault,
) -> bool {
    let effects = visible_effects(effects_of(node, values, at, degrees, node.styles@.len()));
    let filtered = exists|ops: Seq<FilterOp>| #[trigger] filters_given(node, values, at, Ok(ops));
    let backed = exists|ops: Seq<FilterOp>| #[trigger] backdrop_given(node, values, at, Ok(ops));
    ||| filters_given(node, values, at, Err(f))
    ||| filtered && backdrop_given(node, values, at, Err(f))
    ||| filtered && backed && effects == Err::<Option<LayerEffects>, LayoutFault>(f)
    ||| filtered && backed && effects is Ok && text_path_bound(node, values, at) == Err::<
        Option<Path>,
        LayoutFault,
    >(f)
    ||| filtered && backed && effects is Ok && text_path_bound(node, values, at) is Ok
        && content_given(cut, node, values, at, Err(f))
}

/// Resolves a node for painting.
pub fn resolve_node<
    C: Fn(&Calc) -> Scalar,
    P: Fn(&SegmentGeometry, Scalar) -> Point,
    T: Fn(&SegmentGeometry, Scalar) -> Point,
    S: Fn(&SegmentGeometry, Scalar, Scalar) -> SegmentGeometry,
>(
    cut: &MeasureTools<C, P, T, S>,
    node: &SceneNode,
    values: &Vec<MotionValue>,
    at: usize,
    degrees: &Vec<Scalar>,
) -> (r: Result<ResolvedNode, LayoutError>)
    requires
        degrees@.len() == node.styles@.len(),
        tools_ready(*cut),
    ensures
        match r {
            Ok(n) => resolves(*cut, *node, values_of(values@), at as int, degrees@, n),
            Err(e) => unresolved(*cut, *node, values_of(values@), at as int, degrees@, e@),
        },
{
    let ghost vals = values_of(values@);
    let filters = match resolve_advanced_filters(node, values, at) {
        Ok(v) => v,
        Err(e) => {
            return Err(e);
        },
    };
    assert(filters_given(*node, vals, at as int, Ok(filters@)));
    let backdrop_filters = match resolve_backdrop_advanced_filters(node, values, at) {
        Ok(v) => v,
        Err(e) => {
            return Err(e);
        },
    };
    assert(backdrop_given(*node, vals, at as int, Ok(backdrop_filters@)));
    let effects = match resolve_layer_fx(node, values, at, degrees) {
        Ok(v) => v,
        Err(e) => {
            return Err(e);
        },
    };
    let text_path = match &node.kind {
        NodeKind::Text { path, .. } => match path {
            Some(p) => match path_value(p, values, at) {
                Ok(p) => Some(p.duplicate()),
                Err(e) => {
                    return Err(e);
                },
            },
            None => None,
        },
        _ => None,
    };
    match resolve_content(cut, node, values, at) {
        Ok(content) => Ok(
            ResolvedNode { filters, backdrop_filters, effects, text_path, content },
        ),
        Err(e) => Err(e),
    }
}

/// Whether nodes are the resolved first nodes of a scene.
pub open spec fn all_resolved<
    C: Fn(&Calc) -> Scalar,
    P: Fn(&SegmentGeometry, Scalar) -> Point,
    T: Fn(&SegmentGeometry, Scalar) -> Point,
    S: Fn(&SegmentGeometry, Scalar, Scalar) -> SegmentGeometry,
>(
    cut: MeasureTools<C, P, T, S>,
    a: SceneArtifact,
    values: Seq<Value>,
    degrees: Seq<Vec<Scalar>>,
    nodes: Seq<ResolvedNode>,
) -> bool {
    nodes.len() <= a.nodes@.len() && forall|i: int|
        0 <= i < nodes.len() ==> resolves(
            cut,
            a.nodes@[i],
            values,
            i,
            degrees[i]@,
            #[trigger] nodes[i],
        )
}

/// Whether the nodes of a scene cannot all be resolved: the first that fails does so with `f`.
pub open spec fn some_unresolved<
    C: Fn(&Calc) -> Scalar,
    P: Fn(&SegmentGeometry, Scalar) -> Point,
    T: Fn(&SegmentGeometry, Scalar) -> Point,
    S: Fn(&SegmentGeometry, Scalar, Scalar) -> SegmentGeometry,
>(
    cut: MeasureTools<C, P, T, S>,
    a: SceneArtifact,
    values: Seq<Value>,
    degrees: Seq<Vec<Scalar>>,
    f: LayoutFault,
) -> bool {
    exists|nodes: Seq<ResolvedNode>| #[trigger]
        all_resolved(cut, a, values, degrees, nodes) && nodes.len() < a.nodes@.len() && unresolved(
            cut,
            a.nodes@[nodes.len() as int],
            values,
            nodes.len() as int,
            degrees[nodes.len() as int]@,
            f,
        )
}

/// Whether angles are given for every style of every node.
pub open spec fn angles_given(a: SceneArtifact, degrees: Seq<Vec<Scalar>>) -> bool {
    degrees.len() == a.nodes@.len() && forall|i: int|
        0 <= i < degrees.len() ==> (#[trigger] degrees[i])@.len() == a.nodes@[i].styles@.len()
}

/// Whether `r` is the nodes of a frame: all of them, or the first failure.
pub open spec fn nodes_told<
    C: Fn(&Calc) -> Scalar,
    P: Fn(&SegmentGeometry, Scalar) -> Point,
    T: Fn(&SegmentGeometry, Scalar) -> Point,
    S: Fn(&SegmentGeometry, Scalar, Scalar) -> SegmentGeometry,
>(
    cut: MeasureTools<C, P, T, S>,
    a: SceneArtifact,
    values: Seq<Value>,
    degrees: Seq<Vec<Scalar>>,
    r: Result<Vec<ResolvedNode>, LayoutError>,
) -> bool {
    match r {
        Ok(nodes) => nodes@.len() == a.nodes@.len() && all_resolved(
            cut,
            a,
            values,
            degrees,
            nodes@,
        ),
        Err(e) => some_unresolved(cut, a, values, degrees, e@),
    }
}

/// Resolves all nodes of a scene for painting. `degrees` holds, for each style whose value is an
/// angle, that angle in degrees.
pub fn resolve_nodes<
    C: Fn(&Calc) -> Scalar,
    P: Fn(&SegmentGeometry, Scalar) -> Point,
    T: Fn(&SegmentGeometry, Scalar) -> Point,
    S: Fn(&SegmentGeometry, Scalar, Scalar) -> SegmentGeometry,
>(
    cut: &MeasureTools<C, P, T, S>,
    artifact: &SceneArtifact,
    values: &Vec<MotionValue>,
    degrees: &Vec<Vec<Scalar>>,
) -> (r: Result<Vec<ResolvedNode>, LayoutError>)
    requires
        angles_given(*artifact, degrees@),
        tools_ready(*cut),
    ensures
        nodes_told(*cut, *artifact, values_of(values@), degrees@, r),
{
    let mut out: Vec<ResolvedNode> = Vec::new();
    let mut at: usize = 0;
    while at < artifact.nodes.len()
        invariant
            at <= artifact.nodes@.len(),
            angles_given(*artifact, degrees@),
            tools_ready(*cut),
            out@.len() == at,
            all_resolved(*cut, *artifact, values_of(values@), degrees@, out@),
        decreases artifact.nodes@.len() - at,
    {
        let ghost before = out@;
        assert(degrees@[at as int]@.len() == artifact.nodes@[at as int].styles@.len());
        match resolve_node(cut, &artifact.nodes[at], values, at, &degrees[at]) {
            Err(e) => {
                assert(all_resolved(*cut, *artifact, values_of(values@), degrees@, before));
                return Err(e);
            },
            Ok(n) => {
                out.push(n);
                proof {
                    let now = out@;
                    assert forall|i: int| 0 <= i < now.len() implies resolves(
                        *cut,
                        artifact.nodes@[i],
                        values_of(values@),
                        i,
                        degrees@[i]@,
                        #[trigger] now[i],
                    ) by {
                        if i < at {
                            assert(now[i] == before[i]);
                        }
                    }
                }
            },
        }
        at = at + 1;
    }
    Ok(out)
}

} // verus!
