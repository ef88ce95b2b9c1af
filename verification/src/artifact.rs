//! The scene artifact: nodes, their bindings and the expression arena they read.

use vstd::prelude::*;

use crate::expr::{Expr, ExprId};
use crate::glass::{GlassFieldNode, GlassNode};
use crate::path::PathData;
use crate::recording::{BatchGeometry, FillRule, Point, Rect, Rgba};
use crate::scalar::Scalar;
use crate::units::TextSplit;
use crate::value::{ControlsSchema, MotionValue};

verus! {

/// Position of a node in the node table.
#[derive(Clone, Copy, Debug, PartialEq, Eq, Structural)]
pub struct NodeId(pub u32);

/// A range of the child table.
#[derive(Clone, Copy, Debug, PartialEq, Eq, Structural)]
pub struct ChildRange {
    pub start: u32,
    pub end: u32,
}

#[derive(Clone, Copy, Debug, PartialEq, Eq, Structural)]
pub enum NumberValue {
    Static { value: Scalar },
    Expr { expr: ExprId },
}

#[derive(Clone, Copy, Debug, PartialEq, Eq, Structural)]
pub enum PointValue {
    Static { value: Point },
    Expr { expr: ExprId },
}

#[derive(Clone, Copy, Debug, PartialEq, Eq, Structural)]
pub enum ColorValue {
    Static { value: Rgba },
    Expr { expr: ExprId },
}

#[derive(Clone, Copy, Debug, PartialEq, Eq, Structural)]
pub enum RectValue {
    Static { value: Rect },
    Expr { expr: ExprId },
}

#[derive(Clone, Copy, Debug, PartialEq, Eq, Structural)]
pub enum BoolValue {
    Static { value: bool },
    Expr { expr: ExprId },
}

#[derive(Debug)]
pub enum PathValue {
    Static { value: PathData },
    Expr { expr: ExprId },
}

#[derive(Debug)]
pub enum TextValue {
    Static { value: String },
    Expr { expr: ExprId },
}

#[derive(Debug)]
pub enum StyleValue {
    Static { value: MotionValue },
    Expr { expr: ExprId },
}

/// An authored style property.
#[derive(Debug)]
pub struct StyleBinding {
    pub property: String,
    pub value: StyleValue,
}

/// How a gradient goes on outside its stops.
#[derive(Clone, Copy, Debug, PartialEq, Eq, Structural)]
pub enum SpreadMode {
    Pad,
    Repeat,
    Reflect,
}

#[derive(Clone, Copy, Debug, PartialEq, Eq, Structural)]
pub struct GradientStopValue {
    pub offset: NumberValue,
    pub color: ColorValue,
}

#[derive(Debug)]
pub enum PaintValue {
    Solid { color: ColorValue },
    Linear { start: PointValue, end: PointValue, stops: Vec<GradientStopValue>, spread: SpreadMode },
    Radial {
        center: PointValue,
        radius: NumberValue,
        stops: Vec<GradientStopValue>,
        spread: SpreadMode,
    },
    Conic {
        center: PointValue,
        start_angle: NumberValue,
        stops: Vec<GradientStopValue>,
        spread: SpreadMode,
    },
}

/// What of a stroke is resolved per frame; its caps, joins and dashes are fixed.
#[derive(Debug)]
pub struct PathStroke {
    pub paint: PaintValue,
    pub width: NumberValue,
    pub dash_offset: NumberValue,
}

/// Per-unit style of a text node.
#[derive(Clone, Copy, Debug, PartialEq, Eq, Structural)]
pub struct UnitStyle {
    pub opacity: Option<NumberValue>,
    pub translate: Option<PointValue>,
    pub scale: Option<PointValue>,
    pub rotate: Option<NumberValue>,
    pub color: Option<ColorValue>,
}

#[derive(Clone, Copy, Debug, PartialEq, Eq, Structural)]
pub struct PerUnit {
    pub split: TextSplit,
    pub style: UnitStyle,
}

/// Where the instances of a batch come from.
#[derive(Clone, Copy, Debug, PartialEq, Eq, Structural)]
pub enum BatchPositions {
    Static,
    Particles { frame: ExprId },
}

/// A batch of equal shapes; fields are driven by the progress of an expression.
#[derive(Debug)]
pub struct GeometryBatchSpec {
    pub geometry: BatchGeometry,
    pub positions: BatchPositions,
    pub position_field: Option<ExprId>,
    pub size_field: Option<ExprId>,
    pub fill_field: Option<ExprId>,
    pub opacity_field: Option<ExprId>,
    pub fills: Vec<Rgba>,
    /// Colors that the fill field leads to.
    pub fill_targets: Vec<Rgba>,
}

#[derive(Clone, Copy, Debug, PartialEq, Eq, Structural)]
pub enum ShaderUniformValue {
    Float { value: NumberValue },
    Float2 { value: PointValue },
    Color { value: ColorValue },
    Bool { value: BoolValue },
}

#[derive(Debug)]
pub struct ShaderUniformBinding {
    pub name: String,
    pub value: ShaderUniformValue,
}

#[derive(Debug)]
pub enum MaskValue {
    Paint { paint: PaintValue },
    Image { source: String },
    /// The subtree of the node with this key.
    Subtree { source: String },
}

#[derive(Clone, Copy, Debug, PartialEq, Eq, Structural)]
pub struct Scene3DCameraBinding {
    pub orbit_yaw_degrees: NumberValue,
    pub orbit_pitch_degrees: NumberValue,
    pub distance: NumberValue,
    pub fov_y_degrees: NumberValue,
}

#[derive(Debug)]
pub struct Scene3DMeshBinding {
    pub key: String,
    pub translation_x: NumberValue,
    pub translation_y: NumberValue,
    pub translation_z: NumberValue,
    pub rotation_x_degrees: NumberValue,
    pub rotation_y_degrees: NumberValue,
    pub rotation_z_degrees: NumberValue,
    pub scale_x: NumberValue,
    pub scale_y: NumberValue,
    pub scale_z: NumberValue,
}

#[derive(Debug)]
pub struct Scene3DFrameBinding {
    pub camera: Scene3DCameraBinding,
    pub meshes: Vec<Scene3DMeshBinding>,
    pub light_intensities: Vec<NumberValue>,
}

#[derive(Debug)]
pub enum NodeKind {
    Group,
    Box,
    Text { text: TextValue, path: Option<PathValue>, per_unit: Option<PerUnit> },
    Path {
        d: PathValue,
        fill: Option<PaintValue>,
        stroke: Option<PathStroke>,
        trim_start: NumberValue,
        trim_end: NumberValue,
    },
    GeometryBatch { batch: GeometryBatchSpec },
    Image { source: String },
    Video { source: String, source_start: NumberValue, speed: NumberValue },
    ShaderLayer { uniforms: Vec<ShaderUniformBinding> },
    Scene3D { frame: Scene3DFrameBinding },
    MathFormula { latex: String },
    Clip { path: PathValue, fill_rule: FillRule },
    Mask { source: MaskValue, mode: u8, rect: RectValue },
    Glass(GlassNode),
    GlassField(GlassFieldNode),
}

/// Which coordinate space a subtree lives in.
#[derive(Clone, Copy, Debug, PartialEq, Eq, Structural)]
pub enum CoordinateSpace {
    World,
    Screen,
}

#[derive(Debug)]
pub struct SceneNode {
    pub key: String,
    pub kind: NodeKind,
    pub space: Option<CoordinateSpace>,
    pub class_names: Vec<String>,
    pub styles: Vec<StyleBinding>,
    pub visibility: Option<ExprId>,
    pub children: ChildRange,
}

#[derive(Clone, Copy, Debug, PartialEq, Eq, Structural)]
pub struct CameraBinding {
    pub center: PointValue,
    pub zoom: NumberValue,
    pub rotation: NumberValue,
}

pub struct SceneArtifact {
    pub controls: ControlsSchema,
    pub exprs: Vec<Expr>,
    pub nodes: Vec<SceneNode>,
    pub node_children: Vec<NodeId>,
    pub root: NodeId,
    pub camera: Option<CameraBinding>,
}

/// The children that a range names, where it lies inside the child table.
pub open spec fn children_in(table: Seq<NodeId>, range: ChildRange) -> Option<Seq<NodeId>> {
    if range.start <= range.end && range.end <= table.len() {
        Some(table.subrange(range.start as int, range.end as int))
    } else {
        None
    }
}

impl SceneArtifact {
    /// The children of a node; nothing where the node or its range does not exist.
    pub open spec fn children_of(self, at: int) -> Option<Seq<NodeId>> {
        if 0 <= at < self.nodes@.len() {
            children_in(self.node_children@, self.nodes@[at].children)
        } else {
            None
        }
    }

    /// The children of a node; nothing where the node or its range does not exist.
    pub fn child_ids(&self, at: usize) -> (r: Option<Vec<NodeId>>)
        ensures
            match r {
                Some(v) => self.children_of(at as int) == Some(v@),
                None => self.children_of(at as int) is None,
            },
    {
        if at >= self.nodes.len() {
            return None;
        }
        let start: usize = self.nodes[at].children.start as usize;
        let end: usize = self.nodes[at].children.end as usize;
        if start > end || end > self.node_children.len() {
            return None;
        }
        let mut out: Vec<NodeId> = Vec::new();
        let mut i: usize = start;
        let ghost all = self.node_children@.subrange(start as int, end as int);
        while i < end
            invariant
                start <= i <= end,
                end <= self.node_children@.len(),
                all == self.node_children@.subrange(start as int, end as int),
                out@ == all.take(i - start),
            decreases end - i,
        {
            out.push(self.node_children[i]);
            i = i + 1;
            assert(out@ =~= all.take(i - start));
        }
        assert(all.take(end - start) =~= all);
        Some(out)
    }
}

} // verus!
