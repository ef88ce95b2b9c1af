//! The commands of a recorded frame and how they nest.

use vstd::prelude::*;

use crate::clusters::Span;
use crate::scalar::Scalar;

verus! {

#[derive(Clone, Copy, Debug, PartialEq, Eq, Structural)]
pub struct Point {
    pub x: Scalar,
    pub y: Scalar,
}

#[derive(Clone, Copy, Debug, PartialEq, Eq, Structural)]
pub struct Rect {
    pub x: Scalar,
    pub y: Scalar,
    pub width: Scalar,
    pub height: Scalar,
}

#[derive(Clone, Copy, Debug, PartialEq, Eq, Structural)]
pub struct Rgba {
    pub r: u8,
    pub g: u8,
    pub b: u8,
    pub a: u8,
}

/// A 2D affine transform.
#[derive(Clone, Copy, Debug, PartialEq, Eq, Structural)]
pub struct Affine {
    pub a: Scalar,
    pub b: Scalar,
    pub c: Scalar,
    pub d: Scalar,
    pub x: Scalar,
    pub y: Scalar,
}

/// Horizontal and vertical radii of the four corners, top-left first, clockwise.
#[derive(Clone, Copy, Debug, PartialEq, Eq, Structural)]
pub struct Corners {
    pub top_left: Point,
    pub top_right: Point,
    pub bottom_right: Point,
    pub bottom_left: Point,
}

/// A 3x3 projective transform, row by row.
#[derive(Clone, Copy, Debug, PartialEq, Eq)]
pub struct Homography {
    pub top: (Scalar, Scalar, Scalar),
    pub middle: (Scalar, Scalar, Scalar),
    pub bottom: (Scalar, Scalar, Scalar),
}

#[derive(Clone, Copy, Debug, PartialEq, Eq, Structural)]
pub enum FillRule {
    NonZero,
    EvenOdd,
}

#[derive(Clone, Copy, Debug, PartialEq, Eq, Structural)]
pub enum BlendMode {
    Multiply,
    Screen,
    Overlay,
    Darken,
    Lighten,
    ColorDodge,
    ColorBurn,
    HardLight,
    SoftLight,
    Difference,
    Exclusion,
    Hue,
    Saturation,
    Color,
    Luminosity,
    DestinationIn,
}

#[derive(Clone, Copy, Debug, PartialEq, Eq, Structural)]
pub enum ObjectFit {
    Fill,
    Contain,
    Cover,
    ScaleDown,
    Natural,
}

#[derive(Clone, Copy, Debug, PartialEq, Eq, Structural)]
pub enum BatchGeometry {
    Circle,
    Rect,
}

/// One step of a filter chain.
#[derive(Clone, Copy, Debug, PartialEq, Eq, Structural)]
pub enum FilterOp {
    Blur { sigma: Scalar },
    Brightness { amount: Scalar },
    Contrast { amount: Scalar },
    Grayscale { amount: Scalar },
    HueRotate { degrees: Scalar },
    Invert { amount: Scalar },
    Opacity { amount: Scalar },
    Saturate { amount: Scalar },
    Sepia { amount: Scalar },
    DropShadow { dx: Scalar, dy: Scalar, sigma: Scalar, color: Rgba },
    NoiseDisplacement {
        frequency_x: Scalar,
        frequency_y: Scalar,
        octaves: u8,
        seed: u32,
        scale: Scalar,
        turbulence: bool,
    },
    VelocityBlur { velocity_x: Scalar, velocity_y: Scalar, shutter_angle: Scalar },
}

/// What a path is filled or stroked with: a solid color, or an entry of the gradient table.
#[derive(Clone, Copy, Debug, PartialEq, Eq, Structural)]
pub enum Paint {
    Solid(Rgba),
    Gradient(u32),
}

/// A stroke of the stroke table.
#[derive(Clone, Copy, Debug, PartialEq, Eq, Structural)]
pub struct StrokeRef(pub u32);

/// A path of the path table.
#[derive(Clone, Copy, Debug, PartialEq, Eq, Structural)]
pub struct PathRef(pub u32);

/// Where a glyph run's text came from: a node of the text-source table and the byte ranges of its
/// glyphs.
#[derive(Clone, Copy, Debug, PartialEq, Eq, Structural)]
pub struct GlyphSource {
    pub node: u32,
    pub ranges: Span,
}

/// A half-open range of a recording table.
#[derive(Clone, Copy, Debug, PartialEq, Eq, Structural)]
pub struct TableRange {
    pub start: usize,
    pub end: usize,
}

/// One recorded command. `Begin` commands open a group that a later `End` closes.
#[derive(Clone, Copy, Debug, PartialEq, Eq)]
pub enum Command {
    BeginTransform { transform: Affine },
    BeginMotionGlass { program: usize },
    BeginMotionGlassForeground { program: usize },
    BeginClipPath { path: PathRef, fill_rule: FillRule },
    BeginMaskPaint { paint: Paint, mode: u8, rect: Rect },
    BeginMaskImage { image: u32, mode: u8, rect: Rect },
    BeginSaveLayer { bounds: Option<Rect>, alpha: Scalar },
    BeginBlend { mode: BlendMode },
    BeginBackdropFilter { filters: TableRange, bounds: Rect },
    BeginFilter { filters: TableRange },
    BeginPerspective { matrix: Homography },
    BeginShaderLayer { shader: u32, bounds: Rect },
    BeginClipRoundRect { rect: Rect, radii: Corners },
    BeginClipRect { rect: Rect },
    BeginOpacity { alpha: Scalar },
    End,
    Path { path: PathRef, fill_rule: FillRule, fill: Option<Paint>, stroke: Option<StrokeRef> },
    Shadow { shadow: u32 },
    Image { image: u32, dst: Rect, fit: ObjectFit },
    /// A generated texture, by its place among those of the frame.
    Texture { texture: usize, dst: Rect },
    GlyphRun {
        font: u32,
        glyphs: Span,
        paint: Paint,
        stroke: Option<StrokeRef>,
        source: Option<GlyphSource>,
    },
    GeometryBatch { geometry: BatchGeometry, instances: TableRange },
}

impl Command {
    /// Whether the command opens a group.
    pub open spec fn opens(self) -> bool {
        match self {
            Command::End => false,
            Command::Path { .. } => false,
            Command::Shadow { .. } => false,
            Command::Image { .. } => false,
            Command::Texture { .. } => false,
            Command::GlyphRun { .. } => false,
            Command::GeometryBatch { .. } => false,
            _ => true,
        }
    }

    /// How the command changes the number of open groups.
    pub open spec fn step(self) -> int {
        if self.opens() {
            1
        } else if self == Command::End {
            -1
        } else {
            0
        }
    }
}

/// Number of groups left open after a sequence of commands.
pub open spec fn depth_of(commands: Seq<Command>) -> int
    decreases commands.len(),
{
    if commands.len() == 0 {
        0
    } else {
        depth_of(commands.drop_last()) + commands.last().step()
    }
}

/// Whether no prefix closes more groups than it opened.
pub open spec fn never_underflows(commands: Seq<Command>) -> bool {
    forall|n: int| 0 <= n <= commands.len() ==> depth_of(#[trigger] commands.take(n)) >= 0
}

/// Whether every group is closed and no `End` is stray.
pub open spec fn balanced(commands: Seq<Command>) -> bool {
    depth_of(commands) == 0 && never_underflows(commands)
}

/// Whether a sequence only opens groups or closes groups that it opened itself.
pub open spec fn opening(commands: Seq<Command>) -> bool {
    never_underflows(commands)
}

pub proof fn depth_of_append(a: Seq<Command>, b: Seq<Command>)
    ensures
        depth_of(a + b) == depth_of(a) + depth_of(b),
    decreases b.len(),
{
    if b.len() == 0 {
        assert(a + b =~= a);
    } else {
        assert((a + b).drop_last() =~= a + b.drop_last());
        depth_of_append(a, b.drop_last());
    }
}

/// Sequences that never underflow keep that property when appended.
pub proof fn opening_append(a: Seq<Command>, b: Seq<Command>)
    requires
        opening(a),
        opening(b),
    ensures
        opening(a + b),
        depth_of(a + b) == depth_of(a) + depth_of(b),
{
    depth_of_append(a, b);
    assert(a.take(a.len() as int) =~= a);
    assert forall|n: int| 0 <= n <= (a + b).len() implies depth_of(#[trigger] (a + b).take(n))
        >= 0 by {
        if n <= a.len() {
            assert((a + b).take(n) =~= a.take(n));
        } else {
            let m = n - a.len();
            assert((a + b).take(n) =~= a + b.take(m));
            depth_of_append(a, b.take(m));
            assert(depth_of(a.take(a.len() as int)) >= 0);
        }
    }
}

/// `n` closing commands.
pub open spec fn ends(n: nat) -> Seq<Command> {
    Seq::new(n, |i: int| Command::End)
}

pub proof fn depth_of_ends(n: nat)
    ensures
        depth_of(ends(n)) == -(n as int),
    decreases n,
{
    if n > 0 {
        depth_of_ends((n - 1) as nat);
        assert(ends(n).drop_last() =~= ends((n - 1) as nat));
    }
}

/// Opening commands, balanced content, and one `End` for each open group form a balanced whole.
pub proof fn wrapping_is_balanced(head: Seq<Command>, content: Seq<Command>, n: nat)
    requires
        opening(head),
        depth_of(head) == n,
        balanced(content),
    ensures
        balanced(head + content + ends(n)),
{
    opening_append(head, content);
    let body = head + content;
    depth_of_ends(n);
    depth_of_append(body, ends(n));
    assert forall|k: int| 0 <= k <= (body + ends(n)).len() implies depth_of(
        #[trigger] (body + ends(n)).take(k),
    ) >= 0 by {
        if k <= body.len() {
            assert((body + ends(n)).take(k) =~= body.take(k));
        } else {
            let m = (k - body.len()) as nat;
            assert((body + ends(n)).take(k) =~= body + ends(m));
            depth_of_append(body, ends(m));
            depth_of_ends(m);
        }
    }
}

/// Balanced pieces form a balanced whole.
pub proof fn balanced_append(a: Seq<Command>, b: Seq<Command>)
    requires
        balanced(a),
        balanced(b),
    ensures
        balanced(a + b),
{
    opening_append(a, b);
}

pub proof fn empty_is_balanced()
    ensures
        balanced(Seq::<Command>::empty()),
{
    assert forall|n: int| 0 <= n <= 0 implies depth_of(
        #[trigger] Seq::<Command>::empty().take(n),
    ) >= 0 by {
        assert(Seq::<Command>::empty().take(n) =~= Seq::<Command>::empty());
    }
}

/// A single command that opens a group, and a single command that draws.
pub proof fn single_command(c: Command)
    requires
        c != Command::End,
    ensures
        opening(seq![c]),
        depth_of(seq![c]) == c.step(),
        !c.opens() ==> balanced(seq![c]),
{
    let s = seq![c];
    assert(s.drop_last() =~= Seq::<Command>::empty());
    assert(depth_of(s.drop_last()) == 0);
    assert(depth_of(s) == c.step());
    assert forall|n: int| 0 <= n <= s.len() implies depth_of(#[trigger] s.take(n)) >= 0 by {
        if n == 0 {
            assert(s.take(n) =~= Seq::<Command>::empty());
        } else {
            assert(s.take(n) =~= s);
        }
    }
}

} // verus!
