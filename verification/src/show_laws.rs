//! What nodes show once their bindings are known: shaders, batches, paths, videos, clips and masks, the style
//! of formulas, the glyphs along a path, and what a scene may not use.

use vstd::prelude::*;

use crate::artifact::{
    GeometryBatchSpec, MaskValue, NodeKind, PathStroke, SceneArtifact, SceneNode,
    ShaderUniformBinding, ShaderUniformValue, StyleBinding,
};
use crate::binding_laws::{gives_color, gives_number, gives_point, is_value};
use crate::bindings::{bool_bound, paint_bound, path_bound, rect_bound, style_valued, Painted};
use crate::contours::SegmentGeometry;
use crate::digest::{hex, named_family};
use crate::expr::ExprId;
use crate::formula::{formula_styled, FormulaStyle};
use crate::identity::{preserved, scaled, ScaleNode};
use crate::layout_error::LayoutFault;
use crate::measure::{path_sampled, trim_given, Calc, MeasureTools, PathSample};
use crate::path::Path;
use crate::recording::{Affine, Point, Rect};
use crate::resolved::{
    batch_bound, content_given, mask_bound, stroke_bound, text_path_bound, uniform_bound, uniforms_bound,
    BatchProgress, MaskFrom, Shown, Stroked, UniformValue,
};
use crate::scalar::{num, Scalar};
use crate::surface::{admission_from, refused, refused_class, refused_style, Variants};
use crate::text::{holds, numeral};
use crate::text_paths::{line_glyph, placed_at, GlyphPlace, LineGlyph};
use crate::value::Value;

verus! {

/// Names of different lengths differ; those of one length differ in some character.
proof fn style_names()
    ensures
        "fontSize"@.len() == 8,
        "font-size"@.len() == 9,
        "color"@.len() == 5,
{
    reveal_strlit("fontSize");
    reveal_strlit("font-size");
    reveal_strlit("color");
}

/// Names of different lengths differ; those of one length differ in some character.
proof fn scale_names()
    ensures
        "present"@.len() == 7,
        "inherit"@.len() == 7,
        "present"@ != "inherit"@,
{
    reveal_strlit("present");
    reveal_strlit("inherit");
    assert("present"@[0] != "inherit"@[0]);
}

/// A uniform has the number, the point, the color or the condition that its binding gives.
pub proof fn uniforms_have_their_value(
    v: ShaderUniformValue,
    values: Seq<Value>,
    at: int,
    u: UniformValue,
)
    requires
        uniform_bound(v, values, at) == Ok::<UniformValue, LayoutFault>(u),
    ensures
        match v {
            ShaderUniformValue::Float { value } => u is Float && gives_number(value, values, u->Float_0),
            ShaderUniformValue::Float2 { value } => u is Float2 && gives_point(value, values, u->Float2_0),
            ShaderUniformValue::Color { value } => u is Color && gives_color(value, values, u->Color_0),
            ShaderUniformValue::Bool { value } => u is Bool && bool_bound(
                value,
                values,
                at,
                "shader bool"@,
            ) == Ok::<bool, LayoutFault>(u->Bool_0),
        },
{
}

/// Uniforms stand under their names, in order.
pub proof fn uniforms_keep_their_names(
    bindings: Seq<ShaderUniformBinding>,
    values: Seq<Value>,
    at: int,
    n: nat,
    before: Seq<(Seq<char>, UniformValue)>,
    u: UniformValue,
)
    requires
        n < bindings.len(),
        uniforms_bound(bindings, values, at, n) == Ok::<Seq<(Seq<char>, UniformValue)>, LayoutFault>(
            before,
        ),
        uniform_bound(bindings[n as int].value, values, at) == Ok::<UniformValue, LayoutFault>(u),
    ensures
        uniforms_bound(bindings, values, at, 0) == Ok::<Seq<(Seq<char>, UniformValue)>, LayoutFault>(
            seq![],
        ),
        uniforms_bound(bindings, values, at, n + 1) == Ok::<
            Seq<(Seq<char>, UniformValue)>,
            LayoutFault,
        >(before.push((bindings[n as int].name@, u))),
{
}

/// Whether a field of a batch has come this far: as far as its expression says, and nowhere without one.
pub open spec fn has_come(field: Option<ExprId>, values: Seq<Value>, x: Scalar) -> bool {
    match field {
        Some(id) => is_value(values, id, Value::Number(x)) && x.finite(),
        None => x == num(0),
    }
}

/// Each field of a batch has come as far as its own expression says.
pub proof fn batches_progress_field_by_field(
    batch: GeometryBatchSpec,
    values: Seq<Value>,
    at: int,
    b: BatchProgress,
)
    requires
        batch_bound(batch, values, at) == Ok::<BatchProgress, LayoutFault>(b),
    ensures
        has_come(batch.position_field, values, b.position),
        has_come(batch.size_field, values, b.size),
        has_come(batch.fill_field, values, b.fill),
        has_come(batch.opacity_field, values, b.opacity),
{
}

/// A stroke has the paint, the width and the dash offset that its bindings give; its width is not
/// negative.
pub proof fn strokes_hold_their_parts(
    stroke: PathStroke,
    values: Seq<Value>,
    at: int,
    node: Seq<char>,
    s: Stroked,
)
    requires
        stroke_bound(Some(stroke), values, at, node) == Ok::<Option<Stroked>, LayoutFault>(Some(s)),
    ensures
        paint_bound(stroke.paint, values, at, node) == Ok::<Painted, LayoutFault>(s.paint),
        gives_number(stroke.width, values, s.width),
        gives_number(stroke.dash_offset, values, s.dash_offset),
        s.width.is_nan_spec() || s.width.order() >= 0,
{
}

/// A path without a stroke has none, and one of a negative width is refused.
pub proof fn negative_strokes_are_refused(
    stroke: PathStroke,
    values: Seq<Value>,
    at: int,
    node: Seq<char>,
    x: Scalar,
)
    ensures
        stroke_bound(None, values, at, node) == Ok::<Option<Stroked>, LayoutFault>(None),
        gives_number(stroke.width, values, x) && x.lt_spec(num(0)) ==> stroke_bound(
            Some(stroke),
            values,
            at,
            node,
        ) is Err,
{
}

/// A mask samples the paint, the image or the subtree that it names.
pub proof fn masks_sample_what_they_name(
    source: MaskValue,
    values: Seq<Value>,
    at: int,
    node: Seq<char>,
    m: MaskFrom,
)
    requires
        mask_bound(source, values, at, node) == Ok::<MaskFrom, LayoutFault>(m),
    ensures
        match source {
            MaskValue::Paint { paint } => m is Paint && paint_bound(paint, values, at, node) == Ok::<
                Painted,
                LayoutFault,
            >(m->Paint_0),
            MaskValue::Image { source } => m == MaskFrom::Image(source@),
            MaskValue::Subtree { source } => m == MaskFrom::Subtree(source@),
        },
{
}

/// A node shows what its kind has: a shader its uniforms, a batch its progress, a video its start and its
/// speed, a clip its path and rule, a mask its source, mode and rectangle.
pub proof fn nodes_show_what_their_kind_has<
    C: Fn(&Calc) -> Scalar,
    P: Fn(&SegmentGeometry, Scalar) -> Point,
    T: Fn(&SegmentGeometry, Scalar) -> Point,
    S: Fn(&SegmentGeometry, Scalar, Scalar) -> SegmentGeometry,
>(
    cut: MeasureTools<C, P, T, S>,
    node: SceneNode,
    values: Seq<Value>,
    at: int,
    s: Shown,
)
    requires
        content_given(cut, node, values, at, Ok(s)),
    ensures
        match node.kind {
            NodeKind::ShaderLayer { uniforms } => s is Shader && uniforms_bound(
                uniforms@,
                values,
                at,
                uniforms@.len(),
            ) == Ok::<Seq<(Seq<char>, UniformValue)>, LayoutFault>(s->Shader_0),
            NodeKind::GeometryBatch { batch } => s is Batch && batch_bound(batch, values, at) == Ok::<
                BatchProgress,
                LayoutFault,
            >(s->Batch_0),
            NodeKind::Video { source_start, speed, .. } => match s {
                Shown::Video(a, b) => gives_number(source_start, values, a) && gives_number(
                    speed,
                    values,
                    b,
                ),
                _ => false,
            },
            NodeKind::Clip { path, fill_rule } => match s {
                Shown::Clip(p, rule) => path_bound(path, values, at) == Ok::<Path, LayoutFault>(p)
                    && rule == fill_rule,
                _ => false,
            },
            NodeKind::Mask { source, mode, rect } => match s {
                Shown::Mask(from, m, r) => mask_bound(source, values, at, node.key@) == Ok::<
                    MaskFrom,
                    LayoutFault,
                >(from) && m == mode && rect_bound(rect, values, at, node.key@) == Ok::<
                    Rect,
                    LayoutFault,
                >(r),
                _ => false,
            },
            NodeKind::Path { fill, stroke, .. } => match s {
                Shown::Path(_, f, k) => {
                    &&& f is Some <==> fill is Some
                    &&& f is Some ==> paint_bound(fill->0, values, at, node.key@) == Ok::<
                        Painted,
                        LayoutFault,
                    >(f->0)
                    &&& stroke_bound(stroke, values, at, node.key@) == Ok::<
                        Option<Stroked>,
                        LayoutFault,
                    >(k)
                },
                _ => false,
            },
            _ => s is Plain,
        },
{
}

/// A path is trimmed from its start to its end, as its bindings give them.
pub proof fn paths_are_trimmed<
    C: Fn(&Calc) -> Scalar,
    P: Fn(&SegmentGeometry, Scalar) -> Point,
    T: Fn(&SegmentGeometry, Scalar) -> Point,
    S: Fn(&SegmentGeometry, Scalar, Scalar) -> SegmentGeometry,
>(
    cut: MeasureTools<C, P, T, S>,
    node: SceneNode,
    values: Seq<Value>,
    at: int,
    s: Shown,
    start: Scalar,
    end: Scalar,
    whole: Path,
)
    requires
        content_given(cut, node, values, at, Ok(s)),
        node.kind is Path,
        path_bound(node.kind->d, values, at) == Ok::<Path, LayoutFault>(whole),
        gives_number(node.kind->trim_start, values, start),
        gives_number(node.kind->trim_end, values, end),
    ensures
        match s {
            Shown::Path(p, _, _) => trim_given(cut, whole, start, end, Ok(p)),
            _ => false,
        },
{
}

/// Only text that follows a path has one: the path that its binding gives.
pub proof fn text_follows_its_path(node: SceneNode, values: Seq<Value>, at: int)
    ensures
        match node.kind {
            NodeKind::Text { path, .. } => if path is Some {
                match path_bound(path->0, values, at) {
                    Ok(p) => text_path_bound(node, values, at) == Ok::<Option<Path>, LayoutFault>(
                        Some(p),
                    ),
                    Err(f) => text_path_bound(node, values, at) is Err,
                }
            } else {
                text_path_bound(node, values, at) == Ok::<Option<Path>, LayoutFault>(None)
            },
            _ => text_path_bound(node, values, at) == Ok::<Option<Path>, LayoutFault>(None),
        },
{
}

/// The style of a formula begins as it is given; a font size sets its size, a fixed color its color, and
/// the last of each counts.
pub proof fn formulas_take_size_and_color(
    start: FormulaStyle,
    styles: Seq<StyleBinding>,
    values: Seq<Value>,
    at: int,
    n: nat,
    before: FormulaStyle,
    v: Value,
)
    requires
        n < styles.len(),
        formula_styled(start, styles, values, at, n) == Ok::<FormulaStyle, LayoutFault>(before),
        style_valued(styles[n as int].value, values, at) == Ok::<Value, LayoutFault>(v),
    ensures
        formula_styled(start, styles, values, at, 0) == Ok::<FormulaStyle, LayoutFault>(start),
        ({
            let p = styles[n as int].property@;
            let sized = (p == "fontSize"@ || p == "font-size"@) && v is Number;
            let colored = p == "color"@ && v is Color && styles[n as int].value is Static;
            let after = formula_styled(start, styles, values, at, n + 1);
            &&& after is Ok
            &&& after->Ok_0.font_size == if sized { v->Number_0 } else { before.font_size }
            &&& after->Ok_0.color == if colored { v->Color_0 } else { before.color }
        }),
{
    style_names();
}

/// A glyph reaches from its own place to that of the next one, or to the end of its run.
pub proof fn glyphs_reach_to_the_next(glyphs: Seq<Point>, end: Scalar, i: int)
    requires
        0 <= i < glyphs.len(),
    ensures
        line_glyph(glyphs, end, i).at == glyphs[i],
        i + 1 < glyphs.len() ==> line_glyph(glyphs, end, i).next == glyphs[i + 1].x,
        i + 1 == glyphs.len() ==> line_glyph(glyphs, end, i).next == end,
{
}

/// A glyph stands on the path at its fraction of it, and nowhere beyond the ends.
pub proof fn glyphs_stand_on_their_path<
    C: Fn(&Calc) -> Scalar,
    P: Fn(&SegmentGeometry, Scalar) -> Point,
    T: Fn(&SegmentGeometry, Scalar) -> Point,
    S: Fn(&SegmentGeometry, Scalar, Scalar) -> SegmentGeometry,
    G: Fn(&GlyphPlace) -> Affine,
>(
    h: MeasureTools<C, P, T, S>,
    place: G,
    path: Path,
    glyph: LineGlyph,
    progress: Scalar,
    r: Option<Affine>,
)
    requires
        placed_at(h, place, path, glyph, progress, r),
        !progress.is_nan_spec(),
    ensures
        r is Some <==> 0 <= progress.order() <= 0x3ff0_0000_0000_0000,
        r is Some ==> exists|sample: PathSample| #[trigger]
            path_sampled(h, path, progress, Ok(sample)) && call_ensures(
                place,
                (&GlyphPlace { glyph, sample },),
                r->0,
            ),
{
}

/// A node is scaled where it says so, or inherits from one that is; an important word goes first.
pub proof fn scales_are_inherited(nodes: Seq<ScaleNode>, at: int, word: Seq<char>)
    requires
        0 <= at < nodes.len(),
        nodes[at].parent is Some ==> nodes[at].parent->0 < at,
        match nodes[at].important {
            Some(s) => s@ == word,
            None => match nodes[at].ordinary {
                Some(s) => s@ == word,
                None => false,
            },
        },
    ensures
        word == "present"@ ==> scaled(nodes, at),
        word == "inherit"@ ==> scaled(nodes, at) == (nodes[at].parent is Some && scaled(
            nodes,
            nodes[at].parent->0 as int,
        )),
        word != "present"@ && word != "inherit"@ ==> !scaled(nodes, at),
        preserved(nodes, at) == (scaled(nodes, at) && !nodes[at].contains_fixed),
{
    scale_names();
}

/// A node that says nothing of its scale has none.
pub proof fn silent_nodes_are_not_scaled(nodes: Seq<ScaleNode>, at: int)
    requires
        0 <= at < nodes.len(),
        nodes[at].important is None,
        nodes[at].ordinary is None,
    ensures
        !scaled(nodes, at),
        !preserved(nodes, at),
{
}

/// Whether a property may not be used.
pub open spec fn is_barred(p: Seq<char>) -> bool {
    ||| p == "transform"@
    ||| p == "skew"@
    ||| p == "border-image"@
    ||| p == "offset"@
    ||| p == "offset-path"@
    ||| p == "clip-path"@
    ||| p == "mask"@
    ||| p == "mask-image"@
}

/// Whether a class may not be used.
pub open spec fn is_barred_class(name: Seq<char>) -> bool {
    ||| holds(name, "transform"@)
    ||| holds(name, "translate-"@)
    ||| holds(name, "rotate-"@)
    ||| holds(name, "scale-"@)
    ||| holds(name, "skew-"@)
    ||| holds(name, "blur"@)
    ||| holds(name, "backdrop-"@)
    ||| holds(name, "filter"@)
    ||| holds(name, "clip-"@)
    ||| holds(name, "mask-"@)
}

proof fn admitted_styles(node: SceneNode, variants: Seq<Variants>, from: int, i: int)
    requires
        0 <= from <= i < node.styles@.len(),
        refused_style(node, variants, from) is None,
    ensures
        !is_barred(node.styles@[i].property@),
    decreases i - from,
{
    if from < i {
        admitted_styles(node, variants, from + 1, i);
    }
}

proof fn admitted_classes(node: SceneNode, from: int, i: int)
    requires
        0 <= from <= i < node.class_names@.len(),
        refused_class(node, from) is None,
    ensures
        !is_barred_class(node.class_names@[i]@),
    decreases i - from,
{
    if from < i {
        admitted_classes(node, from + 1, i);
    }
}

/// An admitted node uses no barred property and no barred class.
pub proof fn admitted_nodes_use_nothing_barred(node: SceneNode, variants: Seq<Variants>, i: int)
    requires
        refused(node, variants) is None,
    ensures
        0 <= i < node.styles@.len() ==> !is_barred(node.styles@[i].property@),
        0 <= i < node.class_names@.len() ==> !is_barred_class(node.class_names@[i]@),
{
    if 0 <= i < node.styles@.len() {
        admitted_styles(node, variants, 0, i);
    }
    if 0 <= i < node.class_names@.len() {
        admitted_classes(node, 0, i);
    }
}

/// A node is refused for its first barred style, then for its first barred class, by name.
pub proof fn barred_uses_are_named(node: SceneNode, variants: Seq<Variants>, k: int)
    requires
        0 <= k < node.class_names@.len(),
        refused_style(node, variants, 0) is None,
        is_barred_class(node.class_names@[k]@),
        forall|j: int| 0 <= j < k ==> !is_barred_class((#[trigger] node.class_names@[j])@),
    ensures
        refused(node, variants) == Some("className:"@ + node.class_names@[k]@),
{
    first_barred_class(node, k, 0);
}

proof fn first_barred_class(node: SceneNode, k: int, i: int)
    requires
        0 <= i <= k < node.class_names@.len(),
        is_barred_class(node.class_names@[k]@),
        forall|j: int| i <= j < k ==> !is_barred_class((#[trigger] node.class_names@[j])@),
    ensures
        refused_class(node, i) == Some("className:"@ + node.class_names@[k]@),
    decreases k - i,
{
    if i < k {
        assert(!is_barred_class(node.class_names@[i]@));
        first_barred_class(node, k, i + 1);
    }
}

/// A barred style is refused under its name, where nothing before it is refused.
pub proof fn barred_styles_are_refused(node: SceneNode, variants: Seq<Variants>, k: int)
    requires
        0 <= k < node.styles@.len(),
        is_barred(node.styles@[k].property@),
        forall|j: int|
            0 <= j < k ==> !crate::surface::style_refused(#[trigger] node.styles@[j], variants[j]),
    ensures
        refused(node, variants) == Some(node.styles@[k].property@),
{
    first_barred_style(node, variants, k, 0);
}

proof fn first_barred_style(node: SceneNode, variants: Seq<Variants>, k: int, i: int)
    requires
        0 <= i <= k < node.styles@.len(),
        is_barred(node.styles@[k].property@),
        forall|j: int|
            i <= j < k ==> !crate::surface::style_refused(#[trigger] node.styles@[j], variants[j]),
    ensures
        refused_style(node, variants, i) == Some(node.styles@[k].property@),
    decreases k - i,
{
    if i < k {
        assert(!crate::surface::style_refused(node.styles@[i], variants[i]));
        first_barred_style(node, variants, k, i + 1);
    }
}

/// Nodes are admitted one after the other, and the first refusal decides.
pub proof fn scenes_are_admitted_node_by_node(
    nodes: Seq<SceneNode>,
    variants: Seq<Vec<Variants>>,
    i: int,
)
    requires
        0 <= i < nodes.len(),
    ensures
        admission_from(nodes, variants, nodes.len() as int) is Ok,
        match refused(nodes[i], variants[i]@) {
            Some(what) => admission_from(nodes, variants, i) == Err::<(), LayoutFault>(
                LayoutFault::NondeterministicSurface(nodes[i].key@, what),
            ),
            None => admission_from(nodes, variants, i) == admission_from(nodes, variants, i + 1),
        },
{
}

/// A byte is two hexadecimal digits, the higher one first.
pub proof fn bytes_are_two_digits(bytes: Seq<u8>, n: nat)
    requires
        n < bytes.len(),
    ensures
        hex(bytes, 0).len() == 0,
        ({
            let digits = seq![
                '0',
                '1',
                '2',
                '3',
                '4',
                '5',
                '6',
                '7',
                '8',
                '9',
                'a',
                'b',
                'c',
                'd',
                'e',
                'f',
            ];
            hex(bytes, n + 1) == hex(bytes, n) + seq![
                digits[bytes[n as int] as int / 16],
                digits[bytes[n as int] as int % 16],
            ]
        }),
{
    let digits = seq![
        '0',
        '1',
        '2',
        '3',
        '4',
        '5',
        '6',
        '7',
        '8',
        '9',
        'a',
        'b',
        'c',
        'd',
        'e',
        'f',
    ];
    let b = bytes[n as int] as int;
    assert(0 <= b / 16 < 16 && 0 <= b % 16 < 16);
    assert(crate::digest::hex_digit(b / 16) == digits[b / 16]);
    assert(crate::digest::hex_digit(b % 16) == digits[b % 16]);
    assert(hex(bytes, n + 1) =~= hex(bytes, n) + seq![digits[b / 16], digits[b % 16]]);
}

/// A face is named by the digest of its content and its index.
pub proof fn faces_are_named_by_their_content(digest: Seq<u8>, index: u32)
    ensures
        named_family(digest, index) == "valle-face-"@ + hex(digest, 32) + "-"@ + numeral(index as nat),
{
}

/// The children of a node are the stretch of the child table that it names, where that lies inside it.
pub proof fn children_are_a_stretch(a: SceneArtifact, at: int, k: int)
    requires
        0 <= at < a.nodes@.len(),
    ensures
        ({
            let r = a.nodes@[at].children;
            match a.children_of(at) {
                Some(ids) => {
                    &&& r.start <= r.end <= a.node_children@.len()
                    &&& ids.len() == r.end - r.start
                    &&& 0 <= k < ids.len() ==> ids[k] == a.node_children@[r.start + k]
                },
                None => r.start > r.end || r.end > a.node_children@.len(),
            }
        }),
{
}

} // verus!
