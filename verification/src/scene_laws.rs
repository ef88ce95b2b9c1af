//! 3D scenes and glyph addresses: what a frame of a scene holds, where anchors are found, and which bytes of
//! which node a run of glyphs stands for.

use vstd::prelude::*;

use core::ops::Range;

use crate::artifact::{SceneArtifact, Scene3DFrameBinding, Scene3DMeshBinding};
use crate::binding_laws::gives_number;
use crate::clusters::{cluster_spans, projected_all, ClusterReject, Span, TextSourceSegment};
use crate::expr::Expr;
use crate::glyphs::{
    bidi_mark, inkless, items_before, run_address, settled_address, span_anchor, Address, Anchor, GlyphInk,
    InlineSpan, ShapedRun, SpanAnchor, TextContext,
};
use crate::layout_error::LayoutFault;
use crate::projection::source_projection;
use crate::recording::Point;
use crate::scalar::Scalar;
use crate::scene3d::{
    anchor_at, anchors_of, frame_bound, mesh_bound, picked, request_given, request_table, scenes_of,
    AnchorProjection, Frame3D, Frame3DState, SceneRequest,
};
use crate::value::Value;

verus! {

/// Whether the numbers of a mesh are what its bindings give: translation, rotation and scale, each in x,
/// y and z.
pub open spec fn is_mesh(m: Scene3DMeshBinding, values: Seq<Value>, v: Seq<Scalar>) -> bool {
    &&& v.len() == 9
    &&& gives_number(m.translation_x, values, v[0])
    &&& gives_number(m.translation_y, values, v[1])
    &&& gives_number(m.translation_z, values, v[2])
    &&& gives_number(m.rotation_x_degrees, values, v[3])
    &&& gives_number(m.rotation_y_degrees, values, v[4])
    &&& gives_number(m.rotation_z_degrees, values, v[5])
    &&& gives_number(m.scale_x, values, v[6])
    &&& gives_number(m.scale_y, values, v[7])
    &&& gives_number(m.scale_z, values, v[8])
}

proof fn numbers_are_given(
    list: Seq<crate::scene3d::Named>,
    values: Seq<Value>,
    at: int,
    n: nat,
    i: int,
)
    requires
        n <= list.len(),
        crate::scene3d::numbers_bound(list, values, at, n) is Ok,
    ensures
        crate::scene3d::numbers_bound(list, values, at, n)->Ok_0.len() == n,
        0 <= i < n ==> gives_number(
            list[i].binding,
            values,
            crate::scene3d::numbers_bound(list, values, at, n)->Ok_0[i],
        ),
    decreases n,
{
    if n > 0 {
        numbers_are_given(list, values, at, (n - 1) as nat, i);
    }
}

/// A mesh has its key and its nine numbers.
pub proof fn meshes_hold_their_numbers(
    m: Scene3DMeshBinding,
    values: Seq<Value>,
    at: int,
    key: Seq<char>,
    v: Seq<Scalar>,
)
    requires
        mesh_bound(m, values, at) == Ok::<(Seq<char>, Seq<Scalar>), LayoutFault>((key, v)),
    ensures
        key == m.key@,
        is_mesh(m, values, v),
{
    let list = crate::scene3d::mesh_names(m);
    numbers_are_given(list, values, at, 9, 0);
    numbers_are_given(list, values, at, 9, 1);
    numbers_are_given(list, values, at, 9, 2);
    numbers_are_given(list, values, at, 9, 3);
    numbers_are_given(list, values, at, 9, 4);
    numbers_are_given(list, values, at, 9, 5);
    numbers_are_given(list, values, at, 9, 6);
    numbers_are_given(list, values, at, 9, 7);
    numbers_are_given(list, values, at, 9, 8);
}

proof fn meshes_are_given(
    list: Seq<Scene3DMeshBinding>,
    values: Seq<Value>,
    at: int,
    n: nat,
    i: int,
)
    requires
        n <= list.len(),
        crate::scene3d::meshes_bound(list, values, at, n) is Ok,
    ensures
        crate::scene3d::meshes_bound(list, values, at, n)->Ok_0.len() == n,
        0 <= i < n ==> mesh_bound(list[i], values, at) == Ok::<(Seq<char>, Seq<Scalar>), LayoutFault>(
            crate::scene3d::meshes_bound(list, values, at, n)->Ok_0[i],
        ),
    decreases n,
{
    if n > 0 {
        meshes_are_given(list, values, at, (n - 1) as nat, i);
    }
}

/// A frame has the camera, the meshes and the lights that its bindings give, in their order.
pub proof fn frames_hold_their_scene(
    frame: Scene3DFrameBinding,
    values: Seq<Value>,
    at: int,
    r: Frame3D,
    i: int,
)
    requires
        frame_bound(frame, values, at) == Ok::<Frame3D, LayoutFault>(r),
    ensures
        gives_number(frame.camera.orbit_yaw_degrees, values, r.camera.orbit_yaw_degrees),
        gives_number(frame.camera.orbit_pitch_degrees, values, r.camera.orbit_pitch_degrees),
        gives_number(frame.camera.distance, values, r.camera.distance),
        gives_number(frame.camera.fov_y_degrees, values, r.camera.fov_y_degrees),
        r.meshes.len() == frame.meshes@.len(),
        0 <= i < r.meshes.len() ==> ({
            let (key, v) = r.meshes[i];
            key == frame.meshes@[i].key@ && is_mesh(frame.meshes@[i], values, v)
        }),
        r.light_intensities.len() == frame.light_intensities@.len(),
        0 <= i < r.light_intensities.len() ==> gives_number(
            frame.light_intensities@[i],
            values,
            r.light_intensities[i],
        ),
{
    meshes_are_given(frame.meshes@, values, at, frame.meshes@.len(), i);
    if 0 <= i < r.meshes.len() {
        let (key, v) = r.meshes[i];
        meshes_hold_their_numbers(frame.meshes@[i], values, at, key, v);
    }
    numbers_are_given(
        crate::scene3d::light_names(frame.light_intensities@),
        values,
        at,
        frame.light_intensities@.len(),
        i,
    );
}

/// Every 3D scene asks for its frame under its key, and no other node asks for anything.
pub proof fn scenes_ask_for_their_frame<C: Fn(usize, &Frame3DState) -> Option<String>>(
    check: C,
    a: SceneArtifact,
    values: Seq<Value>,
    at: int,
    r: Option<SceneRequest>,
)
    requires
        request_given(check, a, values, at, Ok(r)),
    ensures
        r is Some <==> a.nodes@[at].kind is Scene3D,
        r is Some ==> r->0.provider_key@ == "scene3d://"@ + a.nodes@[at].key@ && frame_bound(
            a.nodes@[at].kind->Scene3D_frame,
            values,
            at,
        ) == Ok::<Frame3D, LayoutFault>(r->0.frame@) && call_ensures(
            check,
            (at as usize, &r->0.frame),
            None,
        ),
{
}

/// Requests stand under the keys of their nodes, in the order of the nodes.
pub proof fn requests_are_keyed_by_node(a: SceneArtifact, list: Seq<Option<SceneRequest>>, n: nat)
    requires
        n < list.len(),
    ensures
        request_table(a, list, 0).len() == 0,
        list[n as int] is None ==> request_table(a, list, n + 1) == request_table(a, list, n),
        list[n as int] is Some ==> request_table(a, list, n + 1) == request_table(a, list, n).push(
            (a.nodes@[n as int].key@, list[n as int]->0),
        ),
{
}

/// An anchor is where its first projection is, and that has to lie in front of the camera.
pub proof fn anchors_lie_in_front(
    list: Seq<AnchorProjection>,
    scene: Seq<char>,
    anchor: Seq<char>,
    k: int,
)
    requires
        0 <= k < list.len(),
        list[k].address@ == anchor,
        forall|j: int| 0 <= j < k ==> (#[trigger] list[j]).address@ != anchor,
    ensures
        list[k].in_front ==> anchor_at(list, scene, anchor) == Ok::<Point, LayoutFault>(list[k].point),
        !list[k].in_front ==> anchor_at(list, scene, anchor) is Err,
{
    first_projection(list, anchor, k, 0);
}

/// An anchor that was not projected is nowhere.
pub proof fn unknown_anchors_are_nowhere(
    list: Seq<AnchorProjection>,
    scene: Seq<char>,
    anchor: Seq<char>,
)
    requires
        forall|j: int| 0 <= j < list.len() ==> (#[trigger] list[j]).address@ != anchor,
    ensures
        anchor_at(list, scene, anchor) is Err,
{
    no_projection(list, anchor, 0);
}

proof fn first_projection(list: Seq<AnchorProjection>, anchor: Seq<char>, k: int, i: int)
    requires
        0 <= i <= k < list.len(),
        list[k].address@ == anchor,
        forall|j: int| i <= j < k ==> (#[trigger] list[j]).address@ != anchor,
    ensures
        crate::scene3d::anchor_from(list, anchor, i) == Some((list[k].in_front, list[k].point)),
    decreases k - i,
{
    if i < k {
        first_projection(list, anchor, k, i + 1);
    }
}

proof fn no_projection(list: Seq<AnchorProjection>, anchor: Seq<char>, i: int)
    requires
        0 <= i <= list.len(),
        forall|j: int| i <= j < list.len() ==> (#[trigger] list[j]).address@ != anchor,
    ensures
        crate::scene3d::anchor_from(list, anchor, i) is None,
    decreases list.len() - i,
{
    if i < list.len() {
        no_projection(list, anchor, i + 1);
    }
}

/// Anchors are placed in their order, each under its scene and its name.
pub proof fn anchors_are_placed_in_order(
    list: Seq<AnchorProjection>,
    scene: Seq<char>,
    anchors: Seq<Seq<char>>,
    n: nat,
    before: Seq<(Seq<char>, Seq<char>, Point)>,
    p: Point,
)
    requires
        n < anchors.len(),
        picked(list, scene, anchors, n) == Ok::<Seq<(Seq<char>, Seq<char>, Point)>, LayoutFault>(
            before,
        ),
        anchor_at(list, scene, anchors[n as int]) == Ok::<Point, LayoutFault>(p),
    ensures
        picked(list, scene, anchors, 0) == Ok::<Seq<(Seq<char>, Seq<char>, Point)>, LayoutFault>(
            seq![],
        ),
        picked(list, scene, anchors, n + 1) == Ok::<Seq<(Seq<char>, Seq<char>, Point)>, LayoutFault>(
            before.push((scene, anchors[n as int], p)),
        ),
{
}

/// The anchors of a scene are those that expressions name in it, and its scenes are those that expressions
/// name, each once.
pub proof fn projections_name_their_anchors(exprs: Seq<Expr>, scene: Seq<char>, n: nat)
    requires
        n < exprs.len(),
    ensures
        anchors_of(exprs, scene, 0).len() == 0,
        scenes_of(exprs, 0).len() == 0,
        match exprs[n as int] {
            Expr::Project3D { scene_key, anchor_key } => {
                &&& scene_key@ == scene ==> anchors_of(exprs, scene, n + 1) == anchors_of(
                    exprs,
                    scene,
                    n,
                ).push(anchor_key@)
                &&& scene_key@ != scene ==> anchors_of(exprs, scene, n + 1) == anchors_of(
                    exprs,
                    scene,
                    n,
                )
                &&& scenes_of(exprs, n).contains(scene_key@) ==> scenes_of(exprs, n + 1) == scenes_of(
                    exprs,
                    n,
                )
                &&& !scenes_of(exprs, n).contains(scene_key@) ==> scenes_of(exprs, n + 1)
                    == scenes_of(exprs, n).push(scene_key@)
            },
            _ => anchors_of(exprs, scene, n + 1) == anchors_of(exprs, scene, n) && scenes_of(
                exprs,
                n + 1,
            ) == scenes_of(exprs, n),
        },
{
}

/// Whether a glyph is known to have no ink: neither an outline nor color, image or drawing.
pub proof fn inkless_glyphs_show_nothing(ink: GlyphInk)
    ensures
        inkless(ink) <==> ink.color == Some(false) && ink.outline == Some(false) && ink.raster == Some(
            false,
        ) && ink.svg == Some(false),
{
}

/// The marks of direction, and no letters, digits, blanks or other writing.
pub proof fn direction_marks_are_no_writing(c: char)
    ensures
        bidi_mark('\u{200e}') && bidi_mark('\u{200f}') && bidi_mark('\u{61c}'),
        bidi_mark('\u{202a}') && bidi_mark('\u{202b}') && bidi_mark('\u{202c}') && bidi_mark('\u{202d}')
            && bidi_mark('\u{202e}'),
        bidi_mark('\u{2066}') && bidi_mark('\u{2067}') && bidi_mark('\u{2068}') && bidi_mark('\u{2069}'),
        c < '\u{61c}' ==> !bidi_mark(c),
        '\u{61c}' < c < '\u{200e}' ==> !bidi_mark(c),
        '\u{200f}' < c < '\u{202a}' ==> !bidi_mark(c),
        '\u{202e}' < c < '\u{2066}' ==> !bidi_mark(c),
        '\u{2069}' < c ==> !bidi_mark(c),
{
}

/// Marks of direction belong to no authored item; every other span takes the next one.
pub proof fn spans_take_their_items_in_order(spans: Seq<InlineSpan>, n: nat)
    requires
        n < spans.len(),
    ensures
        items_before(spans, 0) == 0,
        items_before(spans, n + 1) == items_before(spans, n) + if spans[n as int] is DirectionMark {
            0int
        } else {
            1
        },
{
}

/// A text span stands for the text of its item: under the key of its node, over its own bytes, and by the
/// projection of its text.
pub proof fn text_spans_stand_for_their_item(
    spans: Seq<InlineSpan>,
    contexts: Seq<Option<TextContext>>,
    at: int,
    a: Anchor,
)
    requires
        0 <= at < spans.len(),
        span_anchor(spans, contexts, at) == Ok::<Anchor, ClusterReject>(a),
    ensures
        spans[at] is Text,
        items_before(spans, at as nat) < contexts.len(),
        ({
            let context = contexts[items_before(spans, at as nat) as int];
            &&& context is Some
            &&& context->0.key is Some && context->0.source is Some
            &&& a.key == context->0.key->0@
            &&& a.range == spans[at]->Text_range
            &&& source_projection(
                context->0.source->0@,
                spans[at]->text@,
                context->0.collapse,
                context->0.transform,
                context->0.tab_spaces as nat,
            ) == Ok::<Option<Seq<TextSourceSegment>>, ClusterReject>(a.projection)
        }),
{
}

/// A run stands for the clusters of its glyphs in its span, projected where its text was processed.
pub proof fn runs_stand_for_their_clusters(run: ShapedRun, a: Anchor, spans: Seq<Span>)
    requires
        cluster_spans(
            run.cluster_ranges@,
            run.glyph_ids@.len() as usize,
            run.text_range,
            a.range,
        ) == Ok::<Seq<Span>, ClusterReject>(spans),
    ensures
        a.projection is None ==> run_address(run, Ok(a)) == Ok::<(Seq<char>, Seq<Span>), ClusterReject>(
            (a.key, spans),
        ),
        a.projection is Some ==> match projected_all(spans, a.projection->0, spans.len()) {
            Ok(moved) => run_address(run, Ok(a)) == Ok::<(Seq<char>, Seq<Span>), ClusterReject>(
                (a.key, moved),
            ),
            Err(e) => run_address(run, Ok(a)) == Err::<(Seq<char>, Seq<Span>), ClusterReject>(e),
        },
{
}

/// A run without glyphs or without a span has nothing to address; any other is addressed by the anchor of
/// its span, and a failure is reported.
pub proof fn runs_are_addressed_by_their_span(
    run: ShapedRun,
    anchors: Seq<Result<SpanAnchor, ClusterReject>>,
    inline: Seq<char>,
    inks: Seq<GlyphInk>,
)
    ensures
        run.glyph_ids@.len() == 0 || run.source_span is None ==> settled_address(
            run,
            anchors,
            inline,
            inks,
        ) == Address::Silent,
        run.glyph_ids@.len() > 0 && run.source_span is Some && run.source_span->0 < anchors.len() ==> ({
            let anchor = anchors[run.source_span->0 as int];
            let r = settled_address(run, anchors, inline, inks);
            match anchor {
                Err(e) => e != ClusterReject::OutOfRun ==> r == Address::Rejected(e),
                Ok(a) => match run_address(run, Ok(a@)) {
                    Ok((key, spans)) => r == Address::Addressed(key, spans),
                    Err(e) => e != ClusterReject::OutOfRun ==> r == Address::Rejected(e),
                },
            }
        }),
        run.glyph_ids@.len() > 0 && run.source_span is Some && run.source_span->0 >= anchors.len()
            ==> settled_address(run, anchors, inline, inks) == Address::Rejected(
            ClusterReject::Unattributed,
        ),
{
}

} // verus!
