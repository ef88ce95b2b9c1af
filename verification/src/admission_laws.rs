//! Backgrounds that may be painted, identifiers of glass, layouts that serve again, and what a raster of a 3D
//! scene is asked for with.

use vstd::prelude::*;

use crate::backgrounds::{
    background_admitted, css_pieces, fixes_interpolation, image_layers, is_gradient, is_legacy,
    is_modern, layers_admitted, legacy_defaults, same_word, shorthand_layer, small, Layer,
    Piece,
};
use crate::digest::{hex, ContentDigest};
use crate::glass::{id_fault, GlassIdError};
use crate::layout_cache::Geometry;
use crate::scene_frames::{answered, controls_of, frame_uri, raster_at, MeshControls, SceneContent};
use crate::text::byte_len;

verus! {

/// Capitals of ASCII read as their small letters; nothing else changes.
pub proof fn capitals_read_as_small_letters(c: char)
    ensures
        small('A') == 'a' && small('M') == 'm' && small('Z') == 'z',
        !('A' <= c <= 'Z') ==> small(c) == c,
        'A' <= c <= 'Z' ==> small(c) as u32 == c as u32 + 32,
        small(small(c)) == small(c),
{
}

/// Words are the same where they read alike, which goes both ways and from one to the next.
pub proof fn words_read_alike(a: Seq<char>, b: Seq<char>, c: Seq<char>)
    ensures
        same_word(a, a),
        same_word(a, b) ==> same_word(b, a),
        same_word(a, b) && same_word(b, c) ==> same_word(a, c),
        same_word(a, b) ==> a.len() == b.len(),
{
    if same_word(a, b) {
        assert forall|i: int| 0 <= i < b.len() implies #[trigger] small(b[i]) == small(a[i]) by {
            assert(small(a[i]) == small(b[i]));
        }
        if same_word(b, c) {
            assert forall|i: int| 0 <= i < a.len() implies #[trigger] small(a[i]) == small(c[i]) by {
                assert(small(a[i]) == small(b[i]));
                assert(small(b[i]) == small(c[i]));
            }
        }
    }
}

/// There are six gradients, and six color functions that do not blend in sRGB, in any case of letters.
pub proof fn gradients_and_colors_go_by_name(name: Seq<char>)
    ensures
        is_gradient(name) <==> {
            ||| same_word(name, "linear-gradient"@)
            ||| same_word(name, "radial-gradient"@)
            ||| same_word(name, "conic-gradient"@)
            ||| same_word(name, "repeating-linear-gradient"@)
            ||| same_word(name, "repeating-radial-gradient"@)
            ||| same_word(name, "repeating-conic-gradient"@)
        },
        is_modern(name) <==> {
            ||| same_word(name, "lab"@)
            ||| same_word(name, "lch"@)
            ||| same_word(name, "oklab"@)
            ||| same_word(name, "oklch"@)
            ||| same_word(name, "color"@)
            ||| same_word(name, "color-mix"@)
        },
{
}

/// Whether a token says in what a gradient blends: the word `in`, a modern color, or one that starts from
/// another.
pub open spec fn says_how(p: Piece) -> bool {
    match p {
        Piece::Ident(word) => same_word(word, "in"@),
        Piece::Function(name, body) => is_modern(name) || (css_pieces(body).len() > 0 && css_pieces(
            body,
        )[0] is Ident && same_word(css_pieces(body)[0]->Ident_0, "from"@)),
        Piece::Other => false,
    }
}

/// A gradient blends by default where none of its tokens says how.
pub proof fn silent_gradients_blend_by_default(body: Seq<char>)
    ensures
        is_legacy(body) <==> forall|i: int|
            0 <= i < css_pieces(body).len() ==> !says_how(#[trigger] css_pieces(body)[i]),
{
    if is_legacy(body) {
        assert forall|i: int| 0 <= i < css_pieces(body).len() implies !says_how(
            #[trigger] css_pieces(body)[i],
        ) by {
            assert(!fixes_interpolation(css_pieces(body)[i]));
        }
    }
    if forall|i: int| 0 <= i < css_pieces(body).len() ==> !says_how(#[trigger] css_pieces(body)[i]) {
        assert forall|i: int| 0 <= i < css_pieces(body).len() implies !fixes_interpolation(
            #[trigger] css_pieces(body)[i],
        ) by {
            assert(!says_how(css_pieces(body)[i]));
        }
    }
}

/// Every gradient of a value is asked whether it blends by default, in order, and nothing else is.
pub proof fn gradients_are_asked_in_order(pieces: Seq<Piece>, n: nat)
    requires
        n < pieces.len(),
    ensures
        legacy_defaults(pieces, 0).len() == 0,
        match pieces[n as int] {
            Piece::Function(name, body) => if is_gradient(name) {
                legacy_defaults(pieces, n + 1) == legacy_defaults(pieces, n).push(is_legacy(body))
            } else {
                legacy_defaults(pieces, n + 1) == legacy_defaults(pieces, n)
            },
            _ => legacy_defaults(pieces, n + 1) == legacy_defaults(pieces, n),
        },
{
}

/// A gradient may be painted where it blends in sRGB: where it says so, or says nothing and blends by
/// default. An image that is fetched may not, and nothing to paint always may.
pub proof fn layers_are_admitted_one_by_one(layers: Seq<Layer>, defaults: Seq<bool>, i: int, d: int)
    requires
        0 <= i < layers.len(),
        0 <= d,
    ensures
        layers_admitted(layers, defaults, layers.len() as int, d),
        match layers[i] {
            Layer::Blank => layers_admitted(layers, defaults, i, d) == layers_admitted(
                layers,
                defaults,
                i + 1,
                d,
            ),
            Layer::Url => !layers_admitted(layers, defaults, i, d),
            Layer::Gradient(method) => layers_admitted(layers, defaults, i, d) <==> (method
                == "in srgb"@ || (method.len() == 0 && d < defaults.len() && defaults[d]))
                && layers_admitted(layers, defaults, i + 1, d + 1),
        },
{
}

/// A background is admitted where it can be read and all its layers are; no other property is.
pub proof fn backgrounds_are_admitted_with_their_layers(property: Seq<char>, source: Seq<char>)
    ensures
        ({
            let pieces = css_pieces(source);
            let defaults = legacy_defaults(pieces, pieces.len());
            &&& property != "background"@ && property != "background-image"@ ==> !background_admitted(
                property,
                source,
            )
            &&& background_admitted("background-image"@, source) <==> image_layers(source) is Some
                && image_layers(source)->0.len() > 0 && layers_admitted(
                image_layers(source)->0,
                defaults,
                0,
                0,
            )
            &&& background_admitted("background"@, source) <==> shorthand_layer(source) is Some
                && layers_admitted(seq![shorthand_layer(source)->0], defaults, 0, 0)
        }),
{
    reveal_strlit("background");
    reveal_strlit("background-image");
    assert("background"@.len() == 10 && "background-image"@.len() == 16);
    assert("background"@ != "background-image"@);
}

/// An identifier has 1 to 128 bytes.
pub proof fn identifiers_are_short(id: Seq<char>)
    ensures
        id_fault(id) is None <==> 1 <= byte_len(id) <= 128,
        byte_len(id) == 0 ==> id_fault(id) == Some(GlassIdError::Empty),
        byte_len(id) > 128 ==> id_fault(id) == Some(GlassIdError::TooLong),
{
}

/// A layout serves another frame of the same viewport, rate and duration whose props are equal, name by
/// name; the frames serve each other.
pub proof fn layouts_serve_equal_frames(a: Geometry, b: Geometry, i: int)
    ensures
        a.same(b) ==> a.viewport == b.viewport && a.fps_denominator == b.fps_denominator && a.duration
            == b.duration && a.fps_numerator.order() == b.fps_numerator.order(),
        a.same(b) ==> a.props.len() == b.props.len(),
        a.same(b) && 0 <= i < a.props.len() ==> ({
            let (m, x) = a.props[i];
            let (n, y) = b.props[i];
            m == n && x.same(y)
        }),
        a.viewport != b.viewport || a.fps_denominator != b.fps_denominator || a.duration != b.duration
            || a.props.len() != b.props.len() ==> !a.same(b),
{
    if a.same(b) && 0 <= i < a.props.len() {
        assert(a.props[i].0 == b.props[i].0);
    }
}

/// A mesh reads its model, then its texture where it has one, and meshes read in their order.
pub proof fn meshes_read_model_and_texture(meshes: Seq<MeshControls>, n: nat)
    requires
        n < meshes.len(),
    ensures
        controls_of(meshes, 0).len() == 0,
        match meshes[n as int].texture {
            None => controls_of(meshes, n + 1) == controls_of(meshes, n) + seq![meshes[n as int].model@],
            Some(t) => controls_of(meshes, n + 1) == controls_of(meshes, n) + seq![
                meshes[n as int].model@,
                t@,
            ],
        },
{
    match meshes[n as int].texture {
        None => {
            assert(controls_of(meshes, n + 1) =~= controls_of(meshes, n) + seq![
                meshes[n as int].model@,
            ]);
        },
        Some(t) => {
            assert(controls_of(meshes, n + 1) =~= controls_of(meshes, n) + seq![
                meshes[n as int].model@,
                t@,
            ]);
        },
    }
}

/// A control that was answered is bound to its last answer, and the others stay as they were.
pub proof fn answers_are_bound_to_their_control(
    controls: Seq<String>,
    answers: Seq<Option<[u8; 32]>>,
    n: nat,
)
    requires
        n < answers.len(),
    ensures
        answered(controls, answers, 0) == Map::<Seq<char>, ContentDigest>::empty(),
        answers[n as int] is None ==> answered(controls, answers, n + 1) == answered(
            controls,
            answers,
            n,
        ),
        answers[n as int] is Some ==> answered(controls, answers, n + 1) == answered(
            controls,
            answers,
            n,
        ).insert(controls[n as int]@, ContentDigest { bytes: answers[n as int]->0 }),
{
}

/// A raster is asked for with the key, the scene and the frame of its request, the controls of its meshes,
/// and its own size.
pub proof fn rasters_hold_their_request(c: SceneContent, width: u32, height: u32)
    ensures
        raster_at(c, width, height).provider_key == c.request.provider_key@,
        raster_at(c, width, height).scene == c.request.scene@,
        raster_at(c, width, height).frame == c.request.frame@,
        raster_at(c, width, height).controls == controls_of(c.meshes@, c.meshes@.len()),
        raster_at(c, width, height).width == width,
        raster_at(c, width, height).height == height,
{
}

/// A raster goes by the digest of its content.
pub proof fn rasters_go_by_their_digest(digest: Seq<u8>)
    ensures
        frame_uri(digest) == "scene3d-frame://"@ + hex(digest, 32),
{
}

} // verus!
