//! Which backgrounds may be painted: gradients that interpolate in sRGB.

use vstd::prelude::*;

use crate::text::characters;

verus! {

/// A token at one nesting level of a style value; a function comes with the text of its arguments.
#[derive(Debug)]
pub enum CssPiece {
    Ident(String),
    Function(String, String),
    Other,
}

/// A token by its contents.
pub enum Piece {
    Ident(Seq<char>),
    Function(Seq<char>, Seq<char>),
    Other,
}

impl View for CssPiece {
    type V = Piece;

    open spec fn view(&self) -> Piece {
        match *self {
            CssPiece::Ident(s) => Piece::Ident(s@),
            CssPiece::Function(name, body) => Piece::Function(name@, body@),
            CssPiece::Other => Piece::Other,
        }
    }
}

pub open spec fn pieces_seen(v: Seq<CssPiece>) -> Seq<Piece> {
    v.map_values(|p: CssPiece| p@)
}

/// The tokens of a style value, without white space and comments.
pub uninterp spec fn css_pieces(source: Seq<char>) -> Seq<Piece>;

/// Splits a style value with `Parser::next` of cssparser, and takes the text inside a function with
/// `Parser::parse_nested_block` and `slice_from`. Claims that the tokens are a function of the text
/// alone; how CSS tokenizes a text is not stated.
#[verifier::external_body]
fn split_css(source: &str) -> (r: Vec<CssPiece>)
    ensures
        pieces_seen(r@) == css_pieces(source@),
{
    let mut input = cssparser::ParserInput::new(source);
    let mut parser = cssparser::Parser::new(&mut input);
    let mut out = Vec::new();
    while let Ok(token) = parser.next().cloned() {
        out.push(match token {
            cssparser::Token::Ident(name) => CssPiece::Ident(name.to_string()),
            cssparser::Token::Function(name) => CssPiece::Function(name.to_string(), parser.parse_nested_block(|body| {
                let start = body.position();
                while body.next().is_ok() {}
                Ok::<String, cssparser::ParseError<'_, ()>>(body.slice_from(start).to_owned())
            }).unwrap_or_default()),
            _ => CssPiece::Other,
        });
    }
    out
}

/// A layer of a background; a gradient has the text of its interpolation method.
#[derive(Debug)]
pub enum BackgroundLayer {
    Blank,
    Gradient(String),
    Url,
}

/// A layer by its contents.
pub enum Layer {
    Blank,
    Gradient(Seq<char>),
    Url,
}

impl View for BackgroundLayer {
    type V = Layer;

    open spec fn view(&self) -> Layer {
        match *self {
            BackgroundLayer::Blank => Layer::Blank,
            BackgroundLayer::Gradient(method) => Layer::Gradient(method@),
            BackgroundLayer::Url => Layer::Url,
        }
    }
}

pub open spec fn layers_seen(v: Seq<BackgroundLayer>) -> Seq<Layer> {
    v.map_values(|l: BackgroundLayer| l@)
}

/// The layers of a `background-image` value; nothing where the value is no valid CSS.
pub uninterp spec fn image_layers(source: Seq<char>) -> Option<Seq<Layer>>;

/// The image of a `background` value; nothing where the value is no valid CSS.
pub uninterp spec fn shorthand_layer(source: Seq<char>) -> Option<Layer>;

/// Parses a list of images with `BackgroundImages::from_css_str` of takumi-core, and writes the
/// interpolation method of each gradient with `to_css_string`. Claims that the outcome is a function
/// of the text alone. The default method is written as the empty text.
#[verifier::external_body]
fn read_images(source: &str) -> (r: Option<Vec<BackgroundLayer>>)
    ensures
        match r {
            Some(v) => image_layers(source@) == Some(layers_seen(v@)),
            None => image_layers(source@) is None,
        },
{
    let images = <takumi_core::style::BackgroundImages as takumi_core::style::FromCssStr>::from_css_str(source).ok()?;
    let layer = |m: takumi_core::style::ColorInterpolationMethod| BackgroundLayer::Gradient(takumi_core::style::ToCss::to_css_string(&m));
    Some(images.iter().map(|image| match image {
        takumi_core::style::BackgroundImage::None => BackgroundLayer::Blank,
        takumi_core::style::BackgroundImage::Linear(gradient) => layer(gradient.interpolation),
        takumi_core::style::BackgroundImage::Radial(gradient) => layer(gradient.interpolation),
        takumi_core::style::BackgroundImage::Conic(gradient) => layer(gradient.interpolation),
        takumi_core::style::BackgroundImage::Url(_) => BackgroundLayer::Url,
    }).collect())
}

/// Parses the shorthand with `Background::from_css_str` of takumi-core, and writes the interpolation
/// method of its gradient with `to_css_string`. Claims that the outcome is a function of the text
/// alone. The default method is written as the empty text.
#[verifier::external_body]
fn read_shorthand(source: &str) -> (r: Option<BackgroundLayer>)
    ensures
        match r {
            Some(l) => shorthand_layer(source@) == Some(l@),
            None => shorthand_layer(source@) is None,
        },
{
    let background = <takumi_core::style::Background as takumi_core::style::FromCssStr>::from_css_str(source).ok()?;
    let layer = |m: takumi_core::style::ColorInterpolationMethod| BackgroundLayer::Gradient(takumi_core::style::ToCss::to_css_string(&m));
    Some(match &background.image {
        takumi_core::style::BackgroundImage::None => BackgroundLayer::Blank,
        takumi_core::style::BackgroundImage::Linear(gradient) => layer(gradient.interpolation),
        takumi_core::style::BackgroundImage::Radial(gradient) => layer(gradient.interpolation),
        takumi_core::style::BackgroundImage::Conic(gradient) => layer(gradient.interpolation),
        takumi_core::style::BackgroundImage::Url(_) => BackgroundLayer::Url,
    })
}

/// An ASCII capital as its small letter; other characters unchanged.
pub open spec fn small(c: char) -> char {
    if 'A' <= c <= 'Z' { ((c as u32 + 32) as u32) as char } else { c }
}

/// Whether two texts are equal but for the case of ASCII letters.
pub open spec fn same_word(a: Seq<char>, b: Seq<char>) -> bool {
    a.len() == b.len() && forall|i: int| 0 <= i < a.len() ==> #[trigger] small(a[i]) == small(b[i])
}

fn small_letter(c: char) -> (r: char)
    ensures
        r == small(c),
{
    if 'A' <= c && c <= 'Z' {
        ((c as u8) + 32) as char
    } else {
        c
    }
}

fn is_word(a: &str, b: &str) -> (r: bool)
    ensures
        r == same_word(a@, b@),
{
    let x = characters(a);
    let y = characters(b);
    if x.len() != y.len() {
        return false;
    }
    let mut i: usize = 0;
    while i < x.len()
        invariant
            x@ == a@,
            y@ == b@,
            x@.len() == y@.len(),
            i <= x@.len(),
            forall|k: int| 0 <= k < i ==> #[trigger] small(a@[k]) == small(b@[k]),
        decreases x@.len() - i,
    {
        if small_letter(x[i]) != small_letter(y[i]) {
            assert(small(a@[i as int]) != small(b@[i as int]));
            return false;
        }
        i = i + 1;
    }
    true
}

/// The gradient functions.
pub open spec fn is_gradient(name: Seq<char>) -> bool {
    same_word(name, "linear-gradient"@) || same_word(name, "radial-gradient"@) || same_word(
        name,
        "conic-gradient"@,
    ) || same_word(name, "repeating-linear-gradient"@) || same_word(
        name,
        "repeating-radial-gradient"@,
    ) || same_word(name, "repeating-conic-gradient"@)
}

fn names_gradient(name: &str) -> (r: bool)
    ensures
        r == is_gradient(name@),
{
    is_word(name, "linear-gradient") || is_word(name, "radial-gradient") || is_word(
        name,
        "conic-gradient",
    ) || is_word(name, "repeating-linear-gradient") || is_word(name, "repeating-radial-gradient")
        || is_word(name, "repeating-conic-gradient")
}

/// The color functions that came after sRGB ones.
pub open spec fn is_modern(name: Seq<char>) -> bool {
    same_word(name, "lab"@) || same_word(name, "lch"@) || same_word(name, "oklab"@) || same_word(
        name,
        "oklch"@,
    ) || same_word(name, "color"@) || same_word(name, "color-mix"@)
}

fn names_modern(name: &str) -> (r: bool)
    ensures
        r == is_modern(name@),
{
    is_word(name, "lab") || is_word(name, "lch") || is_word(name, "oklab") || is_word(name, "oklch")
        || is_word(name, "color") || is_word(name, "color-mix")
}

/// Whether the arguments of a color function start from another color.
pub open spec fn is_relative(body: Seq<char>) -> bool {
    css_pieces(body).len() > 0 && (css_pieces(body)[0] matches Piece::Ident(word) && same_word(
        word,
        "from"@,
    ))
}

fn starts_from(body: &str) -> (r: bool)
    ensures
        r == is_relative(body@),
{
    let pieces = split_css(body);
    assert(pieces_seen(pieces@).len() == pieces@.len());
    if pieces.len() == 0 {
        return false;
    }
    assert(pieces_seen(pieces@)[0] == pieces@[0]@);
    match &pieces[0] {
        CssPiece::Ident(word) => is_word(word.as_str(), "from"),
        _ => false,
    }
}

/// Whether a token of a gradient's arguments fixes how it interpolates: the word `in`, or a color
/// that is not a legacy one.
pub open spec fn fixes_interpolation(p: Piece) -> bool {
    match p {
        Piece::Ident(word) => same_word(word, "in"@),
        Piece::Function(name, body) => is_modern(name) || is_relative(body),
        Piece::Other => false,
    }
}

/// Whether a gradient leaves its interpolation to the legacy default.
pub open spec fn is_legacy(body: Seq<char>) -> bool {
    forall|i: int|
        0 <= i < css_pieces(body).len() ==> !fixes_interpolation(#[trigger] css_pieces(body)[i])
}

fn leaves_default(body: &str) -> (r: bool)
    ensures
        r == is_legacy(body@),
{
    let pieces = split_css(body);
    let ghost all = css_pieces(body@);
    assert(all.len() == pieces@.len());
    let mut i: usize = 0;
    while i < pieces.len()
        invariant
            all == css_pieces(body@),
            all == pieces_seen(pieces@),
            all.len() == pieces@.len(),
            i <= pieces@.len(),
            forall|k: int| 0 <= k < i ==> !fixes_interpolation(#[trigger] all[k]),
        decreases pieces@.len() - i,
    {
        assert(all[i as int] == pieces@[i as int]@);
        let fixes: bool = match &pieces[i] {
            CssPiece::Ident(word) => is_word(word.as_str(), "in"),
            CssPiece::Function(name, args) => names_modern(name.as_str()) || starts_from(
                args.as_str(),
            ),
            CssPiece::Other => false,
        };
        if fixes {
            assert(fixes_interpolation(css_pieces(body@)[i as int]));
            return false;
        }
        i = i + 1;
    }
    true
}

/// For each gradient among the first `n` tokens, whether it leaves its interpolation to the legacy
/// default.
pub open spec fn legacy_defaults(pieces: Seq<Piece>, n: nat) -> Seq<bool>
    decreases n,
{
    if n == 0 {
        Seq::empty()
    } else {
        let before = legacy_defaults(pieces, (n - 1) as nat);
        match pieces[n - 1] {
            Piece::Function(name, body) => if is_gradient(name) {
                before.push(is_legacy(body))
            } else {
                before
            },
            _ => before,
        }
    }
}

/// For each gradient of a style value, whether it leaves its interpolation to the legacy default.
pub fn legacy_gradient_defaults(source: &str) -> (r: Vec<bool>)
    ensures
        r@ == legacy_defaults(css_pieces(source@), css_pieces(source@).len()),
{
    let pieces = split_css(source);
    let ghost all = css_pieces(source@);
    assert(all.len() == pieces@.len());
    let mut out: Vec<bool> = Vec::new();
    let mut i: usize = 0;
    while i < pieces.len()
        invariant
            all == pieces_seen(pieces@),
            all.len() == pieces@.len(),
            i <= pieces@.len(),
            out@ == legacy_defaults(all, i as nat),
        decreases pieces@.len() - i,
    {
        assert(all[i as int] == pieces@[i as int]@);
        match &pieces[i] {
            CssPiece::Function(name, body) => {
                if names_gradient(name.as_str()) {
                    let legacy: bool = leaves_default(body.as_str());
                    out.push(legacy);
                }
            },
            _ => {},
        }
        i = i + 1;
    }
    out
}

/// Whether a gradient is painted in sRGB: explicitly, or by the legacy default.
pub open spec fn is_srgb(method: Seq<char>, legacy: bool) -> bool {
    method == "in srgb"@ || (legacy && method.len() == 0)
}

/// Whether all layers from `i` on may be painted; `d` gradients came before.
pub open spec fn layers_admitted(layers: Seq<Layer>, defaults: Seq<bool>, i: int, d: int) -> bool
    decreases layers.len() - i,
{
    if i < 0 || i >= layers.len() {
        true
    } else {
        match layers[i] {
            Layer::Blank => layers_admitted(layers, defaults, i + 1, d),
            Layer::Url => false,
            Layer::Gradient(method) => is_srgb(method, d < defaults.len() && defaults[d])
                && layers_admitted(layers, defaults, i + 1, d + 1),
        }
    }
}

/// Whether all layers may be painted: no URLs, and gradients in sRGB, explicitly or by the legacy
/// default.
pub fn admit_layers(layers: &Vec<BackgroundLayer>, defaults: &Vec<bool>) -> (r: bool)
    ensures
        r == layers_admitted(layers_seen(layers@), defaults@, 0, 0),
{
    let ghost all = layers_seen(layers@);
    let mut i: usize = 0;
    let mut d: usize = 0;
    while i < layers.len()
        invariant
            all == layers_seen(layers@),
            i <= layers@.len(),
            d <= i,
            layers_admitted(all, defaults@, 0, 0) == layers_admitted(
                all,
                defaults@,
                i as int,
                d as int,
            ),
        decreases layers@.len() - i,
    {
        assert(all[i as int] == layers@[i as int]@);
        match &layers[i] {
            BackgroundLayer::Blank => {},
            BackgroundLayer::Url => {
                return false;
            },
            BackgroundLayer::Gradient(method) => {
                let legacy: bool = d < defaults.len() && defaults[d];
                let bare: bool = crate::text::characters(method.as_str()).len() == 0;
                if !(crate::table::same_text(method.as_str(), "in srgb") || (legacy && bare)) {
                    return false;
                }
                d = d + 1;
            },
        }
        i = i + 1;
    }
    true
}

/// Whether a background value may be painted.
pub open spec fn background_admitted(property: Seq<char>, source: Seq<char>) -> bool {
    let defaults = legacy_defaults(css_pieces(source), css_pieces(source).len());
    if property == "background-image"@ {
        image_layers(source) matches Some(layers) && layers.len() > 0 && layers_admitted(
            layers,
            defaults,
            0,
            0,
        )
    } else if property == "background"@ {
        shorthand_layer(source) matches Some(layer) && layers_admitted(
            seq![layer],
            defaults,
            0,
            0,
        )
    } else {
        false
    }
}

/// Whether a background value may be painted: URLs and other interpolation spaces are kept out.
pub fn gradient_background_source(property: &str, source: &str) -> (r: bool)
    ensures
        r == background_admitted(property@, source@),
{
    if crate::table::same_text(property, "background-image") {
        match read_images(source) {
            Some(layers) => {
                assert(layers_seen(layers@).len() == layers@.len());
                layers.len() > 0 && admit_layers(&layers, &legacy_gradient_defaults(source))
            },
            None => false,
        }
    } else if crate::table::same_text(property, "background") {
        match read_shorthand(source) {
            Some(layer) => {
                let ghost shown = layer@;
                let mut layers: Vec<BackgroundLayer> = Vec::new();
                layers.push(layer);
                assert(layers_seen(layers@) =~= seq![shown]);
                admit_layers(&layers, &legacy_gradient_defaults(source))
            },
            None => false,
        }
    } else {
        false
    }
}

/// A URL anywhere among the layers keeps the whole background out.
pub proof fn urls_are_kept_out(layers: Seq<Layer>, defaults: Seq<bool>, i: int, d: int, k: int)
    requires
        0 <= i <= k < layers.len(),
        layers[k] == Layer::Url,
    ensures
        !layers_admitted(layers, defaults, i, d),
    decreases layers.len() - i,
{
    if i < k {
        urls_are_kept_out(layers, defaults, i + 1, d, k);
        urls_are_kept_out(layers, defaults, i + 1, d + 1, k);
    }
}

} // verus!
