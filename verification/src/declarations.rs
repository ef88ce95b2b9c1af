//! Lowering the styles of a node to declarations of the layout engine.

use vstd::prelude::*;

use crate::artifact::{SceneNode, StyleBinding, StyleValue};
use crate::backgrounds::{background_admitted, gradient_background_source};
use crate::bindings::{style_value, style_valued};
use crate::eval::values_of;
use crate::layout_error::{laid, LayoutError, LayoutFault};
use crate::scalar::{num, Scalar, ZERO};
use crate::table::same_text;
use crate::text::{begins, begins_with, joined, said3, said5};
use crate::value::{css_token, number_written, token_written, MotionValue, Value};

verus! {

/// The first fixed anchor of a motion path among the styles from `i` on.
pub open spec fn anchor_from(styles: Seq<StyleBinding>, i: int) -> Option<Seq<char>>
    decreases styles.len() - i,
{
    if i < 0 || i >= styles.len() {
        None
    } else if styles[i].property@ == "motion-path-anchor"@ && styles[i].value is Static && (
    styles[i].value->value)@ is Enum {
        Some((styles[i].value->value)@->Enum_0)
    } else {
        anchor_from(styles, i + 1)
    }
}

/// The first fixed angle offset of a motion path among the styles from `i` on, else zero.
pub open spec fn offset_from(styles: Seq<StyleBinding>, i: int) -> Scalar
    decreases styles.len() - i,
{
    if i < 0 || i >= styles.len() {
        num(ZERO)
    } else if styles[i].property@ == "motion-path-angle-offset"@ && styles[i].value is Static && (
    styles[i].value->value)@ is Number {
        (styles[i].value->value)@->Number_0
    } else {
        offset_from(styles, i + 1)
    }
}

fn find_anchor<'a>(styles: &'a Vec<StyleBinding>) -> (r: Option<&'a str>)
    ensures
        match r {
            Some(s) => anchor_from(styles@, 0) == Some(s@),
            None => anchor_from(styles@, 0) is None,
        },
{
    let mut i: usize = 0;
    while i < styles.len()
        invariant
            i <= styles@.len(),
            anchor_from(styles@, 0) == anchor_from(styles@, i as int),
        decreases styles@.len() - i,
    {
        if same_text(styles[i].property.as_str(), "motion-path-anchor") {
            match &styles[i].value {
                StyleValue::Static { value } => match value {
                    MotionValue::Enum(s) => {
                        return Some(s.as_str());
                    },
                    _ => {},
                },
                _ => {},
            }
        }
        i = i + 1;
    }
    None
}

fn find_offset(styles: &Vec<StyleBinding>) -> (r: Scalar)
    ensures
        r == offset_from(styles@, 0),
{
    let mut i: usize = 0;
    while i < styles.len()
        invariant
            i <= styles@.len(),
            offset_from(styles@, 0) == offset_from(styles@, i as int),
        decreases styles@.len() - i,
    {
        if same_text(styles[i].property.as_str(), "motion-path-angle-offset") {
            match &styles[i].value {
                StyleValue::Static { value } => match value {
                    MotionValue::Number(x) => {
                        return *x;
                    },
                    _ => {},
                },
                _ => {},
            }
        }
        i = i + 1;
    }
    Scalar::from_bits(ZERO)
}

/// Properties that the layout engine does not see.
pub open spec fn is_private(property: Seq<char>) -> bool {
    begins(property, "motion-displacement-"@) || begins(property, "motion-velocity-blur-"@)
        || begins(property, "motion-transform-3d-"@) || begins(
        property,
        "motion-perspective-origin-"@,
    ) || property == "motion-path-anchor"@ || property == "motion-path-angle-offset"@ || is_effect(
        property,
    )
}

/// Properties that are painted around the box.
pub open spec fn is_effect(property: Seq<char>) -> bool {
    property == "rotate-x"@ || property == "rotate-y"@ || property == "perspective"@ || property
        == "transform-style"@ || property == "backface-visibility"@ || property == "paper-grain"@
        || property == "contact-shadow"@
}

pub fn is_effect_property(property: &str) -> (r: bool)
    ensures
        r == is_effect(property@),
{
    same_text(property, "rotate-x") || same_text(property, "rotate-y") || same_text(
        property,
        "perspective",
    ) || same_text(property, "transform-style") || same_text(property, "backface-visibility")
        || same_text(property, "paper-grain") || same_text(property, "contact-shadow")
}

fn is_private_property(property: &str) -> (r: bool)
    ensures
        r == is_private(property@),
{
    begins_with(property, "motion-displacement-") || begins_with(property, "motion-velocity-blur-")
        || begins_with(property, "motion-transform-3d-") || begins_with(
        property,
        "motion-perspective-origin-",
    ) || same_text(property, "motion-path-anchor") || same_text(
        property,
        "motion-path-angle-offset",
    ) || is_effect_property(property)
}

/// Whether a style is a background that an expression decides.
pub open spec fn is_dynamic_background(style: StyleBinding) -> bool {
    style.value is Expr && (style.property@ == "background"@ || style.property@
        == "background-image"@)
}

/// Whether `out` is how the value of a style is written. A centered anchor moves a translation back
/// by half the box; an angle offset is added to a rotation.
pub open spec fn value_written<T: Fn(&MotionValue) -> String>(
    tokens: T,
    styles: Seq<StyleBinding>,
    property: Seq<char>,
    v: Value,
    out: Seq<char>,
) -> bool {
    if property == "translate"@ && anchor_from(styles, 0) == Some("center"@) && v is Length2 {
        exists|x: Seq<char>, y: Seq<char>|
            #![trigger token_written(tokens, Value::Length(v->Length2_0.x), x), token_written(tokens, Value::Length(v->Length2_0.y), y)]
            token_written(tokens, Value::Length(v->Length2_0.x), x) && token_written(
                tokens,
                Value::Length(v->Length2_0.y),
                y,
            ) && out == "calc("@ + x + " - 50%) calc("@ + y + " - 50%)"@
    } else if property == "rotate"@ && !offset_from(styles, 0).eq_spec(num(ZERO)) {
        exists|x: Seq<char>, y: Seq<char>|
            #![trigger token_written(tokens, v, x), number_written(tokens, offset_from(styles, 0), y)]
            token_written(tokens, v, x) && number_written(tokens, offset_from(styles, 0), y) && out
                == "calc("@ + x + " + "@ + y + "deg)"@
    } else {
        token_written(tokens, v, out)
    }
}

/// Whether `r` is the declaration of one style: nothing for private properties, an error where its
/// value is missing or a background may not be painted.
pub open spec fn declares<T: Fn(&MotionValue) -> String>(
    tokens: T,
    node: SceneNode,
    values: Seq<Value>,
    at: int,
    i: int,
    r: Result<Option<Seq<char>>, LayoutFault>,
) -> bool {
    let style = node.styles@[i];
    let property = style.property@;
    if is_private(property) {
        r == Ok::<Option<Seq<char>>, LayoutFault>(None)
    } else {
        match style_valued(style.value, values, at) {
            Err(f) => r == Err::<Option<Seq<char>>, LayoutFault>(f),
            Ok(v) => if is_dynamic_background(style) {
                exists|s: Seq<char>| #[trigger]
                    token_written(tokens, v, s) && r == if background_admitted(property, s) {
                        Ok::<Option<Seq<char>>, LayoutFault>(Some(property + ": "@ + s))
                    } else {
                        Err(LayoutFault::NondeterministicSurface(node.key@, property))
                    }
            } else {
                exists|s: Seq<char>| #[trigger]
                    value_written(tokens, node.styles@, property, v, s) && r == Ok::<
                        Option<Seq<char>>,
                        LayoutFault,
                    >(Some(property + ": "@ + s))
            },
        }
    }
}

/// The declarations of the first `n` styles, with the transform origin of an anchor before them.
pub open spec fn gathered(
    styles: Seq<StyleBinding>,
    texts: Seq<Option<Seq<char>>>,
    n: nat,
) -> Seq<Seq<char>>
    decreases n,
{
    if n == 0 {
        match anchor_from(styles, 0) {
            Some(anchor) => seq![
                "transform-origin: "@ + (if anchor == "center"@ {
                    "50% 50%"@
                } else {
                    "0px 0px"@
                }),
            ],
            None => Seq::empty(),
        }
    } else {
        let before = gathered(styles, texts, (n - 1) as nat);
        match texts[n - 1] {
            Some(s) => before.push(s),
            None => before,
        }
    }
}

/// Declarations separated by semicolons.
pub open spec fn separated(parts: Seq<Seq<char>>) -> Seq<char>
    decreases parts.len(),
{
    if parts.len() == 0 {
        Seq::empty()
    } else if parts.len() == 1 {
        parts[0]
    } else {
        separated(parts.drop_last()) + "; "@ + parts.last()
    }
}

/// Whether texts are the declarations of the first styles of a node.
pub open spec fn declared_so_far<T: Fn(&MotionValue) -> String>(
    tokens: T,
    node: SceneNode,
    values: Seq<Value>,
    at: int,
    texts: Seq<Option<Seq<char>>>,
) -> bool {
    texts.len() <= node.styles@.len() && forall|i: int|
        0 <= i < texts.len() ==> declares(tokens, node, values, at, i, Ok(#[trigger] texts[i]))
}

/// With `visibility: hidden` at the end where a node is not visible.
pub open spec fn with_visibility(parts: Seq<Seq<char>>, visible: bool) -> Seq<Seq<char>> {
    if visible { parts } else { parts.push("visibility: hidden"@) }
}

/// Whether `r` is a possible lowering of a node's styles.
pub open spec fn lowers<T: Fn(&MotionValue) -> String>(
    tokens: T,
    node: SceneNode,
    values: Seq<Value>,
    at: int,
    visible: bool,
    r: Result<Seq<char>, LayoutFault>,
) -> bool {
    exists|texts: Seq<Option<Seq<char>>>| #[trigger]
        declared_so_far(tokens, node, values, at, texts) && match r {
            Ok(out) => texts.len() == node.styles@.len() && out == separated(
                with_visibility(gathered(node.styles@, texts, texts.len()), visible),
            ),
            Err(f) => texts.len() < node.styles@.len() && declares(
                tokens,
                node,
                values,
                at,
                texts.len() as int,
                Err(f),
            ),
        }
}

fn write_value<T: Fn(&MotionValue) -> String>(
    tokens: &T,
    styles: &Vec<StyleBinding>,
    anchor: Option<&str>,
    offset: Scalar,
    property: &str,
    value: &MotionValue,
) -> (r: String)
    requires
        forall|v: MotionValue| call_requires(*tokens, (&v,)),
        match anchor {
            Some(s) => anchor_from(styles@, 0) == Some(s@),
            None => anchor_from(styles@, 0) is None,
        },
        offset == offset_from(styles@, 0),
    ensures
        value_written(*tokens, styles@, property@, value@, r@),
{
    let centered: bool = match anchor {
        Some(a) => same_text(a, "center"),
        None => false,
    };
    if same_text(property, "translate") && centered {
        match value {
            MotionValue::Length2(l) => {
                let x = css_token(&MotionValue::Length(l.x), tokens);
                let y = css_token(&MotionValue::Length(l.y), tokens);
                assert(token_written(*tokens, Value::Length(value@->Length2_0.x), x@)
                    && token_written(*tokens, Value::Length(value@->Length2_0.y), y@));
                return said5("calc(", x.as_str(), " - 50%) calc(", y.as_str(), " - 50%)");
            },
            _ => {},
        }
    }
    if same_text(property, "rotate") && !offset.eq_value(Scalar::from_bits(ZERO)) {
        let x = css_token(value, tokens);
        let y = css_token(&MotionValue::Number(offset), tokens);
        assert(token_written(*tokens, value@, x@) && number_written(
            *tokens,
            offset_from(styles@, 0),
            y@,
        ));
        return said5("calc(", x.as_str(), " + ", y.as_str(), "deg)");
    }
    css_token(value, tokens)
}

fn declare<T: Fn(&MotionValue) -> String>(
    tokens: &T,
    node: &SceneNode,
    values: &Vec<MotionValue>,
    at: usize,
    i: usize,
    anchor: Option<&str>,
    offset: Scalar,
) -> (r: Result<Option<String>, LayoutError>)
    requires
        i < node.styles@.len(),
        forall|v: MotionValue| call_requires(*tokens, (&v,)),
        match anchor {
            Some(s) => anchor_from(node.styles@, 0) == Some(s@),
            None => anchor_from(node.styles@, 0) is None,
        },
        offset == offset_from(node.styles@, 0),
    ensures
        declares(*tokens, *node, values_of(values@), at as int, i as int, declared(r)),
{
    let style = &node.styles[i];
    let property = style.property.as_str();
    if is_private_property(property) {
        return Ok(None);
    }
    let v = match style_value(&style.value, values, at) {
        Ok(v) => v,
        Err(e) => {
            return Err(e);
        },
    };
    let dynamic: bool = match &style.value {
        StyleValue::Expr { .. } => same_text(property, "background") || same_text(
            property,
            "background-image",
        ),
        _ => false,
    };
    if dynamic {
        let s = css_token(v, tokens);
        assert(token_written(*tokens, v@, s@));
        if gradient_background_source(property, s.as_str()) {
            return Ok(Some(said3(property, ": ", s.as_str())));
        }
        return Err(
            LayoutError::NondeterministicSurface {
                node: node.key.clone(),
                surface: style.property.clone(),
            },
        );
    }
    let s = write_value(tokens, &node.styles, anchor, offset, property, v);
    assert(value_written(*tokens, node.styles@, property@, v@, s@));
    Ok(Some(said3(property, ": ", s.as_str())))
}

/// A declaration by its contents.
pub open spec fn declared(r: Result<Option<String>, LayoutError>) -> Result<
    Option<Seq<char>>,
    LayoutFault,
> {
    match r {
        Ok(Some(s)) => Ok(Some(s@)),
        Ok(None) => Ok(None),
        Err(e) => Err(e@),
    }
}

fn put(out: String, any: bool, part: &str, Ghost(parts): Ghost<Seq<Seq<char>>>) -> (r: String)
    requires
        out@ == separated(parts),
        any == (parts.len() > 0),
    ensures
        r@ == separated(parts.push(part@)),
{
    proof {
        assert(parts.push(part@).drop_last() =~= parts);
    }
    if any {
        joined(joined(out, "; "), part)
    } else {
        part.to_owned()
    }
}

/// Lowers the styles of a node to declarations.
pub fn declarations<T: Fn(&MotionValue) -> String>(
    tokens: &T,
    node: &SceneNode,
    values: &Vec<MotionValue>,
    visible: bool,
    at: usize,
) -> (r: Result<String, LayoutError>)
    requires
        forall|v: MotionValue| call_requires(*tokens, (&v,)),
    ensures
        lowers(*tokens, *node, values_of(values@), at as int, visible, laid(r)),
{
    let anchor = find_anchor(&node.styles);
    let offset = find_offset(&node.styles);
    let ghost mut texts: Seq<Option<Seq<char>>> = Seq::empty();
    let mut out = String::new();
    let mut any: bool = false;
    match anchor {
        Some(a) => {
            out = if same_text(a, "center") {
                "transform-origin: 50% 50%".to_owned()
            } else {
                "transform-origin: 0px 0px".to_owned()
            };
            any = true;
            proof {
                reveal_strlit("transform-origin: ");
                reveal_strlit("50% 50%");
                reveal_strlit("0px 0px");
                reveal_strlit("transform-origin: 50% 50%");
                reveal_strlit("transform-origin: 0px 0px");
                assert(out@ =~= gathered(node.styles@, texts, 0)[0]);
            }
        },
        None => {},
    }
    let mut i: usize = 0;
    while i < node.styles.len()
        invariant
            i <= node.styles@.len(),
            forall|v: MotionValue| call_requires(*tokens, (&v,)),
            match anchor {
                Some(s) => anchor_from(node.styles@, 0) == Some(s@),
                None => anchor_from(node.styles@, 0) is None,
            },
            offset == offset_from(node.styles@, 0),
            texts.len() == i,
            declared_so_far(*tokens, *node, values_of(values@), at as int, texts),
            any == (gathered(node.styles@, texts, i as nat).len() > 0),
            out@ == separated(gathered(node.styles@, texts, i as nat)),
        decreases node.styles@.len() - i,
    {
        match declare(tokens, node, values, at, i, anchor, offset) {
            Err(e) => {
                assert(declared_so_far(*tokens, *node, values_of(values@), at as int, texts));
                return Err(e);
            },
            Ok(text) => {
                let ghost next = match &text {
                    Some(s) => Some(s@),
                    None => None::<Seq<char>>,
                };
                let ghost now = texts.push(next);
                proof {
                    gathered_prefix(node.styles@, texts, next, i as nat);
                    assert forall|k: int| 0 <= k < now.len() implies declares(
                        *tokens,
                        *node,
                        values_of(values@),
                        at as int,
                        k,
                        Ok(#[trigger] now[k]),
                    ) by {
                        if k < i {
                            assert(now[k] == texts[k]);
                        }
                    }
                }
                match text {
                    Some(s) => {
                        out = put(
                            out,
                            any,
                            s.as_str(),
                            Ghost(gathered(node.styles@, texts, i as nat)),
                        );
                        any = true;
                    },
                    None => {},
                }
                proof {
                    texts = now;
                }
            },
        }
        i = i + 1;
    }
    if !visible {
        out = put(
            out,
            any,
            "visibility: hidden",
            Ghost(gathered(node.styles@, texts, i as nat)),
        );
    }
    assert(declared_so_far(*tokens, *node, values_of(values@), at as int, texts));
    Ok(out)
}

proof fn gathered_prefix(
    styles: Seq<StyleBinding>,
    texts: Seq<Option<Seq<char>>>,
    next: Option<Seq<char>>,
    n: nat,
)
    requires
        n <= texts.len(),
    ensures
        gathered(styles, texts.push(next), n) == gathered(styles, texts, n),
    decreases n,
{
    if n > 0 {
        gathered_prefix(styles, texts, next, (n - 1) as nat);
    }
}

} // verus!
