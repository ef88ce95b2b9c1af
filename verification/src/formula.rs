//! The style of a math formula.

use vstd::prelude::*;

use crate::artifact::{SceneNode, StyleBinding, StyleValue};
use crate::bindings::{style_value, style_valued};
use crate::eval::values_of;
use crate::layout_error::{plain, LayoutError, LayoutFault};
use crate::recording::Rgba;
use crate::scalar::Scalar;
use crate::table::same_text;
use crate::value::{MotionValue, Value};

verus! {

/// Size and color of a formula.
#[derive(Clone, Copy, Debug, PartialEq, Eq, Structural)]
pub struct FormulaStyle {
    pub font_size: Scalar,
    pub color: Rgba,
}

pub open spec fn sizes_font(property: Seq<char>) -> bool {
    property == "fontSize"@ || property == "font-size"@
}

/// A formula style after one more binding: a font size may be animated, a color is fixed.
pub open spec fn formula_step(s: FormulaStyle, b: StyleBinding, values: Seq<Value>, at: int) -> Result<
    FormulaStyle,
    LayoutFault,
> {
    if sizes_font(b.property@) {
        match style_valued(b.value, values, at) {
            Err(f) => Err(f),
            Ok(Value::Number(x)) => Ok(FormulaStyle { font_size: x, ..s }),
            Ok(_) => Ok(s),
        }
    } else if b.property@ == "color"@ {
        match b.value {
            StyleValue::Static { value } => match value@ {
                Value::Color(c) => Ok(FormulaStyle { color: c, ..s }),
                _ => Ok(s),
            },
            StyleValue::Expr { .. } => Ok(s),
        }
    } else {
        Ok(s)
    }
}

/// The style of a formula after the first `n` bindings.
pub open spec fn formula_styled(
    start: FormulaStyle,
    styles: Seq<StyleBinding>,
    values: Seq<Value>,
    at: int,
    n: nat,
) -> Result<FormulaStyle, LayoutFault>
    decreases n,
{
    if n == 0 {
        Ok(start)
    } else {
        match formula_styled(start, styles, values, at, (n - 1) as nat) {
            Err(f) => Err(f),
            Ok(s) => formula_step(s, styles[n - 1], values, at),
        }
    }
}

proof fn formula_stuck(
    start: FormulaStyle,
    styles: Seq<StyleBinding>,
    values: Seq<Value>,
    at: int,
    n: nat,
    m: nat,
)
    requires
        n <= m,
        formula_styled(start, styles, values, at, n) is Err,
    ensures
        formula_styled(start, styles, values, at, m) == formula_styled(
            start,
            styles,
            values,
            at,
            n,
        ),
    decreases m,
{
    if n < m {
        formula_stuck(start, styles, values, at, n, (m - 1) as nat);
    }
}

fn step(s: FormulaStyle, b: &StyleBinding, values: &Vec<MotionValue>, at: usize) -> (r: Result<
    FormulaStyle,
    LayoutError,
>)
    ensures
        plain(r) == formula_step(s, *b, values_of(values@), at as int),
{
    let property = b.property.as_str();
    if same_text(property, "fontSize") || same_text(property, "font-size") {
        match style_value(&b.value, values, at) {
            Err(e) => Err(e),
            Ok(MotionValue::Number(x)) => Ok(FormulaStyle { font_size: *x, color: s.color }),
            Ok(_) => Ok(s),
        }
    } else if same_text(property, "color") {
        match &b.value {
            StyleValue::Static { value } => match value {
                MotionValue::Color(c) => Ok(FormulaStyle { font_size: s.font_size, color: *c }),
                _ => Ok(s),
            },
            StyleValue::Expr { .. } => Ok(s),
        }
    } else {
        Ok(s)
    }
}

/// The style of a formula, from a default one.
pub fn formula_style_from_node(
    start: FormulaStyle,
    node: &SceneNode,
    values: &Vec<MotionValue>,
    at: usize,
) -> (r: Result<FormulaStyle, LayoutError>)
    ensures
        plain(r) == formula_styled(
            start,
            node.styles@,
            values_of(values@),
            at as int,
            node.styles@.len(),
        ),
{
    let mut style = start;
    let mut i: usize = 0;
    while i < node.styles.len()
        invariant
            i <= node.styles@.len(),
            formula_styled(start, node.styles@, values_of(values@), at as int, i as nat) == Ok::<
                FormulaStyle,
                LayoutFault,
            >(style),
        decreases node.styles@.len() - i,
    {
        match step(style, &node.styles[i], values, at) {
            Ok(next) => {
                style = next;
            },
            Err(e) => {
                proof {
                    formula_stuck(
                        start,
                        node.styles@,
                        values_of(values@),
                        at as int,
                        (i + 1) as nat,
                        node.styles@.len(),
                    );
                }
                return Err(e);
            },
        }
        i = i + 1;
    }
    Ok(style)
}

} // verus!
