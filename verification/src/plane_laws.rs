//! What 3D styles mean: which transform each property stands for, which plane a node becomes, and what
//! it hands to its children.

use vstd::prelude::*;

use crate::artifact::SceneNode;
use crate::bindings::style_valued;
use crate::effects::PerspectiveLength;
use crate::layout_error::LayoutFault;
use crate::planes::{
    axis_of, axis_turn, css_3d_of, op_kind, origin_of, plane_of, read_step, reading, unread, Css3dOp, PlaneFacts,
    PlaneRecord, Reading, Styled3d,
};
use crate::recording::{Point, Rect};
use crate::scalar::{num, Scalar, ZERO};
use crate::spaces::{
    child_state, functions, node_matrix, placed, product, Css3dPerspective, Css3dState, Matrix4,
    MatrixStep,
};
use crate::value::{Length2, Value};

verus! {

/// Names of different lengths differ; those of one length differ in some character.
proof fn property_names()
    ensures
        "motion-transform-3d-translate-x"@.len() == 31,
        "motion-transform-3d-translate-y"@.len() == 31,
        "motion-transform-3d-translate-z"@.len() == 31,
        "motion-transform-3d-translate-x-percent"@.len() == 39,
        "motion-transform-3d-translate-y-percent"@.len() == 39,
        "motion-transform-3d-rotate-x"@.len() == 28,
        "rotate-x"@.len() == 8,
        "motion-transform-3d-rotate-y"@.len() == 28,
        "rotate-y"@.len() == 8,
        "motion-transform-3d-rotate-z"@.len() == 28,
        "motion-transform-3d-scale-x"@.len() == 27,
        "motion-transform-3d-scale-y"@.len() == 27,
        "motion-transform-3d-scale-z"@.len() == 27,
        "motion-transform-3d-rotate-axis-x"@.len() == 33,
        "motion-transform-3d-rotate-axis-y"@.len() == 33,
        "motion-transform-3d-rotate-axis-z"@.len() == 33,
        "motion-perspective-origin-x"@.len() == 27,
        "motion-perspective-origin-y"@.len() == 27,
        "motion-perspective-origin-x-px"@.len() == 30,
        "motion-perspective-origin-y-px"@.len() == 30,
        "motion-perspective-origin-x-percent"@.len() == 35,
        "motion-perspective-origin-y-percent"@.len() == 35,
        "motion-transform-3d-rotate-axis-angle"@.len() == 37,
        "transform-style"@.len() == 15,
        "backface-visibility"@.len() == 19,
        "perspective"@.len() == 11,
        "transform-origin"@.len() == 16,
        "motion-transform-3d-translate-x"@ != "motion-transform-3d-translate-y"@,
        "motion-transform-3d-translate-x"@ != "motion-transform-3d-translate-z"@,
        "motion-transform-3d-translate-y"@ != "motion-transform-3d-translate-z"@,
        "motion-transform-3d-translate-x-percent"@ != "motion-transform-3d-translate-y-percent"@,
        "motion-transform-3d-rotate-x"@ != "motion-transform-3d-rotate-y"@,
        "motion-transform-3d-rotate-x"@ != "motion-transform-3d-rotate-z"@,
        "rotate-x"@ != "rotate-y"@,
        "motion-transform-3d-rotate-y"@ != "motion-transform-3d-rotate-z"@,
        "motion-transform-3d-scale-x"@ != "motion-transform-3d-scale-y"@,
        "motion-transform-3d-scale-x"@ != "motion-transform-3d-scale-z"@,
        "motion-transform-3d-scale-x"@ != "motion-perspective-origin-x"@,
        "motion-transform-3d-scale-x"@ != "motion-perspective-origin-y"@,
        "motion-transform-3d-scale-y"@ != "motion-transform-3d-scale-z"@,
        "motion-transform-3d-scale-y"@ != "motion-perspective-origin-x"@,
        "motion-transform-3d-scale-y"@ != "motion-perspective-origin-y"@,
        "motion-transform-3d-scale-z"@ != "motion-perspective-origin-x"@,
        "motion-transform-3d-scale-z"@ != "motion-perspective-origin-y"@,
        "motion-transform-3d-rotate-axis-x"@ != "motion-transform-3d-rotate-axis-y"@,
        "motion-transform-3d-rotate-axis-x"@ != "motion-transform-3d-rotate-axis-z"@,
        "motion-transform-3d-rotate-axis-y"@ != "motion-transform-3d-rotate-axis-z"@,
        "motion-perspective-origin-x"@ != "motion-perspective-origin-y"@,
        "motion-perspective-origin-x-px"@ != "motion-perspective-origin-y-px"@,
        "motion-perspective-origin-x-percent"@ != "motion-perspective-origin-y-percent"@,
{
    reveal_strlit("motion-transform-3d-translate-x");
    reveal_strlit("motion-transform-3d-translate-y");
    reveal_strlit("motion-transform-3d-translate-z");
    reveal_strlit("motion-transform-3d-translate-x-percent");
    reveal_strlit("motion-transform-3d-translate-y-percent");
    reveal_strlit("motion-transform-3d-rotate-x");
    reveal_strlit("rotate-x");
    reveal_strlit("motion-transform-3d-rotate-y");
    reveal_strlit("rotate-y");
    reveal_strlit("motion-transform-3d-rotate-z");
    reveal_strlit("motion-transform-3d-scale-x");
    reveal_strlit("motion-transform-3d-scale-y");
    reveal_strlit("motion-transform-3d-scale-z");
    reveal_strlit("motion-transform-3d-rotate-axis-x");
    reveal_strlit("motion-transform-3d-rotate-axis-y");
    reveal_strlit("motion-transform-3d-rotate-axis-z");
    reveal_strlit("motion-perspective-origin-x");
    reveal_strlit("motion-perspective-origin-y");
    reveal_strlit("motion-perspective-origin-x-px");
    reveal_strlit("motion-perspective-origin-y-px");
    reveal_strlit("motion-perspective-origin-x-percent");
    reveal_strlit("motion-perspective-origin-y-percent");
    reveal_strlit("motion-transform-3d-rotate-axis-angle");
    reveal_strlit("transform-style");
    reveal_strlit("backface-visibility");
    reveal_strlit("perspective");
    reveal_strlit("transform-origin");
    assert("motion-transform-3d-translate-x"@[30] != "motion-transform-3d-translate-y"@[30]);
    assert("motion-transform-3d-translate-x"@[30] != "motion-transform-3d-translate-z"@[30]);
    assert("motion-transform-3d-translate-y"@[30] != "motion-transform-3d-translate-z"@[30]);
    assert("motion-transform-3d-translate-x-percent"@[30] != "motion-transform-3d-translate-y-percent"@[30]);
    assert("motion-transform-3d-rotate-x"@[27] != "motion-transform-3d-rotate-y"@[27]);
    assert("motion-transform-3d-rotate-x"@[27] != "motion-transform-3d-rotate-z"@[27]);
    assert("rotate-x"@[7] != "rotate-y"@[7]);
    assert("motion-transform-3d-rotate-y"@[27] != "motion-transform-3d-rotate-z"@[27]);
    assert("motion-transform-3d-scale-x"@[26] != "motion-transform-3d-scale-y"@[26]);
    assert("motion-transform-3d-scale-x"@[26] != "motion-transform-3d-scale-z"@[26]);
    assert("motion-transform-3d-scale-x"@[7] != "motion-perspective-origin-x"@[7]);
    assert("motion-transform-3d-scale-x"@[7] != "motion-perspective-origin-y"@[7]);
    assert("motion-transform-3d-scale-y"@[26] != "motion-transform-3d-scale-z"@[26]);
    assert("motion-transform-3d-scale-y"@[7] != "motion-perspective-origin-x"@[7]);
    assert("motion-transform-3d-scale-y"@[7] != "motion-perspective-origin-y"@[7]);
    assert("motion-transform-3d-scale-z"@[7] != "motion-perspective-origin-x"@[7]);
    assert("motion-transform-3d-scale-z"@[7] != "motion-perspective-origin-y"@[7]);
    assert("motion-transform-3d-rotate-axis-x"@[32] != "motion-transform-3d-rotate-axis-y"@[32]);
    assert("motion-transform-3d-rotate-axis-x"@[32] != "motion-transform-3d-rotate-axis-z"@[32]);
    assert("motion-transform-3d-rotate-axis-y"@[32] != "motion-transform-3d-rotate-axis-z"@[32]);
    assert("motion-perspective-origin-x"@[26] != "motion-perspective-origin-y"@[26]);
    assert("motion-perspective-origin-x-px"@[26] != "motion-perspective-origin-y-px"@[26]);
    assert("motion-perspective-origin-x-percent"@[26] != "motion-perspective-origin-y-percent"@[26]);
}

/// Whether a style of a node has a name and a value this frame.
pub open spec fn says(
    node: SceneNode,
    values: Seq<Value>,
    at: int,
    i: int,
    property: Seq<char>,
    v: Value,
) -> bool {
    &&& 0 <= i < node.styles@.len()
    &&& node.styles@[i].property@ == property
    &&& style_valued(node.styles@[i].value, values, at) == Ok::<Value, LayoutFault>(v)
}

/// Whether a property with a number stands for a transform.
pub open spec fn stands_for(property: Seq<char>, x: Scalar, op: Css3dOp) -> bool {
    ||| op == Css3dOp::TranslateX(x) && (property == "motion-transform-3d-translate-x"@)
    ||| op == Css3dOp::TranslateY(x) && (property == "motion-transform-3d-translate-y"@)
    ||| op == Css3dOp::TranslateZ(x) && (property == "motion-transform-3d-translate-z"@)
    ||| op == Css3dOp::TranslateXPercent(x) && (property == "motion-transform-3d-translate-x-percent"@)
    ||| op == Css3dOp::TranslateYPercent(x) && (property == "motion-transform-3d-translate-y-percent"@)
    ||| op == Css3dOp::RotateX(x) && (property == "motion-transform-3d-rotate-x"@ || property == "rotate-x"@)
    ||| op == Css3dOp::RotateY(x) && (property == "motion-transform-3d-rotate-y"@ || property == "rotate-y"@)
    ||| op == Css3dOp::RotateZ(x) && (property == "motion-transform-3d-rotate-z"@)
    ||| op == Css3dOp::ScaleX(x) && (property == "motion-transform-3d-scale-x"@)
    ||| op == Css3dOp::ScaleY(x) && (property == "motion-transform-3d-scale-y"@)
    ||| op == Css3dOp::ScaleZ(x) && (property == "motion-transform-3d-scale-z"@)
}

/// Whether a property names a transform of one number.
pub open spec fn is_transform(property: Seq<char>) -> bool {
    ||| property == "motion-transform-3d-translate-x"@
    ||| property == "motion-transform-3d-translate-y"@
    ||| property == "motion-transform-3d-translate-z"@
    ||| property == "motion-transform-3d-translate-x-percent"@
    ||| property == "motion-transform-3d-translate-y-percent"@
    ||| property == "motion-transform-3d-rotate-x"@
    ||| property == "rotate-x"@
    ||| property == "motion-transform-3d-rotate-y"@
    ||| property == "rotate-y"@
    ||| property == "motion-transform-3d-rotate-z"@
    ||| property == "motion-transform-3d-scale-x"@
    ||| property == "motion-transform-3d-scale-y"@
    ||| property == "motion-transform-3d-scale-z"@
}

proof fn transforms_are_named(property: Seq<char>, x: Scalar, op: Css3dOp)
    ensures
        is_transform(property) <==> op_kind(property) is Some,
        is_transform(property) && op == op_kind(property)->0.with(x) ==> stands_for(property, x, op),
{
    property_names();
}

/// Whether a style before `i` has a name and a number this frame.
pub open spec fn told_before(
    node: SceneNode,
    values: Seq<Value>,
    at: int,
    i: int,
    property: Seq<char>,
    x: Scalar,
) -> bool {
    exists|j: int| j < i && #[trigger] says(node, values, at, j, property, Value::Number(x))
}

proof fn told_earlier(
    node: SceneNode,
    values: Seq<Value>,
    at: int,
    i: int,
    property: Seq<char>,
    x: Scalar,
)
    requires
        told_before(node, values, at, i, property, x),
    ensures
        told_before(node, values, at, i + 1, property, x),
{
    let j = choose|j: int| j < i && #[trigger] says(node, values, at, j, property, Value::Number(x));
    assert(says(node, values, at, j, property, Value::Number(x)));
}

/// Whether style `i` names a transform with its number.
pub open spec fn transforms_by(
    node: SceneNode,
    values: Seq<Value>,
    at: int,
    i: int,
    op: Css3dOp,
) -> bool {
    0 <= i < node.styles@.len() && exists|x: Scalar| #[trigger]
        stands_for(node.styles@[i].property@, x, op) && says(
            node,
            values,
            at,
            i,
            node.styles@[i].property@,
            Value::Number(x),
        )
}

/// Whether an operation comes from style `i`: a transform of its number, or a rotation about an axis by
/// its angle, the axis told by styles before it.
pub open spec fn comes_from(
    node: SceneNode,
    values: Seq<Value>,
    at: int,
    i: int,
    op: Css3dOp,
) -> bool {
    match op {
        Css3dOp::RotateAxis { x, y, z, degrees } => {
            &&& says(
                node,
                values,
                at,
                i,
                "motion-transform-3d-rotate-axis-angle"@,
                Value::Number(degrees),
            )
            &&& told_before(node, values, at, i, "motion-transform-3d-rotate-axis-x"@, x)
            &&& told_before(node, values, at, i, "motion-transform-3d-rotate-axis-y"@, y)
            &&& told_before(node, values, at, i, "motion-transform-3d-rotate-axis-z"@, z)
        },
        _ => transforms_by(node, values, at, i, op),
    }
}

/// Whether style `i` adds an operation.
pub open spec fn adds_operation(node: SceneNode, i: int) -> bool {
    is_transform(node.styles@[i].property@) || node.styles@[i].property@
        == "motion-transform-3d-rotate-axis-angle"@
}

/// Whether every operation comes from its style.
pub open spec fn each_comes(
    node: SceneNode,
    values: Seq<Value>,
    at: int,
    n: int,
    ops: Seq<Css3dOp>,
    from: Seq<int>,
) -> bool {
    from.len() == ops.len() && forall|k: int|
        0 <= k < ops.len() ==> (#[trigger] from[k]) >= 0 && from[k] < n && comes_from(
            node,
            values,
            at,
            from[k],
            ops[k],
        )
}

/// Whether positions increase.
pub open spec fn increasing(from: Seq<int>) -> bool {
    forall|k: int, l: int| 0 <= k < l < from.len() ==> #[trigger] from[k] < #[trigger] from[l]
}

/// Whether no style that adds an operation is left out.
pub open spec fn none_left_out(node: SceneNode, n: int, from: Seq<int>) -> bool {
    forall|i: int| 0 <= i < n && #[trigger] adds_operation(node, i) ==> from.contains(i)
}

/// Whether operations come from styles of a node, in the order of the styles, one from each that adds
/// one.
pub open spec fn come_in_order(
    node: SceneNode,
    values: Seq<Value>,
    at: int,
    n: int,
    ops: Seq<Css3dOp>,
    from: Seq<int>,
) -> bool {
    each_comes(node, values, at, n, ops, from) && increasing(from) && none_left_out(node, n, from)
}

/// What is known of a style as far as it has been read.
spec fn well_read(node: SceneNode, values: Seq<Value>, at: int, n: int, r: Reading) -> bool {
    &&& exists|from: Seq<int>| #[trigger] come_in_order(node, values, at, n, r.style.ops, from)
    &&& r.axis.x matches Some(x) ==> told_before(
        node,
        values,
        at,
        n,
        "motion-transform-3d-rotate-axis-x"@,
        x,
    )
    &&& r.axis.y matches Some(x) ==> told_before(
        node,
        values,
        at,
        n,
        "motion-transform-3d-rotate-axis-y"@,
        x,
    )
    &&& r.axis.z matches Some(x) ==> told_before(
        node,
        values,
        at,
        n,
        "motion-transform-3d-rotate-axis-z"@,
        x,
    )
}

spec fn extended(ops: Seq<Css3dOp>, more: Option<Css3dOp>) -> Seq<Css3dOp> {
    match more {
        Some(op) => ops.push(op),
        None => ops,
    }
}

proof fn order_extends(
    node: SceneNode,
    values: Seq<Value>,
    at: int,
    n: int,
    ops: Seq<Css3dOp>,
    from: Seq<int>,
    more: Option<Css3dOp>,
)
    requires
        0 <= n < node.styles@.len(),
        come_in_order(node, values, at, n, ops, from),
        more is Some <==> adds_operation(node, n),
        more matches Some(op) ==> comes_from(node, values, at, n, op),
    ensures
        exists|f: Seq<int>| #[trigger]
            come_in_order(node, values, at, n + 1, extended(ops, more), f),
{
    match more {
        None => {
            assert(each_comes(node, values, at, n + 1, ops, from));
            assert forall|i: int| 0 <= i < n + 1 && #[trigger] adds_operation(
                node,
                i,
            ) implies from.contains(i) by {
                assert(i != n);
            }
            assert(none_left_out(node, n + 1, from));
            assert(come_in_order(node, values, at, n + 1, extended(ops, more), from));
        },
        Some(op) => {
            let f = from.push(n);
            let all = ops.push(op);
            assert forall|k: int| 0 <= k < all.len() implies (#[trigger] f[k]) >= 0 && f[k] < n + 1
                && comes_from(node, values, at, f[k], all[k]) by {
                if k < ops.len() {
                    assert(f[k] == from[k]);
                }
            }
            assert(each_comes(node, values, at, n + 1, all, f));
            assert forall|k: int, l: int| 0 <= k < l < f.len() implies #[trigger] f[k]
                < #[trigger] f[l] by {
                assert(from[k] < n);
                if l < from.len() {
                    assert(from[k] < from[l]);
                }
            }
            assert(increasing(f));
            assert forall|i: int| 0 <= i < n + 1 && #[trigger] adds_operation(
                node,
                i,
            ) implies f.contains(i) by {
                if i < n {
                    assert(from.contains(i));
                    let k = choose|k: int| 0 <= k < from.len() && from[k] == i;
                    assert(f[k] == i);
                } else {
                    assert(f[from.len() as int] == i);
                }
            }
            assert(none_left_out(node, n + 1, f));
            assert(come_in_order(node, values, at, n + 1, extended(ops, more), f));
        },
    }
}

#[verifier::rlimit(60)]
#[verifier::spinoff_prover]
proof fn reading_keeps_order(node: SceneNode, values: Seq<Value>, at: int, n: nat)
    requires
        n <= node.styles@.len(),
        reading(node, values, at, n) is Ok,
    ensures
        well_read(node, values, at, n as int, reading(node, values, at, n)->Ok_0),
    decreases n,
{
    if n == 0 {
        let none: Seq<int> = Seq::empty();
        assert(come_in_order(node, values, at, 0, unread().style.ops, none));
    } else {
        let m = (n - 1) as nat;
        reading_keeps_order(node, values, at, m);
        let r = reading(node, values, at, m)->Ok_0;
        let next = reading(node, values, at, n)->Ok_0;
        let property = node.styles@[m as int].property@;
        let v = style_valued(node.styles@[m as int].value, values, at)->Ok_0;
        let from = choose|from: Seq<int>| #[trigger]
            come_in_order(node, values, at, m as int, r.style.ops, from);
        property_names();
        assert(says(node, values, at, m as int, property, v));
        if let Value::Number(x) = v {
            if is_transform(property) {
                let op = op_kind(property)->0.with(x);
                transforms_are_named(property, x, op);
                assert(stands_for(property, x, op));
                assert(transforms_by(node, values, at, m as int, op));
                assert(comes_from(node, values, at, m as int, op));
                order_extends(node, values, at, m as int, r.style.ops, from, Some(op));
                assert(next.style.ops == extended(r.style.ops, Some(op)));
            }
        }
        transforms_are_named(property, num(ZERO), Css3dOp::RotateX(num(ZERO)));
        if property == "motion-transform-3d-rotate-axis-angle"@ {
            assert(op_kind(property) is None && axis_of(property) is None && origin_of(
                property,
            ) is None);
            assert(read_step(r, property, v, node.key@) == axis_turn(r, v, node.key@));
            let op = Css3dOp::RotateAxis {
                x: r.axis.x->0,
                y: r.axis.y->0,
                z: r.axis.z->0,
                degrees: v->Number_0,
            };
            assert(next.style.ops == r.style.ops.push(op));
            assert(comes_from(node, values, at, m as int, op));
            order_extends(node, values, at, m as int, r.style.ops, from, Some(op));
            assert(next.style.ops == extended(r.style.ops, Some(op)));
        } else if !is_transform(property) {
            order_extends(node, values, at, m as int, r.style.ops, from, None);
            assert(next.style.ops == extended(r.style.ops, None));
        }
        if next.axis.x is Some && next.axis.x != r.axis.x {
            let x = next.axis.x->0;
            assert(says(
                node,
                values,
                at,
                m as int,
                "motion-transform-3d-rotate-axis-x"@,
                Value::Number(x),
            ));
            assert(told_before(
                node,
                values,
                at,
                n as int,
                "motion-transform-3d-rotate-axis-x"@,
                x,
            ));
        } else if next.axis.x is Some {
            told_earlier(
                node,
                values,
                at,
                m as int,
                "motion-transform-3d-rotate-axis-x"@,
                next.axis.x->0,
            );
        }
        if next.axis.y is Some && next.axis.y != r.axis.y {
            let x = next.axis.y->0;
            assert(says(
                node,
                values,
                at,
                m as int,
                "motion-transform-3d-rotate-axis-y"@,
                Value::Number(x),
            ));
            assert(told_before(
                node,
                values,
                at,
                n as int,
                "motion-transform-3d-rotate-axis-y"@,
                x,
            ));
        } else if next.axis.y is Some {
            told_earlier(
                node,
                values,
                at,
                m as int,
                "motion-transform-3d-rotate-axis-y"@,
                next.axis.y->0,
            );
        }
        if next.axis.z is Some && next.axis.z != r.axis.z {
            let x = next.axis.z->0;
            assert(says(
                node,
                values,
                at,
                m as int,
                "motion-transform-3d-rotate-axis-z"@,
                Value::Number(x),
            ));
            assert(told_before(
                node,
                values,
                at,
                n as int,
                "motion-transform-3d-rotate-axis-z"@,
                x,
            ));
        } else if next.axis.z is Some {
            told_earlier(
                node,
                values,
                at,
                m as int,
                "motion-transform-3d-rotate-axis-z"@,
                next.axis.z->0,
            );
        }
    }
}

/// The operations of a node are those of its transform styles, in their order: each named transform with
/// its number, each angle with the axis told before it, and nothing else.
pub proof fn transforms_follow_their_styles(node: SceneNode, values: Seq<Value>, at: int)
    requires
        css_3d_of(node, values, at) is Ok,
    ensures
        exists|from: Seq<int>| #[trigger]
            come_in_order(
                node,
                values,
                at,
                node.styles@.len() as int,
                css_3d_of(node, values, at)->Ok_0.ops,
                from,
            ),
{
    reading_keeps_order(node, values, at, node.styles@.len());
}

/// A node whose only style is `motion-transform-3d-translate-x` has that one transform.
pub proof fn a_long_translate_x_is_one_transform(
    node: SceneNode,
    values: Seq<Value>,
    at: int,
    x: Scalar,
)
    requires
        node.styles@.len() == 1,
        says(node, values, at, 0, "motion-transform-3d-translate-x"@, Value::Number(x)),
        x.finite(),
    ensures
        css_3d_of(node, values, at) matches Ok(style) && style.ops == seq![Css3dOp::TranslateX(x)],
{
    property_names();
    reveal_with_fuel(reading, 2);
    assert(css_3d_of(node, values, at)->Ok_0.ops =~= seq![Css3dOp::TranslateX(x)]);
}

/// A node whose only style is `motion-transform-3d-translate-y` has that one transform.
pub proof fn a_long_translate_y_is_one_transform(
    node: SceneNode,
    values: Seq<Value>,
    at: int,
    x: Scalar,
)
    requires
        node.styles@.len() == 1,
        says(node, values, at, 0, "motion-transform-3d-translate-y"@, Value::Number(x)),
        x.finite(),
    ensures
        css_3d_of(node, values, at) matches Ok(style) && style.ops == seq![Css3dOp::TranslateY(x)],
{
    property_names();
    reveal_with_fuel(reading, 2);
    assert(css_3d_of(node, values, at)->Ok_0.ops =~= seq![Css3dOp::TranslateY(x)]);
}

/// A node whose only style is `motion-transform-3d-translate-z` has that one transform.
pub proof fn a_long_translate_z_is_one_transform(
    node: SceneNode,
    values: Seq<Value>,
    at: int,
    x: Scalar,
)
    requires
        node.styles@.len() == 1,
        says(node, values, at, 0, "motion-transform-3d-translate-z"@, Value::Number(x)),
        x.finite(),
    ensures
        css_3d_of(node, values, at) matches Ok(style) && style.ops == seq![Css3dOp::TranslateZ(x)],
{
    property_names();
    reveal_with_fuel(reading, 2);
    assert(css_3d_of(node, values, at)->Ok_0.ops =~= seq![Css3dOp::TranslateZ(x)]);
}

/// A node whose only style is `motion-transform-3d-translate-x-percent` has that one transform.
pub proof fn a_long_translate_x_percent_is_one_transform(
    node: SceneNode,
    values: Seq<Value>,
    at: int,
    x: Scalar,
)
    requires
        node.styles@.len() == 1,
        says(node, values, at, 0, "motion-transform-3d-translate-x-percent"@, Value::Number(x)),
        x.finite(),
    ensures
        css_3d_of(node, values, at) matches Ok(style) && style.ops == seq![Css3dOp::TranslateXPercent(x)],
{
    property_names();
    reveal_with_fuel(reading, 2);
    assert(css_3d_of(node, values, at)->Ok_0.ops =~= seq![Css3dOp::TranslateXPercent(x)]);
}

/// A node whose only style is `motion-transform-3d-translate-y-percent` has that one transform.
pub proof fn a_long_translate_y_percent_is_one_transform(
    node: SceneNode,
    values: Seq<Value>,
    at: int,
    x: Scalar,
)
    requires
        node.styles@.len() == 1,
        says(node, values, at, 0, "motion-transform-3d-translate-y-percent"@, Value::Number(x)),
        x.finite(),
    ensures
        css_3d_of(node, values, at) matches Ok(style) && style.ops == seq![Css3dOp::TranslateYPercent(x)],
{
    property_names();
    reveal_with_fuel(reading, 2);
    assert(css_3d_of(node, values, at)->Ok_0.ops =~= seq![Css3dOp::TranslateYPercent(x)]);
}

/// A node whose only style is `motion-transform-3d-rotate-x` has that one transform.
pub proof fn a_long_rotate_x_is_one_transform(
    node: SceneNode,
    values: Seq<Value>,
    at: int,
    x: Scalar,
)
    requires
        node.styles@.len() == 1,
        says(node, values, at, 0, "motion-transform-3d-rotate-x"@, Value::Number(x)),
        x.finite(),
    ensures
        css_3d_of(node, values, at) matches Ok(style) && style.ops == seq![Css3dOp::RotateX(x)],
{
    property_names();
    reveal_with_fuel(reading, 2);
    assert(css_3d_of(node, values, at)->Ok_0.ops =~= seq![Css3dOp::RotateX(x)]);
}

/// A node whose only style is `rotate-x` has that one transform.
pub proof fn a_rotate_x_is_one_transform(node: SceneNode, values: Seq<Value>, at: int, x: Scalar)
    requires
        node.styles@.len() == 1,
        says(node, values, at, 0, "rotate-x"@, Value::Number(x)),
        x.finite(),
    ensures
        css_3d_of(node, values, at) matches Ok(style) && style.ops == seq![Css3dOp::RotateX(x)],
{
    property_names();
    reveal_with_fuel(reading, 2);
    assert(css_3d_of(node, values, at)->Ok_0.ops =~= seq![Css3dOp::RotateX(x)]);
}

/// A node whose only style is `motion-transform-3d-rotate-y` has that one transform.
pub proof fn a_long_rotate_y_is_one_transform(
    node: SceneNode,
    values: Seq<Value>,
    at: int,
    x: Scalar,
)
    requires
        node.styles@.len() == 1,
        says(node, values, at, 0, "motion-transform-3d-rotate-y"@, Value::Number(x)),
        x.finite(),
    ensures
        css_3d_of(node, values, at) matches Ok(style) && style.ops == seq![Css3dOp::RotateY(x)],
{
    property_names();
    reveal_with_fuel(reading, 2);
    assert(css_3d_of(node, values, at)->Ok_0.ops =~= seq![Css3dOp::RotateY(x)]);
}

/// A node whose only style is `rotate-y` has that one transform.
pub proof fn a_rotate_y_is_one_transform(node: SceneNode, values: Seq<Value>, at: int, x: Scalar)
    requires
        node.styles@.len() == 1,
        says(node, values, at, 0, "rotate-y"@, Value::Number(x)),
        x.finite(),
    ensures
        css_3d_of(node, values, at) matches Ok(style) && style.ops == seq![Css3dOp::RotateY(x)],
{
    property_names();
    reveal_with_fuel(reading, 2);
    assert(css_3d_of(node, values, at)->Ok_0.ops =~= seq![Css3dOp::RotateY(x)]);
}

/// A node whose only style is `motion-transform-3d-rotate-z` has that one transform.
pub proof fn a_long_rotate_z_is_one_transform(
    node: SceneNode,
    values: Seq<Value>,
    at: int,
    x: Scalar,
)
    requires
        node.styles@.len() == 1,
        says(node, values, at, 0, "motion-transform-3d-rotate-z"@, Value::Number(x)),
        x.finite(),
    ensures
        css_3d_of(node, values, at) matches Ok(style) && style.ops == seq![Css3dOp::RotateZ(x)],
{
    property_names();
    reveal_with_fuel(reading, 2);
    assert(css_3d_of(node, values, at)->Ok_0.ops =~= seq![Css3dOp::RotateZ(x)]);
}

/// A node whose only style is `motion-transform-3d-scale-x` has that one transform.
pub proof fn a_long_scale_x_is_one_transform(
    node: SceneNode,
    values: Seq<Value>,
    at: int,
    x: Scalar,
)
    requires
        node.styles@.len() == 1,
        says(node, values, at, 0, "motion-transform-3d-scale-x"@, Value::Number(x)),
        x.finite(),
    ensures
        css_3d_of(node, values, at) matches Ok(style) && style.ops == seq![Css3dOp::ScaleX(x)],
{
    property_names();
    reveal_with_fuel(reading, 2);
    assert(css_3d_of(node, values, at)->Ok_0.ops =~= seq![Css3dOp::ScaleX(x)]);
}

/// A node whose only style is `motion-transform-3d-scale-y` has that one transform.
pub proof fn a_long_scale_y_is_one_transform(
    node: SceneNode,
    values: Seq<Value>,
    at: int,
    x: Scalar,
)
    requires
        node.styles@.len() == 1,
        says(node, values, at, 0, "motion-transform-3d-scale-y"@, Value::Number(x)),
        x.finite(),
    ensures
        css_3d_of(node, values, at) matches Ok(style) && style.ops == seq![Css3dOp::ScaleY(x)],
{
    property_names();
    reveal_with_fuel(reading, 2);
    assert(css_3d_of(node, values, at)->Ok_0.ops =~= seq![Css3dOp::ScaleY(x)]);
}

/// A node whose only style is `motion-transform-3d-scale-z` has that one transform.
pub proof fn a_long_scale_z_is_one_transform(
    node: SceneNode,
    values: Seq<Value>,
    at: int,
    x: Scalar,
)
    requires
        node.styles@.len() == 1,
        says(node, values, at, 0, "motion-transform-3d-scale-z"@, Value::Number(x)),
        x.finite(),
    ensures
        css_3d_of(node, values, at) matches Ok(style) && style.ops == seq![Css3dOp::ScaleZ(x)],
{
    property_names();
    reveal_with_fuel(reading, 2);
    assert(css_3d_of(node, values, at)->Ok_0.ops =~= seq![Css3dOp::ScaleZ(x)]);
}

/// Whether a word is what the last style under a property says, where there is one.
pub open spec fn last_says(
    node: SceneNode,
    values: Seq<Value>,
    at: int,
    i: int,
    property: Seq<char>,
    v: Value,
) -> bool {
    says(node, values, at, i, property, v) && forall|j: int|
        i < j < node.styles@.len() ==> (#[trigger] node.styles@[j]).property@ != property
}

#[verifier::rlimit(60)]
#[verifier::spinoff_prover]
proof fn later_styles_leave_it(node: SceneNode, values: Seq<Value>, at: int, i: int, n: nat)
    requires
        0 <= i < n <= node.styles@.len(),
        reading(node, values, at, n) is Ok,
    ensures
        reading(node, values, at, (i + 1) as nat) is Ok,
        ({
            let then = reading(node, values, at, (i + 1) as nat)->Ok_0.style;
            let now = reading(node, values, at, n)->Ok_0.style;
            let quiet = |property: Seq<char>|
                forall|j: int| i < j < n ==> (#[trigger] node.styles@[j]).property@ != property;
            &&& quiet("transform-style"@) ==> now.preserve_3d == then.preserve_3d
            &&& quiet("backface-visibility"@) ==> now.backface_hidden == then.backface_hidden
            &&& quiet("perspective"@) ==> now.perspective == then.perspective
            &&& quiet("transform-origin"@) ==> now.transform_origin == then.transform_origin
        }),
    decreases n,
{
    property_names();
    if i + 1 < n {
        later_styles_leave_it(node, values, at, i, (n - 1) as nat);
        let p = node.styles@[n - 1].property@;
    }
}

/// The words of a 3D style: `preserve-3d` shares a space, `hidden` hides back faces, a perspective is the
/// length it is given, and so is a transform origin. The last style under a name counts.
#[verifier::rlimit(60)]
#[verifier::spinoff_prover]
pub proof fn words_mean_what_they_say(
    node: SceneNode,
    values: Seq<Value>,
    at: int,
    i: int,
    v: Value,
    word: Seq<char>,
    l: Length2,
    x: Scalar,
)
    requires
        css_3d_of(node, values, at) is Ok,
    ensures
        ({
            let style = css_3d_of(node, values, at)->Ok_0;
            &&& last_says(node, values, at, i, "transform-style"@, Value::Enum(word)) ==> (
            style.preserve_3d <==> word == "preserve-3d"@)
            &&& last_says(node, values, at, i, "backface-visibility"@, Value::Enum(word)) ==> (
            style.backface_hidden <==> word == "hidden"@)
            &&& last_says(node, values, at, i, "transform-origin"@, Value::Length2(l)) ==> (
            style.transform_origin == Some(l))
            &&& last_says(node, values, at, i, "perspective"@, Value::Number(x)) ==> (
            style.perspective == Some(PerspectiveLength::Px(x)) && num(ZERO).order() < x.order())
        }),
{
    property_names();
    if 0 <= i < node.styles@.len() {
        later_styles_leave_it(node, values, at, i, node.styles@.len());
    }
}

/// A plane faces away, or is seen edge-on, exactly where it is hidden: a back face only where the style
/// hides it. Its depth is that of its center.
pub proof fn planes_show_their_front(
    style: Styled3d,
    inherited: bool,
    rect: Rect,
    facts: PlaneFacts,
    node: Seq<char>,
)
    requires
        !style.preserve_3d,
        inherited || style.ops.len() > 0 || style.backface_hidden,
        num(ZERO).order() < rect.width.order() && rect.width.finite(),
        num(ZERO).order() < rect.height.order() && rect.height.finite(),
        facts.corners,
        facts.distances is None,
        facts.depth is Some,
        facts.signed_area.finite(),
    ensures
        plane_of(style, inherited, rect, facts, node) matches Ok(
            PlaneRecord::Projected { depth, hidden },
        ) && depth == facts.depth->0 && (hidden <==> facts.signed_area.magnitude()
            <= crate::planes::MIN_AREA || (style.backface_hidden && facts.signed_area.order() < 0)),
{
}

/// A node without area, or without anything that makes it a plane, is flat.
pub proof fn nodes_without_transform_are_flat(
    style: Styled3d,
    rect: Rect,
    facts: PlaneFacts,
    node: Seq<char>,
)
    requires
        style.ops.len() == 0,
        !style.backface_hidden,
    ensures
        plane_of(style, false, rect, facts, node) == Ok::<PlaneRecord, LayoutFault>(
            PlaneRecord::Flat,
        ),
{
}

/// A node that shares its space keeps its depth among its siblings and is not projected itself; a plane
/// is projected with its corners, and hidden only where its record says so.
pub proof fn records_are_placed(
    depth: Scalar,
    hidden: bool,
    quad: crate::glass_frame::Quad,
)
    ensures
        placed(PlaneRecord::Flat, quad) is None,
        placed(PlaneRecord::Projected { depth, hidden }, quad) matches Some(p) && p.depth == depth
            && p.hidden == hidden && p.project && p.quad == quad,
        placed(PlaneRecord::Depth { depth }, quad) matches Some(p) && p.depth == depth && !p.hidden
            && !p.project,
{
}

/// A plane that comes near the camera is refused.
pub proof fn planes_stay_before_the_camera(
    style: Styled3d,
    inherited: bool,
    rect: Rect,
    facts: PlaneFacts,
    node: Seq<char>,
    a: Scalar,
    b: Scalar,
    c: Scalar,
    d: Scalar,
)
    requires
        facts.distances == Some((a, b, c, d)),
        !(num(crate::planes::NEAR).lt_spec(a) && num(crate::planes::NEAR).lt_spec(b) && num(
            crate::planes::NEAR,
        ).lt_spec(c) && num(crate::planes::NEAR).lt_spec(d)),
    ensures
        !(plane_of(style, inherited, rect, facts, node) matches Ok(PlaneRecord::Projected { .. })),
{
}

/// Transform functions multiply from left to right: the matrix of a list is that of the list without its
/// last function, times that function. A list of none is the identity.
pub proof fn functions_multiply_in_order<M: Fn(&MatrixStep) -> Matrix4>(
    matrix: M,
    ops: Seq<Css3dOp>,
    last: Css3dOp,
    rect: Rect,
)
    ensures
        functions(matrix, Seq::empty(), rect, 0) == product(matrix, MatrixStep::Identity),
        functions(matrix, ops.push(last), rect, (ops.len() + 1) as nat) == product(
            matrix,
            MatrixStep::Function {
                matrix: functions(matrix, ops, rect, ops.len()),
                op: last,
                rect,
            },
        ),
{
    functions_read_prefixes(matrix, ops, last, rect, ops.len());
}

proof fn functions_read_prefixes<M: Fn(&MatrixStep) -> Matrix4>(
    matrix: M,
    ops: Seq<Css3dOp>,
    last: Css3dOp,
    rect: Rect,
    n: nat,
)
    requires
        n <= ops.len(),
    ensures
        functions(matrix, ops.push(last), rect, n) == functions(matrix, ops, rect, n),
    decreases n,
{
    if n > 0 {
        functions_read_prefixes(matrix, ops, last, rect, (n - 1) as nat);
    }
}

/// A transform turns about its origin. In a shared space it comes after the transform of the space: the
/// matrix of the space is the left factor.
pub proof fn shared_spaces_come_first<M: Fn(&MatrixStep) -> Matrix4>(
    matrix: M,
    style: Styled3d,
    origin: Point,
    rect: Rect,
    state: Css3dState,
    local: Matrix4,
)
    requires
        local == product(
            matrix,
            MatrixStep::Centered {
                matrix: functions(matrix, style.ops, rect, style.ops.len()),
                origin,
            },
        ),
    ensures
        !state.preserve_3d ==> node_matrix(matrix, style, origin, rect, state) == local,
        state.preserve_3d ==> node_matrix(matrix, style, origin, rect, state) == product(
            matrix,
            MatrixStep::Product { left: state.matrix, right: local },
        ),
{
}

/// A node that preserves 3D hands its own matrix and perspective down; another one hands down its
/// perspective alone, and only if it has one of its own.
pub proof fn spaces_are_handed_down<M: Fn(&MatrixStep) -> Matrix4>(
    matrix: M,
    style: Styled3d,
    own: Matrix4,
    perspective: Option<Css3dPerspective>,
)
    ensures
        ({
            let below = child_state(matrix, style, own, perspective);
            &&& below.preserve_3d == style.preserve_3d
            &&& style.preserve_3d ==> below.matrix == own && below.perspective == perspective
            &&& !style.preserve_3d ==> below.matrix == product(matrix, MatrixStep::Identity)
            &&& !style.preserve_3d && style.perspective is Some ==> below.perspective == perspective
            &&& !style.preserve_3d && style.perspective is None ==> below.perspective is None
        }),
{
}

} // verus!
