//! What evaluation means, expression by expression: the value of each is told from the values of its
//! operands, or from the one question that the host is asked.

use vstd::prelude::*;

use crate::blend::number_told;
use crate::eval::{
    answers, compared, concat, gives, interpolation, numbers, pieces, plan, points, segment_at,
    segment_gives, segment_step, writes, writes_piece, EvalInputs, Kernel, KernelError,
    LayoutInputs, Piece, Stop, Task,
};
use crate::expr::{
    CompareOp, ContextInput, CueField, Expr, ExprId, Extrapolation, GeometryField, InterpolateStop,
    MathBinaryOp, MathUnaryOp, NumberFormat, PhaseKind, TemplatePart,
};
use crate::faults::Fault;
use crate::path::{Path, PathVerb};
use crate::recording::{Point, Rect};
use crate::scalar::{num, Scalar, SIGN, ZERO};
use crate::table::{find, first_at, first_at_is_least, Entry};
use crate::value::{token_written, Length, Length2, LengthUnit, MotionEasing, MotionValue, Value};

verus! {

/// Whether `r` is a possible result of evaluating expression `at`, with the values of the earlier ones
/// known.
pub open spec fn evaluates<
    K: Fn(&Kernel) -> Result<MotionValue, KernelError>,
    T: Fn(&MotionValue) -> String,
>(
    host: K,
    tokens: T,
    at: int,
    e: Expr,
    done: Seq<Value>,
    inputs: EvalInputs,
    layout: LayoutInputs,
    r: Result<Value, Fault>,
) -> bool {
    gives(host, tokens, at, plan(at, e, done, inputs, layout), r)
}

/// Whether `r` is what the host answers to a task: its value, or its failure as one of expression `at`.
pub open spec fn hosted<K: Fn(&Kernel) -> Result<MotionValue, KernelError>>(
    host: K,
    at: int,
    k: Kernel,
    r: Result<Value, Fault>,
) -> bool {
    exists|out: Result<MotionValue, KernelError>| #[trigger]
        call_ensures(host, (&k,), out) && match out {
            Ok(v) => r == Ok::<Value, Fault>(v@),
            Err(KernelError::Geometry(g)) => r == Err::<Value, Fault>(Fault::BadGeometry(at, g)),
            Err(KernelError::Domain) => r matches Err(Fault::BuiltinDomain(x, _)) && x == at,
        }
}

/// The first of two numbers.
pub open spec fn width_of(v: (Scalar, Scalar)) -> Scalar {
    let (width, height) = v;
    width
}

/// The second of two numbers.
pub open spec fn height_of(v: (Scalar, Scalar)) -> Scalar {
    let (width, height) = v;
    height
}

/// Whether entry `i` is the first of a table under a name.
pub open spec fn stands_under<V>(table: Seq<Entry<V>>, name: Seq<char>, i: int) -> bool {
    &&& 0 <= i < table.len()
    &&& table[i].key@ == name
    &&& forall|j: int| 0 <= j < i ==> (#[trigger] table[j]).key@ != name
}

proof fn entries_are_found<V>(table: Seq<Entry<V>>, name: Seq<char>, i: int)
    requires
        stands_under(table, name, i),
    ensures
        find(table, name) == Some(table[i].value),
{
    first_at_is_least(table, name, table.len());
    let k = first_at(table, name, table.len()) as int;
    if k < i {
        assert(table[k].key@ != name);
    }
}

proof fn nothing_is_found<V>(table: Seq<Entry<V>>, name: Seq<char>)
    requires
        forall|j: int| 0 <= j < table.len() ==> (#[trigger] table[j]).key@ != name,
    ensures
        find(table, name) is None,
{
    first_at_is_least(table, name, table.len());
}

/// Whether the value of an expression is this number.
pub open spec fn is_number(done: Seq<Value>, id: ExprId, x: Scalar) -> bool {
    id.0 < done.len() && done[id.0 as int] == Value::Number(x)
}

/// Whether the value of an expression is this point.
pub open spec fn is_point(done: Seq<Value>, id: ExprId, p: Point) -> bool {
    id.0 < done.len() && done[id.0 as int] == Value::Point(p)
}

/// Whether the value of an expression is this path.
pub open spec fn is_path(done: Seq<Value>, id: ExprId, p: Path) -> bool {
    id.0 < done.len() && done[id.0 as int] == Value::PathData(p)
}

/// The host is asked for the sum of the two operands, in their order.
pub proof fn sums_add<
    K: Fn(&Kernel) -> Result<MotionValue, KernelError>,
    T: Fn(&MotionValue) -> String,
>(
    host: K,
    tokens: T,
    at: int,
    e: Expr,
    done: Seq<Value>,
    inputs: EvalInputs,
    layout: LayoutInputs,
    r: Result<Value, Fault>,
    lhs: ExprId,
    rhs: ExprId,
    a: Scalar,
    b: Scalar,
)
    requires
        e == (Expr::Add { lhs, rhs }),
        is_number(done, lhs, a),
        is_number(done, rhs, b),
        evaluates(host, tokens, at, e, done, inputs, layout, r),
    ensures
        exists|k: Kernel| #[trigger]
            hosted(host, at, k, r) && (k matches Kernel::Add { a: x, b: y } && x == a && y == b),
{
    reveal_with_fuel(numbers, 5);
    reveal_with_fuel(points, 5);
    let task = plan(at, e, done, inputs, layout)->Ask_0;
    let out = choose|out: Result<Value, KernelError>| #[trigger]
        answers(host, task, out) && r == crate::eval::settled(
            at,
            plan(at, e, done, inputs, layout)->Ask_1,
            out,
        );
    let (k, given) = choose|k: Kernel, given: Result<MotionValue, KernelError>| #[trigger]
        call_ensures(host, (&k,), given) && k@ == task && crate::eval::answer_seen(given) == out;
    assert(hosted(host, at, k, r));
}

/// The host is asked for the difference of the two operands, in their order.
pub proof fn differences_subtract<
    K: Fn(&Kernel) -> Result<MotionValue, KernelError>,
    T: Fn(&MotionValue) -> String,
>(
    host: K,
    tokens: T,
    at: int,
    e: Expr,
    done: Seq<Value>,
    inputs: EvalInputs,
    layout: LayoutInputs,
    r: Result<Value, Fault>,
    lhs: ExprId,
    rhs: ExprId,
    a: Scalar,
    b: Scalar,
)
    requires
        e == (Expr::Sub { lhs, rhs }),
        is_number(done, lhs, a),
        is_number(done, rhs, b),
        evaluates(host, tokens, at, e, done, inputs, layout, r),
    ensures
        exists|k: Kernel| #[trigger]
            hosted(host, at, k, r) && (k matches Kernel::Sub { a: x, b: y } && x == a && y == b),
{
    reveal_with_fuel(numbers, 5);
    reveal_with_fuel(points, 5);
    let task = plan(at, e, done, inputs, layout)->Ask_0;
    let out = choose|out: Result<Value, KernelError>| #[trigger]
        answers(host, task, out) && r == crate::eval::settled(
            at,
            plan(at, e, done, inputs, layout)->Ask_1,
            out,
        );
    let (k, given) = choose|k: Kernel, given: Result<MotionValue, KernelError>| #[trigger]
        call_ensures(host, (&k,), given) && k@ == task && crate::eval::answer_seen(given) == out;
    assert(hosted(host, at, k, r));
}

/// The host is asked for the product of the two operands, in their order.
pub proof fn products_multiply<
    K: Fn(&Kernel) -> Result<MotionValue, KernelError>,
    T: Fn(&MotionValue) -> String,
>(
    host: K,
    tokens: T,
    at: int,
    e: Expr,
    done: Seq<Value>,
    inputs: EvalInputs,
    layout: LayoutInputs,
    r: Result<Value, Fault>,
    lhs: ExprId,
    rhs: ExprId,
    a: Scalar,
    b: Scalar,
)
    requires
        e == (Expr::Mul { lhs, rhs }),
        is_number(done, lhs, a),
        is_number(done, rhs, b),
        evaluates(host, tokens, at, e, done, inputs, layout, r),
    ensures
        exists|k: Kernel| #[trigger]
            hosted(host, at, k, r) && (k matches Kernel::Mul { a: x, b: y } && x == a && y == b),
{
    reveal_with_fuel(numbers, 5);
    reveal_with_fuel(points, 5);
    let task = plan(at, e, done, inputs, layout)->Ask_0;
    let out = choose|out: Result<Value, KernelError>| #[trigger]
        answers(host, task, out) && r == crate::eval::settled(
            at,
            plan(at, e, done, inputs, layout)->Ask_1,
            out,
        );
    let (k, given) = choose|k: Kernel, given: Result<MotionValue, KernelError>| #[trigger]
        call_ensures(host, (&k,), given) && k@ == task && crate::eval::answer_seen(given) == out;
    assert(hosted(host, at, k, r));
}

/// The host is asked for the quotient of the operands, the divisor second.
pub proof fn quotients_divide<
    K: Fn(&Kernel) -> Result<MotionValue, KernelError>,
    T: Fn(&MotionValue) -> String,
>(
    host: K,
    tokens: T,
    at: int,
    e: Expr,
    done: Seq<Value>,
    inputs: EvalInputs,
    layout: LayoutInputs,
    r: Result<Value, Fault>,
    lhs: ExprId,
    rhs: ExprId,
    a: Scalar,
    b: Scalar,
)
    requires
        e == (Expr::Div { lhs, rhs }),
        is_number(done, lhs, a),
        is_number(done, rhs, b),
        b.magnitude() != 0,
        evaluates(host, tokens, at, e, done, inputs, layout, r),
    ensures
        exists|k: Kernel| #[trigger]
            hosted(host, at, k, r) && (k matches Kernel::Div { a: x, b: y } && x == a && y == b),
{
    reveal_with_fuel(numbers, 5);
    reveal_with_fuel(points, 5);
    let task = plan(at, e, done, inputs, layout)->Ask_0;
    let out = choose|out: Result<Value, KernelError>| #[trigger]
        answers(host, task, out) && r == crate::eval::settled(
            at,
            plan(at, e, done, inputs, layout)->Ask_1,
            out,
        );
    let (k, given) = choose|k: Kernel, given: Result<MotionValue, KernelError>| #[trigger]
        call_ensures(host, (&k,), given) && k@ == task && crate::eval::answer_seen(given) == out;
    assert(hosted(host, at, k, r));
}

/// A division by zero, of either sign, fails whatever the dividend is.
pub proof fn nothing_is_divided_by_zero<
    K: Fn(&Kernel) -> Result<MotionValue, KernelError>,
    T: Fn(&MotionValue) -> String,
>(
    host: K,
    tokens: T,
    at: int,
    e: Expr,
    done: Seq<Value>,
    inputs: EvalInputs,
    layout: LayoutInputs,
    r: Result<Value, Fault>,
    lhs: ExprId,
    rhs: ExprId,
    b: Scalar,
)
    requires
        e == (Expr::Div { lhs, rhs }),
        is_number(done, rhs, b),
        b.magnitude() == 0,
        evaluates(host, tokens, at, e, done, inputs, layout, r),
    ensures
        r == Err::<Value, Fault>(Fault::DivisionByZero(at)),
{
    reveal_with_fuel(numbers, 5);
    reveal_with_fuel(points, 5);
}

/// Negation changes the sign of a number and nothing else.
pub proof fn negation_flips_the_sign<
    K: Fn(&Kernel) -> Result<MotionValue, KernelError>,
    T: Fn(&MotionValue) -> String,
>(
    host: K,
    tokens: T,
    at: int,
    e: Expr,
    done: Seq<Value>,
    inputs: EvalInputs,
    layout: LayoutInputs,
    r: Result<Value, Fault>,
    input: ExprId,
    x: Scalar,
)
    requires
        e == (Expr::Neg { input }),
        is_number(done, input, x),
        evaluates(host, tokens, at, e, done, inputs, layout, r),
    ensures
        r matches Ok(Value::Number(y)) && y.bits != x.bits && (y.bits == x.bits + SIGN || x.bits == y.bits + SIGN),
{
    reveal_with_fuel(numbers, 5);
    reveal_with_fuel(points, 5);
}

/// Two finite numbers are less, at most, greater, at least or equal as they are in order: `<` and `>`
/// exclude each other, `<=` and `>=` are their negations, and so is equality that of both.
pub proof fn comparisons_order_numbers<
    K: Fn(&Kernel) -> Result<MotionValue, KernelError>,
    T: Fn(&MotionValue) -> String,
>(
    host: K,
    tokens: T,
    at: int,
    e: Expr,
    done: Seq<Value>,
    inputs: EvalInputs,
    layout: LayoutInputs,
    r: Result<Value, Fault>,
    op: CompareOp,
    lhs: ExprId,
    rhs: ExprId,
    a: Scalar,
    b: Scalar,
)
    requires
        e == (Expr::Compare { op, lhs, rhs }),
        is_number(done, lhs, a),
        is_number(done, rhs, b),
        a.finite(),
        b.finite(),
        evaluates(host, tokens, at, e, done, inputs, layout, r),
    ensures
        r matches Ok(Value::Bool(holds)) && holds == match op {
            CompareOp::Lt => a.order() < b.order(),
            CompareOp::Gt => b.order() < a.order(),
            CompareOp::Lte => !(b.order() < a.order()),
            CompareOp::Gte => !(a.order() < b.order()),
            CompareOp::Eq => !(a.order() < b.order()) && !(b.order() < a.order()),
            CompareOp::NotEq => a.order() < b.order() || b.order() < a.order(),
        },
{
    reveal_with_fuel(numbers, 5);
    reveal_with_fuel(points, 5);
}

/// Comparing two finite numbers tells how they are in order. The same two numbers are never both less
/// and greater.
pub proof fn compared_numbers_are_ordered(at: int, a: Scalar, b: Scalar)
    requires
        a.finite(),
        b.finite(),
    ensures
        compared(at, CompareOp::Lt, Value::Number(a), Value::Number(b)) == Ok::<bool, Fault>(
            a.lt_spec(b),
        ),
        compared(at, CompareOp::Gt, Value::Number(a), Value::Number(b)) == Ok::<bool, Fault>(
            b.lt_spec(a),
        ),
        compared(at, CompareOp::Lte, Value::Number(a), Value::Number(b)) == Ok::<bool, Fault>(
            !b.lt_spec(a),
        ),
        compared(at, CompareOp::Gte, Value::Number(a), Value::Number(b)) == Ok::<bool, Fault>(
            !a.lt_spec(b),
        ),
        compared(at, CompareOp::Eq, Value::Number(a), Value::Number(b)) == Ok::<bool, Fault>(
            !a.lt_spec(b) && !b.lt_spec(a),
        ),
        compared(at, CompareOp::NotEq, Value::Number(a), Value::Number(b)) == Ok::<bool, Fault>(
            a.lt_spec(b) || b.lt_spec(a),
        ),
        !(a.lt_spec(b) && b.lt_spec(a)),
{
}

/// Texts and choices are equal when they read the same, whichever of the two they are; truth values
/// when both hold or neither does. Only numbers have an order.
pub proof fn compared_texts_read_the_same(at: int, s: Seq<char>, t: Seq<char>, p: bool, q: bool)
    ensures
        compared(at, CompareOp::Eq, Value::Str(s), Value::Str(t)) == Ok::<bool, Fault>(s == t),
        compared(at, CompareOp::Eq, Value::Enum(s), Value::Str(t)) == Ok::<bool, Fault>(s == t),
        compared(at, CompareOp::Eq, Value::Str(s), Value::Enum(t)) == Ok::<bool, Fault>(s == t),
        compared(at, CompareOp::Eq, Value::Enum(s), Value::Enum(t)) == Ok::<bool, Fault>(s == t),
        compared(at, CompareOp::NotEq, Value::Str(s), Value::Str(t)) == Ok::<bool, Fault>(s != t),
        compared(at, CompareOp::NotEq, Value::Enum(s), Value::Str(t)) == Ok::<bool, Fault>(s != t),
        compared(at, CompareOp::Eq, Value::Bool(p), Value::Bool(q)) == Ok::<bool, Fault>(p == q),
        compared(at, CompareOp::NotEq, Value::Bool(p), Value::Bool(q)) == Ok::<bool, Fault>(p != q),
        compared(at, CompareOp::Lt, Value::Str(s), Value::Str(t)) is Err,
        compared(at, CompareOp::Gt, Value::Bool(p), Value::Bool(q)) is Err,
        compared(at, CompareOp::Eq, Value::Str(s), Value::Bool(q)) is Err,
{
}

/// A selection has the value of its first branch where the condition holds, else of its second; the
/// other branch does not matter.
pub proof fn selection_follows_its_condition<
    K: Fn(&Kernel) -> Result<MotionValue, KernelError>,
    T: Fn(&MotionValue) -> String,
>(
    host: K,
    tokens: T,
    at: int,
    e: Expr,
    done: Seq<Value>,
    inputs: EvalInputs,
    layout: LayoutInputs,
    r: Result<Value, Fault>,
    condition: ExprId,
    when_true: ExprId,
    when_false: ExprId,
    holds: bool,
)
    requires
        e == (Expr::Select { condition, when_true, when_false }),
        condition.0 < done.len(),
        done[condition.0 as int] == Value::Bool(holds),
        evaluates(host, tokens, at, e, done, inputs, layout, r),
    ensures
        holds && when_true.0 < done.len() ==> r == Ok::<Value, Fault>(done[when_true.0 as int]),
        !holds && when_false.0 < done.len() ==> r == Ok::<Value, Fault>(done[when_false.0 as int]),
{
    reveal_with_fuel(numbers, 5);
    reveal_with_fuel(points, 5);
}

/// A constant has its value whatever the inputs are.
pub proof fn constants_have_their_value<
    K: Fn(&Kernel) -> Result<MotionValue, KernelError>,
    T: Fn(&MotionValue) -> String,
>(
    host: K,
    tokens: T,
    at: int,
    e: Expr,
    done: Seq<Value>,
    inputs: EvalInputs,
    layout: LayoutInputs,
    r: Result<Value, Fault>,
    value: MotionValue,
)
    requires
        e == (Expr::Const { value }),
        evaluates(host, tokens, at, e, done, inputs, layout, r),
    ensures
        r == Ok::<Value, Fault>(value@),
{
    reveal_with_fuel(numbers, 5);
    reveal_with_fuel(points, 5);
}

/// A point and a rectangle hold the numbers of their operands, each in its own place.
pub proof fn points_and_rects_hold_their_numbers<
    K: Fn(&Kernel) -> Result<MotionValue, KernelError>,
    T: Fn(&MotionValue) -> String,
>(
    host: K,
    tokens: T,
    at: int,
    e: Expr,
    done: Seq<Value>,
    inputs: EvalInputs,
    layout: LayoutInputs,
    r: Result<Value, Fault>,
    x: ExprId,
    y: ExprId,
    width: ExprId,
    height: ExprId,
    a: Scalar,
    b: Scalar,
    c: Scalar,
    d: Scalar,
)
    requires
        is_number(done, x, a),
        is_number(done, y, b),
        is_number(done, width, c),
        is_number(done, height, d),
        evaluates(host, tokens, at, e, done, inputs, layout, r),
    ensures
        e == (Expr::MakePoint { x, y }) ==> (r matches Ok(Value::Point(p)) && p.x == a && p.y == b),
        e == (Expr::MakeRect { x, y, width, height }) ==> (r matches Ok(Value::Rect(q)) && q.x == a && q.y
            == b && q.width == c && q.height == d),
{
    reveal_with_fuel(numbers, 5);
    reveal_with_fuel(points, 5);
}

/// A field of a point, a vector or a rectangle is the number that it holds under that name. A point has
/// no width.
pub proof fn fields_are_read_by_name<
    K: Fn(&Kernel) -> Result<MotionValue, KernelError>,
    T: Fn(&MotionValue) -> String,
>(
    host: K,
    tokens: T,
    at: int,
    e: Expr,
    done: Seq<Value>,
    inputs: EvalInputs,
    layout: LayoutInputs,
    r: Result<Value, Fault>,
    input: ExprId,
    field: GeometryField,
    p: Point,
    q: Rect,
)
    requires
        e == (Expr::GeometryField { input, field }),
        input.0 < done.len(),
        evaluates(host, tokens, at, e, done, inputs, layout, r),
    ensures
        done[input.0 as int] == Value::Rect(q) ==> (r matches Ok(Value::Number(x)) && x == match field {
            GeometryField::X => q.x,
            GeometryField::Y => q.y,
            GeometryField::Width => q.width,
            GeometryField::Height => q.height,
        }),
        done[input.0 as int] == Value::Point(p) || done[input.0 as int] == Value::Vec2(p) ==> match field {
            GeometryField::X => r == Ok::<Value, Fault>(Value::Number(p.x)),
            GeometryField::Y => r == Ok::<Value, Fault>(Value::Number(p.y)),
            _ => r is Err,
        },
{
    reveal_with_fuel(numbers, 5);
    reveal_with_fuel(points, 5);
}

/// A point or a vector becomes a pair of pixel lengths, x first; a pair of lengths stays as it is.
pub proof fn points_become_pixels<
    K: Fn(&Kernel) -> Result<MotionValue, KernelError>,
    T: Fn(&MotionValue) -> String,
>(
    host: K,
    tokens: T,
    at: int,
    e: Expr,
    done: Seq<Value>,
    inputs: EvalInputs,
    layout: LayoutInputs,
    r: Result<Value, Fault>,
    input: ExprId,
    p: Point,
    l: Length2,
)
    requires
        e == (Expr::ToLength2 { input }),
        input.0 < done.len(),
        evaluates(host, tokens, at, e, done, inputs, layout, r),
    ensures
        done[input.0 as int] == Value::Point(p) || done[input.0 as int] == Value::Vec2(p) ==> (r matches Ok(
            Value::Length2(q),
        ) && q.x.value == p.x && q.y.value == p.y && q.x.unit == LengthUnit::Px && q.y.unit
            == LengthUnit::Px),
        done[input.0 as int] == Value::Length2(l) ==> r == Ok::<Value, Fault>(Value::Length2(l)),
{
    reveal_with_fuel(numbers, 5);
    reveal_with_fuel(points, 5);
}

/// A cubic path moves to its start and curves to its end by its two controls.
pub proof fn cubics_run_through_their_points<
    K: Fn(&Kernel) -> Result<MotionValue, KernelError>,
    T: Fn(&MotionValue) -> String,
>(
    host: K,
    tokens: T,
    at: int,
    e: Expr,
    done: Seq<Value>,
    inputs: EvalInputs,
    layout: LayoutInputs,
    r: Result<Value, Fault>,
    from: ExprId,
    control_1: ExprId,
    control_2: ExprId,
    to: ExprId,
    a: Point,
    b: Point,
    c: Point,
    d: Point,
)
    requires
        e == (Expr::PathCubic { from, control_1, control_2, to }),
        is_point(done, from, a),
        is_point(done, control_1, b),
        is_point(done, control_2, c),
        is_point(done, to, d),
        evaluates(host, tokens, at, e, done, inputs, layout, r),
    ensures
        r matches Ok(v) ==> (v matches Value::PathData(p) && p.verbs == seq![
            PathVerb::Move,
            PathVerb::Cubic,
        ] && p.points == seq![a, b, c, d]),
{
    reveal_with_fuel(numbers, 5);
    reveal_with_fuel(points, 5);
}

proof fn points_are_read(at: int, op: Seq<char>, done: Seq<Value>, ids: Seq<ExprId>, n: nat, k: int)
    requires
        n <= ids.len(),
        points(at, op, done, ids, n) is Ok,
        0 <= k < n,
    ensures
        points(at, op, done, ids, n)->Ok_0.len() == n,
        is_point(done, ids[k], points(at, op, done, ids, n)->Ok_0[k]),
    decreases n,
{
    if k < n - 1 {
        points_are_read(at, op, done, ids, (n - 1) as nat, k);
    } else if n > 1 {
        points_are_read(at, op, done, ids, (n - 1) as nat, 0);
    }
}

/// A line moves to the first of its points and draws on to each of the others.
pub proof fn lines_run_through_their_points<
    K: Fn(&Kernel) -> Result<MotionValue, KernelError>,
    T: Fn(&MotionValue) -> String,
>(
    host: K,
    tokens: T,
    at: int,
    e: Expr,
    done: Seq<Value>,
    inputs: EvalInputs,
    layout: LayoutInputs,
    r: Result<Value, Fault>,
    ids: Vec<ExprId>,
    k: int,
)
    requires
        e == (Expr::PathLine { points: ids }),
        0 <= k < ids@.len(),
        evaluates(host, tokens, at, e, done, inputs, layout, r),
    ensures
        r matches Ok(v) ==> (v matches Value::PathData(p) && p.verbs.len() == ids@.len() && p.points.len()
            == ids@.len() && is_point(done, ids@[k], p.points[k]) && p.verbs[k] == if k == 0 {
            PathVerb::Move
        } else {
            PathVerb::Line
        }),
{
    reveal_with_fuel(numbers, 5);
    reveal_with_fuel(points, 5);
    if points(at, "line"@, done, ids@, ids@.len()) is Ok {
        points_are_read(at, "line"@, done, ids@, ids@.len(), k);
    }
}

/// A path of a fixed topology has its verbs and, in order, the points of its operands.
pub proof fn templates_keep_their_verbs<
    K: Fn(&Kernel) -> Result<MotionValue, KernelError>,
    T: Fn(&MotionValue) -> String,
>(
    host: K,
    tokens: T,
    at: int,
    e: Expr,
    done: Seq<Value>,
    inputs: EvalInputs,
    layout: LayoutInputs,
    r: Result<Value, Fault>,
    verbs: Vec<PathVerb>,
    ids: Vec<ExprId>,
    k: int,
)
    requires
        e == (Expr::PathTemplate { verbs, points: ids }),
        0 <= k < ids@.len(),
        evaluates(host, tokens, at, e, done, inputs, layout, r),
    ensures
        r matches Ok(v) ==> (v matches Value::PathData(p) && p.verbs == verbs@ && p.points.len()
            == ids@.len() && is_point(done, ids@[k], p.points[k])),
{
    reveal_with_fuel(numbers, 5);
    reveal_with_fuel(points, 5);
    if points(at, "pathTemplate"@, done, ids@, ids@.len()) is Ok {
        points_are_read(at, "pathTemplate"@, done, ids@, ids@.len(), k);
    }
}

/// The host is asked for an arc with the center, radius and angles of the operands.
pub proof fn arcs_are_asked_for<
    K: Fn(&Kernel) -> Result<MotionValue, KernelError>,
    T: Fn(&MotionValue) -> String,
>(
    host: K,
    tokens: T,
    at: int,
    e: Expr,
    done: Seq<Value>,
    inputs: EvalInputs,
    layout: LayoutInputs,
    r: Result<Value, Fault>,
    center: ExprId,
    radius: ExprId,
    start_angle: ExprId,
    end_angle: ExprId,
    c: Point,
    x: Scalar,
    y: Scalar,
    z: Scalar,
)
    requires
        e == (Expr::PathArc { center, radius, start_angle, end_angle }),
        is_point(done, center, c),
        is_number(done, radius, x),
        is_number(done, start_angle, y),
        is_number(done, end_angle, z),
        evaluates(host, tokens, at, e, done, inputs, layout, r),
    ensures
        exists|k: Kernel| #[trigger]
            hosted(host, at, k, r) && (k matches Kernel::Arc { center: p, radius: a, start: b, end: d } && p == c && a == x && b == y && d == z),
{
    reveal_with_fuel(numbers, 5);
    reveal_with_fuel(points, 5);
    let task = plan(at, e, done, inputs, layout)->Ask_0;
    let out = choose|out: Result<Value, KernelError>| #[trigger]
        answers(host, task, out) && r == crate::eval::settled(
            at,
            plan(at, e, done, inputs, layout)->Ask_1,
            out,
        );
    let (k, given) = choose|k: Kernel, given: Result<MotionValue, KernelError>| #[trigger]
        call_ensures(host, (&k,), given) && k@ == task && crate::eval::answer_seen(given) == out;
    assert(hosted(host, at, k, r));
}

/// The host is asked for the point of the path at the progress.
pub proof fn points_on_paths_are_asked_for<
    K: Fn(&Kernel) -> Result<MotionValue, KernelError>,
    T: Fn(&MotionValue) -> String,
>(
    host: K,
    tokens: T,
    at: int,
    e: Expr,
    done: Seq<Value>,
    inputs: EvalInputs,
    layout: LayoutInputs,
    r: Result<Value, Fault>,
    path: ExprId,
    progress: ExprId,
    p: Path,
    x: Scalar,
)
    requires
        e == (Expr::PathPointAt { path, progress }),
        is_path(done, path, p),
        is_number(done, progress, x),
        evaluates(host, tokens, at, e, done, inputs, layout, r),
    ensures
        exists|k: Kernel| #[trigger]
            hosted(host, at, k, r) && (k matches Kernel::PointAt { path: q, progress: y } && q@ == p && y == x),
{
    reveal_with_fuel(numbers, 5);
    reveal_with_fuel(points, 5);
    let task = plan(at, e, done, inputs, layout)->Ask_0;
    let out = choose|out: Result<Value, KernelError>| #[trigger]
        answers(host, task, out) && r == crate::eval::settled(
            at,
            plan(at, e, done, inputs, layout)->Ask_1,
            out,
        );
    let (k, given) = choose|k: Kernel, given: Result<MotionValue, KernelError>| #[trigger]
        call_ensures(host, (&k,), given) && k@ == task && crate::eval::answer_seen(given) == out;
    assert(hosted(host, at, k, r));
}

/// The host is asked for the tangent of the path at the progress.
pub proof fn tangents_of_paths_are_asked_for<
    K: Fn(&Kernel) -> Result<MotionValue, KernelError>,
    T: Fn(&MotionValue) -> String,
>(
    host: K,
    tokens: T,
    at: int,
    e: Expr,
    done: Seq<Value>,
    inputs: EvalInputs,
    layout: LayoutInputs,
    r: Result<Value, Fault>,
    path: ExprId,
    progress: ExprId,
    p: Path,
    x: Scalar,
)
    requires
        e == (Expr::PathTangentAt { path, progress }),
        is_path(done, path, p),
        is_number(done, progress, x),
        evaluates(host, tokens, at, e, done, inputs, layout, r),
    ensures
        exists|k: Kernel| #[trigger]
            hosted(host, at, k, r) && (k matches Kernel::TangentAt { path: q, progress: y } && q@ == p && y == x),
{
    reveal_with_fuel(numbers, 5);
    reveal_with_fuel(points, 5);
    let task = plan(at, e, done, inputs, layout)->Ask_0;
    let out = choose|out: Result<Value, KernelError>| #[trigger]
        answers(host, task, out) && r == crate::eval::settled(
            at,
            plan(at, e, done, inputs, layout)->Ask_1,
            out,
        );
    let (k, given) = choose|k: Kernel, given: Result<MotionValue, KernelError>| #[trigger]
        call_ensures(host, (&k,), given) && k@ == task && crate::eval::answer_seen(given) == out;
    assert(hosted(host, at, k, r));
}

/// The host is asked for the angle of the path at the progress.
pub proof fn angles_of_paths_are_asked_for<
    K: Fn(&Kernel) -> Result<MotionValue, KernelError>,
    T: Fn(&MotionValue) -> String,
>(
    host: K,
    tokens: T,
    at: int,
    e: Expr,
    done: Seq<Value>,
    inputs: EvalInputs,
    layout: LayoutInputs,
    r: Result<Value, Fault>,
    path: ExprId,
    progress: ExprId,
    p: Path,
    x: Scalar,
)
    requires
        e == (Expr::PathAngleAt { path, progress }),
        is_path(done, path, p),
        is_number(done, progress, x),
        evaluates(host, tokens, at, e, done, inputs, layout, r),
    ensures
        exists|k: Kernel| #[trigger]
            hosted(host, at, k, r) && (k matches Kernel::AngleAt { path: q, progress: y } && q@ == p && y == x),
{
    reveal_with_fuel(numbers, 5);
    reveal_with_fuel(points, 5);
    let task = plan(at, e, done, inputs, layout)->Ask_0;
    let out = choose|out: Result<Value, KernelError>| #[trigger]
        answers(host, task, out) && r == crate::eval::settled(
            at,
            plan(at, e, done, inputs, layout)->Ask_1,
            out,
        );
    let (k, given) = choose|k: Kernel, given: Result<MotionValue, KernelError>| #[trigger]
        call_ensures(host, (&k,), given) && k@ == task && crate::eval::answer_seen(given) == out;
    assert(hosted(host, at, k, r));
}

/// The host is asked for the length of the path.
pub proof fn lengths_of_paths_are_asked_for<
    K: Fn(&Kernel) -> Result<MotionValue, KernelError>,
    T: Fn(&MotionValue) -> String,
>(
    host: K,
    tokens: T,
    at: int,
    e: Expr,
    done: Seq<Value>,
    inputs: EvalInputs,
    layout: LayoutInputs,
    r: Result<Value, Fault>,
    path: ExprId,
    p: Path,
)
    requires
        e == (Expr::PathLength { path }),
        is_path(done, path, p),
        evaluates(host, tokens, at, e, done, inputs, layout, r),
    ensures
        exists|k: Kernel| #[trigger]
            hosted(host, at, k, r) && (k matches Kernel::Length { path: q } && q@ == p),
{
    reveal_with_fuel(numbers, 5);
    reveal_with_fuel(points, 5);
    let task = plan(at, e, done, inputs, layout)->Ask_0;
    let out = choose|out: Result<Value, KernelError>| #[trigger]
        answers(host, task, out) && r == crate::eval::settled(
            at,
            plan(at, e, done, inputs, layout)->Ask_1,
            out,
        );
    let (k, given) = choose|k: Kernel, given: Result<MotionValue, KernelError>| #[trigger]
        call_ensures(host, (&k,), given) && k@ == task && crate::eval::answer_seen(given) == out;
    assert(hosted(host, at, k, r));
}

/// The host is asked for the path at the distance.
pub proof fn offsets_are_asked_for<
    K: Fn(&Kernel) -> Result<MotionValue, KernelError>,
    T: Fn(&MotionValue) -> String,
>(
    host: K,
    tokens: T,
    at: int,
    e: Expr,
    done: Seq<Value>,
    inputs: EvalInputs,
    layout: LayoutInputs,
    r: Result<Value, Fault>,
    path: ExprId,
    distance: ExprId,
    p: Path,
    x: Scalar,
)
    requires
        e == (Expr::PathOffset { path, distance }),
        is_path(done, path, p),
        is_number(done, distance, x),
        evaluates(host, tokens, at, e, done, inputs, layout, r),
    ensures
        exists|k: Kernel| #[trigger]
            hosted(host, at, k, r) && (k matches Kernel::Offset { path: q, distance: y } && q@ == p && y == x),
{
    reveal_with_fuel(numbers, 5);
    reveal_with_fuel(points, 5);
    let task = plan(at, e, done, inputs, layout)->Ask_0;
    let out = choose|out: Result<Value, KernelError>| #[trigger]
        answers(host, task, out) && r == crate::eval::settled(
            at,
            plan(at, e, done, inputs, layout)->Ask_1,
            out,
        );
    let (k, given) = choose|k: Kernel, given: Result<MotionValue, KernelError>| #[trigger]
        call_ensures(host, (&k,), given) && k@ == task && crate::eval::answer_seen(given) == out;
    assert(hosted(host, at, k, r));
}

/// The host is asked to blend the first path into the second by the progress.
pub proof fn morphs_are_asked_for<
    K: Fn(&Kernel) -> Result<MotionValue, KernelError>,
    T: Fn(&MotionValue) -> String,
>(
    host: K,
    tokens: T,
    at: int,
    e: Expr,
    done: Seq<Value>,
    inputs: EvalInputs,
    layout: LayoutInputs,
    r: Result<Value, Fault>,
    from: ExprId,
    to: ExprId,
    progress: ExprId,
    p: Path,
    q: Path,
    x: Scalar,
)
    requires
        e == (Expr::PathMorph { from, to, progress }),
        is_path(done, from, p),
        is_path(done, to, q),
        is_number(done, progress, x),
        evaluates(host, tokens, at, e, done, inputs, layout, r),
    ensures
        exists|k: Kernel| #[trigger]
            hosted(host, at, k, r) && (k matches Kernel::Morph { from: a, to: b, progress: y } && a@ == p && b@ == q && y == x),
{
    reveal_with_fuel(numbers, 5);
    reveal_with_fuel(points, 5);
    let task = plan(at, e, done, inputs, layout)->Ask_0;
    let out = choose|out: Result<Value, KernelError>| #[trigger]
        answers(host, task, out) && r == crate::eval::settled(
            at,
            plan(at, e, done, inputs, layout)->Ask_1,
            out,
        );
    let (k, given) = choose|k: Kernel, given: Result<MotionValue, KernelError>| #[trigger]
        call_ensures(host, (&k,), given) && k@ == task && crate::eval::answer_seen(given) == out;
    assert(hosted(host, at, k, r));
}

/// The host is asked for the function of the operand.
pub proof fn functions_are_asked_for<
    K: Fn(&Kernel) -> Result<MotionValue, KernelError>,
    T: Fn(&MotionValue) -> String,
>(
    host: K,
    tokens: T,
    at: int,
    e: Expr,
    done: Seq<Value>,
    inputs: EvalInputs,
    layout: LayoutInputs,
    r: Result<Value, Fault>,
    op: MathUnaryOp,
    input: ExprId,
    x: Scalar,
)
    requires
        e == (Expr::MathUnary { op, input }),
        is_number(done, input, x),
        evaluates(host, tokens, at, e, done, inputs, layout, r),
    ensures
        exists|k: Kernel| #[trigger]
            hosted(host, at, k, r) && (k matches Kernel::MathUnary { op: f, x: y } && f == op && y == x),
{
    reveal_with_fuel(numbers, 5);
    reveal_with_fuel(points, 5);
    let task = plan(at, e, done, inputs, layout)->Ask_0;
    let out = choose|out: Result<Value, KernelError>| #[trigger]
        answers(host, task, out) && r == crate::eval::settled(
            at,
            plan(at, e, done, inputs, layout)->Ask_1,
            out,
        );
    let (k, given) = choose|k: Kernel, given: Result<MotionValue, KernelError>| #[trigger]
        call_ensures(host, (&k,), given) && k@ == task && crate::eval::answer_seen(given) == out;
    assert(hosted(host, at, k, r));
}

/// The host is asked for the function of both operands, in their order.
pub proof fn functions_of_two_are_asked_for<
    K: Fn(&Kernel) -> Result<MotionValue, KernelError>,
    T: Fn(&MotionValue) -> String,
>(
    host: K,
    tokens: T,
    at: int,
    e: Expr,
    done: Seq<Value>,
    inputs: EvalInputs,
    layout: LayoutInputs,
    r: Result<Value, Fault>,
    op: MathBinaryOp,
    lhs: ExprId,
    rhs: ExprId,
    a: Scalar,
    b: Scalar,
)
    requires
        e == (Expr::MathBinary { op, lhs, rhs }),
        is_number(done, lhs, a),
        is_number(done, rhs, b),
        evaluates(host, tokens, at, e, done, inputs, layout, r),
    ensures
        exists|k: Kernel| #[trigger]
            hosted(host, at, k, r) && (k matches Kernel::MathBinary { op: f, a: x, b: y } && f == op && x == a && y == b),
{
    reveal_with_fuel(numbers, 5);
    reveal_with_fuel(points, 5);
    let task = plan(at, e, done, inputs, layout)->Ask_0;
    let out = choose|out: Result<Value, KernelError>| #[trigger]
        answers(host, task, out) && r == crate::eval::settled(
            at,
            plan(at, e, done, inputs, layout)->Ask_1,
            out,
        );
    let (k, given) = choose|k: Kernel, given: Result<MotionValue, KernelError>| #[trigger]
        call_ensures(host, (&k,), given) && k@ == task && crate::eval::answer_seen(given) == out;
    assert(hosted(host, at, k, r));
}

/// The host is asked for the noise of the seed at the operand.
pub proof fn noise_is_asked_for<
    K: Fn(&Kernel) -> Result<MotionValue, KernelError>,
    T: Fn(&MotionValue) -> String,
>(
    host: K,
    tokens: T,
    at: int,
    e: Expr,
    done: Seq<Value>,
    inputs: EvalInputs,
    layout: LayoutInputs,
    r: Result<Value, Fault>,
    seed: u64,
    x: ExprId,
    a: Scalar,
)
    requires
        e == (Expr::Noise1D { seed, x }),
        is_number(done, x, a),
        evaluates(host, tokens, at, e, done, inputs, layout, r),
    ensures
        exists|k: Kernel| #[trigger]
            hosted(host, at, k, r) && (k matches Kernel::Noise1D { seed: s, x: y } && s == seed && y == a),
{
    reveal_with_fuel(numbers, 5);
    reveal_with_fuel(points, 5);
    let task = plan(at, e, done, inputs, layout)->Ask_0;
    let out = choose|out: Result<Value, KernelError>| #[trigger]
        answers(host, task, out) && r == crate::eval::settled(
            at,
            plan(at, e, done, inputs, layout)->Ask_1,
            out,
        );
    let (k, given) = choose|k: Kernel, given: Result<MotionValue, KernelError>| #[trigger]
        call_ensures(host, (&k,), given) && k@ == task && crate::eval::answer_seen(given) == out;
    assert(hosted(host, at, k, r));
}

/// The host is asked for the noise of the seed at both operands, in their order.
pub proof fn noise_of_two_is_asked_for<
    K: Fn(&Kernel) -> Result<MotionValue, KernelError>,
    T: Fn(&MotionValue) -> String,
>(
    host: K,
    tokens: T,
    at: int,
    e: Expr,
    done: Seq<Value>,
    inputs: EvalInputs,
    layout: LayoutInputs,
    r: Result<Value, Fault>,
    seed: u64,
    x: ExprId,
    y: ExprId,
    a: Scalar,
    b: Scalar,
)
    requires
        e == (Expr::Noise2D { seed, x, y }),
        is_number(done, x, a),
        is_number(done, y, b),
        evaluates(host, tokens, at, e, done, inputs, layout, r),
    ensures
        exists|k: Kernel| #[trigger]
            hosted(host, at, k, r) && (k matches Kernel::Noise2D { seed: s, x: p, y: q } && s == seed && p == a && q == b),
{
    reveal_with_fuel(numbers, 5);
    reveal_with_fuel(points, 5);
    let task = plan(at, e, done, inputs, layout)->Ask_0;
    let out = choose|out: Result<Value, KernelError>| #[trigger]
        answers(host, task, out) && r == crate::eval::settled(
            at,
            plan(at, e, done, inputs, layout)->Ask_1,
            out,
        );
    let (k, given) = choose|k: Kernel, given: Result<MotionValue, KernelError>| #[trigger]
        call_ensures(host, (&k,), given) && k@ == task && crate::eval::answer_seen(given) == out;
    assert(hosted(host, at, k, r));
}

/// The host is asked to write the operand in the format.
pub proof fn formats_are_asked_for<
    K: Fn(&Kernel) -> Result<MotionValue, KernelError>,
    T: Fn(&MotionValue) -> String,
>(
    host: K,
    tokens: T,
    at: int,
    e: Expr,
    done: Seq<Value>,
    inputs: EvalInputs,
    layout: LayoutInputs,
    r: Result<Value, Fault>,
    input: ExprId,
    format: NumberFormat,
    x: Scalar,
)
    requires
        e == (Expr::FormatNumber { input, format }),
        is_number(done, input, x),
        evaluates(host, tokens, at, e, done, inputs, layout, r),
    ensures
        exists|k: Kernel| #[trigger]
            hosted(host, at, k, r) && (k matches Kernel::Format { x: y, format: f } && y == x && f == format),
{
    reveal_with_fuel(numbers, 5);
    reveal_with_fuel(points, 5);
    let task = plan(at, e, done, inputs, layout)->Ask_0;
    let out = choose|out: Result<Value, KernelError>| #[trigger]
        answers(host, task, out) && r == crate::eval::settled(
            at,
            plan(at, e, done, inputs, layout)->Ask_1,
            out,
        );
    let (k, given) = choose|k: Kernel, given: Result<MotionValue, KernelError>| #[trigger]
        call_ensures(host, (&k,), given) && k@ == task && crate::eval::answer_seen(given) == out;
    assert(hosted(host, at, k, r));
}

/// The host is asked for a spring of these constants after so many frames of the composition.
pub proof fn springs_are_asked_for<
    K: Fn(&Kernel) -> Result<MotionValue, KernelError>,
    T: Fn(&MotionValue) -> String,
>(
    host: K,
    tokens: T,
    at: int,
    e: Expr,
    done: Seq<Value>,
    inputs: EvalInputs,
    layout: LayoutInputs,
    r: Result<Value, Fault>,
    elapsed_frames: ExprId,
    mass: Scalar,
    stiffness: Scalar,
    damping: Scalar,
    x: Scalar,
)
    requires
        e == (Expr::Spring { elapsed_frames, mass, stiffness, damping }),
        is_number(done, elapsed_frames, x),
        inputs.ctx.fps.finite(),
        num(ZERO).order() < inputs.ctx.fps.order(),
        evaluates(host, tokens, at, e, done, inputs, layout, r),
    ensures
        exists|k: Kernel| #[trigger]
            hosted(host, at, k, r) && (k matches Kernel::Spring { frames, fps, mass: m, stiffness: s, damping: d } && frames == x && fps == inputs.ctx.fps && m == mass && s == stiffness && d == damping),
{
    reveal_with_fuel(numbers, 5);
    reveal_with_fuel(points, 5);
    let task = plan(at, e, done, inputs, layout)->Ask_0;
    let out = choose|out: Result<Value, KernelError>| #[trigger]
        answers(host, task, out) && r == crate::eval::settled(
            at,
            plan(at, e, done, inputs, layout)->Ask_1,
            out,
        );
    let (k, given) = choose|k: Kernel, given: Result<MotionValue, KernelError>| #[trigger]
        call_ensures(host, (&k,), given) && k@ == task && crate::eval::answer_seen(given) == out;
    assert(hosted(host, at, k, r));
}

/// A trajectory has the path of the frame, rounded down; beyond its last frame the last path, and
/// before its first frame the first.
pub proof fn trajectories_are_read_by_frame<
    K: Fn(&Kernel) -> Result<MotionValue, KernelError>,
    T: Fn(&MotionValue) -> String,
>(
    host: K,
    tokens: T,
    at: int,
    e: Expr,
    done: Seq<Value>,
    inputs: EvalInputs,
    layout: LayoutInputs,
    r: Result<Value, Fault>,
    frames: Vec<crate::path::PathData>,
    frame: ExprId,
    x: Scalar,
)
    requires
        e == (Expr::PathTrajectory { frames, frame }),
        frames@.len() > 0,
        is_number(done, frame, x),
        evaluates(host, tokens, at, e, done, inputs, layout, r),
    ensures
        x.floor_int() >= frames@.len() ==> r == Ok::<Value, Fault>(
            Value::PathData(frames@[frames@.len() - 1]@),
        ),
        0 <= x.floor_int() < frames@.len() ==> r == Ok::<Value, Fault>(
            Value::PathData(frames@[x.floor_int()]@),
        ),
{
    reveal_with_fuel(numbers, 5);
    reveal_with_fuel(points, 5);
}

/// An input of the clip has the number that the context holds under its name.
pub proof fn clocks_are_read_by_name<
    K: Fn(&Kernel) -> Result<MotionValue, KernelError>,
    T: Fn(&MotionValue) -> String,
>(
    host: K,
    tokens: T,
    at: int,
    e: Expr,
    done: Seq<Value>,
    inputs: EvalInputs,
    layout: LayoutInputs,
    r: Result<Value, Fault>,
    input: ContextInput,
)
    requires
        e == (Expr::Context { input }),
        evaluates(host, tokens, at, e, done, inputs, layout, r),
    ensures
        input is LocalFrame ==> r == Ok::<Value, Fault>(Value::Number(Scalar::integer(inputs.ctx.local_frame as int))),
        input is LocalProgress ==> r == Ok::<Value, Fault>(Value::Number(inputs.ctx.progress)),
        input is CompositionSeconds ==> r == Ok::<Value, Fault>(Value::Number(inputs.ctx.composition_seconds)),
        input is DurationFrames ==> r == Ok::<Value, Fault>(Value::Number(Scalar::integer(inputs.ctx.duration_frames as int))),
        input is FpsNum ==> r == Ok::<Value, Fault>(Value::Number(inputs.ctx.fps_numerator)),
        input is FpsDen ==> r == Ok::<Value, Fault>(Value::Number(Scalar::integer(inputs.ctx.fps_denominator as int))),
        input is HoldIteration ==> r == Ok::<Value, Fault>(Value::Number(Scalar::integer(inputs.ctx.hold_iteration as int))),
        input is HoldCycleFrame ==> r == Ok::<Value, Fault>(Value::Number(Scalar::integer(inputs.ctx.hold_cycle_frame as int))),
        input is HoldCycleProgress ==> r == Ok::<Value, Fault>(Value::Number(inputs.ctx.hold_cycle_progress)),
{
    reveal_with_fuel(numbers, 5);
    reveal_with_fuel(points, 5);
}

/// An input of a phase has what the context holds of that phase under its name.
pub proof fn phases_are_read_by_name<
    K: Fn(&Kernel) -> Result<MotionValue, KernelError>,
    T: Fn(&MotionValue) -> String,
>(
    host: K,
    tokens: T,
    at: int,
    e: Expr,
    done: Seq<Value>,
    inputs: EvalInputs,
    layout: LayoutInputs,
    r: Result<Value, Fault>,
    input: ContextInput,
    phase: PhaseKind,
    p: crate::eval::PhaseContext,
)
    requires
        e == (Expr::Context { input }),
        phase is Enter ==> p == inputs.ctx.enter,
        phase is Hold ==> p == inputs.ctx.hold,
        phase is Exit ==> p == inputs.ctx.exit,
        evaluates(host, tokens, at, e, done, inputs, layout, r),
    ensures
        input == (ContextInput::PhaseFrame { phase }) ==> r == Ok::<Value, Fault>(
            Value::Number(Scalar::integer(p.frame as int)),
        ),
        input == (ContextInput::PhaseDurationFrames { phase }) ==> r == Ok::<Value, Fault>(
            Value::Number(Scalar::integer(p.duration_frames as int)),
        ),
        input == (ContextInput::PhaseProgress { phase }) ==> r == Ok::<Value, Fault>(
            Value::Number(p.progress),
        ),
        input == (ContextInput::PhaseElapsedFrames { phase }) ==> r == Ok::<Value, Fault>(
            Value::Number(Scalar::integer(p.elapsed_frames as int)),
        ),
        input == (ContextInput::PhaseActive { phase }) ==> r == Ok::<Value, Fault>(
            Value::Bool(p.active),
        ),
{
    reveal_with_fuel(numbers, 5);
    reveal_with_fuel(points, 5);
}

/// An input of the text unit or of the viewport has what the inputs hold under its name; without a unit,
/// or without a viewport, there is none.
pub proof fn units_and_viewports_are_read_by_name<
    K: Fn(&Kernel) -> Result<MotionValue, KernelError>,
    T: Fn(&MotionValue) -> String,
>(
    host: K,
    tokens: T,
    at: int,
    e: Expr,
    done: Seq<Value>,
    inputs: EvalInputs,
    layout: LayoutInputs,
    r: Result<Value, Fault>,
    input: ContextInput,
    u: crate::eval::UnitContext,
    v: (Scalar, Scalar),
)
    requires
        e == (Expr::Context { input }),
        evaluates(host, tokens, at, e, done, inputs, layout, r),
    ensures
        input is UnitIndex && inputs.unit == Some(u) ==> r == Ok::<Value, Fault>(
            Value::Number(Scalar::integer(u.index as int)),
        ),
        input is UnitCount && inputs.unit == Some(u) ==> r == Ok::<Value, Fault>(
            Value::Number(Scalar::integer(u.count as int)),
        ),
        input is UnitStart && inputs.unit == Some(u) ==> r == Ok::<Value, Fault>(
            Value::Number(Scalar::integer(u.start as int)),
        ),
        input is UnitEnd && inputs.unit == Some(u) ==> r == Ok::<Value, Fault>(
            Value::Number(Scalar::integer(u.end as int)),
        ),
        (input is UnitIndex || input is UnitCount || input is UnitStart || input is UnitEnd)
            && inputs.unit is None ==> r == Err::<Value, Fault>(Fault::UnitOutsidePerUnit(at)),
        input is ViewportWidth && inputs.viewport == Some(v) ==> r == Ok::<Value, Fault>(
            Value::Number(width_of(v)),
        ),
        input is ViewportHeight && inputs.viewport == Some(v) ==> r == Ok::<Value, Fault>(
            Value::Number(height_of(v)),
        ),
        (input is ViewportWidth || input is ViewportHeight) && inputs.viewport is None ==> r == Err::<
            Value,
            Fault,
        >(Fault::ViewportUnavailable(at)),
{
    reveal_with_fuel(numbers, 5);
    reveal_with_fuel(points, 5);
}

/// A cue has the state of the signal under its name, field by field.
pub proof fn cues_are_read_by_name<
    K: Fn(&Kernel) -> Result<MotionValue, KernelError>,
    T: Fn(&MotionValue) -> String,
>(
    host: K,
    tokens: T,
    at: int,
    e: Expr,
    done: Seq<Value>,
    inputs: EvalInputs,
    layout: LayoutInputs,
    r: Result<Value, Fault>,
    name: String,
    field: CueField,
    i: int,
    cue: crate::eval::CueSignal,
)
    requires
        e == (Expr::Cue { name, field }),
        stands_under(inputs.signals@, name@, i),
        cue == inputs.signals@[i].value,
        evaluates(host, tokens, at, e, done, inputs, layout, r),
    ensures
        field is Active ==> r == Ok::<Value, Fault>(Value::Bool(cue.active)),
        field is Progress ==> r == Ok::<Value, Fault>(Value::Number(cue.progress)),
        field is Enter ==> r == Ok::<Value, Fault>(Value::Number(cue.enter)),
        field is Hold ==> r == Ok::<Value, Fault>(Value::Number(cue.hold)),
        field is Exit ==> r == Ok::<Value, Fault>(Value::Number(cue.exit)),
        field is LocalFrame ==> r == Ok::<Value, Fault>(Value::Number(Scalar::integer(cue.local_frame as int))),
{
    reveal_with_fuel(numbers, 5);
    reveal_with_fuel(points, 5);
    entries_are_found(inputs.signals@, name@, i);
}

/// A prop has the value that stands under its name.
pub proof fn props_are_read_by_name<
    K: Fn(&Kernel) -> Result<MotionValue, KernelError>,
    T: Fn(&MotionValue) -> String,
>(
    host: K,
    tokens: T,
    at: int,
    e: Expr,
    done: Seq<Value>,
    inputs: EvalInputs,
    layout: LayoutInputs,
    r: Result<Value, Fault>,
    name: String,
    i: int,
)
    requires
        e == (Expr::Prop { name }),
        stands_under(inputs.props.values@, name@, i),
        evaluates(host, tokens, at, e, done, inputs, layout, r),
    ensures
        r == Ok::<Value, Fault>(inputs.props.values@[i].value@),
{
    reveal_with_fuel(numbers, 5);
    reveal_with_fuel(points, 5);
    entries_are_found(inputs.props.values@, name@, i);
}

/// A prop under whose name nothing stands is reported by its name.
pub proof fn missing_props_are_reported<
    K: Fn(&Kernel) -> Result<MotionValue, KernelError>,
    T: Fn(&MotionValue) -> String,
>(
    host: K,
    tokens: T,
    at: int,
    e: Expr,
    done: Seq<Value>,
    inputs: EvalInputs,
    layout: LayoutInputs,
    r: Result<Value, Fault>,
    name: String,
)
    requires
        e == (Expr::Prop { name }),
        forall|j: int|
            0 <= j < inputs.props.values@.len() ==> (#[trigger] inputs.props.values@[j]).key@ != name@,
        evaluates(host, tokens, at, e, done, inputs, layout, r),
    ensures
        r == Err::<Value, Fault>(Fault::MissingProp(name@)),
{
    reveal_with_fuel(numbers, 5);
    reveal_with_fuel(points, 5);
    nothing_is_found(inputs.props.values@, name@);
}

/// After layout the bounds of a node are the rectangle under its key; before it there are none.
pub proof fn bounds_are_read_by_key<
    K: Fn(&Kernel) -> Result<MotionValue, KernelError>,
    T: Fn(&MotionValue) -> String,
>(
    host: K,
    tokens: T,
    at: int,
    e: Expr,
    done: Seq<Value>,
    inputs: EvalInputs,
    layout: LayoutInputs,
    r: Result<Value, Fault>,
    key: String,
    boxes: Vec<Entry<Rect>>,
    i: int,
)
    requires
        e == (Expr::NodeBounds { key }),
        evaluates(host, tokens, at, e, done, inputs, layout, r),
    ensures
        layout.bounds is None ==> r == Err::<Value, Fault>(Fault::BoundsOutsidePostLayout(at)),
        layout.bounds == Some(&boxes) && stands_under(boxes@, key@, i) ==> r == Ok::<Value, Fault>(
            Value::Rect(boxes@[i].value),
        ),
{
    reveal_with_fuel(numbers, 5);
    reveal_with_fuel(points, 5);
    if stands_under(boxes@, key@, i) {
        entries_are_found(boxes@, key@, i);
    }
}

proof fn anchors_are_found(
    anchors: Seq<crate::eval::ProjectedAnchor>,
    scene: Seq<char>,
    anchor: Seq<char>,
    n: nat,
    i: int,
)
    requires
        0 <= i < n <= anchors.len(),
        anchors[i].scene_key@ == scene,
        anchors[i].anchor_key@ == anchor,
        forall|j: int|
            0 <= j < i ==> (#[trigger] anchors[j]).scene_key@ != scene || anchors[j].anchor_key@
                != anchor,
    ensures
        crate::eval::projected_at(anchors, scene, anchor, n) == Some(anchors[i].point),
    decreases n,
{
    if i < n - 1 {
        anchors_are_found(anchors, scene, anchor, (n - 1) as nat, i);
    } else {
        no_anchor_is_found(anchors, scene, anchor, (n - 1) as nat);
    }
}

proof fn no_anchor_is_found(
    anchors: Seq<crate::eval::ProjectedAnchor>,
    scene: Seq<char>,
    anchor: Seq<char>,
    n: nat,
)
    requires
        n <= anchors.len(),
        forall|j: int|
            0 <= j < n ==> (#[trigger] anchors[j]).scene_key@ != scene || anchors[j].anchor_key@
                != anchor,
    ensures
        crate::eval::projected_at(anchors, scene, anchor, n) is None,
    decreases n,
{
    if n > 0 {
        no_anchor_is_found(anchors, scene, anchor, (n - 1) as nat);
    }
}

/// After projection an anchor is the point under the keys of its scene and its own; before it there is
/// none.
pub proof fn anchors_are_read_by_key<
    K: Fn(&Kernel) -> Result<MotionValue, KernelError>,
    T: Fn(&MotionValue) -> String,
>(
    host: K,
    tokens: T,
    at: int,
    e: Expr,
    done: Seq<Value>,
    inputs: EvalInputs,
    layout: LayoutInputs,
    r: Result<Value, Fault>,
    scene_key: String,
    anchor_key: String,
    anchors: Vec<crate::eval::ProjectedAnchor>,
    i: int,
)
    requires
        e == (Expr::Project3D { scene_key, anchor_key }),
        layout.projected == Some(&anchors),
        0 <= i < anchors@.len(),
        anchors@[i].scene_key@ == scene_key@,
        anchors@[i].anchor_key@ == anchor_key@,
        forall|j: int|
            0 <= j < i ==> (#[trigger] anchors@[j]).scene_key@ != scene_key@
                || anchors@[j].anchor_key@ != anchor_key@,
        evaluates(host, tokens, at, e, done, inputs, layout, r),
    ensures
        r == Ok::<Value, Fault>(Value::Point(anchors@[i].point)),
{
    reveal_with_fuel(numbers, 5);
    reveal_with_fuel(points, 5);
    anchors_are_found(anchors@, scene_key@, anchor_key@, anchors@.len(), i);
}

/// Up to its first stop a clamped interpolation has the output of that stop, from its last stop on the
/// output of the last.
pub proof fn interpolation_clamps_at_its_ends<
    K: Fn(&Kernel) -> Result<MotionValue, KernelError>,
    T: Fn(&MotionValue) -> String,
>(
    host: K,
    tokens: T,
    at: int,
    e: Expr,
    done: Seq<Value>,
    inputs: EvalInputs,
    layout: LayoutInputs,
    r: Result<Value, Fault>,
    input: ExprId,
    stops: Vec<InterpolateStop>,
    easings: Vec<MotionEasing>,
    extrapolate_left: Extrapolation,
    extrapolate_right: Extrapolation,
    x: Scalar,
)
    requires
        e == (Expr::Interpolate { input, stops, easings, extrapolate_left, extrapolate_right }),
        is_number(done, input, x),
        stops@.len() >= 2,
        easings@.len() == 0 || easings@.len() + 1 == stops@.len(),
        !x.is_nan_spec(),
        forall|k: int| 0 <= k < stops@.len() ==> !(#[trigger] stops@[k]).input.is_nan_spec(),
        stops@[0].input.order() < stops@[stops@.len() - 1].input.order(),
        evaluates(host, tokens, at, e, done, inputs, layout, r),
    ensures
        extrapolate_left == Extrapolation::Clamp && x.order() <= stops@[0].input.order() ==> r == Ok::<
            Value,
            Fault,
        >(stops@[0].output@),
        extrapolate_right == Extrapolation::Clamp && x.order() >= stops@[stops@.len() - 1].input.order()
            ==> r == Ok::<Value, Fault>(stops@[stops@.len() - 1].output@),
{
    reveal_with_fuel(numbers, 5);
    reveal_with_fuel(points, 5);
    assert(!stops@[0].input.is_nan_spec());
    assert(!stops@[stops@.len() - 1].input.is_nan_spec());
}

/// Whether the host answers a task with a number.
pub open spec fn asked_number<K: Fn(&Kernel) -> Result<MotionValue, KernelError>>(
    host: K,
    k: Kernel,
    x: Scalar,
) -> bool {
    call_ensures(host, (&k,), Ok(MotionValue::Number(x)))
}

proof fn numbers_were_asked<K: Fn(&Kernel) -> Result<MotionValue, KernelError>>(
    host: K,
    task: Task,
    x: Scalar,
) -> (k: Kernel)
    requires
        number_told(host, task, Some(x)),
    ensures
        k@ == task,
        asked_number(host, k, x),
{
    let out = choose|out: Result<Value, KernelError>| #[trigger]
        answers(host, task, out) && Some(x) == crate::blend::as_number(out);
    let (k, given) = choose|k: Kernel, given: Result<MotionValue, KernelError>| #[trigger]
        call_ensures(host, (&k,), given) && k@ == task && crate::eval::answer_seen(given) == out;
    assert(given == Ok::<MotionValue, KernelError>(MotionValue::Number(x)));
    k
}

/// How a number lies between two stops: the host tells their distance, the eased fraction of the way
/// that the input has come, and the number at that fraction between the two outputs.
pub open spec fn between_stops<K: Fn(&Kernel) -> Result<MotionValue, KernelError>>(
    host: K,
    x: Scalar,
    start: Scalar,
    end: Scalar,
    first: Scalar,
    second: Scalar,
    easing: Option<MotionEasing>,
    y: Scalar,
) -> bool {
    exists|p: Kernel, q: Kernel, s: Kernel, span: Scalar, t: Scalar|
        #![trigger asked_number(host, p, span), asked_number(host, q, t), asked_number(host, s, y)]
        asked_number(host, p, span) && (p matches Kernel::Sub { a, b } && a == end && b == start)
            && asked_number(host, q, t) && (q matches Kernel::Fraction {
            start: from,
            span: width,
            input,
            easing: curve,
        } && from == start && width == span && input == x && curve == easing) && asked_number(
            host,
            s,
            y,
        ) && (s matches Kernel::Lerp { a, b, t: f } && a == first && b == second && f == t)
}

proof fn segments_lie_between<K: Fn(&Kernel) -> Result<MotionValue, KernelError>>(
    host: K,
    at: int,
    a: Stop,
    b: Stop,
    x: Scalar,
    easing: Option<MotionEasing>,
    first: Scalar,
    second: Scalar,
    v: Value,
)
    requires
        segment_gives(host, at, a, b, x, easing, Ok(v)),
        a.output == Value::Number(first),
        b.output == Value::Number(second),
    ensures
        v matches Value::Number(y) && between_stops(
            host,
            x,
            a.input,
            b.input,
            first,
            second,
            easing,
            y,
        ),
{
    let r: Result<Value, Fault> = Ok(v);
    let span = choose|span: Option<Scalar>| #[trigger]
        number_told(host, Task::Sub(b.input, a.input), span) && segment_step(
            host,
            at,
            a,
            b,
            x,
            easing,
            span,
            r,
        );
    let t = choose|t: Option<Scalar>| #[trigger]
        number_told(host, Task::Fraction(a.input, span->0, x, easing), t)
            && crate::eval::blended_at(host, at, a, b, t, r);
    let out = choose|out: Result<Value, Fault>| #[trigger]
        crate::blend::blend_gives(host, at, a.output, b.output, t->0, out) && r
            == crate::eval::kept_finite(at, "interpolate"@, out);
    let xs = choose|xs: Seq<Option<Scalar>>| #[trigger]
        crate::blend::lerps(
            host,
            crate::blend::parts(a.output),
            crate::blend::parts(b.output),
            t->0,
            xs,
        ) && xs.len() == crate::blend::parts(a.output).len() && out == match crate::blend::all_there(
            xs,
        ) {
            Some(xs) => Ok(crate::blend::with_parts(a.output, xs)),
            None => crate::blend::no_blend(at),
        };
    assert(number_told(host, Task::Lerp(first, second, t->0), xs[0]));
    assert(xs[0] is Some);
    let y = xs[0]->0;
    let p = numbers_were_asked(host, Task::Sub(b.input, a.input), span->0);
    let q = numbers_were_asked(host, Task::Fraction(a.input, span->0, x, easing), t->0);
    let s = numbers_were_asked(host, Task::Lerp(first, second, t->0), y);
    assert(v == Value::Number(y));
    assert(asked_number(host, p, span->0) && asked_number(host, q, t->0) && asked_number(
        host,
        s,
        y,
    ));
}

proof fn segments_hold_their_input(stops: Seq<InterpolateStop>, x: Scalar, from: int)
    requires
        0 <= from < stops.len(),
        segment_at(stops, x, from) < stops.len() - 1,
    ensures
        from <= segment_at(stops, x, from),
        stops[segment_at(stops, x, from)].input.le_spec(x),
        x.lt_spec(stops[segment_at(stops, x, from) + 1].input),
    decreases stops.len() - from,
{
    if from < stops.len() - 1 && !(stops[from].input.le_spec(x) && x.lt_spec(
        stops[from + 1].input,
    )) {
        segments_hold_their_input(stops, x, from + 1);
    }
}

/// Between its ends an interpolation of numbers lies between two neighbouring stops that enclose the
/// input, by the easing of that segment. Beyond an end that extends, it follows the outermost segment
/// without easing.
pub proof fn interpolation_blends_between_stops<
    K: Fn(&Kernel) -> Result<MotionValue, KernelError>,
    T: Fn(&MotionValue) -> String,
>(
    host: K,
    tokens: T,
    at: int,
    e: Expr,
    done: Seq<Value>,
    inputs: EvalInputs,
    layout: LayoutInputs,
    r: Result<Value, Fault>,
    input: ExprId,
    stops: Vec<InterpolateStop>,
    easings: Vec<MotionEasing>,
    extrapolate_left: Extrapolation,
    extrapolate_right: Extrapolation,
    x: Scalar,
    outputs: Seq<Scalar>,
    v: Value,
)
    requires
        e == (Expr::Interpolate { input, stops, easings, extrapolate_left, extrapolate_right }),
        is_number(done, input, x),
        stops@.len() >= 2,
        outputs.len() == stops@.len(),
        forall|k: int|
            0 <= k < stops@.len() ==> (#[trigger] stops@[k]).output@ == Value::Number(outputs[k]),
        r == Ok::<Value, Fault>(v),
        stops@[0].input.lt_spec(x) && x.lt_spec(stops@[stops@.len() - 1].input),
        evaluates(host, tokens, at, e, done, inputs, layout, r),
    ensures
        exists|k: int|
            0 <= k < stops@.len() - 1 && (#[trigger] stops@[k]).input.order() <= x.order() && x.order()
                < stops@[k + 1].input.order() && (v matches Value::Number(y) && between_stops(
                host,
                x,
                stops@[k].input,
                stops@[k + 1].input,
                outputs[k],
                outputs[k + 1],
                if k < easings@.len() { Some(easings@[k]) } else { None },
                y,
            )),
{
    reveal_with_fuel(numbers, 5);
    reveal_with_fuel(points, 5);
    let k = segment_at(stops@, x, 0);
    assert(plan(at, e, done, inputs, layout) == interpolation(
        at,
        x,
        stops@,
        easings@,
        extrapolate_left,
        extrapolate_right,
    ));
    assert(k < stops@.len() - 1);
    segments_hold_their_input(stops@, x, 0);
    assert(stops@[k].output@ == Value::Number(outputs[k]));
    assert(stops@[k + 1].output@ == Value::Number(outputs[k + 1]));
    segments_lie_between(
        host,
        at,
        crate::eval::stop_of(stops@[k]),
        crate::eval::stop_of(stops@[k + 1]),
        x,
        if k < easings@.len() { Some(easings@[k]) } else { None },
        outputs[k],
        outputs[k + 1],
        v,
    );
}

proof fn texts_flatten(texts: Seq<Seq<char>>, n: nat)
    requires
        n <= texts.len(),
    ensures
        concat(texts, n) == texts.take(n as int).flatten(),
    decreases n,
{
    if n == 0 {
        assert(texts.take(0) =~= Seq::empty());
    } else {
        texts_flatten(texts, (n - 1) as nat);
        assert(texts.take(n as int) =~= texts.take(n - 1).push(texts[n - 1]));
        texts.take(n - 1).lemma_flatten_push(texts[n - 1]);
    }
}

proof fn pieces_follow_parts(parts: Seq<TemplatePart>, done: Seq<Value>, n: nat, k: int)
    requires
        0 <= k < n <= parts.len(),
    ensures
        pieces(parts, done, n).len() == n,
        match parts[k] {
            TemplatePart::Text { value } => pieces(parts, done, n)[k] == Piece::Text(value@),
            TemplatePart::Expr { expr } => pieces(parts, done, n)[k] == if expr.0 < done.len() {
                Piece::Token(done[expr.0 as int])
            } else {
                Piece::Missing(expr.0 as int)
            },
        },
    decreases n,
{
    reveal_with_fuel(pieces, 2);
    if k < n - 1 {
        pieces_follow_parts(parts, done, (n - 1) as nat, k);
    } else if n > 1 {
        pieces_follow_parts(parts, done, (n - 1) as nat, 0);
    }
}

/// Whether a text stands for a part of a template: a literal for itself, an expression for the token of
/// its value.
pub open spec fn stands_for<T: Fn(&MotionValue) -> String>(
    tokens: T,
    part: TemplatePart,
    done: Seq<Value>,
    text: Seq<char>,
) -> bool {
    match part {
        TemplatePart::Text { value } => text == value@,
        TemplatePart::Expr { expr } => expr.0 < done.len() && token_written(
            tokens,
            done[expr.0 as int],
            text,
        ),
    }
}

/// A template is the text of all its parts, one after the other.
pub proof fn templates_join_their_parts<
    K: Fn(&Kernel) -> Result<MotionValue, KernelError>,
    T: Fn(&MotionValue) -> String,
>(
    host: K,
    tokens: T,
    at: int,
    e: Expr,
    done: Seq<Value>,
    inputs: EvalInputs,
    layout: LayoutInputs,
    r: Result<Value, Fault>,
    parts: Vec<TemplatePart>,
    v: Value,
)
    requires
        e == (Expr::Template { parts }),
        r == Ok::<Value, Fault>(v),
        evaluates(host, tokens, at, e, done, inputs, layout, r),
    ensures
        exists|texts: Seq<Seq<char>>|
            texts.len() == parts@.len() && (forall|k: int|
                0 <= k < parts@.len() ==> stands_for(tokens, parts@[k], done, #[trigger] texts[k])) && v
                == Value::Str(#[trigger] texts.flatten()),
{
    reveal_with_fuel(numbers, 5);
    reveal_with_fuel(points, 5);
    let all = pieces(parts@, done, parts@.len());
    let texts = choose|texts: Seq<Seq<char>>| #[trigger]
        writes(tokens, all, texts) && texts.len() == all.len() && v == Value::Str(
            concat(texts, texts.len()),
        );
    if parts@.len() > 0 {
        pieces_follow_parts(parts@, done, parts@.len(), 0);
    }
    assert forall|k: int| 0 <= k < parts@.len() implies stands_for(
        tokens,
        parts@[k],
        done,
        #[trigger] texts[k],
    ) by {
        pieces_follow_parts(parts@, done, parts@.len(), k);
        assert(writes_piece(tokens, all[k], texts[k]));
    }
    texts_flatten(texts, texts.len());
    assert(texts.take(texts.len() as int) =~= texts);
    assert(v == Value::Str(texts.flatten()));
}

} // verus!
