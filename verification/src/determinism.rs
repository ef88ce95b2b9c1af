//! Laws of evaluation: what a value depends on, and that it is determined.

use vstd::prelude::*;

use crate::blend::{
    all_there, as_number, blend_gives, lerps, no_blend, number_told, parts, parts_blended, with_parts,
};
use crate::eval::{
    answers, blendable, blended_at, concat, fits, geometry_plan, gives, kept_finite, numbers,
    operand, operator_plan, path, pieces, plan, points, segment_gives, segment_step,
    template_gives, writes, writes_piece, EvalInputs, Kernel, KernelError, LayoutInputs, Piece,
    Plan, Stop, Task, UnitContext,
};
use crate::expr::{
    below_step, leads, reads_runtime, substitutions, Expr, ExprId, TemplatePart, MAX_TEMPLATE_OUTPUT_BYTES,
};
use crate::faults::{EvalError, Fault};
use crate::passes::{
    base_active, before_layout, fails_after, in_slice, known_at, left_out, of_units, pass_gives, passed,
    positions, shows, sized, slice_active, slice_told, step_gives, with_unit,
};
use crate::scalar::{num, Scalar, ZERO};
use crate::text::byte_len;
use crate::value::{
    single_text, tokens_are_determined, Angle, AngleUnit, MotionEasing, MotionValue, Value,
};

verus! {

/// Whether the host answers a task in one way only.
pub open spec fn single_answer<K: Fn(&Kernel) -> Result<MotionValue, KernelError>>(host: K) -> bool {
    forall|task: Task, a: Result<Value, KernelError>, b: Result<Value, KernelError>| #[trigger]
        answers(host, task, a) && #[trigger] answers(host, task, b) ==> a == b
}

/// Whether two lists of values agree on every reference.
pub open spec fn agree(refs: Seq<ExprId>, a: Seq<Value>, b: Seq<Value>) -> bool {
    &&& a.len() == b.len()
    &&& forall|k: int|
        0 <= k < refs.len() && (#[trigger] refs[k]).0 < a.len() ==> a[refs[k].0 as int]
            == b[refs[k].0 as int]
}

proof fn operands_agree(at: int, refs: Seq<ExprId>, a: Seq<Value>, b: Seq<Value>, k: int)
    requires
        agree(refs, a, b),
        0 <= k < refs.len(),
    ensures
        operand(at, a, refs[k]) == operand(at, b, refs[k]),
{
}

proof fn numbers_agree(
    at: int,
    op: Seq<char>,
    ids: Seq<ExprId>,
    a: Seq<Value>,
    b: Seq<Value>,
    n: nat,
)
    requires
        agree(ids, a, b),
        n <= ids.len(),
    ensures
        numbers(at, op, a, ids, n) == numbers(at, op, b, ids, n),
    decreases n,
{
    if n > 0 {
        numbers_agree(at, op, ids, a, b, (n - 1) as nat);
        operands_agree(at, ids, a, b, n - 1);
    }
}

proof fn points_agree(
    at: int,
    op: Seq<char>,
    ids: Seq<ExprId>,
    a: Seq<Value>,
    b: Seq<Value>,
    n: nat,
)
    requires
        agree(ids, a, b),
        n <= ids.len(),
    ensures
        points(at, op, a, ids, n) == points(at, op, b, ids, n),
    decreases n,
{
    if n > 0 {
        points_agree(at, op, ids, a, b, (n - 1) as nat);
        operands_agree(at, ids, a, b, n - 1);
    }
}

proof fn pieces_agree(parts: Seq<TemplatePart>, a: Seq<Value>, b: Seq<Value>, n: nat)
    requires
        n <= parts.len(),
        agree(substitutions(parts, n), a, b),
    ensures
        pieces(parts, a, n) == pieces(parts, b, n),
    decreases n,
{
    if n > 0 {
        let now = substitutions(parts, n);
        let was = substitutions(parts, (n - 1) as nat);
        assert forall|k: int| 0 <= k < was.len() && (#[trigger] was[k]).0 < a.len() implies a[was[k].0 as int]
            == b[was[k].0 as int] by {
            assert(now[k] == was[k]);
        }
        match parts[n - 1] {
            TemplatePart::Expr { expr } => {
                assert(now[now.len() - 1] == expr);
            },
            _ => {},
        }
        pieces_agree(parts, a, b, (n - 1) as nat);
    }
}

proof fn geometry_agrees(at: int, e: Expr, a: Seq<Value>, b: Seq<Value>)
    requires
        agree(e.refs(), a, b),
    ensures
        geometry_plan(at, e, a) == geometry_plan(at, e, b),
{
    let refs = e.refs();
    match e {
        Expr::MakePoint { x, y } => numbers_agree(at, "point"@, refs, a, b, 2),
        Expr::MakeRect { x, y, width, height } => numbers_agree(at, "rect"@, refs, a, b, 4),
        Expr::PathLine { points: ids } => points_agree(at, "line"@, refs, a, b, refs.len()),
        Expr::PathTemplate { verbs, points: ids } => points_agree(
            at,
            "pathTemplate"@,
            refs,
            a,
            b,
            refs.len(),
        ),
        Expr::PathCubic { from, control_1, control_2, to } => points_agree(
            at,
            "cubic"@,
            refs,
            a,
            b,
            4,
        ),
        Expr::PathArc { center, radius, start_angle, end_angle } => {
            operands_agree(at, refs, a, b, 0);
            let rest = seq![radius, start_angle, end_angle];
            assert forall|k: int| 0 <= k < rest.len() && (#[trigger] rest[k]).0 < a.len() implies a[rest[k].0 as int]
                == b[rest[k].0 as int] by {
                assert(refs[k + 1] == rest[k]);
            }
            numbers_agree(at, "arc"@, rest, a, b, 3);
        },
        Expr::PathMorph { from, to, progress } => {
            operands_agree(at, refs, a, b, 0);
            operands_agree(at, refs, a, b, 1);
            operands_agree(at, refs, a, b, 2);
        },
        Expr::PathArea { path: p, baseline } => {
            operands_agree(at, refs, a, b, 0);
            operands_agree(at, refs, a, b, 1);
        },
        Expr::PathOffset { path: p, distance } => {
            operands_agree(at, refs, a, b, 0);
            operands_agree(at, refs, a, b, 1);
        },
        Expr::PathPointAt { path: p, progress } => {
            operands_agree(at, refs, a, b, 0);
            operands_agree(at, refs, a, b, 1);
        },
        Expr::PathTangentAt { path: p, progress } => {
            operands_agree(at, refs, a, b, 0);
            operands_agree(at, refs, a, b, 1);
        },
        Expr::PathAngleAt { path: p, progress } => {
            operands_agree(at, refs, a, b, 0);
            operands_agree(at, refs, a, b, 1);
        },
        Expr::PathLength { path: p } => operands_agree(at, refs, a, b, 0),
        Expr::PathTrajectory { frames, frame } => operands_agree(at, refs, a, b, 0),
        Expr::GeometryField { input, field } => operands_agree(at, refs, a, b, 0),
        Expr::ToLength2 { input } => operands_agree(at, refs, a, b, 0),
        _ => {},
    }
}

proof fn operators_agree(at: int, e: Expr, a: Seq<Value>, b: Seq<Value>, inputs: EvalInputs)
    requires
        agree(e.refs(), a, b),
    ensures
        operator_plan(at, e, a, inputs) == operator_plan(at, e, b, inputs),
{
    let refs = e.refs();
    assert forall|k: int| 0 <= k < refs.len() implies operand(at, a, #[trigger] refs[k]) == operand(
        at,
        b,
        refs[k],
    ) by {}
    match e {
        Expr::Template { parts } => pieces_agree(parts@, a, b, parts@.len()),
        Expr::MathBinary { op, lhs, rhs } => numbers_agree(at, "math"@, refs, a, b, 2),
        Expr::Noise2D { seed, x, y } => numbers_agree(at, "noise2d"@, refs, a, b, 2),
        Expr::Select { condition, when_true, when_false } => {
            assert(refs[0] == condition && refs[1] == when_true && refs[2] == when_false);
        },
        Expr::Add { lhs, rhs } => {
            assert(refs[0] == lhs && refs[1] == rhs);
        },
        Expr::Sub { lhs, rhs } => {
            assert(refs[0] == lhs && refs[1] == rhs);
        },
        Expr::Mul { lhs, rhs } => {
            assert(refs[0] == lhs && refs[1] == rhs);
        },
        Expr::Div { lhs, rhs } => {
            assert(refs[0] == lhs && refs[1] == rhs);
        },
        Expr::Compare { op, lhs, rhs } => {
            assert(refs[0] == lhs && refs[1] == rhs);
        },
        Expr::Neg { input } => {
            assert(refs[0] == input);
        },
        Expr::MathUnary { op, input } => {
            assert(refs[0] == input);
        },
        Expr::Noise1D { seed, x } => {
            assert(refs[0] == x);
        },
        Expr::FormatNumber { input, format } => {
            assert(refs[0] == input);
        },
        Expr::Spring { elapsed_frames, mass, stiffness, damping } => {
            assert(refs[0] == elapsed_frames);
        },
        Expr::Interpolate { input, stops, easings, extrapolate_left, extrapolate_right } => {
            assert(refs[0] == input);
        },
        _ => {},
    }
}

/// An expression reads earlier values only through its references.
pub proof fn values_come_through_references(
    at: int,
    e: Expr,
    a: Seq<Value>,
    b: Seq<Value>,
    inputs: EvalInputs,
    layout: LayoutInputs,
)
    requires
        agree(e.refs(), a, b),
    ensures
        plan(at, e, a, inputs, layout) == plan(at, e, b, inputs, layout),
{
    geometry_agrees(at, e, a, b);
    operators_agree(at, e, a, b, inputs);
}

/// An expression that reads no runtime input does not depend on any.
pub proof fn constants_ignore_inputs(
    at: int,
    e: Expr,
    done: Seq<Value>,
    inputs: EvalInputs,
    layout: LayoutInputs,
    other: EvalInputs,
    elsewhere: LayoutInputs,
)
    requires
        !reads_runtime(e),
    ensures
        plan(at, e, done, inputs, layout) == plan(at, e, done, other, elsewhere),
{
}

proof fn concat_reads_prefix(a: Seq<Seq<char>>, b: Seq<Seq<char>>, n: nat)
    requires
        n <= a.len(),
        n <= b.len(),
        forall|i: int| 0 <= i < n ==> #[trigger] a[i] == b[i],
    ensures
        concat(a, n) == concat(b, n),
    decreases n,
{
    if n > 0 {
        concat_reads_prefix(a, b, (n - 1) as nat);
        assert(a[n - 1] == b[n - 1]);
    }
}

proof fn texts_agree<T: Fn(&MotionValue) -> String>(
    tokens: T,
    pieces: Seq<Piece>,
    a: Seq<Seq<char>>,
    b: Seq<Seq<char>>,
    n: nat,
)
    requires
        single_text(tokens),
        writes(tokens, pieces, a),
        writes(tokens, pieces, b),
        n <= a.len(),
        n <= b.len(),
    ensures
        concat(a, n) == concat(b, n),
{
    assert forall|i: int| 0 <= i < n implies #[trigger] a[i] == b[i] by {
        assert(writes_piece(tokens, pieces[i], a[i]));
        assert(writes_piece(tokens, pieces[i], b[i]));
        match pieces[i] {
            Piece::Token(v) => tokens_are_determined(tokens, v, a[i], b[i]),
            _ => {},
        }
    }
    concat_reads_prefix(a, b, n);
}

spec fn template_result(
    at: int,
    pieces: Seq<Piece>,
    texts: Seq<Seq<char>>,
    r: Result<Value, Fault>,
) -> bool {
    let n = texts.len() as int;
    match r {
        Ok(Value::Str(s)) => n == pieces.len() && fits(texts, n) && s == concat(texts, n as nat),
        Err(Fault::BadExpr(a, id)) => a == at && n < pieces.len() && fits(texts, n) && pieces[n]
            == Piece::Missing(id),
        Err(Fault::TemplateTooLong(a)) => a == at && n > 0 && fits(texts, n - 1) && byte_len(
            concat(texts, n as nat),
        ) > MAX_TEMPLATE_OUTPUT_BYTES,
        _ => false,
    }
}

proof fn templates_are_determined<T: Fn(&MotionValue) -> String>(
    tokens: T,
    at: int,
    pieces: Seq<Piece>,
    r: Result<Value, Fault>,
    s: Result<Value, Fault>,
)
    requires
        single_text(tokens),
        template_gives(tokens, at, pieces, r),
        template_gives(tokens, at, pieces, s),
    ensures
        r == s,
{
    let a = choose|texts: Seq<Seq<char>>| #[trigger]
        writes(tokens, pieces, texts) && template_result(at, pieces, texts, r);
    let b = choose|texts: Seq<Seq<char>>| #[trigger]
        writes(tokens, pieces, texts) && template_result(at, pieces, texts, s);
    assert(template_result(at, pieces, a, r));
    assert(template_result(at, pieces, b, s));
    ends_first(tokens, at, pieces, a, b, r, s);
    ends_first(tokens, at, pieces, b, a, s, r);
    texts_agree(tokens, pieces, a, b, a.len());
    assert(fits(a, a.len() as int) ==> byte_len(concat(a, a.len())) <= MAX_TEMPLATE_OUTPUT_BYTES);
    assert(fits(b, b.len() as int) ==> byte_len(concat(b, b.len())) <= MAX_TEMPLATE_OUTPUT_BYTES);
}

proof fn ends_first<T: Fn(&MotionValue) -> String>(
    tokens: T,
    at: int,
    pieces: Seq<Piece>,
    a: Seq<Seq<char>>,
    b: Seq<Seq<char>>,
    r: Result<Value, Fault>,
    s: Result<Value, Fault>,
)
    requires
        single_text(tokens),
        writes(tokens, pieces, a),
        writes(tokens, pieces, b),
        template_result(at, pieces, a, r),
        template_result(at, pieces, b, s),
    ensures
        a.len() >= b.len(),
{
    let n = a.len();
    if n < b.len() {
        texts_agree(tokens, pieces, a, b, n);
        assert(writes_piece(tokens, pieces[n as int], b[n as int]));
        assert(byte_len(concat(b, n)) <= MAX_TEMPLATE_OUTPUT_BYTES) by {
            match s {
                Ok(_) => {
                    assert(fits(b, b.len() as int));
                },
                Err(Fault::BadExpr(_, _)) => {
                    assert(fits(b, b.len() as int));
                },
                _ => {
                    assert(fits(b, b.len() - 1));
                },
            }
        }
    }
}

proof fn numbers_are_determined<K: Fn(&Kernel) -> Result<MotionValue, KernelError>>(
    host: K,
    task: Task,
    r: Option<Scalar>,
    s: Option<Scalar>,
)
    requires
        single_answer(host),
        number_told(host, task, r),
        number_told(host, task, s),
    ensures
        r == s,
{
    let x = choose|out: Result<Value, KernelError>| #[trigger]
        answers(host, task, out) && r == as_number(out);
    let y = choose|out: Result<Value, KernelError>| #[trigger]
        answers(host, task, out) && s == as_number(out);
    assert(answers(host, task, x) && answers(host, task, y));
}

proof fn blends_are_determined<K: Fn(&Kernel) -> Result<MotionValue, KernelError>>(
    host: K,
    at: int,
    a: Value,
    b: Value,
    t: Scalar,
    r: Result<Value, Fault>,
    s: Result<Value, Fault>,
)
    requires
        single_answer(host),
        blend_gives(host, at, a, b, t, r),
        blend_gives(host, at, a, b, t, s),
    ensures
        r == s,
{
    match (a, b) {
        (Value::Angle(x), Value::Angle(y)) => {
            let (p, q) = choose|p: Option<Scalar>, q: Option<Scalar>|
                #![trigger number_told(host, Task::Degrees(x), p), number_told(host, Task::Degrees(y), q)]
                number_told(host, Task::Degrees(x), p) && number_told(host, Task::Degrees(y), q)
                    && match (p, q) {
                    (Some(p), Some(q)) => exists|x: Option<Scalar>| #[trigger]
                        number_told(host, Task::Lerp(p, q, t), x) && r == match x {
                            Some(value) => Ok(
                                Value::Angle(Angle { value, unit: AngleUnit::Deg }),
                            ),
                            None => no_blend(at),
                        },
                    _ => r == no_blend(at),
                };
            let (u, v) = choose|p: Option<Scalar>, q: Option<Scalar>|
                #![trigger number_told(host, Task::Degrees(x), p), number_told(host, Task::Degrees(y), q)]
                number_told(host, Task::Degrees(x), p) && number_told(host, Task::Degrees(y), q)
                    && match (p, q) {
                    (Some(p), Some(q)) => exists|x: Option<Scalar>| #[trigger]
                        number_told(host, Task::Lerp(p, q, t), x) && s == match x {
                            Some(value) => Ok(
                                Value::Angle(Angle { value, unit: AngleUnit::Deg }),
                            ),
                            None => no_blend(at),
                        },
                    _ => s == no_blend(at),
                };
            numbers_are_determined(host, Task::Degrees(x), p, u);
            numbers_are_determined(host, Task::Degrees(y), q, v);
            if p is Some && q is Some {
                let task = Task::Lerp(p->0, q->0, t);
                let m = choose|x: Option<Scalar>| #[trigger]
                    number_told(host, task, x) && r == match x {
                        Some(value) => Ok(Value::Angle(Angle { value, unit: AngleUnit::Deg })),
                        None => no_blend(at),
                    };
                let n = choose|x: Option<Scalar>| #[trigger]
                    number_told(host, task, x) && s == match x {
                        Some(value) => Ok(Value::Angle(Angle { value, unit: AngleUnit::Deg })),
                        None => no_blend(at),
                    };
                numbers_are_determined(host, task, m, n);
            }
        },
        (Value::Color(_), Value::Color(_)) => {},
        (Value::PathData(_), Value::PathData(_)) => {},
        _ => {
            assert(parts_blended(host, at, a, b, t, r));
            assert(parts_blended(host, at, a, b, t, s));
            let x = choose|xs: Seq<Option<Scalar>>| #[trigger]
                lerps(host, parts(a), parts(b), t, xs) && xs.len() == parts(a).len() && r
                    == match all_there(xs) {
                    Some(xs) => Ok(with_parts(a, xs)),
                    None => no_blend(at),
                };
            let y = choose|xs: Seq<Option<Scalar>>| #[trigger]
                lerps(host, parts(a), parts(b), t, xs) && xs.len() == parts(a).len() && s
                    == match all_there(xs) {
                    Some(xs) => Ok(with_parts(a, xs)),
                    None => no_blend(at),
                };
            assert forall|i: int| 0 <= i < x.len() implies x[i] == y[i] by {
                numbers_are_determined(
                    host,
                    Task::Lerp(parts(a)[i], parts(b)[i], t),
                    x[i],
                    y[i],
                );
            }
            assert(x =~= y);
        },
    }
}

proof fn segments_are_determined<K: Fn(&Kernel) -> Result<MotionValue, KernelError>>(
    host: K,
    at: int,
    a: Stop,
    b: Stop,
    input: Scalar,
    easing: Option<MotionEasing>,
    r: Result<Value, Fault>,
    s: Result<Value, Fault>,
)
    requires
        single_answer(host),
        segment_gives(host, at, a, b, input, easing, r),
        segment_gives(host, at, a, b, input, easing, s),
    ensures
        r == s,
{
    let difference = Task::Sub(b.input, a.input);
    let x = choose|span: Option<Scalar>| #[trigger]
        number_told(host, difference, span) && segment_step(
            host,
            at,
            a,
            b,
            input,
            easing,
            span,
            r,
        );
    let y = choose|span: Option<Scalar>| #[trigger]
        number_told(host, difference, span) && segment_step(
            host,
            at,
            a,
            b,
            input,
            easing,
            span,
            s,
        );
    numbers_are_determined(host, difference, x, y);
    if x is Some && !(x->0.le_spec(num(ZERO)) || !x->0.finite()) && blendable(a.output, b.output) {
        let fraction = Task::Fraction(a.input, x->0, input, easing);
        let t = choose|t: Option<Scalar>| #[trigger]
            number_told(host, fraction, t) && blended_at(host, at, a, b, t, r);
        let u = choose|t: Option<Scalar>| #[trigger]
            number_told(host, fraction, t) && blended_at(host, at, a, b, t, s);
        numbers_are_determined(host, fraction, t, u);
        if t is Some {
            let m = choose|out: Result<Value, Fault>| #[trigger]
                blend_gives(host, at, a.output, b.output, t->0, out) && r == kept_finite(
                    at,
                    "interpolate"@,
                    out,
                );
            let n = choose|out: Result<Value, Fault>| #[trigger]
                blend_gives(host, at, a.output, b.output, t->0, out) && s == kept_finite(
                    at,
                    "interpolate"@,
                    out,
                );
            blends_are_determined(host, at, a.output, b.output, t->0, m, n);
        }
    }
}

/// The outcome of an expression is determined where the host is consistent.
pub proof fn outcomes_are_determined<
    K: Fn(&Kernel) -> Result<MotionValue, KernelError>,
    T: Fn(&MotionValue) -> String,
>(host: K, tokens: T, at: int, plan: Plan, r: Result<Value, Fault>, s: Result<Value, Fault>)
    requires
        single_answer(host),
        single_text(tokens),
        gives(host, tokens, at, plan, r),
        gives(host, tokens, at, plan, s),
    ensures
        r == s,
{
    match plan {
        Plan::Text(pieces) => templates_are_determined(tokens, at, pieces, r, s),
        Plan::Segment(a, b, input, easing) => segments_are_determined(
            host,
            at,
            a,
            b,
            input,
            easing,
            r,
            s,
        ),
        _ => {},
    }
}

proof fn steps_are_determined<
    K: Fn(&Kernel) -> Result<MotionValue, KernelError>,
    T: Fn(&MotionValue) -> String,
>(
    host: K,
    tokens: T,
    exprs: Seq<Expr>,
    at: int,
    a: Seq<Value>,
    b: Seq<Value>,
    inputs: EvalInputs,
    layout: LayoutInputs,
    r: Result<Value, Fault>,
    s: Result<Value, Fault>,
)
    requires
        single_answer(host),
        single_text(tokens),
        agree(exprs[at].refs(), a, b),
        step_gives(host, tokens, exprs, at, a, inputs, layout, r),
        step_gives(host, tokens, exprs, at, b, inputs, layout, s),
    ensures
        r == s,
{
    values_come_through_references(at, exprs[at], a, b, inputs, layout);
    let p = plan(at, exprs[at], a, inputs, layout);
    let x = choose|raw: Result<Value, Fault>| #[trigger]
        gives(host, tokens, at, p, raw) && r == kept_finite(at, "evaluation"@, raw);
    let y = choose|raw: Result<Value, Fault>| #[trigger]
        gives(host, tokens, at, p, raw) && s == kept_finite(at, "evaluation"@, raw);
    outcomes_are_determined(host, tokens, at, p, x, y);
}

proof fn prefixes_are_determined<
    K: Fn(&Kernel) -> Result<MotionValue, KernelError>,
    T: Fn(&MotionValue) -> String,
>(
    host: K,
    tokens: T,
    exprs: Seq<Expr>,
    active: Seq<bool>,
    base: Option<Seq<Value>>,
    inputs: EvalInputs,
    layout: LayoutInputs,
    a: Seq<Value>,
    b: Seq<Value>,
    n: int,
)
    requires
        single_answer(host),
        single_text(tokens),
        passed(host, tokens, exprs, active, base, inputs, layout, a),
        passed(host, tokens, exprs, active, base, inputs, layout, b),
        0 <= n <= a.len(),
        n <= b.len(),
    ensures
        a.take(n) == b.take(n),
    decreases n,
{
    if n > 0 {
        let i = n - 1;
        prefixes_are_determined(host, tokens, exprs, active, base, inputs, layout, a, b, i);
        assert(known_at(base, a, i) == known_at(base, b, i));
        assert(a[i] == a.take(n)[i]);
        assert(b[i] == b.take(n)[i]);
        if active[i] {
            steps_are_determined(
                host,
                tokens,
                exprs,
                i,
                known_at(base, a, i),
                known_at(base, b, i),
                inputs,
                layout,
                Ok(a[i]),
                Ok(b[i]),
            );
        }
        assert(a.take(n) =~= a.take(i).push(a[i]));
        assert(b.take(n) =~= b.take(i).push(b[i]));
    } else {
        assert(a.take(0) =~= b.take(0));
    }
}

/// Evaluation is deterministic: one arena, one set of inputs and a consistent host have one result,
/// be it values or an error.
pub proof fn evaluation_is_deterministic<
    K: Fn(&Kernel) -> Result<MotionValue, KernelError>,
    T: Fn(&MotionValue) -> String,
>(
    host: K,
    tokens: T,
    exprs: Seq<Expr>,
    active: Seq<bool>,
    base: Option<Seq<Value>>,
    inputs: EvalInputs,
    layout: LayoutInputs,
    r: Result<Seq<Value>, Fault>,
    s: Result<Seq<Value>, Fault>,
)
    requires
        single_answer(host),
        single_text(tokens),
        pass_gives(host, tokens, exprs, active, base, inputs, layout, r),
        pass_gives(host, tokens, exprs, active, base, inputs, layout, s),
    ensures
        r == s,
{
    let a = match r {
        Ok(v) => v,
        Err(f) => choose|v: Seq<Value>| #[trigger]
            passed(host, tokens, exprs, active, base, inputs, layout, v) && fails_after(
                host,
                tokens,
                exprs,
                active,
                base,
                inputs,
                layout,
                v,
                f,
            ),
    };
    let b = match s {
        Ok(v) => v,
        Err(f) => choose|v: Seq<Value>| #[trigger]
            passed(host, tokens, exprs, active, base, inputs, layout, v) && fails_after(
                host,
                tokens,
                exprs,
                active,
                base,
                inputs,
                layout,
                v,
                f,
            ),
    };
    let n = if a.len() <= b.len() { a.len() as int } else { b.len() as int };
    prefixes_are_determined(host, tokens, exprs, active, base, inputs, layout, a, b, n);
    assert(known_at(base, a, n) == known_at(base, b, n));
    let known = known_at(base, a, n);
    if a.len() < b.len() {
        steps_are_determined(
            host,
            tokens,
            exprs,
            n,
            known,
            known,
            inputs,
            layout,
            Err(r->Err_0),
            Ok(b[n]),
        );
    } else if b.len() < a.len() {
        steps_are_determined(
            host,
            tokens,
            exprs,
            n,
            known,
            known,
            inputs,
            layout,
            Err(s->Err_0),
            Ok(a[n]),
        );
    } else {
        assert(a.take(n) =~= a);
        assert(b.take(n) =~= b);
        if r is Err {
            steps_are_determined(
                host,
                tokens,
                exprs,
                n,
                known,
                known,
                inputs,
                layout,
                Err(r->Err_0),
                Err(s->Err_0),
            );
        }
    }
}

/// Whether inputs hold the same.
pub open spec fn same_inputs(a: EvalInputs, b: EvalInputs) -> bool {
    &&& *a.ctx == *b.ctx
    &&& a.props.values@ == b.props.values@
    &&& a.signals@ == b.signals@
    &&& a.unit == b.unit
    &&& a.viewport == b.viewport
}

proof fn plans_read_contents(
    at: int,
    e: Expr,
    done: Seq<Value>,
    a: EvalInputs,
    b: EvalInputs,
    layout: LayoutInputs,
)
    requires
        same_inputs(a, b),
    ensures
        plan(at, e, done, a, layout) == plan(at, e, done, b, layout),
{
}

proof fn steps_read_contents<
    K: Fn(&Kernel) -> Result<MotionValue, KernelError>,
    T: Fn(&MotionValue) -> String,
>(
    host: K,
    tokens: T,
    exprs: Seq<Expr>,
    at: int,
    known: Seq<Value>,
    a: EvalInputs,
    b: EvalInputs,
    layout: LayoutInputs,
    r: Result<Value, Fault>,
)
    requires
        same_inputs(a, b),
        step_gives(host, tokens, exprs, at, known, a, layout, r),
    ensures
        step_gives(host, tokens, exprs, at, known, b, layout, r),
{
    plans_read_contents(at, exprs[at], known, a, b, layout);
}

/// Evaluation reads what its inputs hold and nothing else of them.
pub proof fn evaluation_reads_contents<
    K: Fn(&Kernel) -> Result<MotionValue, KernelError>,
    T: Fn(&MotionValue) -> String,
>(
    host: K,
    tokens: T,
    exprs: Seq<Expr>,
    active: Seq<bool>,
    base: Option<Seq<Value>>,
    a: EvalInputs,
    b: EvalInputs,
    layout: LayoutInputs,
    r: Result<Seq<Value>, Fault>,
)
    requires
        same_inputs(a, b),
        pass_gives(host, tokens, exprs, active, base, a, layout, r),
    ensures
        pass_gives(host, tokens, exprs, active, base, b, layout, r),
{
    let v = match r {
        Ok(v) => v,
        Err(f) => choose|v: Seq<Value>| #[trigger]
            passed(host, tokens, exprs, active, base, a, layout, v) && fails_after(
                host,
                tokens,
                exprs,
                active,
                base,
                a,
                layout,
                v,
                f,
            ),
    };
    assert(passed(host, tokens, exprs, active, base, b, layout, v)) by {
        assert forall|i: int| 0 <= i < v.len() implies if active[i] {
            step_gives(
                host,
                tokens,
                exprs,
                i,
                known_at(base, v, i),
                b,
                layout,
                Ok(#[trigger] v[i]),
            )
        } else {
            v[i] == left_out(base, i)
        } by {
            if active[i] {
                steps_read_contents(
                    host,
                    tokens,
                    exprs,
                    i,
                    known_at(base, v, i),
                    a,
                    b,
                    layout,
                    Ok(v[i]),
                );
            }
        }
    }
    if let Err(f) = r {
        let at = v.len() as int;
        steps_read_contents(
            host,
            tokens,
            exprs,
            at,
            known_at(base, v, at),
            a,
            b,
            layout,
            Err(f),
        );
        assert(fails_after(host, tokens, exprs, active, base, b, layout, v, f));
    }
}

/// The values of a text unit are as many as there are expressions, and those that read no unit are
/// the base values.
pub proof fn units_keep_the_rest<
    K: Fn(&Kernel) -> Result<MotionValue, KernelError>,
    T: Fn(&MotionValue) -> String,
>(
    host: K,
    tokens: T,
    exprs: Seq<Expr>,
    base: Seq<Value>,
    inputs: EvalInputs,
    layout: LayoutInputs,
    values: Seq<Value>,
    i: int,
)
    requires
        pass_gives(
            host,
            tokens,
            exprs,
            of_units(exprs),
            Some(sized(base, exprs.len())),
            inputs,
            layout,
            Ok(values),
        ),
        0 <= i < exprs.len(),
        i < base.len(),
        !of_units(exprs)[i],
    ensures
        values.len() == exprs.len(),
        values[i] == base[i],
{
    assert(values[i] == left_out(Some(sized(base, exprs.len())), i));
}

/// The values of a text unit do not depend on the unit that the outer inputs name.
pub proof fn units_ignore_the_outer_unit<
    K: Fn(&Kernel) -> Result<MotionValue, KernelError>,
    T: Fn(&MotionValue) -> String,
>(
    host: K,
    tokens: T,
    exprs: Seq<Expr>,
    base: Seq<Value>,
    a: EvalInputs,
    b: EvalInputs,
    unit: UnitContext,
    layout: LayoutInputs,
    r: Result<Seq<Value>, Fault>,
    s: Result<Seq<Value>, Fault>,
)
    requires
        single_answer(host),
        single_text(tokens),
        a.ctx == b.ctx && a.props == b.props && a.signals == b.signals && a.viewport == b.viewport,
        pass_gives(
            host,
            tokens,
            exprs,
            of_units(exprs),
            Some(sized(base, exprs.len())),
            with_unit(a, unit),
            layout,
            r,
        ),
        pass_gives(
            host,
            tokens,
            exprs,
            of_units(exprs),
            Some(sized(base, exprs.len())),
            with_unit(b, unit),
            layout,
            s,
        ),
    ensures
        r == s,
{
    evaluation_is_deterministic(
        host,
        tokens,
        exprs,
        of_units(exprs),
        Some(sized(base, exprs.len())),
        with_unit(a, unit),
        layout,
        r,
        s,
    );
}

/// What a slice evaluates has the value that the whole arena gives it.
pub proof fn slice_prefix_agrees<
    K: Fn(&Kernel) -> Result<MotionValue, KernelError>,
    T: Fn(&MotionValue) -> String,
>(
    host: K,
    tokens: T,
    exprs: Seq<Expr>,
    live: Seq<ExprId>,
    inputs: EvalInputs,
    whole: Seq<Value>,
    slice: Seq<Value>,
    i: int,
)
    requires
        single_answer(host),
        single_text(tokens),
        passed(
            host,
            tokens,
            exprs,
            base_active(exprs, inputs.unit is Some),
            None,
            inputs,
            before_layout(),
            whole,
        ),
        passed(
            host,
            tokens,
            exprs,
            slice_active(exprs, inputs.unit is Some, live),
            None,
            inputs,
            before_layout(),
            slice,
        ),
        0 <= i < slice.len() <= whole.len() <= exprs.len(),
        in_slice(exprs, live, i),
    ensures
        whole[i] == slice[i],
    decreases i, 1int,
{
    let a = known_at(None, whole, i);
    let b = known_at(None, slice, i);
    slice_reads_agree(host, tokens, exprs, live, inputs, whole, slice, i);
    assert(whole[i] == whole[i] && slice[i] == slice[i]);
    if base_active(exprs, inputs.unit is Some)[i] {
        steps_are_determined(
            host,
            tokens,
            exprs,
            i,
            a,
            b,
            inputs,
            before_layout(),
            Ok(whole[i]),
            Ok(slice[i]),
        );
    }
}

proof fn slice_reads_agree<
    K: Fn(&Kernel) -> Result<MotionValue, KernelError>,
    T: Fn(&MotionValue) -> String,
>(
    host: K,
    tokens: T,
    exprs: Seq<Expr>,
    live: Seq<ExprId>,
    inputs: EvalInputs,
    whole: Seq<Value>,
    slice: Seq<Value>,
    i: int,
)
    requires
        single_answer(host),
        single_text(tokens),
        passed(
            host,
            tokens,
            exprs,
            base_active(exprs, inputs.unit is Some),
            None,
            inputs,
            before_layout(),
            whole,
        ),
        passed(
            host,
            tokens,
            exprs,
            slice_active(exprs, inputs.unit is Some, live),
            None,
            inputs,
            before_layout(),
            slice,
        ),
        0 <= i <= slice.len() <= whole.len() <= exprs.len(),
        i < exprs.len(),
        in_slice(exprs, live, i),
    ensures
        agree(exprs[i].refs(), known_at(None, whole, i), known_at(None, slice, i)),
    decreases i, 0int,
{
    let refs = exprs[i].refs();
    let a = known_at(None, whole, i);
    let b = known_at(None, slice, i);
    assert forall|k: int| 0 <= k < refs.len() && (#[trigger] refs[k]).0 < a.len() implies a[refs[k].0 as int]
        == b[refs[k].0 as int] by {
        let r = refs[k].0 as int;
        assert(leads(exprs, i, r));
        below_step(exprs, positions(live), i, r);
        slice_prefix_agrees(host, tokens, exprs, live, inputs, whole, slice, r);
    }
}

/// Where evaluating the whole arena succeeds, so does every slice of it: it shows the whole's value
/// of each expression that the list reaches, and nothing of the others.
pub proof fn slices_agree_with_the_whole<
    K: Fn(&Kernel) -> Result<MotionValue, KernelError>,
    T: Fn(&MotionValue) -> String,
>(
    host: K,
    tokens: T,
    exprs: Seq<Expr>,
    live: Seq<ExprId>,
    inputs: EvalInputs,
    whole: Seq<Value>,
    r: Result<Vec<Option<MotionValue>>, EvalError>,
)
    requires
        single_answer(host),
        single_text(tokens),
        pass_gives(
            host,
            tokens,
            exprs,
            base_active(exprs, inputs.unit is Some),
            None,
            inputs,
            before_layout(),
            Ok(whole),
        ),
        slice_told(host, tokens, exprs, inputs, live, r),
    ensures
        r is Ok,
        shows(exprs, live, whole, r->Ok_0@),
{
    let few = slice_active(exprs, inputs.unit is Some, live);
    match r {
        Ok(v) => {
            let slice = choose|slice: Seq<Value>| #[trigger]
                pass_gives(
                    host,
                    tokens,
                    exprs,
                    few,
                    None,
                    inputs,
                    before_layout(),
                    Ok(slice),
                ) && shows(exprs, live, slice, v@);
            assert forall|i: int| 0 <= i < v@.len() implies match #[trigger] v@[i] {
                Some(x) => in_slice(exprs, live, i) && x@ == whole[i],
                None => !in_slice(exprs, live, i),
            } by {
                if in_slice(exprs, live, i) {
                    slice_prefix_agrees(host, tokens, exprs, live, inputs, whole, slice, i);
                }
            }
        },
        Err(e) => {
            slice_cannot_fail(host, tokens, exprs, live, inputs, whole, e@);
        },
    }
}

/// A slice of an arena that can be evaluated does not fail.
pub proof fn slice_cannot_fail<
    K: Fn(&Kernel) -> Result<MotionValue, KernelError>,
    T: Fn(&MotionValue) -> String,
>(
    host: K,
    tokens: T,
    exprs: Seq<Expr>,
    live: Seq<ExprId>,
    inputs: EvalInputs,
    whole: Seq<Value>,
    f: Fault,
)
    requires
        single_answer(host),
        single_text(tokens),
        pass_gives(
            host,
            tokens,
            exprs,
            base_active(exprs, inputs.unit is Some),
            None,
            inputs,
            before_layout(),
            Ok(whole),
        ),
    ensures
        !pass_gives(
            host,
            tokens,
            exprs,
            slice_active(exprs, inputs.unit is Some, live),
            None,
            inputs,
            before_layout(),
            Err(f),
        ),
{
    let few = slice_active(exprs, inputs.unit is Some, live);
    if pass_gives(host, tokens, exprs, few, None, inputs, before_layout(), Err(f)) {
        let slice = choose|v: Seq<Value>| #[trigger]
            passed(host, tokens, exprs, few, None, inputs, before_layout(), v) && fails_after(
                host,
                tokens,
                exprs,
                few,
                None,
                inputs,
                before_layout(),
                v,
                f,
            );
        let n = slice.len() as int;
        assert(few[n]);
        slice_reads_agree(host, tokens, exprs, live, inputs, whole, slice, n);
        assert(whole[n] == whole[n]);
        steps_are_determined(
            host,
            tokens,
            exprs,
            n,
            known_at(None, whole, n),
            known_at(None, slice, n),
            inputs,
            before_layout(),
            Ok(whole[n]),
            Err(f),
        );
    }
}

} // verus!
