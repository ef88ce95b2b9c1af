//! Numbers, values and controls: how they compare, when they are finite, how they are written, blended and
//! accepted.

use vstd::prelude::*;

use crate::blend::blend_gives;
use crate::eval::{answers, Kernel, KernelError, Task};
use crate::faults::Fault;
use crate::props::{resolution, resolved};
use crate::recording::{Point, Rect};
use crate::scalar::{num, Scalar};
use crate::table::{find, Entry};
use crate::text::numeral;
use crate::value::{
    number_written, token_written, Angle, AngleUnit, ControlType, ControlsSchema, Length, Length2,
    LengthUnit, MotionValue, PropControl, Value,
};

verus! {

/// Positive numbers compare as their bit patterns do, up to infinity.
pub proof fn positive_numbers_compare_by_their_bits(a: u64, b: u64)
    requires
        a <= 0x7ff0_0000_0000_0000,
        b <= 0x7ff0_0000_0000_0000,
    ensures
        num(a).lt_spec(num(b)) == (a < b),
        num(a).le_spec(num(b)) == (a <= b),
        num(a).eq_spec(num(b)) == (a == b),
        num(a).finite() == (a < 0x7ff0_0000_0000_0000),
        !num(a).is_nan_spec(),
{
}

/// A sign bit turns the order round, and makes a number less than every positive one but for zero.
pub proof fn signs_turn_the_order(a: u64, b: u64)
    requires
        a <= 0x7ff0_0000_0000_0000,
        b <= 0x7ff0_0000_0000_0000,
    ensures
        ({
            let p = num((a + 0x8000_0000_0000_0000) as u64);
            let q = num((b + 0x8000_0000_0000_0000) as u64);
            &&& p.lt_spec(q) == (b < a)
            &&& p.lt_spec(num(b)) == (a > 0 || b > 0)
            &&& !num(b).lt_spec(p)
            &&& p.eq_spec(num(b)) == (a == 0 && b == 0)
            &&& p.finite() == num(a).finite()
            &&& p.neg_spec() == num(a)
            &&& num(a).neg_spec() == p
            &&& p.abs_spec() == num(a)
            &&& num(a).abs_spec() == num(a)
        }),
{
}

/// What is not a number is neither less than, nor equal to, nor greater than anything.
pub proof fn undefined_numbers_do_not_compare(x: Scalar, y: Scalar)
    requires
        0x7ff0_0000_0000_0000 < x.bits < 0x8000_0000_0000_0000 || 0xfff0_0000_0000_0000 < x.bits,
    ensures
        !x.finite(),
        x.is_nan_spec(),
        !x.lt_spec(y) && !y.lt_spec(x),
        !x.le_spec(y) && !y.le_spec(x),
        !x.eq_spec(y),
{
}

/// A number is clamped to the nearer bound where it lies outside.
pub proof fn clamping_takes_the_nearer_bound(x: Scalar, low: Scalar, high: Scalar)
    requires
        low.lt_spec(high),
    ensures
        x.lt_spec(low) ==> x.clamp_spec(low, high) == low,
        high.lt_spec(x) ==> x.clamp_spec(low, high) == high,
        low.le_spec(x) && x.le_spec(high) ==> x.clamp_spec(low, high) == x,
{
}

/// A value is finite where every number in it is.
pub proof fn finite_values_hold_finite_numbers(v: Value)
    ensures
        v.finite() <==> forall|x: Scalar| #[trigger] holds(v, x) ==> x.finite(),
{
    match v {
        Value::Number(x) => {
            assert(holds(v, x));
        },
        Value::Length(l) => {
            assert(holds(v, l.value));
        },
        Value::Length2(l) => {
            assert(holds(v, l.x.value) && holds(v, l.y.value));
        },
        Value::Angle(a) => {
            assert(holds(v, a.value));
        },
        Value::Point(p) => {
            assert(holds(v, p.x) && holds(v, p.y));
        },
        Value::Vec2(p) => {
            assert(holds(v, p.x) && holds(v, p.y));
        },
        Value::Rect(r) => {
            assert(holds(v, r.x) && holds(v, r.y) && holds(v, r.width) && holds(v, r.height));
        },
        Value::PathData(p) => {
            if !v.finite() {
                let i = choose|i: int|
                    0 <= i < p.points.len() && !crate::path::finite_point(#[trigger] p.points[i]);
                assert(holds(v, p.points[i].x) && holds(v, p.points[i].y));
            } else {
                assert forall|x: Scalar| #[trigger] holds(v, x) implies x.finite() by {
                    let i = choose|i: int|
                        0 <= i < p.points.len() && ((#[trigger] p.points[i]).x == x || p.points[i].y
                            == x);
                    assert(crate::path::finite_point(p.points[i]));
                }
            }
        },
        _ => {},
    }
}

/// Whether a number occurs in a value.
pub open spec fn holds(v: Value, x: Scalar) -> bool {
    match v {
        Value::Number(y) => y == x,
        Value::Length(l) => l.value == x,
        Value::Length2(l) => l.x.value == x || l.y.value == x,
        Value::Angle(a) => a.value == x,
        Value::Point(p) => p.x == x || p.y == x,
        Value::Vec2(p) => p.x == x || p.y == x,
        Value::Rect(r) => r.x == x || r.y == x || r.width == x || r.height == x,
        Value::PathData(p) => exists|i: int|
            0 <= i < p.points.len() && ((#[trigger] p.points[i]).x == x || p.points[i].y == x),
        _ => false,
    }
}

/// A finite value equals itself, and equality goes both ways.
pub proof fn equality_is_reflexive_and_symmetric(a: Value, b: Value)
    ensures
        a.finite() ==> a.same(a),
        a.same(b) == b.same(a),
{
    match (a, b) {
        (Value::PathData(p), Value::PathData(q)) => {
            if a.same(b) {
                assert forall|i: int| 0 <= i < q.points.len() implies crate::path::point_eq(
                    #[trigger] q.points[i],
                    p.points[i],
                ) by {
                    assert(crate::path::point_eq(p.points[i], q.points[i]));
                }
            }
            if b.same(a) {
                assert forall|i: int| 0 <= i < p.points.len() implies crate::path::point_eq(
                    #[trigger] p.points[i],
                    q.points[i],
                ) by {
                    assert(crate::path::point_eq(q.points[i], p.points[i]));
                }
            }
        },
        _ => {},
    }
    match a {
        Value::PathData(p) => {
            if a.finite() {
                assert forall|i: int| 0 <= i < p.points.len() implies crate::path::point_eq(
                    #[trigger] p.points[i],
                    p.points[i],
                ) by {
                    assert(crate::path::finite_point(p.points[i]));
                }
            }
        },
        _ => {},
    }
}

/// Equal values without zeros that differ in sign are the same value, whatever their kind.
pub proof fn equal_values_are_the_same(a: Value, b: Value)
    requires
        a.same(b),
        !(a is PathData),
        forall|x: Scalar| #[trigger] holds(a, x) ==> x.bits != 0x8000_0000_0000_0000,
        forall|x: Scalar| #[trigger] holds(b, x) ==> x.bits != 0x8000_0000_0000_0000,
    ensures
        a == b,
{
    match (a, b) {
        (Value::Number(x), Value::Number(y)) => {
            assert(holds(a, x) && holds(b, y));
        },
        (Value::Length(x), Value::Length(y)) => {
            assert(holds(a, x.value) && holds(b, y.value));
        },
        (Value::Length2(x), Value::Length2(y)) => {
            assert(holds(a, x.x.value) && holds(b, y.x.value));
            assert(holds(a, x.y.value) && holds(b, y.y.value));
        },
        (Value::Angle(x), Value::Angle(y)) => {
            assert(holds(a, x.value) && holds(b, y.value));
        },
        (Value::Point(x), Value::Point(y)) => {
            assert(holds(a, x.x) && holds(b, y.x) && holds(a, x.y) && holds(b, y.y));
        },
        (Value::Vec2(x), Value::Vec2(y)) => {
            assert(holds(a, x.x) && holds(b, y.x) && holds(a, x.y) && holds(b, y.y));
        },
        (Value::Rect(x), Value::Rect(y)) => {
            assert(holds(a, x.x) && holds(b, y.x) && holds(a, x.y) && holds(b, y.y));
            assert(holds(a, x.width) && holds(b, y.width) && holds(a, x.height) && holds(
                b,
                y.height,
            ));
        },
        _ => {},
    }
}

/// Numerals are decimal: one digit below ten, and a further digit for ten times a number and a bit.
pub proof fn numerals_are_decimal(n: nat, d: nat)
    requires
        d < 10,
    ensures
        numeral(0) == seq!['0'] && numeral(1) == seq!['1'] && numeral(2) == seq!['2'],
        numeral(3) == seq!['3'] && numeral(4) == seq!['4'] && numeral(5) == seq!['5'],
        numeral(6) == seq!['6'] && numeral(7) == seq!['7'] && numeral(8) == seq!['8'],
        numeral(9) == seq!['9'],
        n > 0 ==> numeral(10 * n + d) == numeral(n) + numeral(d),
{
    if n > 0 {
        assert((10 * n + d) / 10 == n && (10 * n + d) % 10 == d);
        assert(numeral(10 * n + d) =~= numeral(n) + numeral(d));
    }
}

/// A whole number is written in digits, with a minus sign where it has one.
pub proof fn whole_numbers_are_written_in_digits<F: Fn(&MotionValue) -> String>(
    host: F,
    x: Scalar,
    m: nat,
    out: Seq<char>,
)
    requires
        x.whole(m),
        number_written(host, x, out),
    ensures
        out == if x.bits >= 0x8000_0000_0000_0000 { "-"@ + numeral(m) } else { numeral(m) },
{
    let k = choose|k: nat| #[trigger] x.whole(k) && out == crate::value::whole_text(x, k);
    crate::scalar::whole_is_unique(x, m, k);
}

/// A length is its number and its unit; a pair of lengths is both with a blank between them.
pub proof fn lengths_are_written_with_their_unit<F: Fn(&MotionValue) -> String>(
    host: F,
    x: Scalar,
    out: Seq<char>,
)
    ensures
        token_written(host, Value::Length(Length { value: x, unit: LengthUnit::Px }), out) <==> number_and(
            host,
            x,
            "px"@,
            out,
        ),
        token_written(host, Value::Length(Length { value: x, unit: LengthUnit::Percent }), out) <==> number_and(
            host,
            x,
            "%"@,
            out,
        ),
        token_written(host, Value::Length(Length { value: x, unit: LengthUnit::Rem }), out) <==> number_and(
            host,
            x,
            "rem"@,
            out,
        ),
        token_written(host, Value::Length(Length { value: x, unit: LengthUnit::Em }), out) <==> number_and(
            host,
            x,
            "em"@,
            out,
        ),
        token_written(host, Value::Length(Length { value: x, unit: LengthUnit::Vw }), out) <==> number_and(
            host,
            x,
            "vw"@,
            out,
        ),
        token_written(host, Value::Length(Length { value: x, unit: LengthUnit::Vh }), out) <==> number_and(
            host,
            x,
            "vh"@,
            out,
        ),
{
}

/// An angle is its number and its unit.
pub proof fn angles_are_written_with_their_unit<F: Fn(&MotionValue) -> String>(
    host: F,
    x: Scalar,
    out: Seq<char>,
)
    ensures
        token_written(host, Value::Angle(Angle { value: x, unit: AngleUnit::Deg }), out) <==> number_and(
            host,
            x,
            "deg"@,
            out,
        ),
        token_written(host, Value::Angle(Angle { value: x, unit: AngleUnit::Rad }), out) <==> number_and(
            host,
            x,
            "rad"@,
            out,
        ),
        token_written(host, Value::Angle(Angle { value: x, unit: AngleUnit::Turn }), out) <==> number_and(
            host,
            x,
            "turn"@,
            out,
        ),
{
}

/// Whether a text is a number with something behind it.
pub open spec fn number_and<F: Fn(&MotionValue) -> String>(
    host: F,
    x: Scalar,
    unit: Seq<char>,
    out: Seq<char>,
) -> bool {
    exists|digits: Seq<char>| #[trigger] number_written(host, x, digits) && out == digits + unit
}

/// Conditions, texts and words are written as they read; a pair of lengths with a blank between them.
pub proof fn plain_values_are_written_as_they_read<F: Fn(&MotionValue) -> String>(
    host: F,
    s: Seq<char>,
    x: Length,
    y: Length,
    out: Seq<char>,
)
    ensures
        token_written(host, Value::Bool(true), out) <==> out == "true"@,
        token_written(host, Value::Bool(false), out) <==> out == "false"@,
        token_written(host, Value::Str(s), out) <==> out == s,
        token_written(host, Value::Enum(s), out) <==> out == s,
        token_written(host, Value::Length2(Length2 { x, y }), out) ==> exists|a: Seq<char>, b: Seq<char>|
            #![trigger token_written(host, Value::Length(x), a), token_written(host, Value::Length(y), b)]
            token_written(host, Value::Length(x), a) && token_written(host, Value::Length(y), b) && out
                == a + " "@ + b,
{
    if token_written(host, Value::Length2(Length2 { x, y }), out) {
        let (a, b) = choose|a: Seq<char>, b: Seq<char>|
            #![trigger crate::value::dimension_written(host, x.value, crate::value::unit_text(x.unit), a), crate::value::dimension_written(host, y.value, crate::value::unit_text(y.unit), b)]
            crate::value::dimension_written(host, x.value, crate::value::unit_text(x.unit), a)
                && crate::value::dimension_written(
                host,
                y.value,
                crate::value::unit_text(y.unit),
                b,
            ) && out == a + " "@ + b;
        assert(token_written(host, Value::Length(x), a));
        assert(token_written(host, Value::Length(y), b));
    }
}

/// A control takes finite values of its own kind: a number within its bounds, a word among its options.
pub proof fn controls_take_their_kind(c: ControlType, v: Value)
    ensures
        c.accepts_value(v) && c.inside_bounds(v) <==> match v {
            Value::Number(x) => match c {
                ControlType::Number { min, max, .. } => {
                    &&& min is Some ==> min->0.le_spec(x)
                    &&& max is Some ==> x.le_spec(max->0)
                },
                _ => false,
            },
            Value::Str(_) => c is Text || c is NodeTarget,
            Value::Bool(_) => c is Bool,
            Value::Color(_) => c is Color,
            Value::Length(_) => c is Length,
            Value::Angle(_) => c is Angle,
            Value::Point(_) => c is Point,
            Value::Rect(_) => c is Rect,
            Value::PathData(_) => c is PathData,
            Value::Enum(s) => match c {
                ControlType::Select { options } => is_among(options@, s),
                _ => false,
            },
            _ => false,
        },
{
    match (c, v) {
        (ControlType::Select { options }, Value::Enum(s)) => {
            if c.accepts_value(v) {
                let i = choose|i: int| 0 <= i < options@.len() && (#[trigger] options@[i])@ == s;
                assert(options@[i]@ == s);
            }
        },
        _ => {},
    }
}

/// Whether a text is among others.
pub open spec fn is_among(options: Seq<String>, s: Seq<char>) -> bool {
    exists|i: int| 0 <= i < options.len() && (#[trigger] options[i])@ == s
}

/// A control has the value that was handed in for it, otherwise its default, otherwise none; a value that
/// it does not take fails, and so does a missing one that it needs. Nothing else is added.
pub proof fn controls_are_resolved_in_order(
    controls: Seq<Entry<PropControl>>,
    overrides: Seq<Entry<MotionValue>>,
    n: nat,
)
    requires
        n < controls.len(),
        resolved(controls, overrides, n) is Ok,
    ensures
        resolved(controls, overrides, 0) == Ok::<Seq<(Seq<char>, Value)>, Fault>(seq![]),
        ({
            let name = controls[n as int].key@;
            let c = controls[n as int].value;
            let before = resolved(controls, overrides, n)->Ok_0;
            let after = resolved(controls, overrides, n + 1);
            let own = find(overrides, name);
            if own is None && c.default is None {
                after == if c.required {
                    Err::<Seq<(Seq<char>, Value)>, Fault>(Fault::MissingProp(name))
                } else {
                    Ok(before)
                }
            } else {
                let v = if own is Some { own->0@ } else { c.default->0@ };
                after == if v.finite() && c.control.accepts_value(v) && c.control.inside_bounds(v) {
                    Ok::<Seq<(Seq<char>, Value)>, Fault>(before.push((name, v)))
                } else {
                    Err(Fault::InvalidProp(name))
                }
            }
        }),
{
}

/// Values are resolved where every one that is handed in belongs to a control, and refused otherwise.
pub proof fn unknown_values_are_refused(
    controls: ControlsSchema,
    overrides: Seq<Entry<MotionValue>>,
)
    ensures
        ({
            let known = forall|i: int|
                0 <= i < overrides.len() ==> find(controls.props@, (#[trigger] overrides[i]).key@) is Some;
            if known {
                resolution(controls, overrides) == resolved(
                    controls.props@,
                    overrides,
                    controls.props@.len(),
                )
            } else {
                resolution(controls, overrides) is Err
            }
        }),
{
    unknown_is_met(controls, overrides, overrides.len());
}

proof fn unknown_is_met(controls: ControlsSchema, overrides: Seq<Entry<MotionValue>>, n: nat)
    requires
        n <= overrides.len(),
    ensures
        crate::props::unknown_override(controls, overrides, n) is None <==> forall|i: int|
            0 <= i < n ==> find(controls.props@, (#[trigger] overrides[i]).key@) is Some,
    decreases n,
{
    if n > 0 {
        unknown_is_met(controls, overrides, (n - 1) as nat);
        if crate::props::unknown_override(controls, overrides, n) is Some {
            if crate::props::unknown_override(controls, overrides, (n - 1) as nat) is None {
                assert(find(controls.props@, overrides[n - 1].key@) is None);
            }
        }
    }
}

/// Whether the host blends two numbers to a third.
pub open spec fn between<K: Fn(&Kernel) -> Result<MotionValue, KernelError>>(
    host: K,
    a: Scalar,
    b: Scalar,
    t: Scalar,
    x: Scalar,
) -> bool {
    answers(host, Task::Lerp(a, b, t), Ok(Value::Number(x)))
}

proof fn parts_are_between<K: Fn(&Kernel) -> Result<MotionValue, KernelError>>(
    host: K,
    at: int,
    a: Value,
    b: Value,
    t: Scalar,
    v: Value,
) -> (xs: Seq<Scalar>)
    requires
        crate::blend::parts_blended(host, at, a, b, t, Ok(v)),
    ensures
        xs.len() == crate::blend::parts(a).len(),
        v == crate::blend::with_parts(a, xs),
        forall|i: int|
            0 <= i < xs.len() ==> between(
                host,
                crate::blend::parts(a)[i],
                crate::blend::parts(b)[i],
                t,
                #[trigger] xs[i],
            ),
{
    let ys = choose|ys: Seq<Option<Scalar>>| #[trigger]
        crate::blend::lerps(host, crate::blend::parts(a), crate::blend::parts(b), t, ys) && ys.len()
            == crate::blend::parts(a).len() && Ok::<Value, Fault>(v) == match crate::blend::all_there(
            ys,
        ) {
            Some(xs) => Ok::<Value, Fault>(crate::blend::with_parts(a, xs)),
            None => crate::blend::no_blend(at),
        };
    let xs = crate::blend::all_there(ys)->0;
    assert forall|i: int| 0 <= i < xs.len() implies between(
        host,
        crate::blend::parts(a)[i],
        crate::blend::parts(b)[i],
        t,
        #[trigger] xs[i],
    ) by {
        assert(ys[i] is Some);
        assert(xs[i] == ys[i]->0);
        assert(crate::blend::number_told(
            host,
            Task::Lerp(crate::blend::parts(a)[i], crate::blend::parts(b)[i], t),
            ys[i],
        ));
    }
    xs
}

/// Numbers and lengths blend to a number between them; a length keeps the unit of the first.
pub proof fn numbers_blend_between<K: Fn(&Kernel) -> Result<MotionValue, KernelError>>(
    host: K,
    at: int,
    a: Value,
    b: Value,
    t: Scalar,
    v: Value,
)
    requires
        blend_gives(host, at, a, b, t, Ok(v)),
    ensures
        match (a, b) {
            (Value::Number(x), Value::Number(y)) => v is Number && between(host, x, y, t, v->Number_0),
            (Value::Length(x), Value::Length(y)) => v is Length && v->Length_0.unit == x.unit
                && between(host, x.value, y.value, t, v->Length_0.value),
            (Value::Length2(x), Value::Length2(y)) => v is Length2 && v->Length2_0.x.unit
                == x.x.unit && v->Length2_0.y.unit == x.y.unit && between(
                host,
                x.x.value,
                y.x.value,
                t,
                v->Length2_0.x.value,
            ) && between(host, x.y.value, y.y.value, t, v->Length2_0.y.value),
            _ => true,
        },
{
    match (a, b) {
        (Value::Number(_), Value::Number(_)) | (Value::Length(_), Value::Length(_)) | (
            Value::Length2(_),
            Value::Length2(_),
        ) => {
            let xs = parts_are_between(host, at, a, b, t, v);
            assert(xs[0] == xs[0]);
            if a is Length2 {
                assert(xs[1] == xs[1]);
            }
        },
        _ => {},
    }
}

/// Points, directions and rectangles blend side by side.
pub proof fn shapes_blend_between<K: Fn(&Kernel) -> Result<MotionValue, KernelError>>(
    host: K,
    at: int,
    a: Value,
    b: Value,
    t: Scalar,
    v: Value,
)
    requires
        blend_gives(host, at, a, b, t, Ok(v)),
    ensures
        match (a, b) {
            (Value::Point(p), Value::Point(q)) => v is Point && between(
                host,
                p.x,
                q.x,
                t,
                v->Point_0.x,
            ) && between(host, p.y, q.y, t, v->Point_0.y),
            (Value::Vec2(p), Value::Vec2(q)) => v is Vec2 && between(host, p.x, q.x, t, v->Vec2_0.x)
                && between(host, p.y, q.y, t, v->Vec2_0.y),
            (Value::Rect(p), Value::Rect(q)) => v is Rect && between(host, p.x, q.x, t, v->Rect_0.x)
                && between(host, p.y, q.y, t, v->Rect_0.y) && between(
                host,
                p.width,
                q.width,
                t,
                v->Rect_0.width,
            ) && between(host, p.height, q.height, t, v->Rect_0.height),
            _ => true,
        },
{
    match (a, b) {
        (Value::Point(_), Value::Point(_)) | (Value::Vec2(_), Value::Vec2(_)) | (
            Value::Rect(_),
            Value::Rect(_),
        ) => {
            let xs = parts_are_between(host, at, a, b, t, v);
            assert(xs[0] == xs[0]);
            assert(xs[1] == xs[1]);
            if a is Rect {
                assert(xs[2] == xs[2]);
                assert(xs[3] == xs[3]);
            }
        },
        _ => {},
    }
}

/// Angles blend in degrees, colors as the host mixes them, paths as it morphs them.
pub proof fn other_values_blend_by_the_host<K: Fn(&Kernel) -> Result<MotionValue, KernelError>>(
    host: K,
    at: int,
    a: Value,
    b: Value,
    t: Scalar,
    v: Value,
)
    requires
        blend_gives(host, at, a, b, t, Ok(v)),
    ensures
        match (a, b) {
            (Value::Angle(x), Value::Angle(y)) => exists|p: Scalar, q: Scalar|
                #![trigger answers(host, Task::Degrees(x), Ok(Value::Number(p))), answers(host, Task::Degrees(y), Ok(Value::Number(q)))]
                answers(host, Task::Degrees(x), Ok(Value::Number(p))) && answers(
                    host,
                    Task::Degrees(y),
                    Ok(Value::Number(q)),
                ) && v is Angle && v->Angle_0.unit == AngleUnit::Deg && between(
                    host,
                    p,
                    q,
                    t,
                    v->Angle_0.value,
                ),
            (Value::Color(x), Value::Color(y)) => v is Color && answers(host, Task::Mix(x, y, t), Ok(v)),
            (Value::PathData(x), Value::PathData(y)) => answers(host, Task::Morph(x, y, t), Ok(v)),
            _ => true,
        },
{
    match (a, b) {
        (Value::Angle(x), Value::Angle(y)) => {
            angles_blend(host, at, x, y, t, v);
        },
        (Value::Color(x), Value::Color(y)) => {
            let out = choose|out: Result<Value, KernelError>| #[trigger]
                answers(host, Task::Mix(x, y, t), out) && Ok::<Value, Fault>(v) == match out {
                    Ok(Value::Color(c)) => Ok(Value::Color(c)),
                    _ => crate::blend::no_blend(at),
                };
            assert(answers(host, Task::Mix(x, y, t), out));
        },
        (Value::PathData(x), Value::PathData(y)) => {
            let out = choose|out: Result<Value, KernelError>| #[trigger]
                answers(host, Task::Morph(x, y, t), out) && Ok::<Value, Fault>(v)
                    == crate::eval::settled(at, "interpolate"@, out);
            assert(answers(host, Task::Morph(x, y, t), out));
        },
        _ => {},
    }
}

proof fn angles_blend<K: Fn(&Kernel) -> Result<MotionValue, KernelError>>(
    host: K,
    at: int,
    x: Angle,
    y: Angle,
    t: Scalar,
    v: Value,
)
    requires
        crate::blend::angle_blended(host, at, x, y, t, Ok(v)),
    ensures
        exists|p: Scalar, q: Scalar|
            #![trigger answers(host, Task::Degrees(x), Ok(Value::Number(p))), answers(host, Task::Degrees(y), Ok(Value::Number(q)))]
            answers(host, Task::Degrees(x), Ok(Value::Number(p))) && answers(
                host,
                Task::Degrees(y),
                Ok(Value::Number(q)),
            ) && v is Angle && v->Angle_0.unit == AngleUnit::Deg && between(
                host,
                p,
                q,
                t,
                v->Angle_0.value,
            ),
{
    let r = Ok::<Value, Fault>(v);
    let (p, q) = choose|p: Option<Scalar>, q: Option<Scalar>|
        #![trigger crate::blend::number_told(host, Task::Degrees(x), p), crate::blend::number_told(host, Task::Degrees(y), q)]
        crate::blend::number_told(host, Task::Degrees(x), p) && crate::blend::number_told(
            host,
            Task::Degrees(y),
            q,
        ) && match (p, q) {
            (Some(p), Some(q)) => exists|z: Option<Scalar>| #[trigger]
                crate::blend::number_told(host, Task::Lerp(p, q, t), z) && r == match z {
                    Some(value) => Ok(Value::Angle(Angle { value, unit: AngleUnit::Deg })),
                    None => crate::blend::no_blend(at),
                },
            _ => r == crate::blend::no_blend(at),
        };
    assert(p is Some && q is Some);
    let z = choose|z: Option<Scalar>| #[trigger]
        crate::blend::number_told(host, Task::Lerp(p->0, q->0, t), z) && r == match z {
            Some(value) => Ok(Value::Angle(Angle { value, unit: AngleUnit::Deg })),
            None => crate::blend::no_blend(at),
        };
    assert(answers(host, Task::Degrees(x), Ok(Value::Number(p->0))));
    assert(answers(host, Task::Degrees(y), Ok(Value::Number(q->0))));
    assert(between(host, p->0, q->0, t, z->0));
}

} // verus!
