//! Blends of two values, number by number.

use vstd::prelude::*;

use crate::eval::{
    answer_seen, answers, blendable, eval_seen, settled, Kernel, KernelError, Task,
};
use crate::faults::{EvalError, Fault};
use crate::recording::{Point, Rect};
use crate::scalar::Scalar;
use crate::value::{Angle, AngleUnit, Length, Length2, MotionValue, Value};

verus! {

/// The number in an answer of the host.
pub open spec fn as_number(r: Result<Value, KernelError>) -> Option<Scalar> {
    match r {
        Ok(Value::Number(x)) => Some(x),
        _ => None,
    }
}

/// Whether the host answers a task with a number; nothing where it answers otherwise.
pub open spec fn number_told<K: Fn(&Kernel) -> Result<MotionValue, KernelError>>(
    host: K,
    task: Task,
    r: Option<Scalar>,
) -> bool {
    exists|out: Result<Value, KernelError>| #[trigger]
        answers(host, task, out) && r == as_number(out)
}

/// The numbers of a value that blends number by number.
pub open spec fn parts(v: Value) -> Seq<Scalar> {
    match v {
        Value::Number(x) => seq![x],
        Value::Length(l) => seq![l.value],
        Value::Length2(l) => seq![l.x.value, l.y.value],
        Value::Vec2(p) => seq![p.x, p.y],
        Value::Point(p) => seq![p.x, p.y],
        Value::Rect(r) => seq![r.x, r.y, r.width, r.height],
        _ => Seq::empty(),
    }
}

/// A value with other numbers.
pub open spec fn with_parts(v: Value, xs: Seq<Scalar>) -> Value {
    match v {
        Value::Number(_) => Value::Number(xs[0]),
        Value::Length(l) => Value::Length(Length { value: xs[0], unit: l.unit }),
        Value::Length2(l) => Value::Length2(
            Length2 {
                x: Length { value: xs[0], unit: l.x.unit },
                y: Length { value: xs[1], unit: l.y.unit },
            },
        ),
        Value::Vec2(_) => Value::Vec2(Point { x: xs[0], y: xs[1] }),
        Value::Point(_) => Value::Point(Point { x: xs[0], y: xs[1] }),
        Value::Rect(_) => Value::Rect(Rect { x: xs[0], y: xs[1], width: xs[2], height: xs[3] }),
        _ => v,
    }
}

/// Whether numbers are blended one by one.
pub open spec fn lerps<K: Fn(&Kernel) -> Result<MotionValue, KernelError>>(
    host: K,
    a: Seq<Scalar>,
    b: Seq<Scalar>,
    t: Scalar,
    xs: Seq<Option<Scalar>>,
) -> bool {
    xs.len() <= a.len() && forall|i: int|
        0 <= i < xs.len() ==> number_told(host, Task::Lerp(a[i], b[i], t), #[trigger] xs[i])
}

/// All numbers, where none is missing.
pub open spec fn all_there(xs: Seq<Option<Scalar>>) -> Option<Seq<Scalar>> {
    if forall|i: int| 0 <= i < xs.len() ==> (#[trigger] xs[i]) is Some {
        Some(xs.map_values(|x: Option<Scalar>| x->0))
    } else {
        None
    }
}

pub open spec fn no_blend(at: int) -> Result<Value, Fault> {
    Err(Fault::BadInterpolate(at))
}

/// Whether `r` is an angle between two, in degrees.
pub open spec fn angle_blended<K: Fn(&Kernel) -> Result<MotionValue, KernelError>>(
    host: K,
    at: int,
    a: Angle,
    b: Angle,
    t: Scalar,
    r: Result<Value, Fault>,
) -> bool {
    exists|p: Option<Scalar>, q: Option<Scalar>|
        #![trigger number_told(host, Task::Degrees(a), p), number_told(host, Task::Degrees(b), q)]
        number_told(host, Task::Degrees(a), p) && number_told(host, Task::Degrees(b), q) && match (
            p,
            q,
        ) {
            (Some(p), Some(q)) => exists|x: Option<Scalar>| #[trigger]
                number_told(host, Task::Lerp(p, q, t), x) && r == match x {
                    Some(value) => Ok(Value::Angle(Angle { value, unit: AngleUnit::Deg })),
                    None => no_blend(at),
                },
            _ => r == no_blend(at),
        }
}

/// Whether `r` is a value between two, blended number by number.
pub open spec fn parts_blended<K: Fn(&Kernel) -> Result<MotionValue, KernelError>>(
    host: K,
    at: int,
    a: Value,
    b: Value,
    t: Scalar,
    r: Result<Value, Fault>,
) -> bool {
    exists|xs: Seq<Option<Scalar>>| #[trigger]
        lerps(host, parts(a), parts(b), t, xs) && xs.len() == parts(a).len() && r == match all_there(
            xs,
        ) {
            Some(xs) => Ok(with_parts(a, xs)),
            None => no_blend(at),
        }
}

/// Whether `r` is the blend of two values: numbers one by one, angles in degrees, colors by the host,
/// paths by morphing.
pub open spec fn blend_gives<K: Fn(&Kernel) -> Result<MotionValue, KernelError>>(
    host: K,
    at: int,
    a: Value,
    b: Value,
    t: Scalar,
    r: Result<Value, Fault>,
) -> bool {
    match (a, b) {
        (Value::Angle(x), Value::Angle(y)) => angle_blended(host, at, x, y, t, r),
        (Value::Color(x), Value::Color(y)) => exists|out: Result<Value, KernelError>| #[trigger]
            answers(host, Task::Mix(x, y, t), out) && r == match out {
                Ok(Value::Color(c)) => Ok(Value::Color(c)),
                _ => no_blend(at),
            },
        (Value::PathData(x), Value::PathData(y)) => exists|out: Result<Value, KernelError>| #[trigger]
            answers(host, Task::Morph(x, y, t), out) && r == settled(at, "interpolate"@, out),
        _ => parts_blended(host, at, a, b, t, r),
    }
}

/// Asks the host for a number.
pub fn ask_number<K: Fn(&Kernel) -> Result<MotionValue, KernelError>>(host: &K, kernel: &Kernel) -> (r:
    Option<Scalar>)
    requires
        forall|k: Kernel| call_requires(*host, (&k,)),
    ensures
        number_told(*host, kernel@, r),
{
    let out = host(kernel);
    assert(call_ensures(*host, (kernel,), out));
    assert(answers(*host, kernel@, answer_seen(out)));
    match out {
        Ok(MotionValue::Number(x)) => Some(x),
        _ => None,
    }
}

fn numbers_of(v: &MotionValue) -> (r: Vec<Scalar>)
    ensures
        r@ == parts(v@),
{
    let mut out: Vec<Scalar> = Vec::new();
    match v {
        MotionValue::Number(x) => out.push(*x),
        MotionValue::Length(l) => out.push(l.value),
        MotionValue::Length2(l) => {
            out.push(l.x.value);
            out.push(l.y.value);
        },
        MotionValue::Vec2(p) => {
            out.push(p.x);
            out.push(p.y);
        },
        MotionValue::Point(p) => {
            out.push(p.x);
            out.push(p.y);
        },
        MotionValue::Rect(r) => {
            out.push(r.x);
            out.push(r.y);
            out.push(r.width);
            out.push(r.height);
        },
        _ => {},
    }
    assert(out@ =~= parts(v@));
    out
}

fn rebuild(v: &MotionValue, xs: &Vec<Scalar>) -> (r: MotionValue)
    requires
        xs@.len() == parts(v@).len(),
    ensures
        r@ == with_parts(v@, xs@),
{
    match v {
        MotionValue::Number(_) => MotionValue::Number(xs[0]),
        MotionValue::Length(l) => MotionValue::Length(Length { value: xs[0], unit: l.unit }),
        MotionValue::Length2(l) => MotionValue::Length2(
            Length2 {
                x: Length { value: xs[0], unit: l.x.unit },
                y: Length { value: xs[1], unit: l.y.unit },
            },
        ),
        MotionValue::Vec2(_) => MotionValue::Vec2(Point { x: xs[0], y: xs[1] }),
        MotionValue::Point(_) => MotionValue::Point(Point { x: xs[0], y: xs[1] }),
        MotionValue::Rect(_) => MotionValue::Rect(
            Rect { x: xs[0], y: xs[1], width: xs[2], height: xs[3] },
        ),
        _ => v.duplicate(),
    }
}

fn blend_parts<K: Fn(&Kernel) -> Result<MotionValue, KernelError>>(
    host: &K,
    at: usize,
    a: &MotionValue,
    b: &MotionValue,
    t: Scalar,
) -> (r: Result<MotionValue, EvalError>)
    requires
        forall|k: Kernel| call_requires(*host, (&k,)),
        parts(a@).len() == parts(b@).len(),
    ensures
        parts_blended(*host, at as int, a@, b@, t, eval_seen(r)),
{
    let from = numbers_of(a);
    let to = numbers_of(b);
    let ghost mut told: Seq<Option<Scalar>> = Seq::empty();
    let mut xs: Vec<Scalar> = Vec::new();
    let mut missing = false;
    let mut i: usize = 0;
    while i < from.len()
        invariant
            forall|k: Kernel| call_requires(*host, (&k,)),
            from@ == parts(a@),
            to@ == parts(b@),
            from@.len() == to@.len(),
            i <= from@.len(),
            told.len() == i,
            lerps(*host, from@, to@, t, told),
            missing == exists|k: int| 0 <= k < told.len() && (#[trigger] told[k]) is None,
            !missing ==> xs@.len() == i && forall|k: int|
                0 <= k < i ==> (#[trigger] told[k]) == Some(xs@[k]),
        decreases from@.len() - i,
    {
        let ghost before = told;
        let kernel = Kernel::Lerp { a: from[i], b: to[i], t };
        let x = ask_number(host, &kernel);
        proof {
            told = told.push(x);
            assert forall|k: int| 0 <= k < told.len() implies number_told(
                *host,
                Task::Lerp(from@[k], to@[k], t),
                #[trigger] told[k],
            ) by {
                if k < i {
                    assert(told[k] == before[k]);
                }
            }
            assert(told[i as int] == x);
            if missing {
                let k = choose|k: int| 0 <= k < before.len() && (#[trigger] before[k]) is None;
                assert(told[k] is None);
            }
        }
        let ghost kept = xs@;
        match x {
            Some(x) => xs.push(x),
            None => {
                missing = true;
            },
        }
        proof {
            if !missing {
                assert forall|k: int| 0 <= k < i + 1 implies (#[trigger] told[k]) == Some(xs@[k]) by {
                    if k < i {
                        assert(told[k] == before[k]);
                        assert(xs@[k] == kept[k]);
                    }
                }
            }
        }
        i = i + 1;
    }
    if missing {
        assert(all_there(told) is None);
        return Err(EvalError::BadInterpolate { at });
    }
    assert(all_there(told) == Some(xs@)) by {
        assert(told.map_values(|x: Option<Scalar>| x->0) =~= xs@);
    }
    Ok(rebuild(a, &xs))
}

/// Blends two values of one kind.
pub fn blend<K: Fn(&Kernel) -> Result<MotionValue, KernelError>>(
    host: &K,
    at: usize,
    a: &MotionValue,
    b: &MotionValue,
    t: Scalar,
) -> (r: Result<MotionValue, EvalError>)
    requires
        forall|k: Kernel| call_requires(*host, (&k,)),
        blendable(a@, b@),
    ensures
        blend_gives(*host, at as int, a@, b@, t, eval_seen(r)),
{
    match (a, b) {
        (MotionValue::Angle(x), MotionValue::Angle(y)) => {
            let p = ask_number(host, &Kernel::Degrees { angle: *x });
            let q = ask_number(host, &Kernel::Degrees { angle: *y });
            assert(number_told(*host, Task::Degrees(*x), p) && number_told(
                *host,
                Task::Degrees(*y),
                q,
            ));
            match (p, q) {
                (Some(p), Some(q)) => {
                    let value = ask_number(host, &Kernel::Lerp { a: p, b: q, t });
                    assert(number_told(*host, Task::Lerp(p, q, t), value));
                    match value {
                        Some(value) => Ok(
                            MotionValue::Angle(Angle { value, unit: AngleUnit::Deg }),
                        ),
                        None => Err(EvalError::BadInterpolate { at }),
                    }
                },
                _ => Err(EvalError::BadInterpolate { at }),
            }
        },
        (MotionValue::Color(x), MotionValue::Color(y)) => {
            let kernel = Kernel::Mix { a: *x, b: *y, t };
            let out = host(&kernel);
            assert(call_ensures(*host, (&kernel,), out));
            assert(answers(*host, Task::Mix(*x, *y, t), answer_seen(out)));
            match out {
                Ok(MotionValue::Color(c)) => Ok(MotionValue::Color(c)),
                _ => Err(EvalError::BadInterpolate { at }),
            }
        },
        (MotionValue::PathData(x), MotionValue::PathData(y)) => {
            let kernel = Kernel::Morph { from: x.duplicate(), to: y.duplicate(), progress: t };
            let ghost task = kernel@;
            let out = host(&kernel);
            assert(call_ensures(*host, (&kernel,), out));
            assert(answers(*host, task, answer_seen(out)));
            match out {
                Ok(v) => Ok(v),
                Err(KernelError::Geometry(reason)) => Err(EvalError::BadGeometry { at, reason }),
                Err(KernelError::Domain) => Err(EvalError::BuiltinDomain { at, op: "interpolate" }),
            }
        },
        _ => blend_parts(host, at, a, b, t),
    }
}

} // verus!
