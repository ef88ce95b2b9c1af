//! Passes over the expression arena: the base pass, slices of it, and the passes after layout.

use vstd::prelude::*;

use crate::eval::{
    eval_one, eval_seen, gives, kept_finite, plan, values_of, EvalInputs, Kernel, KernelError,
    LayoutInputs, ProjectedAnchor, UnitContext,
};
use crate::expr::{
    below, below_is_least, below_root, bounds_dependent, child_flagged, flags_extend,
    inheritance_is_unique, inherits, leads, mark_below, named, post_layout_dependent,
    projection_dependent, reads_bounds, reads_layout, reads_projection, reads_unit, unit_dependent,
    Expr, ExprId,
};
use crate::faults::{EvalError, Fault};
use crate::recording::Rect;
use crate::scalar::{num, Scalar, ZERO};
use crate::table::Entry;
use crate::value::{MotionValue, Value};

verus! {

/// What stands in for an expression that a pass does not evaluate.
pub open spec fn placeholder() -> Value {
    Value::Number(num(ZERO))
}

/// Flags of the first `n` expressions.
pub open spec fn first_flags(exprs: Seq<Expr>, direct: spec_fn(Expr) -> bool, n: nat) -> Seq<bool>
    decreases n,
{
    if n == 0 {
        Seq::empty()
    } else {
        let before = first_flags(exprs, direct, (n - 1) as nat);
        before.push(direct(exprs[n - 1]) || child_flagged(before, exprs[n - 1].refs(), n - 1))
    }
}

/// Which expressions have a property, directly or through an earlier child.
pub open spec fn flagged(exprs: Seq<Expr>, direct: spec_fn(Expr) -> bool) -> Seq<bool> {
    first_flags(exprs, direct, exprs.len())
}

proof fn first_flags_inherit(exprs: Seq<Expr>, direct: spec_fn(Expr) -> bool, n: nat)
    requires
        n <= exprs.len(),
    ensures
        inherits(exprs.take(n as int), direct, first_flags(exprs, direct, n)),
    decreases n,
{
    if n > 0 {
        first_flags_inherit(exprs, direct, (n - 1) as nat);
        let before = first_flags(exprs, direct, (n - 1) as nat);
        flags_extend(exprs, direct, before, first_flags(exprs, direct, n).last());
        assert(before.push(first_flags(exprs, direct, n).last()) =~= first_flags(
            exprs,
            direct,
            n,
        ));
    }
}

/// Every arena has its flags.
pub proof fn flags_exist(exprs: Seq<Expr>, direct: spec_fn(Expr) -> bool)
    ensures
        inherits(exprs, direct, flagged(exprs, direct)),
{
    first_flags_inherit(exprs, direct, exprs.len());
    assert(exprs.take(exprs.len() as int) =~= exprs);
}

pub proof fn flags_are(exprs: Seq<Expr>, direct: spec_fn(Expr) -> bool, flags: Seq<bool>)
    requires
        inherits(exprs, direct, flags),
    ensures
        flags == flagged(exprs, direct),
{
    flags_exist(exprs, direct);
    inheritance_is_unique(exprs, direct, flags, flagged(exprs, direct));
}

/// Expressions that read the current text unit.
pub open spec fn of_units(exprs: Seq<Expr>) -> Seq<bool> {
    flagged(exprs, |e: Expr| reads_unit(e))
}

/// Expressions that read laid-out boxes.
pub open spec fn of_bounds(exprs: Seq<Expr>) -> Seq<bool> {
    flagged(exprs, |e: Expr| reads_bounds(e))
}

/// Expressions that read projected anchors.
pub open spec fn of_projection(exprs: Seq<Expr>) -> Seq<bool> {
    flagged(exprs, |e: Expr| reads_projection(e))
}

/// Expressions that read boxes or anchors.
pub open spec fn after_layout(exprs: Seq<Expr>) -> Seq<bool> {
    flagged(exprs, |e: Expr| reads_layout(e))
}

/// Whether `r` is a possible outcome of evaluating expression `at`.
pub open spec fn step_gives<
    K: Fn(&Kernel) -> Result<MotionValue, KernelError>,
    T: Fn(&MotionValue) -> String,
>(
    host: K,
    tokens: T,
    exprs: Seq<Expr>,
    at: int,
    known: Seq<Value>,
    inputs: EvalInputs,
    layout: LayoutInputs,
    r: Result<Value, Fault>,
) -> bool {
    exists|raw: Result<Value, Fault>| #[trigger]
        gives(host, tokens, at, plan(at, exprs[at], known, inputs, layout), raw) && r
            == kept_finite(at, "evaluation"@, raw)
}

/// What is known when expression `i` is evaluated: earlier values, and where a base is given its
/// values from `i` on.
pub open spec fn known_at(base: Option<Seq<Value>>, values: Seq<Value>, i: int) -> Seq<Value> {
    match base {
        None => values.take(i),
        Some(b) => values.take(i) + b.skip(i),
    }
}

/// The value of an expression that a pass leaves out.
pub open spec fn left_out(base: Option<Seq<Value>>, i: int) -> Value {
    match base {
        None => placeholder(),
        Some(b) => b[i],
    }
}

/// Whether `values` are possible results of a pass for the first expressions: those that are
/// active are evaluated, the others left out.
pub open spec fn passed<
    K: Fn(&Kernel) -> Result<MotionValue, KernelError>,
    T: Fn(&MotionValue) -> String,
>(
    host: K,
    tokens: T,
    exprs: Seq<Expr>,
    active: Seq<bool>,
    base: Option<Seq<Value>>,
    inputs: EvalInputs,
    layout: LayoutInputs,
    values: Seq<Value>,
) -> bool {
    &&& values.len() <= exprs.len()
    &&& forall|i: int|
        0 <= i < values.len() ==> if active[i] {
            step_gives(
                host,
                tokens,
                exprs,
                i,
                known_at(base, values, i),
                inputs,
                layout,
                Ok(#[trigger] values[i]),
            )
        } else {
            values[i] == left_out(base, i)
        }
}

/// Whether `r` is a possible result of a pass: the values of all expressions, or the error of the
/// first one that fails.
pub open spec fn pass_gives<
    K: Fn(&Kernel) -> Result<MotionValue, KernelError>,
    T: Fn(&MotionValue) -> String,
>(
    host: K,
    tokens: T,
    exprs: Seq<Expr>,
    active: Seq<bool>,
    base: Option<Seq<Value>>,
    inputs: EvalInputs,
    layout: LayoutInputs,
    r: Result<Seq<Value>, Fault>,
) -> bool {
    match r {
        Ok(values) => values.len() == exprs.len() && passed(
            host,
            tokens,
            exprs,
            active,
            base,
            inputs,
            layout,
            values,
        ),
        Err(f) => exists|values: Seq<Value>| #[trigger]
            passed(host, tokens, exprs, active, base, inputs, layout, values) && fails_after(
                host,
                tokens,
                exprs,
                active,
                base,
                inputs,
                layout,
                values,
                f,
            ),
    }
}

/// Whether evaluation can fail with `f` right after `values`.
pub open spec fn fails_after<
    K: Fn(&Kernel) -> Result<MotionValue, KernelError>,
    T: Fn(&MotionValue) -> String,
>(
    host: K,
    tokens: T,
    exprs: Seq<Expr>,
    active: Seq<bool>,
    base: Option<Seq<Value>>,
    inputs: EvalInputs,
    layout: LayoutInputs,
    values: Seq<Value>,
    f: Fault,
) -> bool {
    let at = values.len() as int;
    at < exprs.len() && active[at] && step_gives(
        host,
        tokens,
        exprs,
        at,
        known_at(base, values, at),
        inputs,
        layout,
        Err(f),
    )
}

/// A list result by its contents.
pub open spec fn list_seen(r: Result<Vec<MotionValue>, EvalError>) -> Result<Seq<Value>, Fault> {
    match r {
        Ok(v) => Ok(values_of(v@)),
        Err(e) => Err(e@),
    }
}

/// Nothing is known of the layout.
pub open spec fn before_layout<'a>() -> LayoutInputs<'a> {
    LayoutInputs { bounds: None, projected: None }
}

/// Evaluates one expression and refuses a value that is not finite.
fn eval_step<K: Fn(&Kernel) -> Result<MotionValue, KernelError>, T: Fn(&MotionValue) -> String>(
    host: &K,
    tokens: &T,
    exprs: &Vec<Expr>,
    at: usize,
    known: &Vec<MotionValue>,
    inputs: &EvalInputs,
    layout: &LayoutInputs,
) -> (r: Result<MotionValue, EvalError>)
    requires
        at < exprs@.len(),
        forall|k: Kernel| call_requires(*host, (&k,)),
        forall|v: MotionValue| call_requires(*tokens, (&v,)),
    ensures
        step_gives(
            *host,
            *tokens,
            exprs@,
            at as int,
            values_of(known@),
            *inputs,
            *layout,
            eval_seen(r),
        ),
{
    let raw = eval_one(host, tokens, at, &exprs[at], known, inputs, layout);
    let ghost seen = eval_seen(raw);
    assert(gives(
        *host,
        *tokens,
        at as int,
        plan(at as int, exprs@[at as int], values_of(known@), *inputs, *layout),
        seen,
    ));
    match raw {
        Ok(v) => {
            if v.is_finite() {
                Ok(v)
            } else {
                Err(EvalError::NonFinite { at, op: "evaluation" })
            }
        },
        Err(e) => Err(e),
    }
}

/// A pass that starts from nothing.
fn fresh_pass<K: Fn(&Kernel) -> Result<MotionValue, KernelError>, T: Fn(&MotionValue) -> String>(
    host: &K,
    tokens: &T,
    exprs: &Vec<Expr>,
    active: &Vec<bool>,
    inputs: &EvalInputs,
) -> (r: Result<Vec<MotionValue>, EvalError>)
    requires
        active@.len() == exprs@.len(),
        forall|k: Kernel| call_requires(*host, (&k,)),
        forall|v: MotionValue| call_requires(*tokens, (&v,)),
    ensures
        pass_gives(
            *host,
            *tokens,
            exprs@,
            active@,
            None,
            *inputs,
            before_layout(),
            list_seen(r),
        ),
{
    let layout = LayoutInputs { bounds: None, projected: None };
    let mut values: Vec<MotionValue> = Vec::new();
    let mut at: usize = 0;
    while at < exprs.len()
        invariant
            active@.len() == exprs@.len(),
            forall|k: Kernel| call_requires(*host, (&k,)),
            forall|v: MotionValue| call_requires(*tokens, (&v,)),
            layout == before_layout(),
            at <= exprs@.len(),
            values@.len() == at,
            passed(
                *host,
                *tokens,
                exprs@,
                active@,
                None,
                *inputs,
                before_layout(),
                values_of(values@),
            ),
        decreases exprs@.len() - at,
    {
        let ghost before = values_of(values@);
        proof {
            assert(before.take(at as int) =~= before);
        }
        if active[at] {
            match eval_step(host, tokens, exprs, at, &values, inputs, &layout) {
                Ok(v) => {
                    values.push(v);
                },
                Err(e) => {
                    return Err(e);
                },
            }
        } else {
            values.push(MotionValue::Number(Scalar::from_bits(ZERO)));
        }
        proof {
            let now = values_of(values@);
            assert(now =~= before.push(now[at as int]));
            pushed(*host, *tokens, exprs@, active@, *inputs, before, now[at as int]);
        }
        at = at + 1;
    }
    Ok(values)
}

proof fn pushed<K: Fn(&Kernel) -> Result<MotionValue, KernelError>, T: Fn(&MotionValue) -> String>(
    host: K,
    tokens: T,
    exprs: Seq<Expr>,
    active: Seq<bool>,
    inputs: EvalInputs,
    before: Seq<Value>,
    v: Value,
)
    requires
        before.len() < exprs.len(),
        passed(host, tokens, exprs, active, None, inputs, before_layout(), before),
        if active[before.len() as int] {
            step_gives(
                host,
                tokens,
                exprs,
                before.len() as int,
                before,
                inputs,
                before_layout(),
                Ok(v),
            )
        } else {
            v == placeholder()
        },
    ensures
        passed(host, tokens, exprs, active, None, inputs, before_layout(), before.push(v)),
{
    let now = before.push(v);
    assert forall|i: int| 0 <= i < now.len() implies if active[i] {
        step_gives(
            host,
            tokens,
            exprs,
            i,
            known_at(None, now, i),
            inputs,
            before_layout(),
            Ok(#[trigger] now[i]),
        )
    } else {
        now[i] == left_out(None, i)
    } by {
        assert(now.take(i) =~= before.take(i));
        if i < before.len() {
            assert(now[i] == before[i]);
        } else {
            assert(before.take(i) =~= before);
        }
    }
}

/// Which expressions the base pass evaluates.
pub open spec fn base_active(exprs: Seq<Expr>, has_unit: bool) -> Seq<bool> {
    Seq::new(
        exprs.len(),
        |i: int| !after_layout(exprs)[i] && !(of_units(exprs)[i] && !has_unit),
    )
}

fn base_flags(exprs: &Vec<Expr>, has_unit: bool) -> (r: Vec<bool>)
    ensures
        r@ == base_active(exprs@, has_unit),
{
    let units = unit_dependent(exprs);
    let late = post_layout_dependent(exprs);
    proof {
        flags_are(exprs@, |e: Expr| reads_unit(e), units@);
        flags_are(exprs@, |e: Expr| reads_layout(e), late@);
    }
    let mut out: Vec<bool> = Vec::new();
    let mut i: usize = 0;
    while i < exprs.len()
        invariant
            i <= exprs@.len(),
            units@ == of_units(exprs@),
            late@ == after_layout(exprs@),
            units@.len() == exprs@.len(),
            late@.len() == exprs@.len(),
            out@ == base_active(exprs@, has_unit).take(i as int),
        decreases exprs@.len() - i,
    {
        out.push(!late[i] && !(units[i] && !has_unit));
        i = i + 1;
        assert(out@ =~= base_active(exprs@, has_unit).take(i as int));
    }
    assert(base_active(exprs@, has_unit).take(i as int) =~= base_active(exprs@, has_unit));
    out
}

/// Evaluates the complete expression arena in one forward pass. Expressions that need layout, or a
/// text unit that is not there, stay placeholders.
pub fn eval_all<K: Fn(&Kernel) -> Result<MotionValue, KernelError>, T: Fn(&MotionValue) -> String>(
    host: &K,
    tokens: &T,
    exprs: &Vec<Expr>,
    inputs: &EvalInputs,
) -> (r: Result<Vec<MotionValue>, EvalError>)
    requires
        forall|k: Kernel| call_requires(*host, (&k,)),
        forall|v: MotionValue| call_requires(*tokens, (&v,)),
    ensures
        pass_gives(
            *host,
            *tokens,
            exprs@,
            base_active(exprs@, inputs.unit is Some),
            None,
            *inputs,
            before_layout(),
            list_seen(r),
        ),
{
    let active = base_flags(exprs, inputs.unit.is_some());
    fresh_pass(host, tokens, exprs, &active, inputs)
}

/// Which expressions a slice holds.
pub open spec fn live_at(live: Seq<ExprId>, i: int) -> bool {
    exists|k: int| 0 <= k < live.len() && (#[trigger] live[k]).0 == i
}

/// Positions that identifiers name.
pub open spec fn positions(ids: Seq<ExprId>) -> Seq<usize> {
    ids.map_values(|id: ExprId| id.0 as usize)
}

/// Whether a slice holds expression `i`: it is listed, or a listed one is built from it.
pub open spec fn in_slice(exprs: Seq<Expr>, live: Seq<ExprId>, i: int) -> bool {
    below(exprs, positions(live), i)
}

/// Which expressions a slice evaluates.
pub open spec fn slice_active(exprs: Seq<Expr>, has_unit: bool, live: Seq<ExprId>) -> Seq<bool> {
    Seq::new(exprs.len(), |i: int| base_active(exprs, has_unit)[i] && in_slice(exprs, live, i))
}

/// Whether a list holds what its expressions refer to.
pub open spec fn closed_slice(exprs: Seq<Expr>, live: Seq<ExprId>) -> bool {
    forall|i: int, k: int|
        0 <= i < exprs.len() && live_at(live, i) && 0 <= k < exprs[i].refs().len()
            ==> #[trigger] live_at(live, (#[trigger] exprs[i].refs()[k]).0 as int)
}

/// What a list names is in its slice.
pub proof fn listed_is_in_slice(exprs: Seq<Expr>, live: Seq<ExprId>, i: int)
    requires
        0 <= i < exprs.len(),
        live_at(live, i),
    ensures
        in_slice(exprs, live, i),
{
    let k = choose|k: int| 0 <= k < live.len() && (#[trigger] live[k]).0 == i;
    assert(positions(live)[k] == i);
    below_root(exprs, positions(live), i);
}

/// The slice of a list that holds its own references is the list itself.
pub proof fn closed_lists_are_their_slice(exprs: Seq<Expr>, live: Seq<ExprId>, i: int)
    requires
        closed_slice(exprs, live),
        0 <= i < exprs.len(),
    ensures
        in_slice(exprs, live, i) <==> live_at(live, i),
{
    if live_at(live, i) {
        listed_is_in_slice(exprs, live, i);
    }
    if in_slice(exprs, live, i) {
        let set = |i: int| live_at(live, i);
        assert forall|i: int| #[trigger] named(exprs, positions(live), i) implies set(i) by {
            let k = choose|k: int|
                0 <= k < positions(live).len() && #[trigger] positions(live)[k] == i;
            assert(live[k].0 == i);
        }
        assert forall|a: int, b: int| set(a) && #[trigger] leads(exprs, a, b) implies set(b) by {
            let k = choose|k: int|
                0 <= k < exprs[a].refs().len() && (#[trigger] exprs[a].refs()[k]).0 == b;
            assert(live_at(live, exprs[a].refs()[k].0 as int));
        }
        below_is_least(exprs, positions(live), set, i);
    }
}

pub(crate) fn slice_flags(exprs: &Vec<Expr>, live: &Vec<ExprId>) -> (r: Vec<bool>)
    ensures
        r@.len() == exprs@.len(),
        forall|i: int| 0 <= i < r@.len() ==> #[trigger] r@[i] == in_slice(exprs@, live@, i),
{
    let mut starts: Vec<usize> = Vec::new();
    let mut i: usize = 0;
    while i < live.len()
        invariant
            i <= live@.len(),
            starts@ == positions(live@).take(i as int),
        decreases live@.len() - i,
    {
        starts.push(live[i].0 as usize);
        i = i + 1;
        assert(starts@ =~= positions(live@).take(i as int));
    }
    assert(positions(live@).take(i as int) =~= positions(live@));
    mark_below(exprs, &starts)
}

pub(crate) fn live_flags(n: usize, live: &Vec<ExprId>) -> (r: Vec<bool>)
    ensures
        r@.len() == n,
        forall|i: int| 0 <= i < n ==> #[trigger] r@[i] == live_at(live@, i),
{
    let mut out: Vec<bool> = Vec::new();
    while out.len() < n
        invariant
            out@.len() <= n,
            forall|i: int| 0 <= i < out@.len() ==> #[trigger] out@[i] == false,
        decreases n - out@.len(),
    {
        out.push(false);
    }
    let mut k: usize = 0;
    assert forall|i: int| 0 <= i < n implies #[trigger] out@[i] == live_at(live@.take(0), i) by {}
    while k < live.len()
        invariant
            out@.len() == n,
            k <= live@.len(),
            forall|i: int| 0 <= i < n ==> #[trigger] out@[i] == live_at(live@.take(k as int), i),
        decreases live@.len() - k,
    {
        let id: usize = live[k].0 as usize;
        let ghost before = out@;
        if id < n {
            out.set(id, true);
        }
        proof {
            let now = live@.take((k + 1) as int);
            let was = live@.take(k as int);
            assert forall|i: int| 0 <= i < n implies #[trigger] out@[i] == live_at(now, i) by {
                if i == id {
                    assert(now[k as int].0 == i);
                } else {
                    assert(out@[i] == before[i]);
                    if live_at(was, i) {
                        let j = choose|j: int| 0 <= j < was.len() && (#[trigger] was[j]).0 == i;
                        assert(now[j].0 == i);
                    }
                    if live_at(now, i) {
                        let j = choose|j: int| 0 <= j < now.len() && (#[trigger] now[j]).0 == i;
                        assert(was[j].0 == i);
                    }
                }
            }
        }
        k = k + 1;
    }
    assert(live@.take(k as int) =~= live@);
    out
}

/// Whether a result shows those of `values` that a slice holds, and nothing else.
pub open spec fn shows(
    exprs: Seq<Expr>,
    live: Seq<ExprId>,
    values: Seq<Value>,
    r: Seq<Option<MotionValue>>,
) -> bool {
    &&& r.len() == values.len()
    &&& forall|i: int|
        0 <= i < r.len() ==> match #[trigger] r[i] {
            Some(v) => in_slice(exprs, live, i) && v@ == values[i],
            None => !in_slice(exprs, live, i),
        }
}

/// Whether `r` is the values of a slice.
pub open spec fn slice_told<
    K: Fn(&Kernel) -> Result<MotionValue, KernelError>,
    T: Fn(&MotionValue) -> String,
>(
    host: K,
    tokens: T,
    exprs: Seq<Expr>,
    inputs: EvalInputs,
    live: Seq<ExprId>,
    r: Result<Vec<Option<MotionValue>>, EvalError>,
) -> bool {
    match r {
        Ok(v) => exists|values: Seq<Value>| #[trigger]
            pass_gives(
                host,
                tokens,
                exprs,
                slice_active(exprs, inputs.unit is Some, live),
                None,
                inputs,
                before_layout(),
                Ok(values),
            ) && shows(exprs, live, values, v@),
        Err(e) => pass_gives(
            host,
            tokens,
            exprs,
            slice_active(exprs, inputs.unit is Some, live),
            None,
            inputs,
            before_layout(),
            Err(e@),
        ),
    }
}

/// Evaluates only the listed expressions and everything that they are built from; the other slots
/// stay empty.
pub fn eval_slice<
    K: Fn(&Kernel) -> Result<MotionValue, KernelError>,
    T: Fn(&MotionValue) -> String,
>(
    host: &K,
    tokens: &T,
    exprs: &Vec<Expr>,
    inputs: &EvalInputs,
    live: &Vec<ExprId>,
) -> (r: Result<Vec<Option<MotionValue>>, EvalError>)
    requires
        forall|k: Kernel| call_requires(*host, (&k,)),
        forall|v: MotionValue| call_requires(*tokens, (&v,)),
    ensures
        slice_told(*host, *tokens, exprs@, *inputs, live@, r),
{
    let base = base_flags(exprs, inputs.unit.is_some());
    let listed = slice_flags(exprs, live);
    let mut active: Vec<bool> = Vec::new();
    let mut i: usize = 0;
    let ghost want = slice_active(exprs@, inputs.unit is Some, live@);
    while i < exprs.len()
        invariant
            i <= exprs@.len(),
            base@ == base_active(exprs@, inputs.unit is Some),
            base@.len() == exprs@.len(),
            listed@.len() == exprs@.len(),
            forall|j: int|
                0 <= j < exprs@.len() ==> #[trigger] listed@[j] == in_slice(exprs@, live@, j),
            want == slice_active(exprs@, inputs.unit is Some, live@),
            active@ == want.take(i as int),
        decreases exprs@.len() - i,
    {
        active.push(base[i] && listed[i]);
        i = i + 1;
        assert(active@ =~= want.take(i as int));
    }
    assert(want.take(i as int) =~= want);
    let done = match fresh_pass(host, tokens, exprs, &active, inputs) {
        Ok(v) => v,
        Err(e) => {
            return Err(e);
        },
    };
    let ghost values = values_of(done@);
    let mut out: Vec<Option<MotionValue>> = Vec::new();
    let mut k: usize = 0;
    while k < done.len()
        invariant
            k <= done@.len(),
            done@.len() == exprs@.len(),
            listed@.len() == exprs@.len(),
            forall|j: int|
                0 <= j < exprs@.len() ==> #[trigger] listed@[j] == in_slice(exprs@, live@, j),
            values == values_of(done@),
            out@.len() == k,
            forall|j: int|
                0 <= j < k ==> match #[trigger] out@[j] {
                    Some(v) => in_slice(exprs@, live@, j) && v@ == values[j],
                    None => !in_slice(exprs@, live@, j),
                },
        decreases done@.len() - k,
    {
        if listed[k] {
            out.push(Some(done[k].duplicate()));
        } else {
            out.push(None);
        }
        k = k + 1;
    }
    assert(shows(exprs@, live@, values, out@));
    Ok(out)
}

/// A base of as many values as there are expressions: cut, or filled up with placeholders.
pub open spec fn sized(base: Seq<Value>, n: nat) -> Seq<Value> {
    Seq::new(n, |i: int| if i < base.len() { base[i] } else { placeholder() })
}

fn resized(base: &Vec<MotionValue>, n: usize) -> (r: Vec<MotionValue>)
    ensures
        values_of(r@) == sized(values_of(base@), n as nat),
{
    let mut out: Vec<MotionValue> = Vec::new();
    let mut i: usize = 0;
    while i < n
        invariant
            i <= n,
            values_of(out@) == sized(values_of(base@), i as nat),
        decreases n - i,
    {
        let ghost before = out@;
        if i < base.len() {
            out.push(base[i].duplicate());
        } else {
            out.push(MotionValue::Number(Scalar::from_bits(ZERO)));
        }
        proof {
            assert(before.len() == values_of(before).len());
            assert(values_of(out@) =~= values_of(before).push(out@.last()@));
        }
        i = i + 1;
        assert(values_of(out@) =~= sized(values_of(base@), i as nat));
    }
    assert(values_of(out@) =~= sized(values_of(base@), n as nat));
    out
}

/// A pass that renews some values of a base in place.
#[verifier::spinoff_prover]
#[verifier::rlimit(40)]
fn renewing_pass<K: Fn(&Kernel) -> Result<MotionValue, KernelError>, T: Fn(&MotionValue) -> String>(
    host: &K,
    tokens: &T,
    exprs: &Vec<Expr>,
    active: &Vec<bool>,
    base: &Vec<MotionValue>,
    inputs: &EvalInputs,
    layout: &LayoutInputs,
) -> (r: Result<Vec<MotionValue>, EvalError>)
    requires
        active@.len() == exprs@.len(),
        forall|k: Kernel| call_requires(*host, (&k,)),
        forall|v: MotionValue| call_requires(*tokens, (&v,)),
    ensures
        pass_gives(
            *host,
            *tokens,
            exprs@,
            active@,
            Some(sized(values_of(base@), exprs@.len())),
            *inputs,
            *layout,
            list_seen(r),
        ),
{
    let mut values = resized(base, exprs.len());
    let ghost start = sized(values_of(base@), exprs@.len());
    let mut at: usize = 0;
    proof {
        assert(values_of(values@) == start);
        assert(values@.len() == values_of(values@).len());
        assert(start.take(0) =~= Seq::<Value>::empty());
    }
    while at < exprs.len()
        invariant
            active@.len() == exprs@.len(),
            forall|k: Kernel| call_requires(*host, (&k,)),
            forall|v: MotionValue| call_requires(*tokens, (&v,)),
            at <= exprs@.len(),
            start == sized(values_of(base@), exprs@.len()),
            values@.len() == exprs@.len(),
            values_of(values@).skip(at as int) == start.skip(at as int),
            passed(
                *host,
                *tokens,
                exprs@,
                active@,
                Some(start),
                *inputs,
                *layout,
                values_of(values@).take(at as int),
            ),
        decreases exprs@.len() - at,
    {
        let ghost before = values_of(values@);
        let ghost front = before.take(at as int);
        proof {
            assert(front.take(at as int) =~= front);
            assert(front + before.skip(at as int) =~= before);
            assert(known_at(Some(start), front, at as int) == before);
            assert(before[at as int] == before.skip(at as int)[0]);
            assert(start[at as int] == start.skip(at as int)[0]);
        }
        if active[at] {
            match eval_step(host, tokens, exprs, at, &values, inputs, layout) {
                Ok(v) => {
                    values.set(at, v);
                },
                Err(e) => {
                    proof {
                        assert(fails_after(
                            *host,
                            *tokens,
                            exprs@,
                            active@,
                            Some(start),
                            *inputs,
                            *layout,
                            front,
                            e@,
                        ));
                    }
                    return Err(e);
                },
            }
        }
        proof {
            let now = values_of(values@);
            let v = now[at as int];
            assert(now.take((at + 1) as int) =~= front.push(v));
            assert forall|i: int| 0 <= i < at + 1 implies if active@[i] {
                step_gives(
                    *host,
                    *tokens,
                    exprs@,
                    i,
                    known_at(Some(start), front.push(v), i),
                    *inputs,
                    *layout,
                    Ok(#[trigger] front.push(v)[i]),
                )
            } else {
                front.push(v)[i] == left_out(Some(start), i)
            } by {
                assert(front.push(v).take(i) =~= front.take(i));
                if i < at {
                    assert(front.push(v)[i] == front[i]);
                }
            }
            assert(now.skip((at + 1) as int) =~= before.skip(at as int).skip(1));
            assert(start.skip((at + 1) as int) =~= start.skip(at as int).skip(1));
        }
        at = at + 1;
    }
    assert(values_of(values@).take(at as int) =~= values_of(values@));
    Ok(values)
}

/// Inputs as a text unit sees them.
pub open spec fn with_unit<'a>(inputs: EvalInputs<'a>, unit: UnitContext) -> EvalInputs<'a> {
    EvalInputs {
        ctx: inputs.ctx,
        props: inputs.props,
        signals: inputs.signals,
        unit: Some(unit),
        viewport: inputs.viewport,
    }
}

/// Recomputes the unit-dependent expressions for one text unit, reusing base values. They may also
/// read boxes and anchors.
pub fn eval_units<K: Fn(&Kernel) -> Result<MotionValue, KernelError>, T: Fn(&MotionValue) -> String>(
    host: &K,
    tokens: &T,
    exprs: &Vec<Expr>,
    base: &Vec<MotionValue>,
    inputs: &EvalInputs,
    unit: UnitContext,
    boxes: &Vec<Entry<Rect>>,
    projected: &Vec<ProjectedAnchor>,
) -> (r: Result<Vec<MotionValue>, EvalError>)
    requires
        forall|k: Kernel| call_requires(*host, (&k,)),
        forall|v: MotionValue| call_requires(*tokens, (&v,)),
    ensures
        pass_gives(
            *host,
            *tokens,
            exprs@,
            of_units(exprs@),
            Some(sized(values_of(base@), exprs@.len())),
            with_unit(*inputs, unit),
            (LayoutInputs { bounds: Some(boxes), projected: Some(projected) }),
            list_seen(r),
        ),
{
    let active = unit_dependent(exprs);
    proof {
        flags_are(exprs@, |e: Expr| reads_unit(e), active@);
    }
    let inner = EvalInputs {
        ctx: inputs.ctx,
        props: inputs.props,
        signals: inputs.signals,
        unit: Some(unit),
        viewport: inputs.viewport,
    };
    let layout = LayoutInputs { bounds: Some(boxes), projected: Some(projected) };
    renewing_pass(host, tokens, exprs, &active, base, &inner, &layout)
}

/// Which expressions the first pass after layout evaluates.
pub open spec fn bounds_active(exprs: Seq<Expr>) -> Seq<bool> {
    Seq::new(exprs.len(), |i: int| of_bounds(exprs)[i] && !of_projection(exprs)[i])
}

/// After layout, recomputes the expressions that read boxes but no anchors, and reuses the other
/// base values.
pub fn eval_layout_bounds<
    K: Fn(&Kernel) -> Result<MotionValue, KernelError>,
    T: Fn(&MotionValue) -> String,
>(
    host: &K,
    tokens: &T,
    exprs: &Vec<Expr>,
    base: &Vec<MotionValue>,
    inputs: &EvalInputs,
    boxes: &Vec<Entry<Rect>>,
) -> (r: Result<Vec<MotionValue>, EvalError>)
    requires
        forall|k: Kernel| call_requires(*host, (&k,)),
        forall|v: MotionValue| call_requires(*tokens, (&v,)),
    ensures
        pass_gives(
            *host,
            *tokens,
            exprs@,
            bounds_active(exprs@),
            Some(sized(values_of(base@), exprs@.len())),
            *inputs,
            (LayoutInputs { bounds: Some(boxes), projected: None }),
            list_seen(r),
        ),
{
    let boxed = bounds_dependent(exprs);
    let anchored = projection_dependent(exprs);
    proof {
        flags_are(exprs@, |e: Expr| reads_bounds(e), boxed@);
        flags_are(exprs@, |e: Expr| reads_projection(e), anchored@);
    }
    let mut active: Vec<bool> = Vec::new();
    let mut i: usize = 0;
    while i < exprs.len()
        invariant
            i <= exprs@.len(),
            boxed@ == of_bounds(exprs@),
            anchored@ == of_projection(exprs@),
            boxed@.len() == exprs@.len(),
            anchored@.len() == exprs@.len(),
            active@ == bounds_active(exprs@).take(i as int),
        decreases exprs@.len() - i,
    {
        active.push(boxed[i] && !anchored[i]);
        i = i + 1;
        assert(active@ =~= bounds_active(exprs@).take(i as int));
    }
    assert(bounds_active(exprs@).take(i as int) =~= bounds_active(exprs@));
    let layout = LayoutInputs { bounds: Some(boxes), projected: None };
    renewing_pass(host, tokens, exprs, &active, base, inputs, &layout)
}

/// Completes the passes after layout once anchors are projected.
pub fn eval_post_layout<
    K: Fn(&Kernel) -> Result<MotionValue, KernelError>,
    T: Fn(&MotionValue) -> String,
>(
    host: &K,
    tokens: &T,
    exprs: &Vec<Expr>,
    base: &Vec<MotionValue>,
    inputs: &EvalInputs,
    boxes: &Vec<Entry<Rect>>,
    projected: &Vec<ProjectedAnchor>,
) -> (r: Result<Vec<MotionValue>, EvalError>)
    requires
        forall|k: Kernel| call_requires(*host, (&k,)),
        forall|v: MotionValue| call_requires(*tokens, (&v,)),
    ensures
        pass_gives(
            *host,
            *tokens,
            exprs@,
            after_layout(exprs@),
            Some(sized(values_of(base@), exprs@.len())),
            *inputs,
            (LayoutInputs { bounds: Some(boxes), projected: Some(projected) }),
            list_seen(r),
        ),
{
    let active = post_layout_dependent(exprs);
    proof {
        flags_are(exprs@, |e: Expr| reads_layout(e), active@);
    }
    let layout = LayoutInputs { bounds: Some(boxes), projected: Some(projected) };
    renewing_pass(host, tokens, exprs, &active, base, inputs, &layout)
}

} // verus!
