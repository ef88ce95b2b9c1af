//! Folding expressions that read no runtime input into constants.

use vstd::prelude::*;

use crate::admission::admitted;
use crate::determinism::{
    constants_ignore_inputs, outcomes_are_determined, single_answer,
    values_come_through_references,
};
use crate::eval::{
    eval_one, eval_seen, gives, kept_finite, plan, values_of, CueSignal, EvalInputs, Kernel,
    KernelError, LayoutInputs, MotionContext, PhaseContext, Plan, ResolvedProps,
};
use crate::expr::{
    below, below_is_least, child_flagged, expr_reads_runtime_inputs, inherits, leads, named,
    reads_layout, reads_runtime, reads_unit,
    Expr, ExprId,
};
use crate::faults::Fault;
use crate::passes::{
    base_active, before_layout, flagged, flags_exist, known_at, pass_gives, placeholder,
};
use crate::scalar::{Scalar, ONE, ZERO};
use crate::table::Entry;
use crate::typing::admitted_flags;
use crate::value::{single_text, ControlsSchema, MotionValue, Value};

verus! {

/// How an expression that reads no runtime input comes about: the same for all inputs.
pub open spec fn constant_plan(at: int, e: Expr, done: Seq<Value>) -> Plan {
    plan(at, e, done, arbitrary(), before_layout())
}

/// Folded values by their contents.
pub open spec fn folded_values(r: Seq<Option<MotionValue>>) -> Seq<Option<Value>> {
    r.map_values(
        |o: Option<MotionValue>|
            match o {
                Some(v) => Some(v@),
                None => None,
            },
    )
}

/// Folded values with placeholders for the others.
pub open spec fn dense(folded: Seq<Option<Value>>, n: int) -> Seq<Value> {
    Seq::new(
        n as nat,
        |i: int|
            match folded[i] {
                Some(v) => v,
                None => placeholder(),
            },
    )
}

/// Whether all references are to earlier folded expressions.
pub open spec fn refs_folded(folded: Seq<Option<Value>>, refs: Seq<ExprId>, at: int) -> bool {
    forall|k: int|
        0 <= k < refs.len() ==> (#[trigger] refs[k]).0 < at && folded[refs[k].0 as int] is Some
}

/// Whether expression `at` may be folded: it reads no runtime input, is admitted, and what it refers
/// to is folded.
pub open spec fn foldable(
    exprs: Seq<Expr>,
    controls: ControlsSchema,
    folded: Seq<Option<Value>>,
    at: int,
) -> bool {
    !reads_runtime(exprs[at]) && refs_folded(folded, exprs[at].refs(), at) && admitted(
        exprs,
        controls,
        at,
    )
}

/// Whether a slot is a possible result of folding expression `at`.
pub open spec fn folds_to<
    K: Fn(&Kernel) -> Result<MotionValue, KernelError>,
    T: Fn(&MotionValue) -> String,
>(host: K, tokens: T, exprs: Seq<Expr>, folded: Seq<Option<Value>>, at: int) -> bool {
    exists|raw: Result<Value, Fault>| #[trigger]
        gives(host, tokens, at, constant_plan(at, exprs[at], dense(folded, at)), raw) && folded[at]
            == raw.ok()
}

/// Whether slots are possible results of folding the first expressions.
pub open spec fn folds<
    K: Fn(&Kernel) -> Result<MotionValue, KernelError>,
    T: Fn(&MotionValue) -> String,
>(
    host: K,
    tokens: T,
    exprs: Seq<Expr>,
    controls: ControlsSchema,
    folded: Seq<Option<Value>>,
) -> bool {
    &&& folded.len() <= exprs.len()
    &&& forall|i: int|
        0 <= i < folded.len() ==> #[trigger] folded_at(host, tokens, exprs, controls, folded, i)
}

/// Whether a slot is folded where it may be, and empty elsewhere.
pub open spec fn folded_at<
    K: Fn(&Kernel) -> Result<MotionValue, KernelError>,
    T: Fn(&MotionValue) -> String,
>(
    host: K,
    tokens: T,
    exprs: Seq<Expr>,
    controls: ControlsSchema,
    folded: Seq<Option<Value>>,
    at: int,
) -> bool {
    if foldable(exprs, controls, folded, at) {
        folds_to(host, tokens, exprs, folded, at)
    } else {
        folded[at] is None
    }
}

fn folding_context() -> (r: MotionContext) {
    let zero = Scalar::from_bits(ZERO);
    let one = Scalar::from_bits(ONE);
    let phase = PhaseContext {
        active: false,
        frame: 0,
        elapsed_frames: 0,
        duration_frames: 0,
        progress: zero,
    };
    MotionContext {
        local_frame: 0,
        progress: zero,
        composition_seconds: zero,
        duration_frames: 0,
        fps_numerator: one,
        fps_denominator: 1,
        fps: one,
        enter: phase,
        hold: phase,
        hold_iteration: 0,
        hold_cycle_frame: 0,
        hold_cycle_progress: zero,
        exit: phase,
    }
}

fn children_folded(folded: &Vec<Option<MotionValue>>, refs: &Vec<ExprId>) -> (r: bool)
    ensures
        r == refs_folded(folded_values(folded@), refs@, folded@.len() as int),
{
    let mut k: usize = 0;
    while k < refs.len()
        invariant
            k <= refs@.len(),
            forall|j: int|
                0 <= j < k ==> (#[trigger] refs@[j]).0 < folded@.len() && folded_values(
                    folded@,
                )[refs@[j].0 as int] is Some,
        decreases refs@.len() - k,
    {
        let id: usize = refs[k].0 as usize;
        if id >= folded.len() || folded[id].is_none() {
            assert(!(refs@[k as int].0 < folded@.len() && folded_values(
                folded@,
            )[refs@[k as int].0 as int] is Some));
            return false;
        }
        k = k + 1;
    }
    true
}

proof fn folding_extends<
    K: Fn(&Kernel) -> Result<MotionValue, KernelError>,
    T: Fn(&MotionValue) -> String,
>(
    host: K,
    tokens: T,
    exprs: Seq<Expr>,
    controls: ControlsSchema,
    before: Seq<Option<Value>>,
    next: Option<Value>,
)
    requires
        folds(host, tokens, exprs, controls, before),
        before.len() < exprs.len(),
        if foldable(exprs, controls, before, before.len() as int) {
            folds_to(host, tokens, exprs, before.push(next), before.len() as int)
        } else {
            next is None
        },
    ensures
        folds(host, tokens, exprs, controls, before.push(next)),
{
    let now = before.push(next);
    assert forall|i: int| 0 <= i < now.len() implies #[trigger] folded_at(
        host,
        tokens,
        exprs,
        controls,
        now,
        i,
    ) by {
        let refs = exprs[i].refs();
        assert(refs_folded(now, refs, i) == refs_folded(before, refs, i)) by {
            if refs_folded(now, refs, i) {
                assert forall|k: int| 0 <= k < refs.len() implies (#[trigger] refs[k]).0 < i
                    && before[refs[k].0 as int] is Some by {
                    assert(now[refs[k].0 as int] == before[refs[k].0 as int]);
                }
            }
            if refs_folded(before, refs, i) {
                assert forall|k: int| 0 <= k < refs.len() implies (#[trigger] refs[k]).0 < i
                    && now[refs[k].0 as int] is Some by {
                    assert(now[refs[k].0 as int] == before[refs[k].0 as int]);
                }
            }
        }
        assert(dense(now, i) =~= dense(before, i));
        if i < before.len() {
            assert(now[i] == before[i]);
            assert(folded_at(host, tokens, exprs, controls, before, i));
            if foldable(exprs, controls, now, i) {
                let raw = choose|raw: Result<Value, Fault>| #[trigger]
                    gives(
                        host,
                        tokens,
                        i,
                        constant_plan(i, exprs[i], dense(before, i)),
                        raw,
                    ) && before[i] == raw.ok();
                assert(gives(
                    host,
                    tokens,
                    i,
                    constant_plan(i, exprs[i], dense(now, i)),
                    raw,
                ));
            }
        }
    }
}

/// Folds expressions to constants where no runtime input is read, directly or below, and admission
/// accepts them.
pub fn fold_constants<
    K: Fn(&Kernel) -> Result<MotionValue, KernelError>,
    T: Fn(&MotionValue) -> String,
>(host: &K, tokens: &T, exprs: &Vec<Expr>, controls: &ControlsSchema) -> (r: Vec<
    Option<MotionValue>,
>)
    requires
        forall|k: Kernel| call_requires(*host, (&k,)),
        forall|v: MotionValue| call_requires(*tokens, (&v,)),
    ensures
        r@.len() == exprs@.len(),
        folds(*host, *tokens, exprs@, *controls, folded_values(r@)),
{
    let mut folded: Vec<Option<MotionValue>> = Vec::new();
    let mut filled: Vec<MotionValue> = Vec::new();
    let ctx = folding_context();
    let props = ResolvedProps::empty();
    let signals: Vec<Entry<CueSignal>> = Vec::new();
    let inputs = EvalInputs {
        ctx: &ctx,
        props: &props,
        signals: &signals,
        unit: None,
        viewport: None,
    };
    let layout = LayoutInputs { bounds: None, projected: None };
    let flags = admitted_flags(exprs, controls);
    let mut at: usize = 0;
    assert(folded_values(folded@) =~= Seq::empty());
    assert(values_of(filled@) =~= dense(folded_values(folded@), 0));
    while at < exprs.len()
        invariant
            forall|k: Kernel| call_requires(*host, (&k,)),
            forall|v: MotionValue| call_requires(*tokens, (&v,)),
            layout == before_layout(),
            at <= exprs@.len(),
            flags@.len() == exprs@.len(),
            forall|i: int|
                0 <= i < exprs@.len() ==> #[trigger] flags@[i] == admitted(exprs@, *controls, i),
            folded@.len() == at,
            filled@.len() == at,
            values_of(filled@) == dense(folded_values(folded@), at as int),
            folds(*host, *tokens, exprs@, *controls, folded_values(folded@)),
        decreases exprs@.len() - at,
    {
        let ghost before = folded_values(folded@);
        let ghost dense_before = values_of(filled@);
        let refs = exprs[at].children();
        let ready: bool = !expr_reads_runtime_inputs(&exprs[at]) && children_folded(&folded, &refs)
            && flags[at];
        let value: Option<MotionValue> = if ready {
            let out = eval_one(host, tokens, at, &exprs[at], &filled, &inputs, &layout);
            proof {
                constants_ignore_inputs(
                    at as int,
                    exprs@[at as int],
                    dense_before,
                    inputs,
                    layout,
                    arbitrary(),
                    before_layout(),
                );
                let next = eval_seen(out).ok();
                assert(dense(before.push(next), at as int) =~= dense(before, at as int));
                assert(folds_to(*host, *tokens, exprs@, before.push(next), at as int)) by {
                    assert(gives(
                        *host,
                        *tokens,
                        at as int,
                        constant_plan(
                            at as int,
                            exprs@[at as int],
                            dense(before.push(next), at as int),
                        ),
                        eval_seen(out),
                    ));
                }
            }
            match out {
                Ok(v) => Some(v),
                Err(_) => None,
            }
        } else {
            None
        };
        let ghost next = match &value {
            Some(v) => Some(v@),
            None => None::<Value>,
        };
        proof {
            folding_extends(*host, *tokens, exprs@, *controls, before, next);
        }
        match &value {
            Some(v) => {
                filled.push(v.duplicate());
            },
            None => {
                filled.push(MotionValue::Number(Scalar::from_bits(ZERO)));
            },
        }
        folded.push(value);
        proof {
            assert(folded_values(folded@) =~= before.push(next));
            assert(values_of(filled@) =~= dense_before.push(filled@.last()@));
            assert(values_of(filled@) =~= dense(folded_values(folded@), at + 1));
        }
        at = at + 1;
    }
    folded
}

proof fn folded_is_active(
    exprs: Seq<Expr>,
    controls: ControlsSchema,
    folded: Seq<Option<Value>>,
    direct: spec_fn(Expr) -> bool,
    flags: Seq<bool>,
    i: int,
)
    requires
        forall|e: Expr| #[trigger] direct(e) ==> reads_runtime(e),
        inherits(exprs, direct, flags),
        folded.len() == exprs.len(),
        forall|j: int|
            0 <= j < folded.len() && (#[trigger] folded[j]) is Some ==> foldable(
                exprs,
                controls,
                folded,
                j,
            ),
        0 <= i < exprs.len(),
        folded[i] is Some,
    ensures
        !flags[i],
    decreases i,
{
    let refs = exprs[i].refs();
    if child_flagged(flags, refs, i) {
        let k = choose|k: int|
            0 <= k < refs.len() && (#[trigger] refs[k]).0 < i && flags[refs[k].0 as int];
        folded_is_active(exprs, controls, folded, direct, flags, refs[k].0 as int);
    }
}

/// Where an expression folds, so does everything that it is built from: none of it reads a runtime
/// input, and admission accepts all of it.
pub proof fn folded_constants_read_no_inputs<
    K: Fn(&Kernel) -> Result<MotionValue, KernelError>,
    T: Fn(&MotionValue) -> String,
>(
    host: K,
    tokens: T,
    exprs: Seq<Expr>,
    controls: ControlsSchema,
    folded: Seq<Option<Value>>,
    i: usize,
    j: int,
)
    requires
        folded.len() == exprs.len(),
        folds(host, tokens, exprs, controls, folded),
        i < exprs.len(),
        folded[i as int] is Some,
        below(exprs, seq![i], j),
    ensures
        0 <= j < exprs.len(),
        folded[j] is Some,
        !reads_runtime(exprs[j]),
        admitted(exprs, controls, j),
{
    let set = |k: int| 0 <= k < exprs.len() && folded[k] is Some;
    assert forall|k: int| #[trigger] named(exprs, seq![i], k) implies set(k) by {
        assert(k == i);
    }
    assert forall|a: int, b: int| set(a) && #[trigger] leads(exprs, a, b) implies set(b) by {
        assert(folded_at(host, tokens, exprs, controls, folded, a));
        assert(refs_folded(folded, exprs[a].refs(), a));
        let k = choose|k: int|
            0 <= k < exprs[a].refs().len() && (#[trigger] exprs[a].refs()[k]).0 == b;
        assert(exprs[a].refs()[k].0 == b);
    }
    below_is_least(exprs, seq![i], set, j);
    assert(folded_at(host, tokens, exprs, controls, folded, j));
}

/// A folded constant is the value that evaluation gives its expression, on every frame.
pub proof fn folding_agrees_with_evaluation<
    K: Fn(&Kernel) -> Result<MotionValue, KernelError>,
    T: Fn(&MotionValue) -> String,
>(
    host: K,
    tokens: T,
    exprs: Seq<Expr>,
    controls: ControlsSchema,
    folded: Seq<Option<Value>>,
    inputs: EvalInputs,
    values: Seq<Value>,
    i: int,
)
    requires
        single_answer(host),
        single_text(tokens),
        folded.len() == exprs.len(),
        folds(host, tokens, exprs, controls, folded),
        pass_gives(
            host,
            tokens,
            exprs,
            base_active(exprs, inputs.unit is Some),
            None,
            inputs,
            before_layout(),
            Ok(values),
        ),
        0 <= i < exprs.len(),
        folded[i] is Some,
    ensures
        folded[i] == Some(values[i]),
    decreases i,
{
    assert forall|j: int| 0 <= j < folded.len() && (#[trigger] folded[j]) is Some implies foldable(
        exprs,
        controls,
        folded,
        j,
    ) by {
        assert(folded_at(host, tokens, exprs, controls, folded, j));
    }
    let units = |e: Expr| reads_unit(e);
    let late = |e: Expr| reads_layout(e);
    flags_exist(exprs, units);
    flags_exist(exprs, late);
    folded_is_active(exprs, controls, folded, units, flagged(exprs, units), i);
    folded_is_active(exprs, controls, folded, late, flagged(exprs, late), i);
    assert(base_active(exprs, inputs.unit is Some)[i]);
    let refs = exprs[i].refs();
    let a = dense(folded, i);
    let b = known_at(None, values, i);
    assert forall|k: int| 0 <= k < refs.len() && (#[trigger] refs[k]).0 < a.len() implies a[refs[k].0 as int]
        == b[refs[k].0 as int] by {
        folding_agrees_with_evaluation(
            host,
            tokens,
            exprs,
            controls,
            folded,
            inputs,
            values,
            refs[k].0 as int,
        );
    }
    assert(values[i] == values[i]);
    assert(folded_at(host, tokens, exprs, controls, folded, i));
    assert(folds_to(host, tokens, exprs, folded, i));
    let p = plan(i, exprs[i], b, inputs, before_layout());
    constants_ignore_inputs(i, exprs[i], a, arbitrary(), before_layout(), inputs, before_layout());
    values_come_through_references(i, exprs[i], a, b, inputs, before_layout());
    assert(constant_plan(i, exprs[i], a) == p);
    let x = choose|raw: Result<Value, Fault>| #[trigger]
        gives(host, tokens, i, constant_plan(i, exprs[i], dense(folded, i)), raw) && folded[i]
            == raw.ok();
    let y = choose|raw: Result<Value, Fault>| #[trigger]
        gives(host, tokens, i, p, raw) && Ok::<Value, Fault>(values[i]) == kept_finite(
            i,
            "evaluation"@,
            raw,
        );
    outcomes_are_determined(host, tokens, i, p, x, y);
}

} // verus!
