//! Resolving scene props from caller overrides and control defaults.

use vstd::prelude::*;

use crate::eval::ResolvedProps;
use crate::faults::{EvalError, Fault};
use crate::order::before;
use crate::table::{
    ascending, ascending_keys_are_unique, find, lookup, unique_entries_are_found, Entry,
};
use crate::value::{ControlsSchema, MotionValue, PropControl, Value};

verus! {

/// The first override among the first `n` that no control declares.
pub open spec fn unknown_override(
    controls: ControlsSchema,
    overrides: Seq<Entry<MotionValue>>,
    n: nat,
) -> Option<Seq<char>>
    decreases n,
{
    if n == 0 {
        None
    } else {
        match unknown_override(controls, overrides, (n - 1) as nat) {
            Some(name) => Some(name),
            None => if find(controls.props@, overrides[n - 1].key@) is None {
                Some(overrides[n - 1].key@)
            } else {
                None
            },
        }
    }
}

/// The value that a control takes: an override before its default.
pub open spec fn candidate(
    control: Entry<PropControl>,
    overrides: Seq<Entry<MotionValue>>,
) -> Option<Value> {
    match find(overrides, control.key@) {
        Some(v) => Some(v@),
        None => match control.value.default {
            Some(v) => Some(v@),
            None => None,
        },
    }
}

/// Whether a value may stand under a control.
pub open spec fn fits_control(control: PropControl, v: Value) -> bool {
    v.finite() && control.control.accepts_value(v) && control.control.inside_bounds(v)
}

/// The values of the first `n` controls; a control without value is left out unless required.
pub open spec fn resolved(
    controls: Seq<Entry<PropControl>>,
    overrides: Seq<Entry<MotionValue>>,
    n: nat,
) -> Result<Seq<(Seq<char>, Value)>, Fault>
    decreases n,
{
    if n == 0 {
        Ok(Seq::empty())
    } else {
        match resolved(controls, overrides, (n - 1) as nat) {
            Err(f) => Err(f),
            Ok(before) => {
                let here = controls[n - 1];
                match candidate(here, overrides) {
                    None => if here.value.required {
                        Err(Fault::MissingProp(here.key@))
                    } else {
                        Ok(before)
                    },
                    Some(v) => if fits_control(here.value, v) {
                        Ok(before.push((here.key@, v)))
                    } else {
                        Err(Fault::InvalidProp(here.key@))
                    },
                }
            },
        }
    }
}

/// What resolving props gives.
pub open spec fn resolution(
    controls: ControlsSchema,
    overrides: Seq<Entry<MotionValue>>,
) -> Result<Seq<(Seq<char>, Value)>, Fault> {
    match unknown_override(controls, overrides, overrides.len()) {
        Some(name) => Err(Fault::UnknownProp(name)),
        None => resolved(controls.props@, overrides, controls.props@.len()),
    }
}

/// A table by its contents.
pub open spec fn named_values(v: Seq<Entry<MotionValue>>) -> Seq<(Seq<char>, Value)> {
    v.map_values(|e: Entry<MotionValue>| (e.key@, e.value@))
}

proof fn unknown_settles(
    controls: ControlsSchema,
    overrides: Seq<Entry<MotionValue>>,
    m: nat,
    n: nat,
)
    requires
        m <= n,
        unknown_override(controls, overrides, m) is Some,
    ensures
        unknown_override(controls, overrides, n) == unknown_override(controls, overrides, m),
    decreases n - m,
{
    if m < n {
        unknown_settles(controls, overrides, m, (n - 1) as nat);
    }
}

proof fn failure_settles(
    controls: Seq<Entry<PropControl>>,
    overrides: Seq<Entry<MotionValue>>,
    m: nat,
    n: nat,
)
    requires
        m <= n,
        resolved(controls, overrides, m) is Err,
    ensures
        resolved(controls, overrides, n) == resolved(controls, overrides, m),
    decreases n - m,
{
    if m < n {
        failure_settles(controls, overrides, m, (n - 1) as nat);
    }
}

/// Resolved names ascend where the controls do.
proof fn resolved_names_ascend(
    controls: Seq<Entry<PropControl>>,
    overrides: Seq<Entry<MotionValue>>,
    n: nat,
)
    requires
        n <= controls.len(),
        ascending(controls),
        resolved(controls, overrides, n) is Ok,
    ensures
        ({
            let list = resolved(controls, overrides, n)->Ok_0;
            forall|i: int, j: int|
                0 <= i < j < list.len() ==> before((#[trigger] list[i]).0, (#[trigger] list[j]).0)
        }),
    decreases n,
{
    if n > 0 {
        let m = (n - 1) as nat;
        resolved_names_ascend(controls, overrides, m);
        let was = resolved(controls, overrides, m)->Ok_0;
        let list = resolved(controls, overrides, n)->Ok_0;
        assert forall|i: int, j: int| 0 <= i < j < list.len() implies before(
            (#[trigger] list[i]).0,
            (#[trigger] list[j]).0,
        ) by {
            assert(list[i] == was[i]);
            if j < was.len() {
                assert(list[j] == was[j]);
            } else {
                resolved_values_fit(controls, overrides, m, i);
                let k = choose|k: int|
                    0 <= k < m && (#[trigger] controls[k]).key@ == was[i].0 && candidate(
                        controls[k],
                        overrides,
                    ) == Some(was[i].1) && fits_control(controls[k].value, was[i].1);
                assert(before(controls[k].key@, controls[m as int].key@));
            }
        }
    }
}

/// Where overrides stand in ascending order, the least name that no control declares is refused.
pub proof fn the_least_unknown_prop_is_refused(
    controls: ControlsSchema,
    overrides: Seq<Entry<MotionValue>>,
    n: nat,
    k: int,
)
    requires
        ascending(overrides),
        n <= overrides.len(),
        0 <= k < n,
        find(controls.props@, overrides[k].key@) is None,
    ensures
        ({
            let refused = unknown_override(controls, overrides, n);
            refused is Some && (refused->0 == overrides[k].key@ || before(
                refused->0,
                overrides[k].key@,
            ))
        }),
    decreases n,
{
    let m = (n - 1) as nat;
    if k < m {
        the_least_unknown_prop_is_refused(controls, overrides, m, k);
    } else {
        the_refused_prop_is_given(controls, overrides, m);
    }
}

proof fn the_refused_prop_is_given(
    controls: ControlsSchema,
    overrides: Seq<Entry<MotionValue>>,
    n: nat,
)
    requires
        n <= overrides.len(),
    ensures
        unknown_override(controls, overrides, n) matches Some(name) ==> exists|k: int|
            0 <= k < n && (#[trigger] overrides[k]).key@ == name,
    decreases n,
{
    if n > 0 {
        let m = (n - 1) as nat;
        the_refused_prop_is_given(controls, overrides, m);
        match unknown_override(controls, overrides, m) {
            Some(name) => {
                let k = choose|k: int| 0 <= k < m && (#[trigger] overrides[k]).key@ == name;
                assert(overrides[k].key@ == name);
            },
            None => {
                if unknown_override(controls, overrides, n) is Some {
                    assert(overrides[n - 1].key@ == unknown_override(controls, overrides, n)->0);
                }
            },
        }
    }
}

/// Merges caller overrides with control defaults and validates the resulting values. Overrides and
/// controls are looked at in their order.
pub fn resolve_props(controls: &ControlsSchema, overrides: &Vec<Entry<MotionValue>>) -> (r: Result<
    ResolvedProps,
    EvalError,
>)
    ensures
        match r {
            Ok(p) => resolution(*controls, overrides@) == Ok::<Seq<(Seq<char>, Value)>, Fault>(
                named_values(p.values@),
            ),
            Err(e) => resolution(*controls, overrides@) == Err::<Seq<(Seq<char>, Value)>, Fault>(
                e@,
            ),
        },
        controls.wf() ==> (r matches Ok(p) ==> p.wf()),
{
    let mut i: usize = 0;
    while i < overrides.len()
        invariant
            i <= overrides@.len(),
            unknown_override(*controls, overrides@, i as nat) is None,
        decreases overrides@.len() - i,
    {
        if lookup(&controls.props, overrides[i].key.as_str()).is_none() {
            proof {
                unknown_settles(*controls, overrides@, (i + 1) as nat, overrides@.len());
            }
            return Err(EvalError::UnknownProp { name: overrides[i].key.clone() });
        }
        i = i + 1;
    }
    let mut values: Vec<Entry<MotionValue>> = Vec::new();
    let mut k: usize = 0;
    assert(named_values(values@) =~= Seq::empty());
    while k < controls.props.len()
        invariant
            k <= controls.props@.len(),
            unknown_override(*controls, overrides@, overrides@.len()) is None,
            resolved(controls.props@, overrides@, k as nat) == Ok::<
                Seq<(Seq<char>, Value)>,
                Fault,
            >(named_values(values@)),
        decreases controls.props@.len() - k,
    {
        let here = &controls.props[k];
        let value: Option<&MotionValue> = match lookup(overrides, here.key.as_str()) {
            Some(v) => Some(v),
            None => match &here.value.default {
                Some(v) => Some(v),
                None => None,
            },
        };
        match value {
            None => {
                if here.value.required {
                    proof {
                        failure_settles(
                            controls.props@,
                            overrides@,
                            (k + 1) as nat,
                            controls.props@.len(),
                        );
                    }
                    return Err(EvalError::MissingProp { name: here.key.clone() });
                }
            },
            Some(v) => {
                if !v.is_finite() || !here.value.control.accepts(v)
                    || !here.value.control.is_inside_bounds(v) {
                    proof {
                        failure_settles(
                            controls.props@,
                            overrides@,
                            (k + 1) as nat,
                            controls.props@.len(),
                        );
                    }
                    return Err(EvalError::InvalidProp { name: here.key.clone() });
                }
                let ghost before = values@;
                values.push(Entry { key: here.key.clone(), value: v.duplicate() });
                proof {
                    assert(named_values(values@) =~= named_values(before).push(
                        (here.key@, v@),
                    ));
                }
            },
        }
        k = k + 1;
    }
    proof {
        if controls.wf() {
            resolved_names_ascend(controls.props@, overrides@, controls.props@.len());
            let list = named_values(values@);
            assert(list == resolved(controls.props@, overrides@, controls.props@.len())->Ok_0);
            assert forall|i: int, j: int| 0 <= i < j < values@.len() implies before(
                (#[trigger] values@[i]).key@,
                (#[trigger] values@[j]).key@,
            ) by {
                assert(before(list[i].0, list[j].0));
            }
        }
    }
    Ok(ResolvedProps { values })
}

/// Every resolved value comes from a control and satisfies it.
pub proof fn resolved_values_fit(
    controls: Seq<Entry<PropControl>>,
    overrides: Seq<Entry<MotionValue>>,
    n: nat,
    i: int,
)
    requires
        n <= controls.len(),
        resolved(controls, overrides, n) is Ok,
        0 <= i < resolved(controls, overrides, n)->Ok_0.len(),
    ensures
        ({
            let named = resolved(controls, overrides, n)->Ok_0[i];
            exists|k: int|
                0 <= k < n && (#[trigger] controls[k]).key@ == named.0 && candidate(
                    controls[k],
                    overrides,
                ) == Some(named.1) && fits_control(controls[k].value, named.1)
        }),
    decreases n,
{
    if n > 0 {
        let before = resolved(controls, overrides, (n - 1) as nat)->Ok_0;
        if i < before.len() {
            resolved_values_fit(controls, overrides, (n - 1) as nat, i);
            let named = before[i];
            let k = choose|k: int|
                0 <= k < n - 1 && (#[trigger] controls[k]).key@ == named.0 && candidate(
                    controls[k],
                    overrides,
                ) == Some(named.1) && fits_control(controls[k].value, named.1);
            assert(controls[k].key@ == named.0);
        } else {
            assert(controls[n - 1].key@ == resolved(controls, overrides, n)->Ok_0[i].0);
        }
    }
}

/// Every value of a well-formed table is read back under its name.
pub proof fn props_are_found(p: ResolvedProps, i: int)
    requires
        p.wf(),
        0 <= i < p.values@.len(),
    ensures
        find(p.values@, p.values@[i].key@) == Some(p.values@[i].value),
{
    ascending_keys_are_unique(p.values@);
    unique_entries_are_found(p.values@, i);
}

} // verus!
