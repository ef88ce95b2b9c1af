//! The animated style of every text unit this frame.

use vstd::prelude::*;

use crate::artifact::{ColorValue, NodeKind, NumberValue, PerUnit, PointValue, SceneArtifact, UnitStyle};
use crate::bindings::{
    color_bound, color_value, number_bound, number_value, point_bound, point_value, text_bound,
    text_value,
};
use crate::eval::{
    values_of, EvalInputs, Kernel, KernelError, LayoutInputs, ProjectedAnchor, UnitContext,
};
use crate::faults::Fault;
use crate::layout_error::{plain, LayoutError, LayoutFault};
use crate::passes::{eval_units, list_seen, of_units, pass_gives, sized};
use crate::recording::{Point, Rect, Rgba};
use crate::runs::ResolvedUnit;
use crate::scalar::Scalar;
use crate::table::Entry;
use crate::units::{unit_boundaries, unit_ranges};
use crate::value::{MotionValue, Value};

verus! {

pub open spec fn some_number(
    binding: Option<NumberValue>,
    values: Seq<Value>,
    at: int,
    op: Seq<char>,
) -> Result<Option<Scalar>, LayoutFault> {
    match binding {
        None => Ok(None),
        Some(b) => match number_bound(b, values, at, op) {
            Ok(x) => Ok(Some(x)),
            Err(f) => Err(f),
        },
    }
}

pub open spec fn some_point(
    binding: Option<PointValue>,
    values: Seq<Value>,
    at: int,
    op: Seq<char>,
) -> Result<Option<Point>, LayoutFault> {
    match binding {
        None => Ok(None),
        Some(b) => match point_bound(b, values, at, op) {
            Ok(p) => Ok(Some(p)),
            Err(f) => Err(f),
        },
    }
}

pub open spec fn some_color(binding: Option<ColorValue>, values: Seq<Value>, at: int) -> Result<
    Option<Rgba>,
    LayoutFault,
> {
    match binding {
        None => Ok(None),
        Some(b) => match color_bound(b, values, at) {
            Ok(c) => Ok(Some(c)),
            Err(f) => Err(f),
        },
    }
}

fn read_number(
    binding: Option<NumberValue>,
    values: &Vec<MotionValue>,
    at: usize,
    op: &'static str,
) -> (r: Result<Option<Scalar>, LayoutError>)
    ensures
        plain(r) == some_number(binding, values_of(values@), at as int, op@),
{
    match binding {
        None => Ok(None),
        Some(b) => match number_value(b, values, at, op) {
            Ok(x) => Ok(Some(x)),
            Err(e) => Err(e),
        },
    }
}

fn read_point(
    binding: Option<PointValue>,
    values: &Vec<MotionValue>,
    at: usize,
    op: &'static str,
) -> (r: Result<Option<Point>, LayoutError>)
    ensures
        plain(r) == some_point(binding, values_of(values@), at as int, op@),
{
    match binding {
        None => Ok(None),
        Some(b) => match point_value(b, values, at, op) {
            Ok(x) => Ok(Some(x)),
            Err(e) => Err(e),
        },
    }
}

fn read_color(binding: Option<ColorValue>, values: &Vec<MotionValue>, at: usize) -> (r: Result<
    Option<Rgba>,
    LayoutError,
>)
    ensures
        plain(r) == some_color(binding, values_of(values@), at as int),
{
    match binding {
        None => Ok(None),
        Some(b) => match color_value(b, values, at) {
            Ok(x) => Ok(Some(x)),
            Err(e) => Err(e),
        },
    }
}

/// The style of a unit, read from the values that were evaluated for it.
pub open spec fn unit_styled(
    style: UnitStyle,
    values: Seq<Value>,
    at: int,
    range: (u32, u32),
) -> Result<ResolvedUnit, LayoutFault> {
    match some_number(style.opacity, values, at, "unit opacity"@) {
        Err(f) => Err(f),
        Ok(opacity) => match some_point(style.translate, values, at, "unit translate"@) {
            Err(f) => Err(f),
            Ok(translate) => match some_point(style.scale, values, at, "unit scale"@) {
                Err(f) => Err(f),
                Ok(scale) => match some_number(style.rotate, values, at, "unit rotate"@) {
                    Err(f) => Err(f),
                    Ok(rotate) => match some_color(style.color, values, at) {
                        Err(f) => Err(f),
                        Ok(color) => Ok(
                            ResolvedUnit {
                                start: range.0,
                                end: range.1,
                                opacity,
                                translate,
                                scale,
                                rotate,
                                color,
                            },
                        ),
                    },
                },
            },
        },
    }
}

/// Reads the style of a unit from the values that were evaluated for it.
pub fn unit_style(style: &UnitStyle, values: &Vec<MotionValue>, at: usize, range: (u32, u32)) -> (r:
    Result<ResolvedUnit, LayoutError>)
    ensures
        plain(r) == unit_styled(*style, values_of(values@), at as int, range),
{
    let opacity = match read_number(style.opacity, values, at, "unit opacity") {
        Ok(v) => v,
        Err(e) => {
            return Err(e);
        },
    };
    let translate = match read_point(style.translate, values, at, "unit translate") {
        Ok(v) => v,
        Err(e) => {
            return Err(e);
        },
    };
    let scale = match read_point(style.scale, values, at, "unit scale") {
        Ok(v) => v,
        Err(e) => {
            return Err(e);
        },
    };
    let rotate = match read_number(style.rotate, values, at, "unit rotate") {
        Ok(v) => v,
        Err(e) => {
            return Err(e);
        },
    };
    match read_color(style.color, values, at) {
        Ok(color) => Ok(
            ResolvedUnit {
                start: range.0,
                end: range.1,
                opacity,
                translate,
                scale,
                rotate,
                color,
            },
        ),
        Err(e) => Err(e),
    }
}

/// The context of a unit.
pub open spec fn unit_at(ranges: Seq<(u32, u32)>, i: int) -> UnitContext {
    UnitContext {
        index: i as u32,
        count: ranges.len() as u32,
        start: ranges[i].0,
        end: ranges[i].1,
    }
}

/// The inputs of a frame with a text unit.
pub open spec fn with_unit<'a>(inputs: EvalInputs<'a>, unit: UnitContext) -> EvalInputs<'a> {
    EvalInputs {
        ctx: inputs.ctx,
        props: inputs.props,
        signals: inputs.signals,
        unit: Some(unit),
        viewport: inputs.viewport,
    }
}

/// Whether `r` is the style of one unit: its expressions are evaluated for it, on top of the values
/// of the frame.
pub open spec fn unit_gives<
    K: Fn(&Kernel) -> Result<MotionValue, KernelError>,
    T: Fn(&MotionValue) -> String,
>(
    host: K,
    tokens: T,
    a: SceneArtifact,
    base: Seq<Value>,
    inputs: EvalInputs,
    layout: LayoutInputs,
    at: int,
    style: UnitStyle,
    ranges: Seq<(u32, u32)>,
    i: int,
    r: Result<ResolvedUnit, LayoutFault>,
) -> bool {
    exists|out: Result<Seq<Value>, Fault>| #[trigger]
        pass_gives(
            host,
            tokens,
            a.exprs@,
            of_units(a.exprs@),
            Some(sized(base, a.exprs@.len())),
            with_unit(inputs, unit_at(ranges, i)),
            layout,
            out,
        ) && r == unit_result(out, style, at, ranges[i])
}

pub open spec fn unit_result(
    out: Result<Seq<Value>, Fault>,
    style: UnitStyle,
    at: int,
    range: (u32, u32),
) -> Result<ResolvedUnit, LayoutFault> {
    match out {
        Err(f) => Err(LayoutFault::Eval(f)),
        Ok(values) => unit_styled(style, values, at, range),
    }
}

/// Whether units are the styles of the first units of a text.
pub open spec fn units_given<
    K: Fn(&Kernel) -> Result<MotionValue, KernelError>,
    T: Fn(&MotionValue) -> String,
>(
    host: K,
    tokens: T,
    a: SceneArtifact,
    base: Seq<Value>,
    inputs: EvalInputs,
    layout: LayoutInputs,
    at: int,
    style: UnitStyle,
    ranges: Seq<(u32, u32)>,
    units: Seq<ResolvedUnit>,
) -> bool {
    units.len() <= ranges.len() && forall|i: int|
        0 <= i < units.len() ==> unit_gives(
            host,
            tokens,
            a,
            base,
            inputs,
            layout,
            at,
            style,
            ranges,
            i,
            Ok(#[trigger] units[i]),
        )
}

/// Whether `r` is the unit styles of a text: all of them, or the error of the first that fails.
pub open spec fn text_gives<
    K: Fn(&Kernel) -> Result<MotionValue, KernelError>,
    T: Fn(&MotionValue) -> String,
>(
    host: K,
    tokens: T,
    a: SceneArtifact,
    base: Seq<Value>,
    inputs: EvalInputs,
    layout: LayoutInputs,
    at: int,
    source: Seq<char>,
    per_unit: PerUnit,
    r: Result<Seq<ResolvedUnit>, LayoutFault>,
) -> bool {
    let ranges = unit_ranges(source, per_unit.split);
    match r {
        Ok(units) => units.len() == ranges.len() && units_given(
            host,
            tokens,
            a,
            base,
            inputs,
            layout,
            at,
            per_unit.style,
            ranges,
            units,
        ),
        Err(f) => exists|units: Seq<ResolvedUnit>| #[trigger]
            units_given(
                host,
                tokens,
                a,
                base,
                inputs,
                layout,
                at,
                per_unit.style,
                ranges,
                units,
            ) && units.len() < ranges.len() && unit_gives(
                host,
                tokens,
                a,
                base,
                inputs,
                layout,
                at,
                per_unit.style,
                ranges,
                units.len() as int,
                Err(f),
            ),
    }
}

fn text_units<
    K: Fn(&Kernel) -> Result<MotionValue, KernelError>,
    T: Fn(&MotionValue) -> String,
>(
    host: &K,
    tokens: &T,
    artifact: &SceneArtifact,
    base: &Vec<MotionValue>,
    inputs: &EvalInputs,
    boxes: &Vec<Entry<Rect>>,
    projected: &Vec<ProjectedAnchor>,
    at: usize,
    source: &str,
    per_unit: &PerUnit,
) -> (r: Result<Vec<ResolvedUnit>, LayoutError>)
    requires
        forall|k: Kernel| call_requires(*host, (&k,)),
        forall|v: MotionValue| call_requires(*tokens, (&v,)),
    ensures
        text_gives(
            *host,
            *tokens,
            *artifact,
            values_of(base@),
            *inputs,
            (LayoutInputs { bounds: Some(boxes), projected: Some(projected) }),
            at as int,
            source@,
            *per_unit,
            units_seen(r),
        ),
{
    let ranges = unit_boundaries(source, per_unit.split);
    let ghost layout = LayoutInputs { bounds: Some(boxes), projected: Some(projected) };
    #[verifier::truncate]
    let count: u32 = ranges.len() as u32;
    let mut out: Vec<ResolvedUnit> = Vec::new();
    let mut i: usize = 0;
    while i < ranges.len()
        invariant
            forall|k: Kernel| call_requires(*host, (&k,)),
            forall|v: MotionValue| call_requires(*tokens, (&v,)),
            layout == (LayoutInputs { bounds: Some(boxes), projected: Some(projected) }),
            ranges@ == unit_ranges(source@, per_unit.split),
            count == ranges@.len() as u32,
            i <= ranges@.len(),
            out@.len() == i,
            units_given(
                *host,
                *tokens,
                *artifact,
                values_of(base@),
                *inputs,
                layout,
                at as int,
                per_unit.style,
                ranges@,
                out@,
            ),
        decreases ranges@.len() - i,
    {
        let ghost before = out@;
        #[verifier::truncate]
        let index: u32 = i as u32;
        let unit = UnitContext { index, count, start: ranges[i].0, end: ranges[i].1 };
        assert(unit == unit_at(ranges@, i as int));
        let evaluated = eval_units(
            host,
            tokens,
            &artifact.exprs,
            base,
            inputs,
            unit,
            boxes,
            projected,
        );
        let ghost told = list_seen(evaluated);
        assert(pass_gives(
            *host,
            *tokens,
            artifact.exprs@,
            of_units(artifact.exprs@),
            Some(sized(values_of(base@), artifact.exprs@.len())),
            with_unit(*inputs, unit_at(ranges@, i as int)),
            layout,
            told,
        ));
        let styled = match evaluated {
            Err(e) => Err(LayoutError::Eval(e)),
            Ok(values) => unit_style(&per_unit.style, &values, at, ranges[i]),
        };
        assert(unit_gives(
            *host,
            *tokens,
            *artifact,
            values_of(base@),
            *inputs,
            layout,
            at as int,
            per_unit.style,
            ranges@,
            i as int,
            plain(styled),
        ));
        match styled {
            Err(e) => {
                assert(units_given(
                    *host,
                    *tokens,
                    *artifact,
                    values_of(base@),
                    *inputs,
                    layout,
                    at as int,
                    per_unit.style,
                    ranges@,
                    before,
                ));
                return Err(e);
            },
            Ok(u) => {
                out.push(u);
                proof {
                    let now = out@;
                    assert forall|k: int| 0 <= k < now.len() implies unit_gives(
                        *host,
                        *tokens,
                        *artifact,
                        values_of(base@),
                        *inputs,
                        layout,
                        at as int,
                        per_unit.style,
                        ranges@,
                        k,
                        Ok(#[trigger] now[k]),
                    ) by {
                        if k < i {
                            assert(now[k] == before[k]);
                        }
                    }
                }
            },
        }
        i = i + 1;
    }
    Ok(out)
}

/// Unit styles by their contents.
pub open spec fn units_seen(r: Result<Vec<ResolvedUnit>, LayoutError>) -> Result<
    Seq<ResolvedUnit>,
    LayoutFault,
> {
    match r {
        Ok(v) => Ok(v@),
        Err(e) => Err(e@),
    }
}

/// Whether `r` is what a node contributes: nothing where it is no text with animated units.
pub open spec fn node_gives<
    K: Fn(&Kernel) -> Result<MotionValue, KernelError>,
    T: Fn(&MotionValue) -> String,
>(
    host: K,
    tokens: T,
    a: SceneArtifact,
    base: Seq<Value>,
    inputs: EvalInputs,
    layout: LayoutInputs,
    at: int,
    r: Result<Option<Seq<ResolvedUnit>>, LayoutFault>,
) -> bool {
    match a.nodes@[at].kind {
        NodeKind::Text { text, per_unit: Some(per_unit), .. } => match text_bound(text, base, at) {
            Err(f) => r == Err::<Option<Seq<ResolvedUnit>>, LayoutFault>(f),
            Ok(source) => match r {
                Ok(Some(units)) => text_gives(
                    host,
                    tokens,
                    a,
                    base,
                    inputs,
                    layout,
                    at,
                    source,
                    per_unit,
                    Ok(units),
                ),
                Ok(None) => false,
                Err(f) => text_gives(
                    host,
                    tokens,
                    a,
                    base,
                    inputs,
                    layout,
                    at,
                    source,
                    per_unit,
                    Err(f),
                ),
            },
        },
        _ => r == Ok::<Option<Seq<ResolvedUnit>>, LayoutFault>(None),
    }
}

/// Whether lists are what the first nodes contribute.
pub open spec fn nodes_give<
    K: Fn(&Kernel) -> Result<MotionValue, KernelError>,
    T: Fn(&MotionValue) -> String,
>(
    host: K,
    tokens: T,
    a: SceneArtifact,
    base: Seq<Value>,
    inputs: EvalInputs,
    layout: LayoutInputs,
    lists: Seq<Option<Seq<ResolvedUnit>>>,
) -> bool {
    lists.len() <= a.nodes@.len() && forall|i: int|
        0 <= i < lists.len() ==> node_gives(
            host,
            tokens,
            a,
            base,
            inputs,
            layout,
            i,
            Ok(#[trigger] lists[i]),
        )
}

/// The table of unit styles of the first `n` nodes.
pub open spec fn unit_table(a: SceneArtifact, lists: Seq<Option<Seq<ResolvedUnit>>>, n: nat) -> Seq<
    (Seq<char>, Seq<ResolvedUnit>),
>
    decreases n,
{
    if n == 0 {
        Seq::empty()
    } else {
        let before = unit_table(a, lists, (n - 1) as nat);
        match lists[n - 1] {
            Some(units) => before.push((a.nodes@[n - 1].key@, units)),
            None => before,
        }
    }
}

pub open spec fn table_seen(v: Seq<Entry<Vec<ResolvedUnit>>>) -> Seq<
    (Seq<char>, Seq<ResolvedUnit>),
> {
    v.map_values(|e: Entry<Vec<ResolvedUnit>>| (e.key@, e.value@))
}

proof fn table_prefix(
    a: SceneArtifact,
    lists: Seq<Option<Seq<ResolvedUnit>>>,
    next: Option<Seq<ResolvedUnit>>,
    n: nat,
)
    requires
        n <= lists.len(),
    ensures
        unit_table(a, lists.push(next), n) == unit_table(a, lists, n),
    decreases n,
{
    if n > 0 {
        table_prefix(a, lists, next, (n - 1) as nat);
    }
}

/// Whether `r` is the unit styles of a frame: those of all nodes by key, or the first failure.
pub open spec fn units_told<
    K: Fn(&Kernel) -> Result<MotionValue, KernelError>,
    T: Fn(&MotionValue) -> String,
>(
    host: K,
    tokens: T,
    a: SceneArtifact,
    base: Seq<Value>,
    inputs: EvalInputs,
    layout: LayoutInputs,
    r: Result<Vec<Entry<Vec<ResolvedUnit>>>, LayoutError>,
) -> bool {
    exists|lists: Seq<Option<Seq<ResolvedUnit>>>| #[trigger]
        nodes_give(host, tokens, a, base, inputs, layout, lists) && match r {
            Ok(table) => lists.len() == a.nodes@.len() && table_seen(table@) == unit_table(
                a,
                lists,
                lists.len(),
            ),
            Err(e) => lists.len() < a.nodes@.len() && node_gives(
                host,
                tokens,
                a,
                base,
                inputs,
                layout,
                lists.len() as int,
                Err(e@),
            ),
        }
}

/// Evaluates the unit styles of all texts, on top of the values of the frame.
pub fn resolve_units<
    K: Fn(&Kernel) -> Result<MotionValue, KernelError>,
    T: Fn(&MotionValue) -> String,
>(
    host: &K,
    tokens: &T,
    artifact: &SceneArtifact,
    base: &Vec<MotionValue>,
    inputs: &EvalInputs,
    boxes: &Vec<Entry<Rect>>,
    projected: &Vec<ProjectedAnchor>,
) -> (r: Result<Vec<Entry<Vec<ResolvedUnit>>>, LayoutError>)
    requires
        forall|k: Kernel| call_requires(*host, (&k,)),
        forall|v: MotionValue| call_requires(*tokens, (&v,)),
    ensures
        units_told(
            *host,
            *tokens,
            *artifact,
            values_of(base@),
            *inputs,
            (LayoutInputs { bounds: Some(boxes), projected: Some(projected) }),
            r,
        ),
{
    let ghost layout = LayoutInputs { bounds: Some(boxes), projected: Some(projected) };
    let ghost mut lists: Seq<Option<Seq<ResolvedUnit>>> = Seq::empty();
    let mut out: Vec<Entry<Vec<ResolvedUnit>>> = Vec::new();
    let mut at: usize = 0;
    assert(table_seen(out@) =~= unit_table(*artifact, lists, 0));
    while at < artifact.nodes.len()
        invariant
            forall|k: Kernel| call_requires(*host, (&k,)),
            forall|v: MotionValue| call_requires(*tokens, (&v,)),
            layout == (LayoutInputs { bounds: Some(boxes), projected: Some(projected) }),
            at <= artifact.nodes@.len(),
            lists.len() == at,
            nodes_give(
                *host,
                *tokens,
                *artifact,
                values_of(base@),
                *inputs,
                layout,
                lists,
            ),
            table_seen(out@) == unit_table(*artifact, lists, at as nat),
        decreases artifact.nodes@.len() - at,
    {
        let ghost before = out@;
        let ghost mut next: Option<Seq<ResolvedUnit>> = None;
        match &artifact.nodes[at].kind {
            NodeKind::Text { text, per_unit, .. } => match per_unit {
                Some(per_unit) => {
                    let source = match text_value(text, base, at) {
                        Ok(s) => s,
                        Err(e) => {
                            assert(nodes_give(
                                *host,
                                *tokens,
                                *artifact,
                                values_of(base@),
                                *inputs,
                                layout,
                                lists,
                            ));
                            return Err(e);
                        },
                    };
                    match text_units(
                        host,
                        tokens,
                        artifact,
                        base,
                        inputs,
                        boxes,
                        projected,
                        at,
                        source.as_str(),
                        per_unit,
                    ) {
                        Err(e) => {
                            assert(nodes_give(
                                *host,
                                *tokens,
                                *artifact,
                                values_of(base@),
                                *inputs,
                                layout,
                                lists,
                            ));
                            return Err(e);
                        },
                        Ok(units) => {
                            proof {
                                next = Some(units@);
                            }
                            out.push(
                                Entry { key: artifact.nodes[at].key.clone(), value: units },
                            );
                            assert(table_seen(out@) =~= table_seen(before).push(
                                (artifact.nodes@[at as int].key@, next->0),
                            ));
                        },
                    }
                },
                None => {},
            },
            _ => {},
        }
        proof {
            table_prefix(*artifact, lists, next, at as nat);
            let now = lists.push(next);
            assert forall|i: int| 0 <= i < now.len() implies node_gives(
                *host,
                *tokens,
                *artifact,
                values_of(base@),
                *inputs,
                layout,
                i,
                Ok(#[trigger] now[i]),
            ) by {
                if i < at {
                    assert(now[i] == lists[i]);
                }
            }
            lists = now;
        }
        at = at + 1;
    }
    assert(nodes_give(
        *host,
        *tokens,
        *artifact,
        values_of(base@),
        *inputs,
        layout,
        lists,
    ));
    Ok(out)
}

} // verus!
