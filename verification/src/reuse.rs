//! Which scenes can keep their layout from frame to frame.

use vstd::prelude::*;

use crate::artifact::{NodeKind, SceneArtifact, SceneNode, StyleBinding, StyleValue, TextValue};
use crate::determinism::{
    outcomes_are_determined, single_answer, values_come_through_references,
};
use crate::eval::{gives, kept_finite, plan, EvalInputs, Kernel, KernelError, LayoutInputs};
use crate::expr::{post_layout_dependent, reads_layout, ContextInput, Expr, ExprId};
use crate::faults::Fault;
use crate::passes::{
    after_layout, base_active, before_layout, flags_are, known_at, pass_gives, step_gives,
};
use crate::value::{single_text, MotionValue, Value};

verus! {

/// Whether an input of the scene stays the same over all frames.
pub open spec fn lasting(input: ContextInput) -> bool {
    input == ContextInput::ViewportWidth || input == ContextInput::ViewportHeight || input
        == ContextInput::FpsNum || input == ContextInput::FpsDen || input
        == ContextInput::DurationFrames
}

/// Whether an expression, apart from what it refers to, stays the same over all frames: it reads no
/// time, no cue, no text unit and no layout.
pub open spec fn own_lasting(e: Expr) -> bool {
    match e {
        Expr::Context { input } => lasting(input),
        Expr::Cue { .. } => false,
        Expr::NodeBounds { .. } => false,
        Expr::Project3D { .. } => false,
        _ => true,
    }
}

/// Whether what an expression refers to lies before it and is flagged.
pub open spec fn all_flagged(flags: Seq<bool>, refs: Seq<ExprId>) -> bool {
    forall|k: int| 0 <= k < refs.len() ==> (#[trigger] refs[k]).0 < flags.len() && flags[refs[k].0 as int]
}

/// Which of the first `n` expressions stay the same over all frames.
pub open spec fn lasting_flags(exprs: Seq<Expr>, n: nat) -> Seq<bool>
    decreases n,
{
    if n == 0 {
        Seq::empty()
    } else {
        let rest = lasting_flags(exprs, (n - 1) as nat);
        rest.push(own_lasting(exprs[n - 1]) && all_flagged(rest, exprs[n - 1].refs()))
    }
}

proof fn flags_count(exprs: Seq<Expr>, n: nat)
    ensures
        lasting_flags(exprs, n).len() == n,
    decreases n,
{
    if n > 0 {
        flags_count(exprs, (n - 1) as nat);
    }
}

proof fn flags_settle(exprs: Seq<Expr>, n: nat, m: nat)
    requires
        n <= m,
    ensures
        lasting_flags(exprs, m).take(n as int) == lasting_flags(exprs, n),
    decreases m,
{
    flags_count(exprs, n);
    flags_count(exprs, m);
    if n < m {
        flags_settle(exprs, n, (m - 1) as nat);
        flags_count(exprs, (m - 1) as nat);
        assert(lasting_flags(exprs, m).take(n as int) =~= lasting_flags(
            exprs,
            (m - 1) as nat,
        ).take(n as int));
    } else {
        assert(lasting_flags(exprs, m).take(n as int) =~= lasting_flags(exprs, n));
    }
}

fn are_flagged(flags: &Vec<bool>, refs: &Vec<ExprId>) -> (r: bool)
    ensures
        r == all_flagged(flags@, refs@),
{
    let mut k: usize = 0;
    while k < refs.len()
        invariant
            k <= refs@.len(),
            forall|j: int|
                0 <= j < k ==> (#[trigger] refs@[j]).0 < flags@.len()
                    && flags@[refs@[j].0 as int],
        decreases refs@.len() - k,
    {
        let at: usize = refs[k].0 as usize;
        if at >= flags.len() || !flags[at] {
            assert(!(refs@[k as int].0 < flags@.len() && flags@[refs@[k as int].0 as int]));
            return false;
        }
        k = k + 1;
    }
    true
}

/// Which expressions stay the same over all frames.
pub fn lasting_exprs(exprs: &Vec<Expr>) -> (r: Vec<bool>)
    ensures
        r@ == lasting_flags(exprs@, exprs@.len()),
        r@.len() == exprs@.len(),
{
    let mut flags: Vec<bool> = Vec::new();
    let mut i: usize = 0;
    assert(flags@ =~= Seq::empty());
    while i < exprs.len()
        invariant
            i <= exprs@.len(),
            flags@.len() == i,
            flags@ == lasting_flags(exprs@, i as nat),
        decreases exprs@.len() - i,
    {
        let own = match &exprs[i] {
            Expr::Context { input } => match *input {
                ContextInput::ViewportWidth
                | ContextInput::ViewportHeight
                | ContextInput::FpsNum
                | ContextInput::FpsDen
                | ContextInput::DurationFrames => true,
                _ => false,
            },
            Expr::Cue { .. } => false,
            Expr::NodeBounds { .. } => false,
            Expr::Project3D { .. } => false,
            _ => true,
        };
        let refs = exprs[i].children();
        let next = own && are_flagged(&flags, &refs);
        flags.push(next);
        i = i + 1;
    }
    flags
}

/// What the host knows of styles: whether a property can change without a new layout (given whether
/// its value lasts), and which property a class sets, if it sets a known one.
pub struct StyleRules<'a, R, C> {
    pub reusable: &'a R,
    pub class_property: &'a C,
}

pub open spec fn rules_ready<R: Fn(&String, bool) -> bool, C: Fn(&String) -> Option<String>>(
    rules: StyleRules<R, C>,
) -> bool {
    &&& forall|p: String, b: bool| call_requires(*rules.reusable, (&p, b))
    &&& forall|c: String| call_requires(*rules.class_property, (&c,))
}

/// Whether the host can say `r` of a class: it sets no known property, or one that can be reused.
pub open spec fn class_told<R: Fn(&String, bool) -> bool, C: Fn(&String) -> Option<String>>(
    rules: StyleRules<R, C>,
    class: String,
    r: bool,
) -> bool {
    exists|p: Option<String>| #[trigger]
        call_ensures(*rules.class_property, (&class,), p) && match p {
            None => r,
            Some(name) => call_ensures(*rules.reusable, (&name, true), r),
        }
}

pub open spec fn flag_at(flags: Seq<bool>, id: ExprId) -> bool {
    id.0 < flags.len() && flags[id.0 as int]
}

/// Whether the value of a style lasts.
pub open spec fn style_lasts(flags: Seq<bool>, v: StyleValue) -> bool {
    match v {
        StyleValue::Static { .. } => true,
        StyleValue::Expr { expr } => flag_at(flags, expr),
    }
}

/// Whether a kind of node has a fixed layout of its own.
pub open spec fn plain_kind(kind: NodeKind) -> bool {
    match kind {
        NodeKind::Group => true,
        NodeKind::Box => true,
        NodeKind::Text { text, path, per_unit } => text is Static && path is None && per_unit
            is None,
        _ => false,
    }
}

/// Whether a node can keep its layout: a plain kind without space or visibility of its own, whose
/// class conditions last, and whose classes and styles can all be reused.
pub open spec fn node_kept<R: Fn(&String, bool) -> bool, C: Fn(&String) -> Option<String>>(
    rules: StyleRules<R, C>,
    flags: Seq<bool>,
    node: SceneNode,
    conditions: Seq<ExprId>,
) -> bool {
    &&& plain_kind(node.kind) && node.space is None && node.visibility is None
    &&& forall|i: int|
        0 <= i < node.class_names@.len() ==> class_told(
            rules,
            #[trigger] node.class_names@[i],
            true,
        )
    &&& forall|i: int| 0 <= i < conditions.len() ==> flag_at(flags, #[trigger] conditions[i])
    &&& forall|i: int|
        0 <= i < node.styles@.len() ==> style_told(
            rules,
            flags,
            #[trigger] node.styles@[i],
            true,
        )
}

pub open spec fn style_told<R: Fn(&String, bool) -> bool, C: Fn(&String) -> Option<String>>(
    rules: StyleRules<R, C>,
    flags: Seq<bool>,
    style: StyleBinding,
    r: bool,
) -> bool {
    call_ensures(*rules.reusable, (&style.property, style_lasts(flags, style.value)), r)
}

/// Whether something keeps a node from keeping its layout.
pub open spec fn node_moved<R: Fn(&String, bool) -> bool, C: Fn(&String) -> Option<String>>(
    rules: StyleRules<R, C>,
    flags: Seq<bool>,
    node: SceneNode,
    conditions: Seq<ExprId>,
) -> bool {
    ||| !(plain_kind(node.kind) && node.space is None && node.visibility is None)
    ||| exists|i: int|
        0 <= i < node.class_names@.len() && class_told(
            rules,
            #[trigger] node.class_names@[i],
            false,
        )
    ||| exists|i: int| 0 <= i < conditions.len() && !flag_at(flags, #[trigger] conditions[i])
    ||| exists|i: int|
        0 <= i < node.styles@.len() && style_told(rules, flags, #[trigger] node.styles@[i], false)
}

fn keeps<R: Fn(&String, bool) -> bool, C: Fn(&String) -> Option<String>>(
    rules: &StyleRules<R, C>,
    flags: &Vec<bool>,
    node: &SceneNode,
    conditions: &Vec<ExprId>,
) -> (r: bool)
    requires
        rules_ready(*rules),
    ensures
        r ==> node_kept(*rules, flags@, *node, conditions@),
        !r ==> node_moved(*rules, flags@, *node, conditions@),
{
    let plain = match &node.kind {
        NodeKind::Group => true,
        NodeKind::Box => true,
        NodeKind::Text { text, path, per_unit } => {
            let fixed = match text {
                TextValue::Static { .. } => true,
                _ => false,
            };
            fixed && path.is_none() && per_unit.is_none()
        },
        _ => false,
    };
    if !plain || node.space.is_some() || node.visibility.is_some() {
        return false;
    }
    let reusable = rules.reusable;
    let class_property = rules.class_property;
    let mut i: usize = 0;
    while i < node.class_names.len()
        invariant
            rules_ready(*rules),
            *reusable == *rules.reusable,
            *class_property == *rules.class_property,
            i <= node.class_names@.len(),
            forall|k: int|
                0 <= k < i ==> class_told(*rules, #[trigger] node.class_names@[k], true),
        decreases node.class_names@.len() - i,
    {
        let p = class_property(&node.class_names[i]);
        let good = match &p {
            None => true,
            Some(name) => reusable(name, true),
        };
        assert(class_told(*rules, node.class_names@[i as int], good)) by {
            assert(call_ensures(*rules.class_property, (&node.class_names@[i as int],), p));
        }
        if !good {
            return false;
        }
        i = i + 1;
    }
    let mut j: usize = 0;
    while j < conditions.len()
        invariant
            j <= conditions@.len(),
            forall|k: int| 0 <= k < j ==> flag_at(flags@, #[trigger] conditions@[k]),
        decreases conditions@.len() - j,
    {
        let at: usize = conditions[j].0 as usize;
        if at >= flags.len() || !flags[at] {
            assert(!flag_at(flags@, conditions@[j as int]));
            return false;
        }
        j = j + 1;
    }
    let mut s: usize = 0;
    while s < node.styles.len()
        invariant
            rules_ready(*rules),
            *reusable == *rules.reusable,
            s <= node.styles@.len(),
            forall|k: int|
                0 <= k < s ==> style_told(*rules, flags@, #[trigger] node.styles@[k], true),
        decreases node.styles@.len() - s,
    {
        let lasts = match &node.styles[s].value {
            StyleValue::Static { .. } => true,
            StyleValue::Expr { expr } => {
                let at: usize = expr.0 as usize;
                at < flags.len() && flags[at]
            },
        };
        let good = reusable(&node.styles[s].property, lasts);
        assert(style_told(*rules, flags@, node.styles@[s as int], good));
        if !good {
            return false;
        }
        s = s + 1;
    }
    true
}

/// Whether no expression reads layout.
pub open spec fn reads_no_layout(exprs: Seq<Expr>) -> bool {
    forall|i: int| 0 <= i < exprs.len() ==> !#[trigger] after_layout(exprs)[i]
}

/// Whether every node can keep its layout.
pub open spec fn all_kept<R: Fn(&String, bool) -> bool, C: Fn(&String) -> Option<String>>(
    rules: StyleRules<R, C>,
    a: SceneArtifact,
    conditions: Seq<Vec<ExprId>>,
) -> bool {
    forall|i: int|
        0 <= i < a.nodes@.len() ==> node_kept(
            rules,
            lasting_flags(a.exprs@, a.exprs@.len()),
            #[trigger] a.nodes@[i],
            conditions[i]@,
        )
}

/// Whether some node cannot keep its layout.
pub open spec fn some_moved<R: Fn(&String, bool) -> bool, C: Fn(&String) -> Option<String>>(
    rules: StyleRules<R, C>,
    a: SceneArtifact,
    conditions: Seq<Vec<ExprId>>,
) -> bool {
    exists|i: int|
        0 <= i < a.nodes@.len() && node_moved(
            rules,
            lasting_flags(a.exprs@, a.exprs@.len()),
            #[trigger] a.nodes@[i],
            conditions[i]@,
        )
}

/// Whether a scene can keep its layout from frame to frame: it has no camera, reads no layout, and all
/// its nodes keep theirs. `conditions` holds the expressions that switch the classes of each node.
pub fn eligible<R: Fn(&String, bool) -> bool, C: Fn(&String) -> Option<String>>(
    rules: &StyleRules<R, C>,
    artifact: &SceneArtifact,
    conditions: &Vec<Vec<ExprId>>,
) -> (r: bool)
    requires
        rules_ready(*rules),
        conditions@.len() == artifact.nodes@.len(),
    ensures
        r ==> artifact.camera is None && reads_no_layout(artifact.exprs@) && all_kept(
            *rules,
            *artifact,
            conditions@,
        ),
        !r ==> artifact.camera is Some || !reads_no_layout(artifact.exprs@) || some_moved(
            *rules,
            *artifact,
            conditions@,
        ),
{
    if artifact.camera.is_some() {
        return false;
    }
    let post = post_layout_dependent(&artifact.exprs);
    proof {
        flags_are(artifact.exprs@, |e: Expr| reads_layout(e), post@);
    }
    let mut i: usize = 0;
    while i < post.len()
        invariant
            i <= post@.len(),
            post@ == after_layout(artifact.exprs@),
            post@.len() == artifact.exprs@.len(),
            forall|k: int| 0 <= k < i ==> !#[trigger] after_layout(artifact.exprs@)[k],
        decreases post@.len() - i,
    {
        if post[i] {
            assert(after_layout(artifact.exprs@)[i as int]);
            return false;
        }
        i = i + 1;
    }
    let flags = lasting_exprs(&artifact.exprs);
    let mut n: usize = 0;
    while n < artifact.nodes.len()
        invariant
            rules_ready(*rules),
            conditions@.len() == artifact.nodes@.len(),
            flags@ == lasting_flags(artifact.exprs@, artifact.exprs@.len()),
            n <= artifact.nodes@.len(),
            forall|k: int|
                0 <= k < n ==> node_kept(
                    *rules,
                    flags@,
                    #[trigger] artifact.nodes@[k],
                    conditions@[k]@,
                ),
        decreases artifact.nodes@.len() - n,
    {
        if !keeps(rules, &flags, &artifact.nodes[n], &conditions[n]) {
            assert(node_moved(
                *rules,
                lasting_flags(artifact.exprs@, artifact.exprs@.len()),
                artifact.nodes@[n as int],
                conditions@[n as int]@,
            ));
            return false;
        }
        n = n + 1;
    }
    true
}

/// Whether two frames of a scene share props, viewport, frame rate and duration.
pub open spec fn same_setting(a: EvalInputs, b: EvalInputs) -> bool {
    &&& *a.props == *b.props
    &&& a.viewport == b.viewport
    &&& a.unit is None && b.unit is None
    &&& a.ctx.duration_frames == b.ctx.duration_frames
    &&& a.ctx.fps_numerator == b.ctx.fps_numerator
    &&& a.ctx.fps_denominator == b.ctx.fps_denominator
    &&& a.ctx.fps == b.ctx.fps
}

proof fn own_lasting_plans_agree(
    at: int,
    e: Expr,
    done: Seq<Value>,
    a: EvalInputs,
    b: EvalInputs,
    layout: LayoutInputs,
)
    requires
        own_lasting(e),
        same_setting(a, b),
    ensures
        plan(at, e, done, a, layout) == plan(at, e, done, b, layout),
{
}

/// An expression that stays the same over all frames has one value in all frames that share props,
/// viewport, frame rate and duration.
pub proof fn lasting_values_agree<
    K: Fn(&Kernel) -> Result<MotionValue, KernelError>,
    T: Fn(&MotionValue) -> String,
>(
    host: K,
    tokens: T,
    exprs: Seq<Expr>,
    a: EvalInputs,
    b: EvalInputs,
    left: Seq<Value>,
    right: Seq<Value>,
    i: int,
)
    requires
        single_answer(host),
        single_text(tokens),
        same_setting(a, b),
        pass_gives(
            host,
            tokens,
            exprs,
            base_active(exprs, false),
            None,
            a,
            before_layout(),
            Ok(left),
        ),
        pass_gives(
            host,
            tokens,
            exprs,
            base_active(exprs, false),
            None,
            b,
            before_layout(),
            Ok(right),
        ),
        0 <= i < exprs.len(),
        lasting_flags(exprs, exprs.len())[i],
    ensures
        left[i] == right[i],
    decreases i,
{
    let active = base_active(exprs, false);
    let flags = lasting_flags(exprs, exprs.len());
    let refs = exprs[i].refs();
    let x = known_at(None, left, i);
    let y = known_at(None, right, i);
    flags_settle(exprs, (i + 1) as nat, exprs.len());
    flags_settle(exprs, i as nat, exprs.len());
    flags_count(exprs, i as nat);
    flags_count(exprs, (i + 1) as nat);
    flags_count(exprs, exprs.len());
    assert(flags.take(i + 1)[i] == flags[i]);
    assert(own_lasting(exprs[i]) && all_flagged(lasting_flags(exprs, i as nat), refs));
    assert forall|k: int| 0 <= k < refs.len() && (#[trigger] refs[k]).0 < x.len() implies x[refs[k].0 as int]
        == y[refs[k].0 as int] by {
        assert(lasting_flags(exprs, i as nat)[refs[k].0 as int]);
        assert(flags.take(i)[refs[k].0 as int] == flags[refs[k].0 as int]);
        lasting_values_agree(host, tokens, exprs, a, b, left, right, refs[k].0 as int);
    }
    assert(left[i] == left[i] && right[i] == right[i]);
    if active[i] {
        values_come_through_references(i, exprs[i], x, y, a, before_layout());
        own_lasting_plans_agree(i, exprs[i], y, a, b, before_layout());
        let p = plan(i, exprs[i], x, a, before_layout());
        assert(step_gives(host, tokens, exprs, i, x, a, before_layout(), Ok(left[i])));
        assert(step_gives(host, tokens, exprs, i, y, b, before_layout(), Ok(right[i])));
        let r = choose|raw: Result<Value, Fault>| #[trigger]
            gives(host, tokens, i, p, raw) && Ok::<Value, Fault>(left[i]) == kept_finite(
                i,
                "evaluation"@,
                raw,
            );
        let s = choose|raw: Result<Value, Fault>| #[trigger]
            gives(host, tokens, i, p, raw) && Ok::<Value, Fault>(right[i]) == kept_finite(
                i,
                "evaluation"@,
                raw,
            );
        outcomes_are_determined(host, tokens, i, p, r, s);
    }
}

} // verus!
