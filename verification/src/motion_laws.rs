//! How smoothly expressions move: what each kind of expression keeps of the smoothness of its inputs.

use vstd::prelude::*;

use crate::continuity::{meets, rank_of, ranked, ranks, worst, Smoothness};
use crate::expr::{ContextInput, Expr, ExprId, Extrapolation};

verus! {

/// From the smoothest to the least smooth: twice differentiable, once differentiable, in pieces, in steps.
pub proof fn smoothness_is_ranked(s: Smoothness)
    ensures
        s == Smoothness::C2 <==> s.rank() == 0,
        s == Smoothness::C1 <==> s.rank() == 1,
        s is Piecewise <==> s.rank() == 2,
        s == Smoothness::Discrete <==> s.rank() == 3,
        ranked(0) == Smoothness::C2,
        ranked(1) == Smoothness::C1,
        ranked(2) is Piecewise,
        ranked(3) == Smoothness::Discrete,
{
}

/// Two movements together are as smooth as the less smooth of them.
pub proof fn movements_together_are_as_smooth_as_the_worse(
    a: Smoothness,
    b: Smoothness,
    r: Smoothness,
)
    requires
        meets(a, b, r),
    ensures
        r.rank() >= a.rank(),
        r.rank() >= b.rank(),
        r.rank() == a.rank() || r.rank() == b.rank(),
        a.rank() > b.rank() ==> r == a,
        b.rank() > a.rank() ==> r == b,
{
}

/// Constants and props do not move. Progress and seconds of the clip run smoothly, like what stays the
/// same; progress of phases and holds runs in pieces; frames, counts and conditions go in steps. Cues run
/// in pieces, and laid-out boxes and projected points once differentiable.
pub proof fn inputs_move_as_they_are_read(e: Expr, known: Seq<nat>)
    ensures
        match e {
            Expr::Const { .. } => rank_of(e, known) == 0,
            Expr::Prop { .. } => rank_of(e, known) == 0,
            Expr::Cue { .. } => rank_of(e, known) == 2,
            Expr::NodeBounds { .. } => rank_of(e, known) == 1,
            Expr::Project3D { .. } => rank_of(e, known) == 1,
            Expr::Context { input } => match input {
                ContextInput::LocalProgress => rank_of(e, known) == 0,
                ContextInput::CompositionSeconds => rank_of(e, known) == 0,
                ContextInput::DurationFrames => rank_of(e, known) == 0,
                ContextInput::FpsNum => rank_of(e, known) == 0,
                ContextInput::FpsDen => rank_of(e, known) == 0,
                ContextInput::ViewportWidth => rank_of(e, known) == 0,
                ContextInput::ViewportHeight => rank_of(e, known) == 0,
                ContextInput::PhaseProgress { .. } => rank_of(e, known) == 2,
                ContextInput::HoldCycleProgress => rank_of(e, known) == 2,
                _ => rank_of(e, known) == 3,
            },
            _ => true,
        },
{
}

/// Choices, comparisons, texts, noise and trajectories go in steps.
pub proof fn choices_go_in_steps(e: Expr, known: Seq<nat>)
    ensures
        e is Select || e is Compare || e is Template || e is FormatNumber || e is Noise1D || e is Noise2D
            || e is PathTrajectory ==> rank_of(e, known) == 3,
{
}

/// The smoothness of a reference; what does not go back to an earlier expression goes in steps.
pub open spec fn smooth_as(known: Seq<nat>, id: ExprId) -> nat {
    if id.0 < known.len() { known[id.0 as int] } else { 3 }
}

/// A spring is as smooth as its time. An interpolation is once differentiable at best: where it runs on
/// beyond its ends and eases by lines or curves with slopes of their own; in pieces otherwise; and in
/// steps where its input is.
pub proof fn interpolations_are_once_differentiable_at_best(e: Expr, known: Seq<nat>)
    ensures
        match e {
            Expr::Spring { elapsed_frames, .. } => rank_of(e, known) == smooth_as(known, elapsed_frames),
            Expr::Interpolate { input, easings, extrapolate_left, extrapolate_right, .. } => {
                let x = smooth_as(known, input);
                let open = extrapolate_left == Extrapolation::Extend && extrapolate_right
                    == Extrapolation::Extend && forall|i: int|
                    0 <= i < easings@.len() ==> (#[trigger] easings@[i]) is Linear || easings@[i] is CubicBezier;
                &&& x >= 3 ==> rank_of(e, known) == 3
                &&& x < 3 && !open ==> rank_of(e, known) == 2
                &&& x < 3 && open && x <= 1 ==> rank_of(e, known) == 1
                &&& x == 2 && open ==> rank_of(e, known) == 2
            },
            _ => true,
        },
{
    match e {
        Expr::Interpolate { easings, .. } => {
            let all = forall|i: int|
                0 <= i < easings@.len() ==> (#[trigger] easings@[i]) is Linear || easings@[i] is CubicBezier;
            assert(all == crate::continuity::keeps_slope(easings@));
        },
        _ => {},
    }
}

proof fn worst_bounds(v: Seq<nat>, n: nat)
    requires
        n <= v.len(),
    ensures
        forall|i: int| 0 <= i < n ==> #[trigger] v[i] <= worst(v, n),
        n == 0 ==> worst(v, n) == 0,
        n > 0 ==> exists|i: int| 0 <= i < n && #[trigger] v[i] == worst(v, n),
    decreases n,
{
    if n > 0 {
        worst_bounds(v, (n - 1) as nat);
        if worst(v, n) == v[n - 1] {
            assert(v[n - 1] == worst(v, n));
        } else {
            let i = choose|i: int| 0 <= i < n - 1 && #[trigger] v[i] == worst(v, (n - 1) as nat);
            assert(v[i] == worst(v, n));
        }
    }
}

/// Sums, products, points, paths and functions are exactly as smooth as the least smooth of their inputs.
pub proof fn operations_are_as_smooth_as_their_inputs(e: Expr, known: Seq<nat>, k: int)
    requires
        e is Add || e is Sub || e is Mul || e is Div || e is Neg || e is MathUnary || e is MathBinary
            || e is MakePoint || e is MakeRect || e is PathLine || e is PathTemplate || e is PathCubic
            || e is PathArc || e is PathArea || e is PathOffset || e is PathMorph || e is PathPointAt
            || e is PathTangentAt || e is PathAngleAt || e is PathLength || e is GeometryField
            || e is ToLength2,
        0 <= k < e.refs().len(),
    ensures
        smooth_as(known, e.refs()[k]) <= rank_of(e, known),
        exists|j: int|
            0 <= j < e.refs().len() && smooth_as(known, #[trigger] e.refs()[j]) == rank_of(e, known),
{
    let v = e.refs().map_values(|id: ExprId| crate::continuity::known_rank(known, id));
    worst_bounds(v, e.refs().len());
    assert(v[k] == smooth_as(known, e.refs()[k]));
    let j = choose|j: int| 0 <= j < v.len() && #[trigger] v[j] == worst(v, v.len());
    assert(smooth_as(known, e.refs()[j]) == v[j]);
}

/// Every expression is ranked by those before it.
pub proof fn expressions_are_ranked_in_order(exprs: Seq<Expr>, n: nat)
    requires
        n < exprs.len(),
    ensures
        ranks(exprs, 0).len() == 0,
        ranks(exprs, n + 1).drop_last() == ranks(exprs, n),
        ranks(exprs, n + 1).last() == rank_of(exprs[n as int], ranks(exprs, n)),
{
    assert(ranks(exprs, n + 1).drop_last() =~= ranks(exprs, n));
}

} // verus!
