//! How smoothly an expression changes over time.

use vstd::prelude::*;

use crate::expr::{ContextInput, Expr, ExprId, Extrapolation};
use crate::value::MotionEasing;

verus! {

/// An exact instant, in seconds. The denominator is positive.
#[derive(Clone, Copy, Debug, PartialEq, Eq, Structural)]
pub struct RationalTime {
    pub numerator: i64,
    pub denominator: u32,
}

impl RationalTime {
    /// Whether an instant is earlier than another.
    pub open spec fn earlier_spec(self, other: RationalTime) -> bool {
        self.numerator * (other.denominator as int) < other.numerator * (self.denominator as int)
    }

    /// Whether an instant is earlier than another.
    pub fn earlier(self, other: RationalTime) -> (r: bool)
        ensures
            r == self.earlier_spec(other),
    {
        let a: i128 = self.numerator as i128;
        let b: i128 = other.numerator as i128;
        let p: i128 = self.denominator as i128;
        let q: i128 = other.denominator as i128;
        assert(-0x8000_0000_0000_0000_0000_0000 <= a * q <= 0x8000_0000_0000_0000_0000_0000)
            by (nonlinear_arith)
            requires
                -0x8000_0000_0000_0000 <= a <= 0x7fff_ffff_ffff_ffff,
                0 <= q <= 0xffff_ffff,
        ;
        assert(-0x8000_0000_0000_0000_0000_0000 <= b * p <= 0x8000_0000_0000_0000_0000_0000)
            by (nonlinear_arith)
            requires
                -0x8000_0000_0000_0000 <= b <= 0x7fff_ffff_ffff_ffff,
                0 <= p <= 0xffff_ffff,
        ;
        a * q < b * p
    }

    /// Whether two instants are the same.
    pub open spec fn same_instant(self, other: RationalTime) -> bool {
        !self.earlier_spec(other) && !other.earlier_spec(self)
    }
}

/// Instants are ordered.
pub proof fn instants_are_ordered(a: RationalTime, b: RationalTime, c: RationalTime)
    requires
        a.denominator > 0,
        b.denominator > 0,
        c.denominator > 0,
    ensures
        a.earlier_spec(b) && b.earlier_spec(c) ==> a.earlier_spec(c),
        a.earlier_spec(b) && b.same_instant(c) ==> a.earlier_spec(c),
        a.same_instant(b) && b.earlier_spec(c) ==> a.earlier_spec(c),
{
    let (an, ad) = (a.numerator as int, a.denominator as int);
    let (bn, bd) = (b.numerator as int, b.denominator as int);
    let (cn, cd) = (c.numerator as int, c.denominator as int);
    if an * bd <= bn * ad && bn * cd <= cn * bd && (an * bd < bn * ad || bn * cd < cn * bd) {
        assert(an * cd < cn * ad) by (nonlinear_arith)
            requires
                an * bd <= bn * ad,
                bn * cd <= cn * bd,
                an * bd < bn * ad || bn * cd < cn * bd,
                ad > 0,
                bd > 0,
                cd > 0,
        {
            assert((an * bd) * cd <= (bn * ad) * cd) by (nonlinear_arith)
                requires
                    an * bd <= bn * ad,
                    cd > 0,
            ;
            assert((bn * cd) * ad <= (cn * bd) * ad) by (nonlinear_arith)
                requires
                    bn * cd <= cn * bd,
                    ad > 0,
            ;
            assert(an * bd < bn * ad ==> (an * bd) * cd < (bn * ad) * cd) by (nonlinear_arith)
                requires
                    cd > 0,
            ;
            assert(bn * cd < cn * bd ==> (bn * cd) * ad < (cn * bd) * ad) by (nonlinear_arith)
                requires
                    ad > 0,
            ;
            assert((an * bd) * cd == (an * cd) * bd) by (nonlinear_arith);
            assert((bn * ad) * cd == (bn * cd) * ad) by (nonlinear_arith);
            assert((cn * bd) * ad == (cn * ad) * bd) by (nonlinear_arith);
            assert((an * cd) * bd < (cn * ad) * bd);
            assert(an * cd < cn * ad) by (nonlinear_arith)
                requires
                    (an * cd) * bd < (cn * ad) * bd,
                    bd > 0,
            ;
        }
    }
}

/// Proven temporal smoothness of an expression.
#[derive(Debug)]
pub enum TemporalContinuity {
    C2,
    C1,
    Piecewise { boundaries: Vec<RationalTime> },
    Discrete,
}

/// Smoothness by its contents.
pub enum Smoothness {
    C2,
    C1,
    Piecewise(Seq<RationalTime>),
    Discrete,
}

impl View for TemporalContinuity {
    type V = Smoothness;

    open spec fn view(&self) -> Smoothness {
        match *self {
            TemporalContinuity::C2 => Smoothness::C2,
            TemporalContinuity::C1 => Smoothness::C1,
            TemporalContinuity::Piecewise { boundaries } => Smoothness::Piecewise(boundaries@),
            TemporalContinuity::Discrete => Smoothness::Discrete,
        }
    }
}

impl Smoothness {
    /// From the smoothest to the least smooth.
    pub open spec fn rank(self) -> nat {
        match self {
            Smoothness::C2 => 0,
            Smoothness::C1 => 1,
            Smoothness::Piecewise(_) => 2,
            Smoothness::Discrete => 3,
        }
    }
}

/// Smoothness of a rank, without known boundaries.
pub open spec fn ranked(rank: nat) -> Smoothness {
    if rank == 0 {
        Smoothness::C2
    } else if rank == 1 {
        Smoothness::C1
    } else if rank == 2 {
        Smoothness::Piecewise(Seq::empty())
    } else {
        Smoothness::Discrete
    }
}

/// Whether instants have positive denominators.
pub open spec fn proper(v: Seq<RationalTime>) -> bool {
    forall|i: int| 0 <= i < v.len() ==> (#[trigger] v[i]).denominator > 0
}

/// Whether instants strictly ascend.
pub open spec fn ascends(v: Seq<RationalTime>) -> bool {
    forall|i: int, j: int| 0 <= i < j < v.len() ==> (#[trigger] v[i]).earlier_spec(#[trigger] v[j])
}

/// Whether an instant stands in a list.
pub open spec fn listed_instant(v: Seq<RationalTime>, t: RationalTime) -> bool {
    exists|i: int| 0 <= i < v.len() && (#[trigger] v[i]).same_instant(t)
}

/// Puts an instant into an ascending list, unless it is there.
fn put(list: &mut Vec<RationalTime>, t: RationalTime)
    requires
        proper(old(list)@),
        ascends(old(list)@),
        t.denominator > 0,
    ensures
        proper(final(list)@),
        ascends(final(list)@),
        forall|x: RationalTime|
            x.denominator > 0 ==> (#[trigger] listed_instant(final(list)@, x) <==> listed_instant(
                old(list)@,
                x,
            ) || t.same_instant(x)),
{
    let ghost was = list@;
    let mut p: usize = 0;
    while p < list.len() && list[p].earlier(t)
        invariant
            was == list@,
            p <= list@.len(),
            forall|i: int| 0 <= i < p ==> (#[trigger] was[i]).earlier_spec(t),
        decreases list@.len() - p,
    {
        p = p + 1;
    }
    if p < list.len() && !t.earlier(list[p]) {
        proof {
            let here = was[p as int];
            assert forall|x: RationalTime| x.denominator > 0 implies (#[trigger] listed_instant(
                was,
                x,
            ) <==> listed_instant(was, x) || t.same_instant(x)) by {
                if t.same_instant(x) {
                    instants_are_ordered(here, x, t);
                    instants_are_ordered(x, here, t);
                    assert(was[p as int].same_instant(x));
                }
            }
        }
        return;
    }
    list.insert(p, t);
    proof {
        let now = list@;
        assert(now =~= was.insert(p as int, t));
        assert forall|i: int| 0 <= i < now.len() implies (#[trigger] now[i]).denominator > 0 by {
            if i < p {
                assert(now[i] == was[i]);
            } else if i > p {
                assert(now[i] == was[i - 1]);
            }
        }
        assert forall|i: int, j: int| 0 <= i < j < now.len() implies (#[trigger] now[i]).earlier_spec(
            #[trigger] now[j],
        ) by {
            let wi = if i < p { i } else { i - 1 };
            let wj = if j < p { j } else { j - 1 };
            if i == p {
                assert(now[j] == was[wj]);
                if wj > p {
                    assert(was[p as int].earlier_spec(was[wj]));
                    instants_are_ordered(t, was[p as int], was[wj]);
                }
            } else if j == p {
                assert(now[i] == was[i]);
            } else {
                assert(now[i] == was[wi]);
                assert(now[j] == was[wj]);
            }
        }
        assert forall|x: RationalTime| x.denominator > 0 implies (#[trigger] listed_instant(now, x)
            <==> listed_instant(was, x) || t.same_instant(x)) by {
            if listed_instant(now, x) {
                let i = choose|i: int| 0 <= i < now.len() && (#[trigger] now[i]).same_instant(x);
                if i < p {
                    assert(was[i].same_instant(x));
                } else if i > p {
                    assert(was[i - 1].same_instant(x));
                }
            }
            if listed_instant(was, x) {
                let i = choose|i: int| 0 <= i < was.len() && (#[trigger] was[i]).same_instant(x);
                if i < p {
                    assert(now[i].same_instant(x));
                } else {
                    assert(now[i + 1].same_instant(x));
                }
            }
            if t.same_instant(x) {
                assert(now[p as int].same_instant(x));
            }
        }
    }
}

/// Whether `merged` holds the instants of two lists, each once, in order.
pub open spec fn merges(
    left: Seq<RationalTime>,
    right: Seq<RationalTime>,
    merged: Seq<RationalTime>,
) -> bool {
    &&& proper(merged)
    &&& ascends(merged)
    &&& forall|x: RationalTime|
        x.denominator > 0 ==> (#[trigger] listed_instant(merged, x) <==> listed_instant(left, x)
            || listed_instant(right, x))
}

proof fn listed_in_prefix(v: Seq<RationalTime>, k: int, x: RationalTime)
    requires
        0 <= k < v.len(),
    ensures
        listed_instant(v.take(k + 1), x) <==> listed_instant(v.take(k), x) || v[k].same_instant(x),
{
    let now = v.take(k + 1);
    let was = v.take(k);
    if listed_instant(now, x) {
        let i = choose|i: int| 0 <= i < now.len() && (#[trigger] now[i]).same_instant(x);
        if i < k {
            assert(was[i].same_instant(x));
        }
    }
    if listed_instant(was, x) {
        let i = choose|i: int| 0 <= i < was.len() && (#[trigger] was[i]).same_instant(x);
        assert(now[i].same_instant(x));
    }
    if v[k].same_instant(x) {
        assert(now[k].same_instant(x));
    }
}

fn merged_boundaries(left: &Vec<RationalTime>, right: &Vec<RationalTime>) -> (r: Vec<RationalTime>)
    requires
        proper(left@),
        proper(right@),
    ensures
        merges(left@, right@, r@),
        left@.len() == 0 && right@.len() == 0 ==> r@ == Seq::<RationalTime>::empty(),
{
    let mut out: Vec<RationalTime> = Vec::new();
    let mut i: usize = 0;
    assert forall|x: RationalTime| !#[trigger] listed_instant(out@, x) && !listed_instant(
        left@.take(0),
        x,
    ) by {}
    while i < left.len()
        invariant
            i <= left@.len(),
            proper(left@),
            proper(out@),
            ascends(out@),
            left@.len() == 0 ==> out@.len() == 0,
            forall|x: RationalTime|
                x.denominator > 0 ==> (#[trigger] listed_instant(out@, x) <==> listed_instant(
                    left@.take(i as int),
                    x,
                )),
        decreases left@.len() - i,
    {
        let ghost before = out@;
        assert(left@[i as int].denominator > 0);
        put(&mut out, left[i]);
        proof {
            assert forall|x: RationalTime| x.denominator > 0 implies (#[trigger] listed_instant(
                out@,
                x,
            ) <==> listed_instant(left@.take(i + 1), x)) by {
                listed_in_prefix(left@, i as int, x);
                assert(listed_instant(before, x) <==> listed_instant(left@.take(i as int), x));
            }
        }
        i = i + 1;
    }
    assert(left@.take(i as int) =~= left@);
    let mut j: usize = 0;
    assert forall|x: RationalTime| !#[trigger] listed_instant(right@.take(0), x) by {}
    while j < right.len()
        invariant
            j <= right@.len(),
            proper(right@),
            proper(out@),
            ascends(out@),
            left@.len() == 0 && right@.len() == 0 ==> out@.len() == 0,
            forall|x: RationalTime|
                x.denominator > 0 ==> (#[trigger] listed_instant(out@, x) <==> listed_instant(
                    left@,
                    x,
                ) || listed_instant(right@.take(j as int), x)),
        decreases right@.len() - j,
    {
        let ghost before = out@;
        assert(right@[j as int].denominator > 0);
        put(&mut out, right[j]);
        proof {
            assert forall|x: RationalTime| x.denominator > 0 implies (#[trigger] listed_instant(
                out@,
                x,
            ) <==> listed_instant(left@, x) || listed_instant(right@.take(j + 1), x)) by {
                listed_in_prefix(right@, j as int, x);
                assert(listed_instant(before, x) <==> listed_instant(left@, x) || listed_instant(
                    right@.take(j as int),
                    x,
                ));
            }
        }
        j = j + 1;
    }
    assert(right@.take(j as int) =~= right@);
    out
}

/// Whether boundaries, where there are any, are proper.
pub open spec fn well_formed(s: Smoothness) -> bool {
    match s {
        Smoothness::Piecewise(v) => proper(v),
        _ => true,
    }
}

/// Whether `r` is the less smooth of two, with the boundaries of both where both are piecewise.
pub open spec fn meets(a: Smoothness, b: Smoothness, r: Smoothness) -> bool {
    match (a, b) {
        (Smoothness::Piecewise(x), Smoothness::Piecewise(y)) => match r {
            Smoothness::Piecewise(z) => merges(x, y, z) && (x.len() == 0 && y.len() == 0 ==> z
                == Seq::<RationalTime>::empty()),
            _ => false,
        },
        _ => r == if a.rank() >= b.rank() { a } else { b },
    }
}

impl TemporalContinuity {
    /// From the smoothest to the least smooth.
    pub fn rank(&self) -> (r: u8)
        ensures
            r == self@.rank(),
    {
        match self {
            TemporalContinuity::C2 => 0,
            TemporalContinuity::C1 => 1,
            TemporalContinuity::Piecewise { .. } => 2,
            TemporalContinuity::Discrete => 3,
        }
    }

    /// Whether an expression of this smoothness may drive a track.
    pub fn is_track_legal(&self) -> (r: bool)
        ensures
            r == (self@.rank() < 3),
    {
        match self {
            TemporalContinuity::Discrete => false,
            _ => true,
        }
    }

    fn duplicate(&self) -> (r: TemporalContinuity)
        ensures
            r@ == self@,
    {
        match self {
            TemporalContinuity::C2 => TemporalContinuity::C2,
            TemporalContinuity::C1 => TemporalContinuity::C1,
            TemporalContinuity::Discrete => TemporalContinuity::Discrete,
            TemporalContinuity::Piecewise { boundaries } => {
                let mut copy: Vec<RationalTime> = Vec::new();
                let mut i: usize = 0;
                while i < boundaries.len()
                    invariant
                        i <= boundaries@.len(),
                        copy@ == boundaries@.take(i as int),
                    decreases boundaries@.len() - i,
                {
                    copy.push(boundaries[i]);
                    i = i + 1;
                    assert(copy@ =~= boundaries@.take(i as int));
                }
                assert(boundaries@.take(i as int) =~= boundaries@);
                TemporalContinuity::Piecewise { boundaries: copy }
            },
        }
    }

    /// The less smooth of two.
    pub fn meet(self, other: TemporalContinuity) -> (r: TemporalContinuity)
        requires
            well_formed(self@),
            well_formed(other@),
        ensures
            meets(self@, other@, r@),
            well_formed(r@),
    {
        match (&self, &other) {
            (
                TemporalContinuity::Piecewise { boundaries: left },
                TemporalContinuity::Piecewise { boundaries: right },
            ) => {
                return TemporalContinuity::Piecewise { boundaries: merged_boundaries(left, right) };
            },
            _ => {},
        }
        if self.rank() >= other.rank() {
            self
        } else {
            other
        }
    }
}

/// Whether two lists hold the same instants at the same places.
pub open spec fn same_instants(a: Seq<RationalTime>, b: Seq<RationalTime>) -> bool {
    &&& a.len() == b.len()
    &&& forall|i: int| 0 <= i < a.len() ==> (#[trigger] a[i]).same_instant(b[i])
}

proof fn same_place(a: Seq<RationalTime>, b: Seq<RationalTime>, k: int)
    requires
        proper(a),
        proper(b),
        ascends(a),
        ascends(b),
        forall|x: RationalTime|
            x.denominator > 0 ==> (#[trigger] listed_instant(a, x) <==> listed_instant(b, x)),
        0 <= k < a.len(),
    ensures
        k < b.len(),
        a[k].same_instant(b[k]),
    decreases k,
{
    assert(a[k].same_instant(a[k]));
    assert(listed_instant(a, a[k]));
    assert(listed_instant(b, a[k]));
    let j = choose|j: int| 0 <= j < b.len() && (#[trigger] b[j]).same_instant(a[k]);
    if j < k {
        same_place(a, b, j);
        assert(a[j].earlier_spec(a[k]));
        instants_are_ordered(b[j], a[j], a[k]);
        instants_are_ordered(a[j], a[k], b[j]);
    }
    assert(b[k].same_instant(b[k]));
    assert(listed_instant(b, b[k]));
    assert(listed_instant(a, b[k]));
    let i = choose|i: int| 0 <= i < a.len() && (#[trigger] a[i]).same_instant(b[k]);
    if i < k {
        same_place(a, b, i);
        assert(b[i].earlier_spec(b[k]));
        instants_are_ordered(a[i], b[i], b[k]);
        instants_are_ordered(b[i], b[k], a[i]);
    } else if k < j {
        assert(b[k].earlier_spec(b[j]));
        instants_are_ordered(b[k], b[j], a[k]);
        if k < i {
            assert(a[k].earlier_spec(a[i]));
            instants_are_ordered(b[k], a[k], a[i]);
            instants_are_ordered(b[k], a[i], b[k]);
        }
    }
}

/// Two smoothnesses meet in the same way in either order: the result has the larger rank, may drive a
/// track exactly when both may, and has strictly ascending boundaries where both are piecewise.
pub proof fn meeting_is_symmetric(a: Smoothness, b: Smoothness, r: Smoothness, s: Smoothness)
    requires
        well_formed(a),
        well_formed(b),
        meets(a, b, r),
        meets(b, a, s),
    ensures
        r.rank() == worse(a.rank(), b.rank()),
        r.rank() < 3 <==> a.rank() < 3 && b.rank() < 3,
        match (r, s) {
            (Smoothness::Piecewise(x), Smoothness::Piecewise(y)) => same_instants(x, y),
            _ => r == s,
        },
        a is Piecewise && b is Piecewise ==> (r matches Smoothness::Piecewise(x) && ascends(x)),
{
    match (r, s) {
        (Smoothness::Piecewise(x), Smoothness::Piecewise(y)) => {
            if a is Piecewise && b is Piecewise {
                assert forall|t: RationalTime| t.denominator > 0 implies (#[trigger] listed_instant(
                    x,
                    t,
                ) <==> listed_instant(y, t)) by {}
                assert forall|i: int| 0 <= i < x.len() implies (#[trigger] x[i]).same_instant(
                    y[i],
                ) by {
                    same_place(x, y, i);
                }
                if x.len() > y.len() {
                    same_place(x, y, y.len() as int);
                } else if y.len() > x.len() {
                    same_place(y, x, x.len() as int);
                }
            } else {
                assert(x == y);
                assert forall|i: int| 0 <= i < x.len() implies (#[trigger] x[i]).same_instant(
                    y[i],
                ) by {}
            }
        },
        _ => {},
    }
}

/// The larger rank.
pub open spec fn worse(a: nat, b: nat) -> nat {
    if a >= b { a } else { b }
}

pub open spec fn context_rank(input: ContextInput) -> nat {
    match input {
        ContextInput::LocalProgress => 0,
        ContextInput::CompositionSeconds => 0,
        ContextInput::DurationFrames => 0,
        ContextInput::FpsNum => 0,
        ContextInput::FpsDen => 0,
        ContextInput::ViewportWidth => 0,
        ContextInput::ViewportHeight => 0,
        ContextInput::PhaseProgress { .. } => 2,
        ContextInput::HoldCycleProgress => 2,
        _ => 3,
    }
}

/// Whether every easing joins smoothly enough to stay differentiable.
pub open spec fn keeps_slope(easings: Seq<MotionEasing>) -> bool {
    forall|i: int|
        0 <= i < easings.len() ==> easings[i] is Linear || (#[trigger] easings[i]) is CubicBezier
}

pub open spec fn interpolate_rank(
    input: nat,
    left: Extrapolation,
    right: Extrapolation,
    easings: Seq<MotionEasing>,
) -> nat {
    if input >= 3 {
        3
    } else if keeps_slope(easings) && left == Extrapolation::Extend && right
        == Extrapolation::Extend {
        worse(input, 1)
    } else {
        2
    }
}

/// The largest of the first `n` ranks.
pub open spec fn worst(ranks: Seq<nat>, n: nat) -> nat
    decreases n,
{
    if n == 0 { 0 } else { worse(worst(ranks, (n - 1) as nat), ranks[n - 1]) }
}

/// Rank of a referenced expression; what is not known yet is discrete.
pub open spec fn known_rank(known: Seq<nat>, id: ExprId) -> nat {
    if id.0 < known.len() { known[id.0 as int] } else { 3 }
}

/// Rank of an expression, given the ranks of the earlier ones.
pub open spec fn rank_of(e: Expr, known: Seq<nat>) -> nat {
    match e {
        Expr::Const { .. } => 0,
        Expr::Context { input } => context_rank(input),
        Expr::Prop { .. } => 0,
        Expr::Cue { .. } => 2,
        Expr::Spring { elapsed_frames, .. } => known_rank(known, elapsed_frames),
        Expr::Interpolate { input, easings, extrapolate_left, extrapolate_right, .. } =>
            interpolate_rank(
                known_rank(known, input),
                extrapolate_left,
                extrapolate_right,
                easings@,
            ),
        Expr::Select { .. } => 3,
        Expr::Compare { .. } => 3,
        Expr::Template { .. } => 3,
        Expr::Noise1D { .. } => 3,
        Expr::Noise2D { .. } => 3,
        Expr::FormatNumber { .. } => 3,
        Expr::PathTrajectory { .. } => 3,
        Expr::NodeBounds { .. } => 1,
        Expr::Project3D { .. } => 1,
        _ => worst(
            e.refs().map_values(|id: ExprId| known_rank(known, id)),
            e.refs().len(),
        ),
    }
}

/// Ranks of the first `n` expressions.
pub open spec fn ranks(exprs: Seq<Expr>, n: nat) -> Seq<nat>
    decreases n,
{
    if n == 0 {
        Seq::empty()
    } else {
        let before = ranks(exprs, (n - 1) as nat);
        before.push(rank_of(exprs[n - 1], before))
    }
}

/// Whether smoothness values have given ranks and no boundaries.
pub open spec fn have_ranks(v: Seq<TemporalContinuity>, ranks: Seq<nat>) -> bool {
    v.len() == ranks.len() && forall|i: int|
        0 <= i < v.len() ==> (#[trigger] v[i])@ == ranked(ranks[i]) && ranks[i] <= 3
}

fn child(prior: &Vec<TemporalContinuity>, id: ExprId, Ghost(known): Ghost<Seq<nat>>) -> (r:
    TemporalContinuity)
    requires
        have_ranks(prior@, known),
    ensures
        r@ == ranked(known_rank(known, id)),
        known_rank(known, id) <= 3,
{
    if (id.0 as usize) < prior.len() {
        prior[id.0 as usize].duplicate()
    } else {
        TemporalContinuity::Discrete
    }
}

proof fn ranked_meet(a: nat, b: nat, r: Smoothness)
    requires
        a <= 3,
        b <= 3,
        meets(ranked(a), ranked(b), r),
    ensures
        r == ranked(worse(a, b)),
{
}

fn unbounded() -> (r: TemporalContinuity)
    ensures
        r@ == ranked(2),
{
    let boundaries: Vec<RationalTime> = Vec::new();
    assert(boundaries@ =~= Seq::empty());
    TemporalContinuity::Piecewise { boundaries }
}

fn context_continuity(input: ContextInput) -> (r: TemporalContinuity)
    ensures
        r@ == ranked(context_rank(input)),
{
    match input {
        ContextInput::LocalProgress
        | ContextInput::CompositionSeconds
        | ContextInput::DurationFrames
        | ContextInput::FpsNum
        | ContextInput::FpsDen
        | ContextInput::ViewportWidth
        | ContextInput::ViewportHeight => TemporalContinuity::C2,
        ContextInput::PhaseProgress { .. } | ContextInput::HoldCycleProgress => unbounded(),
        _ => TemporalContinuity::Discrete,
    }
}

fn slopes_kept(easings: &Vec<MotionEasing>) -> (r: bool)
    ensures
        r == keeps_slope(easings@),
{
    let mut i: usize = 0;
    while i < easings.len()
        invariant
            i <= easings@.len(),
            forall|k: int|
                0 <= k < i ==> easings@[k] is Linear || (#[trigger] easings@[k]) is CubicBezier,
        decreases easings@.len() - i,
    {
        match easings[i] {
            MotionEasing::Linear | MotionEasing::CubicBezier { .. } => {},
            _ => {
                assert(!(easings@[i as int] is Linear || easings@[i as int] is CubicBezier));
                return false;
            },
        }
        i = i + 1;
    }
    true
}

fn interpolate_continuity(
    input: TemporalContinuity,
    left: Extrapolation,
    right: Extrapolation,
    easings: &Vec<MotionEasing>,
    Ghost(rank): Ghost<nat>,
) -> (r: TemporalContinuity)
    requires
        input@ == ranked(rank),
        rank <= 3,
    ensures
        r@ == ranked(interpolate_rank(rank, left, right, easings@)),
{
    match &input {
        TemporalContinuity::Discrete => {
            return TemporalContinuity::Discrete;
        },
        _ => {},
    }
    if slopes_kept(easings) && left == Extrapolation::Extend && right == Extrapolation::Extend {
        let r = input.meet(TemporalContinuity::C1);
        proof {
            ranked_meet(rank, 1, r@);
        }
        r
    } else {
        let r = input.meet(unbounded());
        proof {
            ranked_meet(rank, 2, r@);
        }
        r
    }
}

fn fold(prior: &Vec<TemporalContinuity>, ids: &Vec<ExprId>, Ghost(known): Ghost<Seq<nat>>) -> (r:
    TemporalContinuity)
    requires
        have_ranks(prior@, known),
    ensures
        r@ == ranked(worst(ids@.map_values(|id: ExprId| known_rank(known, id)), ids@.len())),
        worst(ids@.map_values(|id: ExprId| known_rank(known, id)), ids@.len()) <= 3,
{
    let ghost all = ids@.map_values(|id: ExprId| known_rank(known, id));
    let mut out = TemporalContinuity::C2;
    let mut i: usize = 0;
    while i < ids.len()
        invariant
            have_ranks(prior@, known),
            all == ids@.map_values(|id: ExprId| known_rank(known, id)),
            i <= ids@.len(),
            out@ == ranked(worst(all, i as nat)),
            worst(all, i as nat) <= 3,
        decreases ids@.len() - i,
    {
        let next = child(prior, ids[i], Ghost(known));
        let ghost a = worst(all, i as nat);
        out = out.meet(next);
        proof {
            ranked_meet(a, all[i as int], out@);
        }
        i = i + 1;
    }
    out
}

fn continuity_of(expr: &Expr, prior: &Vec<TemporalContinuity>, Ghost(known): Ghost<Seq<nat>>) -> (r:
    TemporalContinuity)
    requires
        have_ranks(prior@, known),
    ensures
        r@ == ranked(rank_of(*expr, known)),
        rank_of(*expr, known) <= 3,
{
    match expr {
        Expr::Const { .. } => TemporalContinuity::C2,
        Expr::Context { input } => context_continuity(*input),
        Expr::Prop { .. } => TemporalContinuity::C2,
        Expr::Cue { .. } => unbounded(),
        Expr::Spring { elapsed_frames, .. } => {
            let input = child(prior, *elapsed_frames, Ghost(known));
            let r = input.meet(TemporalContinuity::C2);
            proof {
                ranked_meet(known_rank(known, *elapsed_frames), 0, r@);
            }
            r
        },
        Expr::Interpolate { input, easings, extrapolate_left, extrapolate_right, .. } => {
            let inner = child(prior, *input, Ghost(known));
            interpolate_continuity(
                inner,
                *extrapolate_left,
                *extrapolate_right,
                easings,
                Ghost(known_rank(known, *input)),
            )
        },
        Expr::Select { .. }
        | Expr::Compare { .. }
        | Expr::Template { .. }
        | Expr::Noise1D { .. }
        | Expr::Noise2D { .. }
        | Expr::FormatNumber { .. }
        | Expr::PathTrajectory { .. } => TemporalContinuity::Discrete,
        Expr::NodeBounds { .. } | Expr::Project3D { .. } => TemporalContinuity::C1,
        _ => {
            let ids = expr.children();
            fold(prior, &ids, Ghost(known))
        },
    }
}

/// Infers the smoothness of every expression. Unknown time bases and frame counters are discrete.
pub fn infer_continuity(exprs: &Vec<Expr>) -> (r: Vec<TemporalContinuity>)
    ensures
        have_ranks(r@, ranks(exprs@, exprs@.len())),
{
    let mut out: Vec<TemporalContinuity> = Vec::new();
    let mut at: usize = 0;
    while at < exprs.len()
        invariant
            at <= exprs@.len(),
            out@.len() == at,
            have_ranks(out@, ranks(exprs@, at as nat)),
        decreases exprs@.len() - at,
    {
        let ghost known = ranks(exprs@, at as nat);
        let next = continuity_of(&exprs[at], &out, Ghost(known));
        out.push(next);
        at = at + 1;
    }
    out
}

proof fn ranks_len(exprs: Seq<Expr>, n: nat)
    ensures
        ranks(exprs, n).len() == n,
    decreases n,
{
    if n > 0 {
        ranks_len(exprs, (n - 1) as nat);
    }
}

proof fn ranks_settle(exprs: Seq<Expr>, i: nat, n: nat)
    requires
        i < n,
    ensures
        ranks(exprs, n)[i as int] == rank_of(exprs[i as int], ranks(exprs, i)),
    decreases n,
{
    ranks_len(exprs, (n - 1) as nat);
    if i < n - 1 {
        ranks_settle(exprs, i, (n - 1) as nat);
    }
}

proof fn worst_bounds(ranks: Seq<nat>, n: nat, k: int)
    requires
        0 <= k < n,
    ensures
        ranks[k] <= worst(ranks, n),
    decreases n,
{
    if k < n - 1 {
        worst_bounds(ranks, (n - 1) as nat, k);
    }
}

/// Arithmetic is never smoother than its operands: a sum or product of something discrete is
/// discrete.
pub proof fn smoothness_only_degrades(exprs: Seq<Expr>, i: nat, lhs: ExprId, rhs: ExprId)
    requires
        i < exprs.len(),
        exprs[i as int] == (Expr::Add { lhs, rhs }) || exprs[i as int] == (Expr::Sub { lhs, rhs })
            || exprs[i as int] == (Expr::Mul { lhs, rhs }) || exprs[i as int] == (Expr::Div {
            lhs,
            rhs,
        }),
        lhs.0 < i,
        rhs.0 < i,
    ensures
        ranks(exprs, exprs.len())[i as int] >= ranks(exprs, exprs.len())[lhs.0 as int],
        ranks(exprs, exprs.len())[i as int] >= ranks(exprs, exprs.len())[rhs.0 as int],
{
    let known = ranks(exprs, i);
    let all = exprs[i as int].refs().map_values(|id: ExprId| known_rank(known, id));
    ranks_settle(exprs, i, exprs.len());
    ranks_len(exprs, i);
    ranks_settle(exprs, lhs.0 as nat, exprs.len());
    ranks_settle(exprs, rhs.0 as nat, exprs.len());
    ranks_settle(exprs, lhs.0 as nat, i);
    ranks_settle(exprs, rhs.0 as nat, i);
    worst_bounds(all, 2, 0);
    worst_bounds(all, 2, 1);
}

} // verus!
