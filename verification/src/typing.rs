//! Running admission over an expression arena.

use vstd::prelude::*;

use crate::admission::{
    admitted, all_points, arithmetic, at, blend_findings, constant_path_of, counting, demanding,
    easing_findings, errors_of, first_unmet, flat_bound, flat_count, flat_max, forward,
    frame_points, geometry_verdict, interpolate_verdict, is_token_type, kid, larger,
    leaf_verdict, met, morph_findings, part_forwards, part_path, part_types, point_bound,
    points_max, refused, sat, scalar_verdict, static_bytes, stop_findings, stop_path,
    stop_unblendable, stop_valid, template_verdict, trajectory_valid, types_of, unknown_flat,
    unmet_forward, verdict, Report, MAX_PATH_TRAJECTORY_POINTS,
};
use crate::expr::{
    CompareOp, ContextInput, CueField, Expr, ExprId, ExprType, GeometryField, InterpolateStop,
    TemplatePart, MAX_TEMPLATE_PARTS, MAX_TEMPLATE_STATIC_BYTES,
};
use crate::findings::{
    extend, findings, found_if, numbered, report, report_if, ValidationError,
};
use crate::path::{
    topology_fits, PathData, PathVerb, MAX_FRAME_GEOMETRY_POINTS, MAX_GEOMETRY_TRAJECTORY_FRAMES,
    PATH_ARC_SEGMENTS, PATH_CURVE_STEPS,
};
use crate::scalar::{Scalar, ZERO};
use crate::table::lookup;
use crate::text::{byte_len, byte_len_is_encoding_len, joined};
use crate::value::{ControlsSchema, MotionEasing, MotionValue};

verus! {

fn here(index: usize) -> (r: String)
    ensures
        r@ == at(index as nat),
{
    numbered("/exprs/", index)
}

fn below(index: usize, suffix: &str) -> (r: String)
    ensures
        r@ == at(index as nat) + suffix@,
{
    joined(here(index), suffix)
}

fn kid_of(types: &Vec<Option<ExprType>>, index: usize, id: ExprId) -> (r: Option<ExprType>)
    requires
        types@.len() == index,
    ensures
        r == kid(types@, index as nat, id),
{
    if (id.0 as usize) < index {
        types[id.0 as usize]
    } else {
        None
    }
}

fn is_type(ty: Option<ExprType>, want: ExprType) -> (r: bool)
    ensures
        r == (ty == Some(want)),
{
    match ty {
        Some(t) => t == want,
        None => false,
    }
}

fn same_type(a: Option<ExprType>, b: Option<ExprType>) -> (r: bool)
    ensures
        r == (a == b),
{
    match (a, b) {
        (Some(x), Some(y)) => x == y,
        (None, None) => true,
        _ => false,
    }
}

fn check_forward(errors: &mut Vec<ValidationError>, index: usize, id: ExprId)
    ensures
        findings(final(errors)@) == findings(old(errors)@) + forward(index as nat, id),
{
    report_if(
        errors,
        id.0 as usize >= index,
        below(index, "/expr"),
        "expressions may only reference earlier expressions",
    );
}

fn meets(
    types: &Vec<Option<ExprType>>,
    index: usize,
    wants: &Vec<(ExprId, ExprType)>,
    errors: &mut Vec<ValidationError>,
) -> (r: bool)
    requires
        types@.len() == index,
    ensures
        r == met(types@, index as nat, wants@),
        findings(final(errors)@) == findings(old(errors)@) + unmet_forward(
            types@,
            index as nat,
            wants@,
        ),
{
    let mut k: usize = 0;
    while k < wants.len()
        invariant
            types@.len() == index,
            k <= wants@.len(),
            first_unmet(types@, index as nat, wants@, 0) == first_unmet(
                types@,
                index as nat,
                wants@,
                k as int,
            ),
            *errors == *old(errors),
        decreases wants@.len() - k,
    {
        let want = wants[k];
        if !is_type(kid_of(types, index, want.0), want.1) {
            assert(first_unmet(types@, index as nat, wants@, 0) == k);
            check_forward(errors, index, want.0);
            return false;
        }
        k = k + 1;
    }
    assert(findings(errors@) + Seq::empty() =~= findings(errors@));
    true
}

fn want1(a: ExprId, t: ExprType) -> (r: Vec<(ExprId, ExprType)>)
    ensures
        r@ == seq![(a, t)],
{
    let mut v: Vec<(ExprId, ExprType)> = Vec::new();
    v.push((a, t));
    assert(v@ =~= seq![(a, t)]);
    v
}

fn want2(a: ExprId, s: ExprType, b: ExprId, t: ExprType) -> (r: Vec<(ExprId, ExprType)>)
    ensures
        r@ == seq![(a, s), (b, t)],
{
    let mut v = want1(a, s);
    v.push((b, t));
    assert(v@ =~= seq![(a, s), (b, t)]);
    v
}

fn want4(
    a: (ExprId, ExprType),
    b: (ExprId, ExprType),
    c: (ExprId, ExprType),
    d: (ExprId, ExprType),
) -> (r: Vec<(ExprId, ExprType)>)
    ensures
        r@ == seq![a, b, c, d],
{
    let mut v: Vec<(ExprId, ExprType)> = Vec::new();
    v.push(a);
    v.push(b);
    v.push(c);
    v.push(d);
    assert(v@ =~= seq![a, b, c, d]);
    v
}

fn want_points(points: &Vec<ExprId>) -> (r: Vec<(ExprId, ExprType)>)
    ensures
        r@ == all_points(points@),
{
    let mut v: Vec<(ExprId, ExprType)> = Vec::new();
    let mut i: usize = 0;
    while i < points.len()
        invariant
            i <= points@.len(),
            v@ == all_points(points@.take(i as int)),
        decreases points@.len() - i,
    {
        v.push((points[i], ExprType::Point));
        i = i + 1;
        assert(v@ =~= all_points(points@.take(i as int)));
    }
    assert(points@.take(points@.len() as int) =~= points@);
    v
}

fn demand(
    types: &Vec<Option<ExprType>>,
    index: usize,
    wants: Vec<(ExprId, ExprType)>,
    message: &str,
    ty: ExprType,
) -> (r: Report)
    requires
        types@.len() == index,
    ensures
        r@ == demanding(types@, index as nat, wants@, message@, ty),
{
    let mut errors: Vec<ValidationError> = Vec::new();
    let ok = meets(types, index, &wants, &mut errors);
    assert(findings(errors@) =~= unmet_forward(types@, index as nat, wants@));
    if ok {
        assert(findings(errors@) =~= Seq::empty());
        return Report { ty: Some(ty), errors };
    }
    report(&mut errors, here(index), message);
    Report { ty: None, errors }
}

fn refuse(index: usize, message: &str) -> (r: Report)
    ensures
        r@ == refused(index as nat, message@),
{
    let mut errors: Vec<ValidationError> = Vec::new();
    report(&mut errors, here(index), message);
    assert(findings(errors@) =~= seq![(at(index as nat), message@)]);
    Report { ty: None, errors }
}

fn count(
    types: &Vec<Option<ExprType>>,
    index: usize,
    wants: Vec<(ExprId, ExprType)>,
    message: &str,
) -> (r: Report)
    requires
        types@.len() == index,
    ensures
        r@ == counting(types@, index as nat, wants@, message@),
{
    let mut errors: Vec<ValidationError> = Vec::new();
    let ok = meets(types, index, &wants, &mut errors);
    report_if(&mut errors, !ok, here(index), message);
    assert(findings(errors@) =~= unmet_forward(types@, index as nat, wants@) + found_if(
        !met(types@, index as nat, wants@),
        at(index as nat),
        message@,
    ));
    Report { ty: Some(ExprType::Number), errors }
}

fn check_leaf(e: &Expr, controls: &ControlsSchema, index: usize) -> (r: Report)
    requires
        e is Const || e is Context || e is Prop || e is Cue || e is Project3D || e is NodeBounds,
    ensures
        r@ == leaf_verdict(*e, *controls, index as nat),
{
    let mut errors: Vec<ValidationError> = Vec::new();
    assert(findings(errors@) =~= Seq::empty());
    match e {
        Expr::Const { value } => {
            report_if(
                &mut errors,
                !value.is_finite(),
                below(index, "/value"),
                "constant must be finite",
            );
            assert(findings(errors@) =~= leaf_verdict(*e, *controls, index as nat).errors);
            Report { ty: Some(ExprType::of_value(value)), errors }
        },
        Expr::Context { input } => {
            let ty = match input {
                ContextInput::PhaseActive { .. } => ExprType::Bool,
                _ => ExprType::Number,
            };
            Report { ty: Some(ty), errors }
        },
        Expr::Prop { name } => match lookup(&controls.props, name.as_str()) {
            Some(control) => Report { ty: Some(ExprType::of_control(&control.control)), errors },
            None => {
                report(&mut errors, below(index, "/name"), "unknown props control");
                assert(findings(errors@) =~= leaf_verdict(*e, *controls, index as nat).errors);
                Report { ty: None, errors }
            },
        },
        Expr::Cue { name, field } => match lookup(&controls.cues, name.as_str()) {
            Some(_) => {
                let ty = if *field == CueField::Active { ExprType::Bool } else { ExprType::Number };
                Report { ty: Some(ty), errors }
            },
            None => {
                report(&mut errors, below(index, "/name"), "unknown cue control");
                assert(findings(errors@) =~= leaf_verdict(*e, *controls, index as nat).errors);
                Report { ty: None, errors }
            },
        },
        Expr::Project3D { scene_key, anchor_key } => {
            report_if(
                &mut errors,
                scene_key.as_str().is_empty(),
                below(index, "/sceneKey"),
                "project3d scene key is empty",
            );
            report_if(
                &mut errors,
                anchor_key.as_str().is_empty(),
                below(index, "/anchorKey"),
                "project3d anchor key is empty",
            );
            assert(findings(errors@) =~= leaf_verdict(*e, *controls, index as nat).errors);
            Report { ty: Some(ExprType::Point), errors }
        },
        Expr::NodeBounds { key } => {
            if key.as_str().is_empty() {
                refuse(index, "bounds() target key is empty")
            } else {
                Report { ty: Some(ExprType::Rect), errors }
            }
        },
        _ => Report { ty: None, errors },
    }
}

fn sat_add(a: usize, b: usize) -> (r: usize)
    ensures
        r == sat((a + b) as nat),
{
    if a > usize::MAX - b {
        usize::MAX
    } else {
        a + b
    }
}

fn flat_of(verbs: &Vec<PathVerb>) -> (r: usize)
    ensures
        r == sat(flat_count(verbs@, verbs@.len())),
{
    let mut total: usize = 0;
    let mut i: usize = 0;
    while i < verbs.len()
        invariant
            i <= verbs@.len(),
            total == sat(flat_count(verbs@, i as nat)),
        decreases verbs@.len() - i,
    {
        let n: usize = match verbs[i] {
            PathVerb::Move | PathVerb::Line => 1,
            PathVerb::Quad | PathVerb::Cubic => PATH_CURVE_STEPS,
            PathVerb::Close => 0,
        };
        total = sat_add(total, n);
        i = i + 1;
    }
    total
}

fn flat_of_frames(frames: &Vec<PathData>) -> (r: usize)
    ensures
        r == flat_max(frames@, frames@.len()),
{
    let mut best: usize = 0;
    let mut i: usize = 0;
    while i < frames.len()
        invariant
            i <= frames@.len(),
            best == flat_max(frames@, i as nat),
        decreases frames@.len() - i,
    {
        let n: usize = flat_of(&frames[i].verbs);
        if n > best {
            best = n;
        }
        i = i + 1;
    }
    best
}

fn points_of_frames(frames: &Vec<PathData>) -> (r: usize)
    ensures
        r == points_max(frames@, frames@.len()),
{
    let mut best: usize = 0;
    let mut i: usize = 0;
    while i < frames.len()
        invariant
            i <= frames@.len(),
            best == points_max(frames@, i as nat),
        decreases frames@.len() - i,
    {
        let n: usize = frames[i].points.len();
        if n > best {
            best = n;
        }
        i = i + 1;
    }
    best
}

/// Point bounds of the expressions looked at so far.
struct Bounds {
    flat: Vec<usize>,
    points: Vec<usize>,
}

impl Bounds {
    spec fn of(self, exprs: Seq<Expr>, n: nat) -> bool {
        &&& self.flat@.len() == n
        &&& self.points@.len() == n
        &&& forall|i: int| 0 <= i < n ==> #[trigger] self.flat@[i] == flat_bound(exprs, i)
        &&& forall|i: int| 0 <= i < n ==> #[trigger] self.points@[i] == point_bound(exprs, i)
    }
}

fn flat_below(bounds: &Bounds, Ghost(exprs): Ghost<Seq<Expr>>, index: usize, id: ExprId) -> (r: usize)
    requires
        bounds.of(exprs, index as nat),
    ensures
        r == (if id.0 < index { flat_bound(exprs, id.0 as int) } else { unknown_flat() }),
{
    if (id.0 as usize) < index {
        bounds.flat[id.0 as usize]
    } else {
        MAX_FRAME_GEOMETRY_POINTS * PATH_CURVE_STEPS
    }
}

fn points_below(bounds: &Bounds, Ghost(exprs): Ghost<Seq<Expr>>, index: usize, id: ExprId) -> (r: usize)
    requires
        bounds.of(exprs, index as nat),
    ensures
        r == (if id.0 < index { point_bound(exprs, id.0 as int) } else {
            MAX_FRAME_GEOMETRY_POINTS as nat
        }),
{
    if (id.0 as usize) < index {
        bounds.points[id.0 as usize]
    } else {
        MAX_FRAME_GEOMETRY_POINTS
    }
}

fn max_of(a: usize, b: usize) -> (r: usize)
    ensures
        r == larger(a as nat, b as nat),
{
    if a >= b {
        a
    } else {
        b
    }
}

fn path_flattened_point_bound(exprs: &Vec<Expr>, bounds: &Bounds, index: usize) -> (r: usize)
    requires
        index < exprs@.len(),
        bounds.of(exprs@, index as nat),
    ensures
        r == flat_bound(exprs@, index as int),
{
    match &exprs[index] {
        Expr::Const { value } => match value {
            MotionValue::PathData(p) => flat_of(&p.verbs),
            _ => MAX_FRAME_GEOMETRY_POINTS * PATH_CURVE_STEPS,
        },
        Expr::PathLine { points } => points.len(),
        Expr::PathTemplate { verbs, .. } => flat_of(verbs),
        Expr::PathCubic { .. } => 1 + PATH_CURVE_STEPS,
        Expr::PathArc { .. } => 1 + PATH_ARC_SEGMENTS * PATH_CURVE_STEPS,
        Expr::PathMorph { from, to, .. } => {
            let a: usize = flat_below(bounds, Ghost(exprs@), index, *from);
            let b: usize = flat_below(bounds, Ghost(exprs@), index, *to);
            max_of(a, b)
        },
        Expr::PathTrajectory { frames, .. } => flat_of_frames(frames),
        Expr::PathArea { path, .. } => {
            let a: usize = flat_below(bounds, Ghost(exprs@), index, *path);
            sat_add(a, 2)
        },
        Expr::PathOffset { path, .. } => flat_below(bounds, Ghost(exprs@), index, *path),
        _ => MAX_FRAME_GEOMETRY_POINTS * PATH_CURVE_STEPS,
    }
}

fn path_point_bound(exprs: &Vec<Expr>, bounds: &Bounds, index: usize) -> (r: usize)
    requires
        index < exprs@.len(),
        bounds.of(exprs@, index as nat),
    ensures
        r == point_bound(exprs@, index as int),
{
    match &exprs[index] {
        Expr::Const { value } => match value {
            MotionValue::PathData(p) => p.points.len(),
            _ => MAX_FRAME_GEOMETRY_POINTS,
        },
        Expr::PathMorph { from, to, .. } => {
            let a: usize = points_below(bounds, Ghost(exprs@), index, *from);
            let b: usize = points_below(bounds, Ghost(exprs@), index, *to);
            max_of(a, b)
        },
        Expr::PathLine { points } => points.len(),
        Expr::PathTemplate { points, .. } => points.len(),
        Expr::PathCubic { .. } => 4,
        Expr::PathArc { .. } => 1 + PATH_ARC_SEGMENTS * 3,
        Expr::PathArea { path, .. } => {
            let a: usize = flat_below(bounds, Ghost(exprs@), index, *path);
            sat_add(a, 2)
        },
        Expr::PathOffset { path, .. } => flat_below(bounds, Ghost(exprs@), index, *path),
        Expr::PathTrajectory { frames, .. } => points_of_frames(frames),
        _ => MAX_FRAME_GEOMETRY_POINTS,
    }
}

fn constant_path(exprs: &Vec<Expr>, id: ExprId) -> (r: Option<&PathData>)
    ensures
        match r {
            Some(p) => constant_path_of(exprs@, id) == Some(p@),
            None => constant_path_of(exprs@, id) is None,
        },
{
    if (id.0 as usize) < exprs.len() {
        match &exprs[id.0 as usize] {
            Expr::Const { value } => match value {
                MotionValue::PathData(p) => Some(p),
                _ => None,
            },
            _ => None,
        }
    } else {
        None
    }
}

fn trajectory_ok(frames: &Vec<PathData>) -> (r: bool)
    ensures
        r == trajectory_valid(frames@),
{
    if frames.len() == 0 || frames.len() > MAX_GEOMETRY_TRAJECTORY_FRAMES {
        return false;
    }
    let mut total: usize = 0;
    let mut i: usize = 0;
    while i < frames.len()
        invariant
            0 < frames@.len() <= MAX_GEOMETRY_TRAJECTORY_FRAMES,
            i <= frames@.len(),
            total == frame_points(frames@, i as nat),
            total <= MAX_PATH_TRAJECTORY_POINTS,
            forall|k: int|
                0 <= k < i ==> (#[trigger] frames@[k])@.valid() && frames@[0]@.same_topology(
                    frames@[k]@,
                ),
        decreases frames@.len() - i,
    {
        let n: usize = frames[i].points.len();
        if n > MAX_PATH_TRAJECTORY_POINTS - total {
            proof {
                frame_points_grow(frames@, (i + 1) as nat, frames@.len());
            }
            return false;
        }
        total = total + n;
        if frames[i].validate().is_err() || !frames[0].has_same_topology(&frames[i]) {
            assert(!(frames@[i as int]@.valid() && frames@[0]@.same_topology(frames@[i as int]@)));
            return false;
        }
        i = i + 1;
    }
    true
}

proof fn frame_points_grow(frames: Seq<PathData>, m: nat, n: nat)
    requires
        m <= n,
    ensures
        frame_points(frames, m) <= frame_points(frames, n),
    decreases n - m,
{
    if m < n {
        frame_points_grow(frames, m, (n - 1) as nat);
    }
}

fn check_morph(
    exprs: &Vec<Expr>,
    types: &Vec<Option<ExprType>>,
    bounds: &Bounds,
    index: usize,
    from: ExprId,
    to: ExprId,
    progress: ExprId,
) -> (r: Report)
    requires
        index < exprs@.len(),
        types@.len() == index,
        bounds.of(exprs@, index as nat),
    ensures
        r@ == geometry_verdict(
            Expr::PathMorph { from, to, progress },
            exprs@,
            types@,
            index as nat,
        ),
{
    let d = ExprType::PathData;
    let n = ExprType::Number;
    let mut wants = want2(from, d, to, d);
    wants.push((progress, n));
    assert(wants@ =~= seq![(from, d), (to, d), (progress, n)]);
    let mut errors: Vec<ValidationError> = Vec::new();
    if !meets(types, index, &wants, &mut errors) {
        return demand(
            types,
            index,
            wants,
            "morphPath requires PathData, PathData, number",
            d,
        );
    }
    proof {
        assert(first_unmet(types@, index as nat, wants@, 0) == 3);
        reveal_with_fuel(first_unmet, 4);
        assert(from.0 < index && to.0 < index);
        assert(findings(errors@) =~= Seq::empty());
    }
    let a: usize = bounds.points[from.0 as usize];
    let b: usize = bounds.points[to.0 as usize];
    report_if(
        &mut errors,
        max_of(a, b) > MAX_FRAME_GEOMETRY_POINTS,
        here(index),
        "per-frame path morph exceeds 2048 points; use a precomputed path trajectory",
    );
    let differ: bool = match (constant_path(exprs, from), constant_path(exprs, to)) {
        (Some(x), Some(y)) => !x.has_same_topology(y),
        _ => false,
    };
    report_if(
        &mut errors,
        differ,
        here(index),
        "morphPath inputs must have identical topology",
    );
    assert(findings(errors@) =~= morph_findings(exprs@, index as nat, from, to));
    Report { ty: Some(d), errors }
}

fn check_budgeted(
    exprs: &Vec<Expr>,
    types: &Vec<Option<ExprType>>,
    bounds: &Bounds,
    index: usize,
    input: ExprId,
    number: ExprId,
    extra: usize,
    message: &str,
) -> (r: Report)
    requires
        index < exprs@.len(),
        types@.len() == index,
        bounds.of(exprs@, index as nat),
    ensures
        r@ == ({
            let wants = seq![(input, ExprType::PathData), (number, ExprType::Number)];
            if met(types@, index as nat, wants) && sat(flat_bound(exprs@, input.0 as int) + extra as nat)
                > MAX_FRAME_GEOMETRY_POINTS {
                refused(index as nat, message@)
            } else {
                demanding(types@, index as nat, wants, message@, ExprType::PathData)
            }
        }),
{
    let wants = want2(input, ExprType::PathData, number, ExprType::Number);
    let mut scratch: Vec<ValidationError> = Vec::new();
    if meets(types, index, &wants, &mut scratch) {
        proof {
            reveal_with_fuel(first_unmet, 3);
            assert(input.0 < index);
        }
        let bound: usize = bounds.flat[input.0 as usize];
        if sat_add(bound, extra) > MAX_FRAME_GEOMETRY_POINTS {
            return refuse(index, message);
        }
    }
    demand(types, index, wants, message, ExprType::PathData)
}

fn check_trajectory(
    types: &Vec<Option<ExprType>>,
    index: usize,
    frames: &Vec<PathData>,
    frame: ExprId,
) -> (r: Report)
    requires
        types@.len() == index,
    ensures
        r.ty == Some(ExprType::PathData),
        findings(r.errors@) == forward(index as nat, frame) + found_if(
            !trajectory_valid(frames@),
            at(index as nat) + "/frames"@,
            "path trajectory exceeds its budget or contains invalid/incompatible frames"@,
        ) + found_if(
            kid(types@, index as nat, frame) != Some(ExprType::Number),
            at(index as nat) + "/frame"@,
            "path trajectory frame must be a number"@,
        ),
{
    let mut errors: Vec<ValidationError> = Vec::new();
    assert(findings(errors@) =~= Seq::empty());
    check_forward(&mut errors, index, frame);
    report_if(
        &mut errors,
        !trajectory_ok(frames),
        below(index, "/frames"),
        "path trajectory exceeds its budget or contains invalid/incompatible frames",
    );
    report_if(
        &mut errors,
        !is_type(kid_of(types, index, frame), ExprType::Number),
        below(index, "/frame"),
        "path trajectory frame must be a number",
    );
    assert(findings(errors@) =~= forward(index as nat, frame) + found_if(
        !trajectory_valid(frames@),
        at(index as nat) + "/frames"@,
        "path trajectory exceeds its budget or contains invalid/incompatible frames"@,
    ) + found_if(
        kid(types@, index as nat, frame) != Some(ExprType::Number),
        at(index as nat) + "/frame"@,
        "path trajectory frame must be a number"@,
    ));
    Report { ty: Some(ExprType::PathData), errors }
}

fn check_geometry(
    exprs: &Vec<Expr>,
    types: &Vec<Option<ExprType>>,
    bounds: &Bounds,
    index: usize,
) -> (r: Report)
    requires
        index < exprs@.len(),
        types@.len() == index,
        bounds.of(exprs@, index as nat),
    ensures
        r@ == geometry_verdict(exprs@[index as int], exprs@, types@, index as nat),
{
    let n = ExprType::Number;
    let p = ExprType::Point;
    let d = ExprType::PathData;
    match &exprs[index] {
        Expr::MakePoint { x, y } => demand(
            types,
            index,
            want2(*x, n, *y, n),
            "point coordinates must be numbers",
            p,
        ),
        Expr::MakeRect { x, y, width, height } => demand(
            types,
            index,
            want4((*x, n), (*y, n), (*width, n), (*height, n)),
            "rect coordinates and size must be numbers",
            ExprType::Rect,
        ),
        Expr::PathLine { points } => {
            if points.len() < 2 || points.len() > MAX_FRAME_GEOMETRY_POINTS {
                refuse(index, "line requires 2..=2048 Point values")
            } else {
                demand(
                    types,
                    index,
                    want_points(points),
                    "line requires 2..=2048 Point values",
                    d,
                )
            }
        },
        Expr::PathTemplate { verbs, points } => {
            if verbs.len() == 0 || points.len() > MAX_FRAME_GEOMETRY_POINTS || !topology_fits(
                verbs,
                points.len(),
            ) {
                refuse(
                    index,
                    "path template requires valid fixed M/L/Q/C/Z topology and bounded Point values",
                )
            } else {
                demand(
                    types,
                    index,
                    want_points(points),
                    "path template requires valid fixed M/L/Q/C/Z topology and bounded Point values",
                    d,
                )
            }
        },
        Expr::PathCubic { from, control_1, control_2, to } => demand(
            types,
            index,
            want4((*from, p), (*control_1, p), (*control_2, p), (*to, p)),
            "cubic requires four Point values",
            d,
        ),
        Expr::PathArc { center, radius, start_angle, end_angle } => demand(
            types,
            index,
            want4((*center, p), (*radius, n), (*start_angle, n), (*end_angle, n)),
            "arc requires Point center and numeric radius/start/end angles",
            d,
        ),
        Expr::PathArea { path, baseline } => check_budgeted(
            exprs,
            types,
            bounds,
            index,
            *path,
            *baseline,
            2,
            "area requires a bounded PathData and numeric baseline within the per-frame geometry budget",
        ),
        Expr::PathOffset { path, distance } => check_budgeted(
            exprs,
            types,
            bounds,
            index,
            *path,
            *distance,
            0,
            "offsetPath requires bounded PathData and numeric distance within the per-frame geometry budget",
        ),
        Expr::PathMorph { from, to, progress } => check_morph(
            exprs,
            types,
            bounds,
            index,
            *from,
            *to,
            *progress,
        ),
        Expr::PathPointAt { path, progress } => demand(
            types,
            index,
            want2(*path, d, *progress, n),
            "pointAt requires PathData and number",
            p,
        ),
        Expr::PathTangentAt { path, progress } => demand(
            types,
            index,
            want2(*path, d, *progress, n),
            "tangentAt requires PathData and number",
            ExprType::Vec2,
        ),
        Expr::PathAngleAt { path, progress } => demand(
            types,
            index,
            want2(*path, d, *progress, n),
            "motionPath angle requires PathData and number",
            ExprType::Angle,
        ),
        Expr::PathLength { path } => demand(
            types,
            index,
            want1(*path, d),
            "pathLength requires PathData",
            n,
        ),
        Expr::PathTrajectory { frames, frame } => check_trajectory(types, index, frames, *frame),
        _ => {
            let errors: Vec<ValidationError> = Vec::new();
            assert(findings(errors@) =~= Seq::empty());
            Report { ty: None, errors }
        },
    }
}

fn check_arithmetic(types: &Vec<Option<ExprType>>, index: usize, lhs: ExprId, rhs: ExprId) -> (r: Report)
    requires
        types@.len() == index,
    ensures
        r@ == arithmetic(types@, index as nat, lhs, rhs),
{
    let mut errors: Vec<ValidationError> = Vec::new();
    assert(findings(errors@) =~= Seq::empty());
    check_forward(&mut errors, index, lhs);
    check_forward(&mut errors, index, rhs);
    let ok: bool = is_type(kid_of(types, index, lhs), ExprType::Number) && is_type(
        kid_of(types, index, rhs),
        ExprType::Number,
    );
    report_if(&mut errors, !ok, here(index), "arithmetic operands must both be numbers");
    assert(findings(errors@) =~= arithmetic(types@, index as nat, lhs, rhs).errors);
    let ty = if ok { Some(ExprType::Number) } else { None };
    Report { ty, errors }
}

fn check_compare(
    types: &Vec<Option<ExprType>>,
    index: usize,
    op: CompareOp,
    lhs: ExprId,
    rhs: ExprId,
) -> (r: Report)
    requires
        types@.len() == index,
    ensures
        r@ == scalar_verdict(Expr::Compare { op, lhs, rhs }, types@, index as nat),
{
    let mut errors: Vec<ValidationError> = Vec::new();
    assert(findings(errors@) =~= Seq::empty());
    check_forward(&mut errors, index, lhs);
    check_forward(&mut errors, index, rhs);
    let a = kid_of(types, index, lhs);
    let b = kid_of(types, index, rhs);
    let equality: bool = op == CompareOp::Eq || op == CompareOp::NotEq;
    let mixed: bool = (is_type(a, ExprType::Text) && is_type(b, ExprType::Enum)) || (is_type(
        a,
        ExprType::Enum,
    ) && is_type(b, ExprType::Text));
    if a.is_none() || (!same_type(a, b) && !(equality && mixed)) {
        report(&mut errors, here(index), "comparison operands must have the same type");
    } else if !equality && !is_type(a, ExprType::Number) {
        report(&mut errors, here(index), "ordered comparison operands must be numbers");
    }
    assert(findings(errors@) =~= scalar_verdict(
        Expr::Compare { op, lhs, rhs },
        types@,
        index as nat,
    ).errors);
    Report { ty: Some(ExprType::Bool), errors }
}

fn check_select(
    types: &Vec<Option<ExprType>>,
    index: usize,
    condition: ExprId,
    when_true: ExprId,
    when_false: ExprId,
) -> (r: Report)
    requires
        types@.len() == index,
    ensures
        r@ == scalar_verdict(
            Expr::Select { condition, when_true, when_false },
            types@,
            index as nat,
        ),
{
    let mut errors: Vec<ValidationError> = Vec::new();
    assert(findings(errors@) =~= Seq::empty());
    check_forward(&mut errors, index, condition);
    check_forward(&mut errors, index, when_true);
    check_forward(&mut errors, index, when_false);
    let a = kid_of(types, index, when_true);
    let b = kid_of(types, index, when_false);
    let ok: bool = a.is_some() && same_type(a, b);
    report_if(
        &mut errors,
        !is_type(kid_of(types, index, condition), ExprType::Bool),
        below(index, "/condition"),
        "select condition must be bool",
    );
    report_if(&mut errors, !ok, here(index), "select branches must have the same type");
    assert(findings(errors@) =~= scalar_verdict(
        Expr::Select { condition, when_true, when_false },
        types@,
        index as nat,
    ).errors);
    let ty = if ok { a } else { None };
    Report { ty, errors }
}

fn check_scalar(exprs: &Vec<Expr>, types: &Vec<Option<ExprType>>, index: usize) -> (r: Report)
    requires
        index < exprs@.len(),
        types@.len() == index,
    ensures
        r@ == scalar_verdict(exprs@[index as int], types@, index as nat),
{
    let n = ExprType::Number;
    let mut errors: Vec<ValidationError> = Vec::new();
    assert(findings(errors@) =~= Seq::empty());
    match &exprs[index] {
        Expr::GeometryField { input, field } => {
            check_forward(&mut errors, index, *input);
            let ty = kid_of(types, index, *input);
            let ok: bool = match field {
                GeometryField::X | GeometryField::Y => is_type(ty, ExprType::Point) || is_type(
                    ty,
                    ExprType::Vec2,
                ) || is_type(ty, ExprType::Rect),
                GeometryField::Width | GeometryField::Height => is_type(ty, ExprType::Rect),
            };
            report_if(
                &mut errors,
                !ok,
                here(index),
                "geometry field does not exist on the input type",
            );
            let out = if ok { Some(n) } else { None };
            assert(findings(errors@) =~= scalar_verdict(
                exprs@[index as int],
                types@,
                index as nat,
            ).errors);
            Report { ty: out, errors }
        },
        Expr::ToLength2 { input } => {
            check_forward(&mut errors, index, *input);
            let ty = kid_of(types, index, *input);
            let ok: bool = is_type(ty, ExprType::Length2) || is_type(ty, ExprType::Point)
                || is_type(ty, ExprType::Vec2);
            report_if(
                &mut errors,
                !ok,
                here(index),
                "a length-pair style accepts Length2, Point, or Vec2",
            );
            let out = if ok { Some(ExprType::Length2) } else { None };
            assert(findings(errors@) =~= scalar_verdict(
                exprs@[index as int],
                types@,
                index as nat,
            ).errors);
            Report { ty: out, errors }
        },
        Expr::Add { lhs, rhs } => check_arithmetic(types, index, *lhs, *rhs),
        Expr::Sub { lhs, rhs } => check_arithmetic(types, index, *lhs, *rhs),
        Expr::Mul { lhs, rhs } => check_arithmetic(types, index, *lhs, *rhs),
        Expr::Div { lhs, rhs } => check_arithmetic(types, index, *lhs, *rhs),
        Expr::Neg { input } => demand(
            types,
            index,
            want1(*input, n),
            "negation input must be a number",
            n,
        ),
        Expr::Compare { op, lhs, rhs } => check_compare(types, index, *op, *lhs, *rhs),
        Expr::Select { condition, when_true, when_false } => check_select(
            types,
            index,
            *condition,
            *when_true,
            *when_false,
        ),
        Expr::MathUnary { input, .. } => count(
            types,
            index,
            want1(*input, n),
            "math input must be a number",
        ),
        Expr::Noise1D { x, .. } => count(
            types,
            index,
            want1(*x, n),
            "math input must be a number",
        ),
        Expr::MathBinary { lhs, rhs, .. } => count(
            types,
            index,
            want2(*lhs, n, *rhs, n),
            "math inputs must be numbers",
        ),
        Expr::Noise2D { x, y, .. } => count(
            types,
            index,
            want2(*x, n, *y, n),
            "noise inputs must be numbers",
        ),
        Expr::FormatNumber { input, format } => {
            check_forward(&mut errors, index, *input);
            report_if(
                &mut errors,
                !is_type(kid_of(types, index, *input), n),
                below(index, "/input"),
                "format input must be a number",
            );
            report_if(
                &mut errors,
                format.validate().is_err(),
                below(index, "/format"),
                "number format exceeds decimals 0..=12 or width 1..=64",
            );
            assert(findings(errors@) =~= scalar_verdict(
                exprs@[index as int],
                types@,
                index as nat,
            ).errors);
            Report { ty: Some(ExprType::Text), errors }
        },
        Expr::Spring { elapsed_frames, mass, stiffness, damping } => {
            check_forward(&mut errors, index, *elapsed_frames);
            report_if(
                &mut errors,
                !is_type(kid_of(types, index, *elapsed_frames), n),
                below(index, "/elapsedFrames"),
                "spring time input must be a number",
            );
            let zero = Scalar::from_bits(ZERO);
            let ok: bool = mass.is_finite() && !mass.le(zero) && stiffness.is_finite()
                && !stiffness.le(zero) && damping.is_finite() && !damping.lt(zero);
            report_if(
                &mut errors,
                !ok,
                here(index),
                "spring mass/stiffness must be finite and positive, damping non-negative",
            );
            assert(findings(errors@) =~= scalar_verdict(
                exprs@[index as int],
                types@,
                index as nat,
            ).errors);
            Report { ty: Some(n), errors }
        },
        _ => Report { ty: None, errors },
    }
}

fn text_bytes(s: &String) -> (r: usize)
    ensures
        r == byte_len(s@),
{
    proof {
        byte_len_is_encoding_len(s@);
    }
    s.as_str().as_bytes().len()
}

fn is_token(ty: Option<ExprType>) -> (r: bool)
    ensures
        r == is_token_type(ty),
{
    match ty {
        Some(t) => match t {
            ExprType::Number
            | ExprType::Bool
            | ExprType::Text
            | ExprType::Enum
            | ExprType::Length
            | ExprType::Angle
            | ExprType::Color => true,
            _ => false,
        },
        None => false,
    }
}

fn part_label(index: usize, k: usize) -> (r: String)
    ensures
        r@ == part_path(index as nat, k as nat),
{
    let base = below(index, "/parts/");
    joined(numbered(base.as_str(), k), "/expr")
}

fn check_template(parts: &Vec<TemplatePart>, types: &Vec<Option<ExprType>>, index: usize) -> (r: Report)
    requires
        types@.len() == index,
    ensures
        r@ == template_verdict(parts@, types@, index as nat),
{
    let mut bytes: usize = 0;
    let mut forwards: Vec<ValidationError> = Vec::new();
    let mut wrong: Vec<ValidationError> = Vec::new();
    assert(findings(forwards@) =~= Seq::empty());
    assert(findings(wrong@) =~= Seq::empty());
    let mut k: usize = 0;
    while k < parts.len()
        invariant
            types@.len() == index,
            k <= parts@.len(),
            bytes == sat(static_bytes(parts@, k as nat)),
            findings(forwards@) == part_forwards(parts@, index as nat, k as nat),
            findings(wrong@) == part_types(parts@, types@, index as nat, k as nat),
        decreases parts@.len() - k,
    {
        match &parts[k] {
            TemplatePart::Text { value } => {
                bytes = sat_add(bytes, text_bytes(value));
            },
            TemplatePart::Expr { expr } => {
                if expr.0 as usize >= index {
                    report(
                        &mut forwards,
                        part_label(index, k),
                        "expressions may only reference earlier expressions",
                    );
                } else if !is_token(types[expr.0 as usize]) {
                    report(
                        &mut wrong,
                        part_label(index, k),
                        "template substitutions must be scalar CSS-token values",
                    );
                }
            },
        }
        k = k + 1;
    }
    let mut errors: Vec<ValidationError> = Vec::new();
    assert(findings(errors@) =~= Seq::empty());
    report_if(
        &mut errors,
        parts.len() == 0 || parts.len() > MAX_TEMPLATE_PARTS || bytes > MAX_TEMPLATE_STATIC_BYTES,
        below(index, "/parts"),
        "template must contain 1..=64 parts and at most 8192 static UTF-8 bytes",
    );
    extend(&mut errors, forwards);
    extend(&mut errors, wrong);
    assert(findings(errors@) =~= template_verdict(parts@, types@, index as nat).errors);
    Report { ty: Some(ExprType::Text), errors }
}

fn stop_label(index: usize, k: usize) -> (r: String)
    ensures
        r@ == stop_path(index as nat, k as nat),
{
    let base = below(index, "/stops/");
    numbered(base.as_str(), k)
}

fn stop_ok(stops: &Vec<InterpolateStop>, k: usize) -> (r: bool)
    requires
        k < stops@.len(),
    ensures
        r == stop_valid(stops@, k as int),
{
    let stop = &stops[k];
    stop.input.is_finite() && (k == 0 || !stop.input.le(stops[k - 1].input))
        && stop.output.is_finite() && ExprType::of_value(&stop.output) == ExprType::of_value(
        &stops[0].output,
    )
}

fn cannot_blend(stops: &Vec<InterpolateStop>, k: usize) -> (r: bool)
    requires
        k < stops@.len(),
    ensures
        r == stop_unblendable(stops@, k as int),
{
    match (&stops[0].output, &stops[k].output) {
        (MotionValue::PathData(first), MotionValue::PathData(p)) => p.points.len()
            > MAX_FRAME_GEOMETRY_POINTS || !first.has_same_topology(p),
        _ => false,
    }
}

fn check_stops(stops: &Vec<InterpolateStop>, index: usize) -> (r: Vec<ValidationError>)
    ensures
        findings(r@) == stop_findings(stops@, index as nat, stops@.len()) + blend_findings(
            stops@,
            index as nat,
            stops@.len(),
        ),
{
    let mut errors: Vec<ValidationError> = Vec::new();
    assert(findings(errors@) =~= Seq::empty());
    let mut k: usize = 0;
    while k < stops.len()
        invariant
            k <= stops@.len(),
            findings(errors@) == stop_findings(stops@, index as nat, k as nat),
        decreases stops@.len() - k,
    {
        report_if(
            &mut errors,
            !stop_ok(stops, k),
            stop_label(index, k),
            "stops must be finite, strictly increasing, and type-consistent",
        );
        k = k + 1;
    }
    let ghost first = findings(errors@);
    let mut j: usize = 0;
    assert(first + Seq::empty() =~= first);
    while j < stops.len()
        invariant
            j <= stops@.len(),
            findings(errors@) == first + blend_findings(stops@, index as nat, j as nat),
        decreases stops@.len() - j,
    {
        report_if(
            &mut errors,
            cannot_blend(stops, j),
            stop_label(index, j),
            "PathData interpolation requires identical topology within the per-frame geometry budget",
        );
        j = j + 1;
        assert(findings(errors@) =~= first + blend_findings(stops@, index as nat, j as nat));
    }
    errors
}

fn check_interpolate(
    input: ExprId,
    stops: &Vec<InterpolateStop>,
    easings: &Vec<MotionEasing>,
    types: &Vec<Option<ExprType>>,
    index: usize,
) -> (r: Report)
    requires
        types@.len() == index,
    ensures
        r@ == interpolate_verdict(input, stops@, easings@, types@, index as nat),
{
    let mut errors: Vec<ValidationError> = Vec::new();
    assert(findings(errors@) =~= Seq::empty());
    check_forward(&mut errors, index, input);
    report_if(
        &mut errors,
        !is_type(kid_of(types, index, input), ExprType::Number),
        below(index, "/input"),
        "interpolate input must be a number",
    );
    let ghost head = findings(errors@);
    assert(head =~= forward(index as nat, input) + found_if(
        kid(types@, index as nat, input) != Some(ExprType::Number),
        at(index as nat) + "/input"@,
        "interpolate input must be a number"@,
    ));
    if stops.len() < 2 {
        report(&mut errors, below(index, "/stops"), "interpolate needs at least two stops");
        return Report { ty: None, errors };
    }
    let ty = ExprType::of_value(&stops[0].output);
    extend(&mut errors, check_stops(stops, index));
    report_if(
        &mut errors,
        !ty.is_continuous(),
        below(index, "/stops"),
        "interpolate outputs must be continuous values",
    );
    report_if(
        &mut errors,
        easings.len() != 0 && easings.len() != stops.len() - 1,
        below(index, "/easings"),
        "easings must be empty or have one entry per segment",
    );
    let ghost most = findings(errors@);
    let mut k: usize = 0;
    assert(most + Seq::empty() =~= most);
    while k < easings.len()
        invariant
            k <= easings@.len(),
            findings(errors@) == most + easing_findings(easings@, index as nat, k as nat),
        decreases easings@.len() - k,
    {
        let base = below(index, "/easings/");
        report_if(
            &mut errors,
            !easings[k].is_finite(),
            numbered(base.as_str(), k),
            "easing control points must be finite",
        );
        k = k + 1;
        assert(findings(errors@) =~= most + easing_findings(easings@, index as nat, k as nat));
    }
    assert(findings(errors@) =~= interpolate_verdict(
        input,
        stops@,
        easings@,
        types@,
        index as nat,
    ).errors);
    Report { ty: Some(ty), errors }
}

fn check_expr(
    exprs: &Vec<Expr>,
    controls: &ControlsSchema,
    types: &Vec<Option<ExprType>>,
    bounds: &Bounds,
    index: usize,
) -> (r: Report)
    requires
        index < exprs@.len(),
        types@.len() == index,
        bounds.of(exprs@, index as nat),
    ensures
        r@ == verdict(exprs@, *controls, types@, index as nat),
{
    proof {
        reveal(verdict);
    }
    match &exprs[index] {
        Expr::Const { .. }
        | Expr::Context { .. }
        | Expr::Prop { .. }
        | Expr::Cue { .. }
        | Expr::Project3D { .. }
        | Expr::NodeBounds { .. } => check_leaf(&exprs[index], controls, index),
        Expr::MakePoint { .. }
        | Expr::MakeRect { .. }
        | Expr::PathLine { .. }
        | Expr::PathTemplate { .. }
        | Expr::PathCubic { .. }
        | Expr::PathArc { .. }
        | Expr::PathArea { .. }
        | Expr::PathOffset { .. }
        | Expr::PathMorph { .. }
        | Expr::PathPointAt { .. }
        | Expr::PathTangentAt { .. }
        | Expr::PathAngleAt { .. }
        | Expr::PathLength { .. }
        | Expr::PathTrajectory { .. } => check_geometry(exprs, types, bounds, index),
        Expr::Template { parts } => check_template(parts, types, index),
        Expr::Interpolate { input, stops, easings, .. } => check_interpolate(
            *input,
            stops,
            easings,
            types,
            index,
        ),
        _ => check_scalar(exprs, types, index),
    }
}

/// Types of the expressions, and whether each passed admission with everything it refers to.
pub struct ExprAdmission {
    pub types: Vec<Option<ExprType>>,
    pub admitted: Vec<bool>,
}

fn children_admitted(flags: &Vec<bool>, refs: &Vec<ExprId>) -> (r: bool)
    ensures
        r == forall|k: int|
            0 <= k < refs@.len() ==> (#[trigger] refs@[k]).0 < flags@.len() && flags@[refs@[k].0 as int],
{
    let mut k: usize = 0;
    while k < refs.len()
        invariant
            k <= refs@.len(),
            forall|j: int|
                0 <= j < k ==> (#[trigger] refs@[j]).0 < flags@.len() && flags@[refs@[j].0 as int],
        decreases refs@.len() - k,
    {
        let id: usize = refs[k].0 as usize;
        if id >= flags.len() || !flags[id] {
            assert(!(refs@[k as int].0 < flags@.len() && flags@[refs@[k as int].0 as int]));
            return false;
        }
        k = k + 1;
    }
    true
}

/// Admits an expression arena: gives every expression its type, reports every violation in order,
/// and says which subtrees are free of them.
pub fn validate_exprs(
    exprs: &Vec<Expr>,
    controls: &ControlsSchema,
    errors: &mut Vec<ValidationError>,
) -> (r: ExprAdmission)
    ensures
        r.types@ == types_of(exprs@, *controls, exprs@.len()),
        r.admitted@.len() == exprs@.len(),
        forall|i: int|
            0 <= i < exprs@.len() ==> #[trigger] r.admitted@[i] == admitted(exprs@, *controls, i),
        findings(final(errors)@) == findings(old(errors)@) + errors_of(
            exprs@,
            *controls,
            exprs@.len(),
        ),
{
    let mut types: Vec<Option<ExprType>> = Vec::new();
    let mut flags: Vec<bool> = Vec::new();
    let mut bounds = Bounds { flat: Vec::new(), points: Vec::new() };
    let mut i: usize = 0;
    assert(findings(errors@) + Seq::empty() =~= findings(errors@));
    while i < exprs.len()
        invariant
            i <= exprs@.len(),
            bounds.of(exprs@, i as nat),
            types@.len() == i,
            types@ == types_of(exprs@, *controls, i as nat),
            flags@.len() == i,
            forall|k: int|
                0 <= k < i ==> #[trigger] flags@[k] == admitted(exprs@, *controls, k),
            findings(errors@) == findings(old(errors)@) + errors_of(exprs@, *controls, i as nat),
        decreases exprs@.len() - i,
    {
        let found = check_expr(exprs, controls, &types, &bounds, i);
        let clean: bool = found.errors.len() == 0;
        proof {
            assert(found@.errors.len() == found.errors@.len());
        }
        let refs = exprs[i].children();
        let whole: bool = children_admitted(&flags, &refs);
        let flat: usize = path_flattened_point_bound(exprs, &bounds, i);
        let points: usize = path_point_bound(exprs, &bounds, i);
        let ghost old_flags = flags@;
        flags.push(clean && whole);
        proof {
            assert((clean && whole) == admitted(exprs@, *controls, i as int)) by {
                let r = exprs@[i as int].refs();
                if whole {
                    assert forall|k: int| 0 <= k < r.len() implies (#[trigger] r[k]).0 < i && admitted(
                        exprs@,
                        *controls,
                        r[k].0 as int,
                    ) by {
                        assert(old_flags[r[k].0 as int]);
                    }
                }
                if admitted(exprs@, *controls, i as int) {
                    assert forall|k: int| 0 <= k < r.len() implies (#[trigger] r[k]).0
                        < old_flags.len() && old_flags[r[k].0 as int] by {
                        assert(admitted(exprs@, *controls, r[k].0 as int));
                    }
                }
            }
        }
        types.push(found.ty);
        extend(errors, found.errors);
        bounds.flat.push(flat);
        bounds.points.push(points);
        i = i + 1;
        assert(findings(errors@) =~= findings(old(errors)@) + errors_of(
            exprs@,
            *controls,
            i as nat,
        ));
    }
    ExprAdmission { types, admitted: flags }
}

/// Admission flags without diagnostics.
pub fn admitted_flags(exprs: &Vec<Expr>, controls: &ControlsSchema) -> (r: Vec<bool>)
    ensures
        r@.len() == exprs@.len(),
        forall|i: int|
            0 <= i < exprs@.len() ==> #[trigger] r@[i] == admitted(exprs@, *controls, i),
{
    let mut errors: Vec<ValidationError> = Vec::new();
    validate_exprs(exprs, controls, &mut errors).admitted
}

} // verus!
