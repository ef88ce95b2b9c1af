//! Validation of glass surfaces and fields.

use vstd::prelude::*;

use crate::admission::Finding;
use crate::artifact::{
    NumberValue, PathValue, PointValue, SceneArtifact, SceneNode, StyleBinding, StyleValue,
    NodeKind,
};
use crate::continuity::{have_ranks, ranks, TemporalContinuity};
use crate::expr::ExprId;
use crate::findings::{extend, findings, found_if, report, ValidationError};
use crate::glass::{
    GlassEnvironmentBinding, GlassFieldNode, GlassForegroundTone, GlassNode, GlassShapeBinding,
    LENGTH_EPSILON, MERGE_MAX_DISTANCE, MERGE_MIN_DISTANCE, SETTLE_MAX_SECONDS, SETTLE_MIN_SECONDS,
};
use crate::lineage::{search_ends, subtree_has_unknown_foreground};
use crate::order::before;
use crate::scalar::{num, Scalar, ONE, ZERO};
use crate::table::same_text;
use crate::text::{begins, begins_with, decimal, joined, numeral, said3, said5, said7};

verus! {

/// `/nodes/<at>`
pub open spec fn node_path(at: nat) -> Seq<char> {
    "/nodes/"@ + numeral(at)
}

pub(crate) fn node_place(at: usize, below: &str) -> (r: String)
    ensures
        r@ == node_path(at as nat) + below@,
{
    joined(joined("/nodes/".to_owned(), decimal(at as u64).as_str()), below)
}

/// Properties that paint, or change what is painted behind them.
pub open spec fn paints_or_reorders(property: Seq<char>) -> bool {
    property == "opacity"@ || property == "filter"@ || property == "mix-blend-mode"@ || property
        == "backdrop-filter"@ || property == "clip-path"@ || property == "mask"@ || begins(
        property,
        "mask-"@,
    ) || paints_shell(property)
}

/// Properties that paint the box itself.
pub open spec fn paints_shell(property: Seq<char>) -> bool {
    property == "box-shadow"@ || property == "outline"@ || property == "background"@ || begins(
        property,
        "background-"@,
    ) || property == "border"@ || begins(property, "border-"@)
}

pub(crate) fn is_shell_paint(property: &str) -> (r: bool)
    ensures
        r == paints_shell(property@),
{
    same_text(property, "box-shadow") || same_text(property, "outline") || same_text(
        property,
        "background",
    ) || begins_with(property, "background-") || same_text(property, "border") || begins_with(
        property,
        "border-",
    )
}

pub(crate) fn is_paint(property: &str) -> (r: bool)
    ensures
        r == paints_or_reorders(property@),
{
    same_text(property, "opacity") || same_text(property, "filter") || same_text(
        property,
        "mix-blend-mode",
    ) || same_text(property, "backdrop-filter") || same_text(property, "clip-path") || same_text(
        property,
        "mask",
    ) || begins_with(property, "mask-") || is_shell_paint(property)
}

/// What is wrong with a number that must lie between 0 and 1, where it is fixed.
pub open spec fn unit_findings(name: Seq<char>, value: NumberValue, path: Seq<char>) -> Seq<Finding> {
    found_if(
        value matches NumberValue::Static { value: x } && (!x.finite() || !x.within(
            num(ZERO),
            num(ONE),
        )),
        path,
        name + " must be finite in 0..=1"@,
    )
}

/// What is wrong with a settling time.
pub open spec fn settle_findings(settle: Scalar, path: Seq<char>) -> Seq<Finding> {
    found_if(
        !settle.finite() || !settle.within(num(SETTLE_MIN_SECONDS), num(SETTLE_MAX_SECONDS)),
        path,
        "settle must be a static finite value in 0.08..=1.2 seconds"@,
    )
}

/// What is wrong with a light. `length` is the length of its direction, where that is fixed.
pub open spec fn environment_findings(
    environment: GlassEnvironmentBinding,
    length: Scalar,
    path: Seq<char>,
) -> Seq<Finding> {
    found_if(
        environment.light.direction matches PointValue::Static { value } && (!value.x.finite()
            || !value.y.finite() || length.le_spec(num(LENGTH_EPSILON))),
        path + "/light/direction"@,
        "light direction must be a finite non-zero vector"@,
    ) + unit_findings("light elevation"@, environment.light.elevation, path + "/light/elevation"@)
        + unit_findings("light intensity"@, environment.light.intensity, path + "/light/intensity"@)
}

fn check_unit(errors: &mut Vec<ValidationError>, name: &str, value: NumberValue, path: String)
    ensures
        findings(final(errors)@) == findings(old(errors)@) + unit_findings(name@, value, path@),
{
    let bad: bool = match value {
        NumberValue::Static { value: x } => !x.is_finite() || !x.in_range(
            Scalar::from_bits(ZERO),
            Scalar::from_bits(ONE),
        ),
        _ => false,
    };
    if bad {
        let message = joined(name.to_owned(), " must be finite in 0..=1");
        report(errors, path, message.as_str());
    }
    assert(findings(errors@) =~= findings(old(errors)@) + unit_findings(name@, value, path@));
}

fn check_settle(errors: &mut Vec<ValidationError>, settle: Scalar, path: String)
    ensures
        findings(final(errors)@) == findings(old(errors)@) + settle_findings(settle, path@),
{
    if !settle.is_finite() || !settle.in_range(
        Scalar::from_bits(SETTLE_MIN_SECONDS),
        Scalar::from_bits(SETTLE_MAX_SECONDS),
    ) {
        report(errors, path, "settle must be a static finite value in 0.08..=1.2 seconds");
    }
    assert(findings(errors@) =~= findings(old(errors)@) + settle_findings(settle, path@));
}

fn check_environment(
    errors: &mut Vec<ValidationError>,
    environment: &GlassEnvironmentBinding,
    length: Scalar,
    at: usize,
)
    ensures
        findings(final(errors)@) == findings(old(errors)@) + environment_findings(
            *environment,
            length,
            node_path(at as nat) + "/kind/environment"@,
        ),
{
    let bad: bool = match environment.light.direction {
        PointValue::Static { value } => !value.x.is_finite() || !value.y.is_finite() || length.le(
            Scalar::from_bits(LENGTH_EPSILON),
        ),
        _ => false,
    };
    if bad {
        let path = joined(node_place(at, "/kind/environment"), "/light/direction");
        report(errors, path, "light direction must be a finite non-zero vector");
    }
    let path = joined(node_place(at, "/kind/environment"), "/light/elevation");
    check_unit(errors, "light elevation", environment.light.elevation, path);
    let path = joined(node_place(at, "/kind/environment"), "/light/intensity");
    check_unit(errors, "light intensity", environment.light.intensity, path);
    assert(findings(errors@) =~= findings(old(errors)@) + environment_findings(
        *environment,
        length,
        node_path(at as nat) + "/kind/environment"@,
    ));
}

/// The last surface among the first `n` nodes with an identifier.
pub open spec fn last_surface(nodes: Seq<SceneNode>, id: Seq<char>, n: nat) -> Option<usize>
    decreases n,
{
    if n == 0 {
        None
    } else if nodes[n - 1].kind matches NodeKind::Glass(g) && g.surface_id@ == id {
        Some((n - 1) as usize)
    } else {
        last_surface(nodes, id, (n - 1) as nat)
    }
}

/// The last field among the first `n` nodes with an identifier.
pub open spec fn last_field(nodes: Seq<SceneNode>, id: Seq<char>, n: nat) -> Option<usize>
    decreases n,
{
    if n == 0 {
        None
    } else if nodes[n - 1].kind matches NodeKind::GlassField(g) && g.field_id@ == id {
        Some((n - 1) as usize)
    } else {
        last_field(nodes, id, (n - 1) as nat)
    }
}

fn surface_before(nodes: &Vec<SceneNode>, id: &str, n: usize) -> (r: Option<usize>)
    requires
        n <= nodes@.len(),
    ensures
        r == last_surface(nodes@, id@, n as nat),
{
    let mut k: usize = n;
    while k > 0
        invariant
            k <= n <= nodes@.len(),
            last_surface(nodes@, id@, n as nat) == last_surface(nodes@, id@, k as nat),
        decreases k,
    {
        match &nodes[k - 1].kind {
            NodeKind::Glass(g) => {
                if same_text(g.surface_id.as_str(), id) {
                    return Some(k - 1);
                }
            },
            _ => {},
        }
        k = k - 1;
    }
    None
}

pub(crate) fn field_before(nodes: &Vec<SceneNode>, id: &str, n: usize) -> (r: Option<usize>)
    requires
        n <= nodes@.len(),
    ensures
        r == last_field(nodes@, id@, n as nat),
        r matches Some(f) ==> f < n && nodes@[f as int].kind is GlassField,
{
    let mut k: usize = n;
    while k > 0
        invariant
            k <= n <= nodes@.len(),
            last_field(nodes@, id@, n as nat) == last_field(nodes@, id@, k as nat),
        decreases k,
    {
        match &nodes[k - 1].kind {
            NodeKind::GlassField(g) => {
                if same_text(g.field_id.as_str(), id) {
                    return Some(k - 1);
                }
            },
            _ => {},
        }
        k = k - 1;
    }
    None
}

/// A field identifier that a surface declares.
pub open spec fn declared_field(glass: GlassNode) -> Option<Seq<char>> {
    match glass.field_id {
        Some(id) => Some(id@),
        None => None,
    }
}

/// Findings about the identity of a surface.
pub open spec fn identity_findings(
    a: SceneArtifact,
    at: nat,
    glass: GlassNode,
    actual: Option<Seq<char>>,
) -> Seq<Finding> {
    let id = glass.surface_id@;
    let place = node_path(at) + "/kind/fieldId"@;
    (match last_surface(a.nodes@, id, at) {
        Some(previous) => seq![
            (
                node_path(at) + "/kind/surfaceId"@,
                "Glass surfaceId '"@ + id
                    + "' appears twice at the same sample time (also /nodes/"@ + numeral(
                    previous as nat,
                ) + ")"@,
            ),
        ],
        None => Seq::empty(),
    }) + (match (declared_field(glass), actual) {
        (Some(declared), Some(actual)) => found_if(
            declared != actual,
            place,
            "Glass '"@ + id + "' is collected by field '"@ + actual + "' but declares '"@ + declared
                + "'"@,
        ),
        (None, Some(actual)) => seq![
            (place, "Glass '"@ + id + "' must record field '"@ + actual + "'"@),
        ],
        (Some(_), None) => seq![
            (place, "Glass '"@ + id + "' declares a field but is not inside one"@),
        ],
        (None, None) => Seq::empty(),
    })
}

/// Findings about what a surface declares of its own: members take it from their field, independent
/// surfaces must have it.
pub open spec fn ownership_findings(at: nat, glass: GlassNode) -> Seq<Finding> {
    let id = glass.surface_id@;
    if glass.field_id is Some {
        found_if(
            glass.material is Some,
            node_path(at) + "/kind/material"@,
            "Glass '"@ + id + "' inherits material from its field and cannot declare material"@,
        ) + found_if(
            glass.motion.character is Some || glass.motion.settle is Some,
            node_path(at) + "/kind/motion"@,
            "Glass '"@ + id + "' cannot override field character or settle"@,
        ) + found_if(
            glass.environment is Some,
            node_path(at) + "/kind/environment"@,
            "Glass '"@ + id
                + "' inherits environment from its field and cannot declare environment"@,
        )
    } else if glass.material is None {
        seq![
            (
                node_path(at) + "/kind/material"@,
                "independent Glass must include expanded material defaults"@,
            ),
        ]
    } else {
        found_if(
            glass.environment is None,
            node_path(at) + "/kind/environment"@,
            "independent Glass must include expanded environment defaults"@,
        )
    }
}

/// Whether an automatic foreground tone is asked for with protection that is not switched off.
pub open spec fn asks_for_tone(glass: GlassNode) -> bool {
    glass.foreground.tone == GlassForegroundTone::Auto && !(glass.foreground.protection matches NumberValue::Static {
        value,
    } && value.eq_spec(num(ZERO)))
}

/// Findings about the bindings of a surface; `unknown` says whether its foreground shows colors that
/// the scene alone does not tell.
pub open spec fn binding_findings(
    at: nat,
    glass: GlassNode,
    length: Scalar,
    unknown: bool,
) -> Seq<Finding> {
    light_findings(at, glass, length) + pace_findings(at, glass) + unit_findings(
        "presence"@,
        glass.presence,
        node_path(at) + "/kind/presence"@,
    ) + tone_findings(at, glass, unknown) + unit_findings(
        "intensity"@,
        glass.motion.intensity,
        node_path(at) + "/kind/motion/intensity"@,
    ) + unit_findings(
        "protection"@,
        glass.foreground.protection,
        node_path(at) + "/kind/foreground/protection"@,
    ) + material_findings(at, glass) + radius_findings(at, glass)
}

pub open spec fn light_findings(at: nat, glass: GlassNode, length: Scalar) -> Seq<Finding> {
    match glass.environment {
        Some(e) => environment_findings(e, length, node_path(at) + "/kind/environment"@),
        None => Seq::empty(),
    }
}

pub open spec fn pace_findings(at: nat, glass: GlassNode) -> Seq<Finding> {
    match glass.motion.settle {
        Some(s) => settle_findings(s, node_path(at) + "/kind/motion/settle"@),
        None => Seq::empty(),
    }
}

pub open spec fn tone_findings(at: nat, glass: GlassNode, unknown: bool) -> Seq<Finding> {
    found_if(
        asks_for_tone(glass) && unknown,
        node_path(at) + "/kind/foreground/tone"@,
        "Glass '"@ + glass.surface_id@
            + "' has image, video, Scene3D, or custom-shader foreground content; tone=auto with protection>0 requires an explicit light/dark/none hint"@,
    )
}

pub open spec fn material_findings(at: nat, glass: GlassNode) -> Seq<Finding> {
    match glass.material {
        Some(m) => unit_findings("clarity"@, m.clarity, node_path(at) + "/kind/material/clarity"@)
            + unit_findings("depth"@, m.depth, node_path(at) + "/kind/material/depth"@),
        None => Seq::empty(),
    }
}

pub open spec fn radius_findings(at: nat, glass: GlassNode) -> Seq<Finding> {
    found_if(
        glass.shape matches GlassShapeBinding::ContinuousRect { radius }
            && (radius matches NumberValue::Static { value } && (!value.finite() || value.lt_spec(
            num(ZERO),
        ))),
        node_path(at) + "/kind/shape/radius"@,
        "value must be a finite non-negative number"@,
    )
}

pub open spec fn number_root(value: NumberValue) -> Seq<ExprId> {
    match value {
        NumberValue::Expr { expr } => seq![expr],
        _ => Seq::empty(),
    }
}

pub open spec fn point_root(value: PointValue) -> Seq<ExprId> {
    match value {
        PointValue::Expr { expr } => seq![expr],
        _ => Seq::empty(),
    }
}

pub open spec fn some_number_root(value: Option<NumberValue>) -> Seq<ExprId> {
    match value {
        Some(v) => number_root(v),
        None => Seq::empty(),
    }
}

pub open spec fn some_point_root(value: Option<PointValue>) -> Seq<ExprId> {
    match value {
        Some(v) => point_root(v),
        None => Seq::empty(),
    }
}

/// Properties that place a node.
pub open spec fn places(property: Seq<char>) -> bool {
    property == "left"@ || property == "top"@ || property == "width"@ || property == "height"@
        || property == "transform"@ || property == "translate"@ || property == "rotate"@ || property
        == "scale"@
}

pub(crate) fn is_place(property: &str) -> (r: bool)
    ensures
        r == places(property@),
{
    same_text(property, "left") || same_text(property, "top") || same_text(property, "width")
        || same_text(property, "height") || same_text(property, "transform") || same_text(
        property,
        "translate",
    ) || same_text(property, "rotate") || same_text(property, "scale")
}

/// Expressions among the first `n` styles that place a node.
pub open spec fn place_roots(styles: Seq<StyleBinding>, n: nat) -> Seq<ExprId>
    decreases n,
{
    if n == 0 {
        Seq::empty()
    } else {
        place_roots(styles, (n - 1) as nat) + (match styles[n - 1].value {
            StyleValue::Expr { expr } => if places(styles[n - 1].property@) {
                seq![expr]
            } else {
                Seq::empty()
            },
            _ => Seq::empty(),
        })
    }
}

pub open spec fn material_roots(glass: GlassNode) -> Seq<ExprId> {
    match glass.material {
        Some(m) => number_root(m.clarity) + number_root(m.depth),
        None => Seq::empty(),
    }
}

pub open spec fn light_roots(glass: GlassNode) -> Seq<ExprId> {
    match glass.environment {
        Some(e) => point_root(e.light.direction) + number_root(e.light.elevation) + number_root(
            e.light.intensity,
        ),
        None => Seq::empty(),
    }
}

pub open spec fn shape_roots(glass: GlassNode) -> Seq<ExprId> {
    match glass.shape {
        GlassShapeBinding::ContinuousRect { radius } => number_root(radius),
        GlassShapeBinding::Path { path, reveal_origin } => (match path {
            PathValue::Expr { expr } => seq![expr],
            _ => Seq::empty(),
        }) + some_point_root(reveal_origin),
        _ => Seq::empty(),
    }
}

/// Expressions that drive the track of a surface.
pub open spec fn track_roots(node: SceneNode, glass: GlassNode) -> Seq<ExprId> {
    number_root(glass.presence) + number_root(glass.motion.intensity) + some_point_root(
        glass.motion.drive.translation,
    ) + some_number_root(glass.motion.drive.pressure) + some_number_root(glass.motion.drive.twist)
        + material_roots(glass) + light_roots(glass) + shape_roots(glass) + place_roots(
        node.styles@,
        node.styles@.len(),
    )
}

/// Whether one of the expressions is not smooth enough for a track.
pub open spec fn some_discrete(ranks: Seq<nat>, roots: Seq<ExprId>) -> bool {
    exists|k: int|
        0 <= k < roots.len() && (#[trigger] roots[k]).0 < ranks.len() && ranks[roots[k].0 as int]
            >= 3
}

/// Findings about the smoothness of a surface's track.
pub open spec fn track_findings(a: SceneArtifact, at: nat, glass: GlassNode) -> Seq<Finding> {
    found_if(
        some_discrete(ranks(a.exprs@, a.exprs@.len()), track_roots(a.nodes@[at as int], glass)),
        node_path(at) + "/kind"@,
        "Glass '"@ + glass.surface_id@
            + "' track binding depends on a discrete or unknown-time expression"@,
    )
}

/// All findings about one surface.
pub open spec fn glass_findings(
    a: SceneArtifact,
    at: nat,
    glass: GlassNode,
    actual: Option<Seq<char>>,
    length: Scalar,
    unknown: bool,
) -> Seq<Finding> {
    identity_findings(a, at, glass, actual) + ownership_findings(at, glass) + binding_findings(
        at,
        glass,
        length,
        unknown,
    ) + track_findings(a, at, glass)
}

/// All findings about one field.
pub open spec fn field_findings(a: SceneArtifact, at: nat, field: GlassFieldNode, length: Scalar) -> Seq<
    Finding,
> {
    (match last_field(a.nodes@, field.field_id@, at) {
        Some(previous) => seq![
            (
                node_path(at) + "/kind/fieldId"@,
                "GlassField id '"@ + field.field_id@ + "' appears twice (also /nodes/"@ + numeral(
                    previous as nat,
                ) + ")"@,
            ),
        ],
        None => Seq::empty(),
    }) + settle_findings(field.motion.settle, node_path(at) + "/kind/motion/settle"@) + found_if(
        !field.merge.distance.within(num(MERGE_MIN_DISTANCE), num(MERGE_MAX_DISTANCE))
            || !field.merge.distance.finite(),
        node_path(at) + "/kind/merge/distance"@,
        "merge distance must be finite in 1..=128"@,
    ) + environment_findings(field.environment, length, node_path(at) + "/kind/environment"@)
}

fn check_identity(
    artifact: &SceneArtifact,
    at: usize,
    glass: &GlassNode,
    actual: Option<&str>,
    Ghost(name): Ghost<Option<Seq<char>>>,
    errors: &mut Vec<ValidationError>,
)
    requires
        at < artifact.nodes@.len(),
        match actual {
            Some(s) => name == Some(s@),
            None => name is None,
        },
    ensures
        findings(final(errors)@) == findings(old(errors)@) + identity_findings(
            *artifact,
            at as nat,
            *glass,
            name,
        ),
{
    let id = glass.surface_id.as_str();
    match surface_before(&artifact.nodes, id, at) {
        Some(previous) => {
            let message = said5(
                "Glass surfaceId '",
                id,
                "' appears twice at the same sample time (also /nodes/",
                decimal(previous as u64).as_str(),
                ")",
            );
            report(errors, node_place(at, "/kind/surfaceId"), message.as_str());
        },
        None => {},
    }
    match (&glass.field_id, actual) {
        (Some(declared), Some(actual)) => {
            if !same_text(declared.as_str(), actual) {
                let message = said7(
                    "Glass '",
                    id,
                    "' is collected by field '",
                    actual,
                    "' but declares '",
                    declared.as_str(),
                    "'",
                );
                report(errors, node_place(at, "/kind/fieldId"), message.as_str());
            }
        },
        (None, Some(actual)) => {
            let message = said5("Glass '", id, "' must record field '", actual, "'");
            report(errors, node_place(at, "/kind/fieldId"), message.as_str());
        },
        (Some(_), None) => {
            let message = said3("Glass '", id, "' declares a field but is not inside one");
            report(errors, node_place(at, "/kind/fieldId"), message.as_str());
        },
        (None, None) => {},
    }
    assert(findings(errors@) =~= findings(old(errors)@) + identity_findings(
        *artifact,
        at as nat,
        *glass,
        name,
    ));
}

fn check_ownership(at: usize, glass: &GlassNode, errors: &mut Vec<ValidationError>)
    ensures
        findings(final(errors)@) == findings(old(errors)@) + ownership_findings(at as nat, *glass),
{
    let id = glass.surface_id.as_str();
    if glass.field_id.is_some() {
        if glass.material.is_some() {
            let message = said3(
                "Glass '",
                id,
                "' inherits material from its field and cannot declare material",
            );
            report(errors, node_place(at, "/kind/material"), message.as_str());
        }
        if glass.motion.character.is_some() || glass.motion.settle.is_some() {
            let message = said3("Glass '", id, "' cannot override field character or settle");
            report(errors, node_place(at, "/kind/motion"), message.as_str());
        }
        if glass.environment.is_some() {
            let message = said3(
                "Glass '",
                id,
                "' inherits environment from its field and cannot declare environment",
            );
            report(errors, node_place(at, "/kind/environment"), message.as_str());
        }
    } else if glass.material.is_none() {
        report(
            errors,
            node_place(at, "/kind/material"),
            "independent Glass must include expanded material defaults",
        );
    } else if glass.environment.is_none() {
        report(
            errors,
            node_place(at, "/kind/environment"),
            "independent Glass must include expanded environment defaults",
        );
    }
    assert(findings(errors@) =~= findings(old(errors)@) + ownership_findings(at as nat, *glass));
}

fn tone_asked(glass: &GlassNode) -> (r: bool)
    ensures
        r == asks_for_tone(*glass),
{
    if glass.foreground.tone != GlassForegroundTone::Auto {
        return false;
    }
    match glass.foreground.protection {
        NumberValue::Static { value } => !value.eq_value(Scalar::from_bits(ZERO)),
        _ => true,
    }
}

fn check_pace(at: usize, glass: &GlassNode, errors: &mut Vec<ValidationError>)
    ensures
        findings(final(errors)@) == findings(old(errors)@) + pace_findings(at as nat, *glass),
{
    match glass.motion.settle {
        Some(s) => check_settle(errors, s, node_place(at, "/kind/motion/settle")),
        None => {},
    }
    assert(findings(errors@) =~= findings(old(errors)@) + pace_findings(at as nat, *glass));
}

fn check_tone(at: usize, glass: &GlassNode, unknown: bool, errors: &mut Vec<ValidationError>)
    ensures
        findings(final(errors)@) == findings(old(errors)@) + tone_findings(
            at as nat,
            *glass,
            unknown,
        ),
{
    if tone_asked(glass) && unknown {
        let message = said3(
            "Glass '",
            glass.surface_id.as_str(),
            "' has image, video, Scene3D, or custom-shader foreground content; tone=auto with protection>0 requires an explicit light/dark/none hint",
        );
        report(errors, node_place(at, "/kind/foreground/tone"), message.as_str());
    }
    assert(findings(errors@) =~= findings(old(errors)@) + tone_findings(
        at as nat,
        *glass,
        unknown,
    ));
}

fn check_material(at: usize, glass: &GlassNode, errors: &mut Vec<ValidationError>)
    ensures
        findings(final(errors)@) == findings(old(errors)@) + material_findings(at as nat, *glass),
{
    match glass.material {
        Some(m) => {
            check_unit(errors, "clarity", m.clarity, node_place(at, "/kind/material/clarity"));
            check_unit(errors, "depth", m.depth, node_place(at, "/kind/material/depth"));
        },
        None => {},
    }
    assert(findings(errors@) =~= findings(old(errors)@) + material_findings(at as nat, *glass));
}

fn check_radius(at: usize, glass: &GlassNode, errors: &mut Vec<ValidationError>)
    ensures
        findings(final(errors)@) == findings(old(errors)@) + radius_findings(at as nat, *glass),
{
    let bad: bool = match &glass.shape {
        GlassShapeBinding::ContinuousRect { radius } => match radius {
            NumberValue::Static { value } => !value.is_finite() || value.lt(
                Scalar::from_bits(ZERO),
            ),
            _ => false,
        },
        _ => false,
    };
    if bad {
        report(
            errors,
            node_place(at, "/kind/shape/radius"),
            "value must be a finite non-negative number",
        );
    }
    assert(findings(errors@) =~= findings(old(errors)@) + radius_findings(at as nat, *glass));
}

fn check_bindings(at: usize, glass: &GlassNode, length: Scalar, unknown: bool) -> (r: Vec<
    ValidationError,
>)
    ensures
        findings(r@) == binding_findings(at as nat, *glass, length, unknown),
{
    let mut errors: Vec<ValidationError> = Vec::new();
    match &glass.environment {
        Some(e) => check_environment(&mut errors, e, length, at),
        None => {},
    }
    assert(findings(errors@) =~= light_findings(at as nat, *glass, length));
    check_pace(at, glass, &mut errors);
    check_unit(&mut errors, "presence", glass.presence, node_place(at, "/kind/presence"));
    check_tone(at, glass, unknown, &mut errors);
    check_unit(
        &mut errors,
        "intensity",
        glass.motion.intensity,
        node_place(at, "/kind/motion/intensity"),
    );
    check_unit(
        &mut errors,
        "protection",
        glass.foreground.protection,
        node_place(at, "/kind/foreground/protection"),
    );
    check_material(at, glass, &mut errors);
    check_radius(at, glass, &mut errors);
    errors
}

pub(crate) fn push_number(out: &mut Vec<ExprId>, value: NumberValue)
    ensures
        final(out)@ == old(out)@ + number_root(value),
{
    match value {
        NumberValue::Expr { expr } => out.push(expr),
        _ => {},
    }
    assert(out@ =~= old(out)@ + number_root(value));
}

pub(crate) fn push_point(out: &mut Vec<ExprId>, value: PointValue)
    ensures
        final(out)@ == old(out)@ + point_root(value),
{
    match value {
        PointValue::Expr { expr } => out.push(expr),
        _ => {},
    }
    assert(out@ =~= old(out)@ + point_root(value));
}

pub(crate) fn push_some_number(out: &mut Vec<ExprId>, value: Option<NumberValue>)
    ensures
        final(out)@ == old(out)@ + some_number_root(value),
{
    match value {
        Some(v) => push_number(out, v),
        None => {},
    }
    assert(out@ =~= old(out)@ + some_number_root(value));
}

pub(crate) fn push_some_point(out: &mut Vec<ExprId>, value: Option<PointValue>)
    ensures
        final(out)@ == old(out)@ + some_point_root(value),
{
    match value {
        Some(v) => push_point(out, v),
        None => {},
    }
    assert(out@ =~= old(out)@ + some_point_root(value));
}

fn push_places(out: &mut Vec<ExprId>, styles: &Vec<StyleBinding>)
    ensures
        final(out)@ == old(out)@ + place_roots(styles@, styles@.len()),
{
    let mut i: usize = 0;
    assert(out@ =~= old(out)@ + place_roots(styles@, 0));
    while i < styles.len()
        invariant
            i <= styles@.len(),
            out@ == old(out)@ + place_roots(styles@, i as nat),
        decreases styles@.len() - i,
    {
        let ghost before = out@;
        match &styles[i].value {
            StyleValue::Expr { expr } => {
                if is_place(styles[i].property.as_str()) {
                    out.push(*expr);
                }
            },
            _ => {},
        }
        i = i + 1;
        assert(out@ =~= old(out)@ + place_roots(styles@, i as nat));
    }
}

pub(crate) fn push_material(out: &mut Vec<ExprId>, glass: &GlassNode)
    ensures
        final(out)@ == old(out)@ + material_roots(*glass),
{
    match glass.material {
        Some(m) => {
            push_number(out, m.clarity);
            push_number(out, m.depth);
        },
        None => {},
    }
    assert(out@ =~= old(out)@ + material_roots(*glass));
}

pub(crate) fn push_light(out: &mut Vec<ExprId>, glass: &GlassNode)
    ensures
        final(out)@ == old(out)@ + light_roots(*glass),
{
    match glass.environment {
        Some(e) => {
            push_point(out, e.light.direction);
            push_number(out, e.light.elevation);
            push_number(out, e.light.intensity);
        },
        None => {},
    }
    assert(out@ =~= old(out)@ + light_roots(*glass));
}

fn push_shape(out: &mut Vec<ExprId>, glass: &GlassNode)
    ensures
        final(out)@ == old(out)@ + shape_roots(*glass),
{
    match &glass.shape {
        GlassShapeBinding::ContinuousRect { radius } => push_number(out, *radius),
        GlassShapeBinding::Path { path, reveal_origin } => {
            match path {
                PathValue::Expr { expr } => out.push(*expr),
                _ => {},
            }
            push_some_point(out, *reveal_origin);
        },
        _ => {},
    }
    assert(out@ =~= old(out)@ + shape_roots(*glass));
}

fn roots_of(node: &SceneNode, glass: &GlassNode) -> (r: Vec<ExprId>)
    ensures
        r@ == track_roots(*node, *glass),
{
    let mut roots: Vec<ExprId> = Vec::new();
    push_number(&mut roots, glass.presence);
    assert(roots@ =~= number_root(glass.presence));
    push_number(&mut roots, glass.motion.intensity);
    push_some_point(&mut roots, glass.motion.drive.translation);
    push_some_number(&mut roots, glass.motion.drive.pressure);
    push_some_number(&mut roots, glass.motion.drive.twist);
    push_material(&mut roots, glass);
    push_light(&mut roots, glass);
    push_shape(&mut roots, glass);
    push_places(&mut roots, &node.styles);
    roots
}

fn any_discrete(
    continuity: &Vec<TemporalContinuity>,
    roots: &Vec<ExprId>,
    Ghost(known): Ghost<Seq<nat>>,
) -> (r: bool)
    requires
        have_ranks(continuity@, known),
    ensures
        r == some_discrete(known, roots@),
{
    let mut k: usize = 0;
    while k < roots.len()
        invariant
            have_ranks(continuity@, known),
            k <= roots@.len(),
            forall|j: int|
                0 <= j < k ==> !((#[trigger] roots@[j]).0 < known.len() && known[roots@[j].0 as int]
                    >= 3),
        decreases roots@.len() - k,
    {
        let id: usize = roots[k].0 as usize;
        if id < continuity.len() && !continuity[id].is_track_legal() {
            assert(roots@[k as int].0 < known.len() && known[roots@[k as int].0 as int] >= 3);
            return true;
        }
        k = k + 1;
    }
    false
}

fn check_track(
    artifact: &SceneArtifact,
    at: usize,
    glass: &GlassNode,
    continuity: &Vec<TemporalContinuity>,
    errors: &mut Vec<ValidationError>,
)
    requires
        at < artifact.nodes@.len(),
        have_ranks(continuity@, ranks(artifact.exprs@, artifact.exprs@.len())),
    ensures
        findings(final(errors)@) == findings(old(errors)@) + track_findings(
            *artifact,
            at as nat,
            *glass,
        ),
{
    let roots = roots_of(&artifact.nodes[at], glass);
    let ghost known = ranks(artifact.exprs@, artifact.exprs@.len());
    if any_discrete(continuity, &roots, Ghost(known)) {
        let message = said3(
            "Glass '",
            glass.surface_id.as_str(),
            "' track binding depends on a discrete or unknown-time expression",
        );
        report(errors, node_place(at, "/kind"), message.as_str());
    }
    assert(findings(errors@) =~= findings(old(errors)@) + track_findings(
        *artifact,
        at as nat,
        *glass,
    ));
}

pub(crate) fn validate_glass_node(
    artifact: &SceneArtifact,
    at: usize,
    glass: &GlassNode,
    continuity: &Vec<TemporalContinuity>,
    actual: Option<&str>,
    Ghost(name): Ghost<Option<Seq<char>>>,
    length: Scalar,
) -> (r: Vec<ValidationError>)
    requires
        at < artifact.nodes@.len(),
        match actual {
            Some(s) => name == Some(s@),
            None => name is None,
        },
        have_ranks(continuity@, ranks(artifact.exprs@, artifact.exprs@.len())),
    ensures
        exists|unknown: bool| #[trigger]
            search_ends(*artifact, at as int, unknown) && findings(r@) == glass_findings(
                *artifact,
                at as nat,
                *glass,
                name,
                length,
                unknown,
            ),
{
    let mut errors: Vec<ValidationError> = Vec::new();
    check_identity(artifact, at, glass, actual, Ghost(name), &mut errors);
    assert(findings(errors@) =~= identity_findings(*artifact, at as nat, *glass, name));
    check_ownership(at, glass, &mut errors);
    let unknown: bool = subtree_has_unknown_foreground(artifact, at);
    let more = check_bindings(at, glass, length, unknown);
    extend(&mut errors, more);
    check_track(artifact, at, glass, continuity, &mut errors);
    assert(search_ends(*artifact, at as int, unknown));
    errors
}

pub(crate) fn validate_field_node(
    artifact: &SceneArtifact,
    at: usize,
    field: &GlassFieldNode,
    length: Scalar,
    errors: &mut Vec<ValidationError>,
)
    requires
        at < artifact.nodes@.len(),
    ensures
        findings(final(errors)@) == findings(old(errors)@) + field_findings(
            *artifact,
            at as nat,
            *field,
            length,
        ),
{
    let id = field.field_id.as_str();
    match field_before(&artifact.nodes, id, at) {
        Some(previous) => {
            let message = said5(
                "GlassField id '",
                id,
                "' appears twice (also /nodes/",
                decimal(previous as u64).as_str(),
                ")",
            );
            report(errors, node_place(at, "/kind/fieldId"), message.as_str());
        },
        None => {},
    }
    check_settle(errors, field.motion.settle, node_place(at, "/kind/motion/settle"));
    if !field.merge.distance.in_range(
        Scalar::from_bits(MERGE_MIN_DISTANCE),
        Scalar::from_bits(MERGE_MAX_DISTANCE),
    ) || !field.merge.distance.is_finite() {
        report(
            errors,
            node_place(at, "/kind/merge/distance"),
            "merge distance must be finite in 1..=128",
        );
    }
    check_environment(errors, &field.environment, length, at);
    assert(findings(errors@) =~= findings(old(errors)@) + field_findings(
        *artifact,
        at as nat,
        *field,
        length,
    ));
}

} // verus!
