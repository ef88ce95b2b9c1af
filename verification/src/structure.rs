//! Structure of glass fields: what may stand between a field and its members, and the whole check.

use vstd::prelude::*;

use crate::admission::Finding;
use crate::artifact::{NodeKind, SceneArtifact, SceneNode};
use crate::continuity::infer_continuity;
use crate::findings::{extend, findings, found_if, report, ValidationError};
use crate::lineage::{ancestors, lineage, parent_index, parent_of, search_ends};
use crate::membership::{checked_field_membership, field_name, found, is_field, is_glass, nearest,
    tree_membership_is_nearest, Membership,
};
use crate::order::{before, keys_of, sorted_pair, sorted_positions};
use crate::rooted::{reached_once, trees_reach_every_node_once};
use crate::scalar::Scalar;
use crate::schema::{
    binding_findings, declared_field, field_before, field_findings, glass_findings,
    identity_findings, is_paint, is_shell_paint, last_field, last_surface, node_path,
    ownership_findings,
    node_place, paints_or_reorders, paints_shell, validate_field_node, validate_glass_node,
};
use crate::table::same_text;
use crate::text::{joined, said3, said5};

verus! {

/// What the first `n` styles of a node paint that must not be painted there.
pub open spec fn paint_findings(node: SceneNode, at: nat, owner: Seq<char>, n: nat) -> Seq<Finding>
    decreases n,
{
    if n == 0 {
        Seq::empty()
    } else {
        let property = node.styles@[n - 1].property@;
        paint_findings(node, at, owner, (n - 1) as nat) + found_if(
            paints_or_reorders(property),
            node_path(at) + "/kind"@ + "/styles"@,
            owner + " '"@ + node.key@ + "' has a paint style `"@ + property
                + "` inside a GlassField; field members and wrappers cannot paint outside the shared material"@,
        )
    }
}

/// What the first `n` styles of a surface paint on its box.
pub open spec fn shell_findings(node: SceneNode, at: nat, n: nat) -> Seq<Finding>
    decreases n,
{
    if n == 0 {
        Seq::empty()
    } else {
        let property = node.styles@[n - 1].property@;
        shell_findings(node, at, (n - 1) as nat) + found_if(
            paints_shell(property),
            node_path(at) + "/styles"@,
            "Glass shell '"@ + node.key@ + "' cannot paint `"@ + property
                + "`; put ordinary pixels in its foreground children"@,
        )
    }
}

/// All paint of a node.
pub open spec fn all_paint(a: SceneArtifact, at: nat, owner: Seq<char>) -> Seq<Finding> {
    paint_findings(a.nodes@[at as int], at, owner, a.nodes@[at as int].styles@.len())
}

/// Position of the first surface or field among ancestors from `i` on.
pub open spec fn first_glass(a: SceneArtifact, line: Seq<usize>, i: int) -> int
    decreases line.len() - i,
{
    if i < 0 || i >= line.len() {
        line.len() as int
    } else if is_glass(a, line[i] as int) || is_field(a, line[i] as int) {
        i
    } else {
        first_glass(a, line, i + 1)
    }
}

/// A field inside another one without a surface in between.
pub open spec fn nested_findings(a: SceneArtifact, at: nat) -> Seq<Finding> {
    let line = lineage(a, parent_of(a, at as int));
    let i = first_glass(a, line, 0);
    if i < line.len() && is_field(a, line[i] as int) {
        seq![
            (
                node_path(at) + "/kind"@ + "/fieldId"@,
                "GlassField '"@ + field_name(a, Some(at as usize))->0
                    + "' is structurally nested inside GlassField '"@ + field_name(
                    a,
                    Some(line[i]),
                )->0 + "'; nested fields belong in a member foreground"@,
            ),
        ]
    } else {
        Seq::empty()
    }
}

/// Paint of the first `n` ancestors.
pub open spec fn wrapper_findings(a: SceneArtifact, line: Seq<usize>, n: nat) -> Seq<Finding>
    decreases n,
{
    if n == 0 {
        Seq::empty()
    } else {
        wrapper_findings(a, line, (n - 1) as nat) + all_paint(
            a,
            line[n - 1] as nat,
            "Glass field wrapper"@,
        )
    }
}

/// Number of ancestors before the root of a field.
pub open spec fn below_root(line: Seq<usize>, root: usize, i: nat) -> nat
    decreases line.len() - i,
{
    if i >= line.len() {
        line.len()
    } else if line[i as int] == root {
        i
    } else {
        below_root(line, root, i + 1)
    }
}

/// Findings about a member of the field at node `f`: it may not paint, nor may what stands between it
/// and its field.
pub open spec fn member_findings(a: SceneArtifact, at: nat, f: usize) -> Seq<Finding> {
    let root = last_field(a.nodes@, field_name(a, Some(f))->0, a.nodes@.len());
    let line = lineage(a, parent_of(a, at as int));
    all_paint(a, at, "Glass member"@) + (match root {
        Some(r) => wrapper_findings(a, line, below_root(line, r, 0)),
        None => Seq::empty(),
    })
}

/// Findings about the place of one node in the fields.
pub open spec fn place_findings(a: SceneArtifact, field: Seq<Option<usize>>, at: nat) -> Seq<Finding> {
    let node = a.nodes@[at as int];
    match node.kind {
        NodeKind::GlassField(_) => all_paint(a, at, "GlassField"@) + nested_findings(a, at),
        NodeKind::Glass(_) => shell_findings(node, at, node.styles@.len())
            + (match field[at as int] {
            Some(f) => member_findings(a, at, f),
            None => Seq::empty(),
        }),
        NodeKind::Group => match field[at as int] {
            Some(_) => all_paint(a, at, "Glass field wrapper"@),
            None => Seq::empty(),
        },
        NodeKind::Box => match field[at as int] {
            Some(_) => all_paint(a, at, "Glass field wrapper"@),
            None => Seq::empty(),
        },
        _ => match field[at as int] {
            Some(f) => seq![
                (
                    node_path(at) + "/kind"@,
                    "GlassField '"@ + field_name(a, Some(f))->0
                        + "' contains ordinary painted node '"@ + node.key@
                        + "' outside a member Glass foreground"@,
                ),
            ],
            None => Seq::empty(),
        },
    }
}

/// Findings about the places of the first `n` nodes.
pub open spec fn places_findings(a: SceneArtifact, field: Seq<Option<usize>>, n: nat) -> Seq<Finding>
    decreases n,
{
    if n == 0 {
        Seq::empty()
    } else {
        places_findings(a, field, (n - 1) as nat) + place_findings(a, field, (n - 1) as nat)
    }
}

/// Whether a surface belongs to the field with an identifier.
pub open spec fn is_member(
    a: SceneArtifact,
    field: Seq<Option<usize>>,
    at: int,
    id: Seq<char>,
) -> bool {
    is_glass(a, at) && field_name(a, field[at]) == Some(id)
}

pub open spec fn has_member(a: SceneArtifact, field: Seq<Option<usize>>, id: Seq<char>) -> bool {
    exists|i: int| 0 <= i < a.nodes@.len() && #[trigger] is_member(a, field, i, id)
}

/// Whether a node is the last field with its identifier.
pub open spec fn is_last_field(a: SceneArtifact, at: usize) -> bool {
    at < a.nodes@.len() && is_field(a, at as int) && last_field(
        a.nodes@,
        field_name(a, Some(at))->0,
        a.nodes@.len(),
    ) == Some(at)
}

/// Whether a list holds the last field of every identifier, by identifier.
pub open spec fn lists_fields(a: SceneArtifact, list: Seq<usize>) -> bool {
    &&& forall|i: int| 0 <= i < list.len() ==> is_last_field(a, #[trigger] list[i])
    &&& forall|at: usize| #[trigger] is_last_field(a, at) ==> list.contains(at)
    &&& forall|i: int, j: int|
        0 <= i < j < list.len() ==> before(
            field_name(a, Some(#[trigger] list[i]))->0,
            field_name(a, Some(#[trigger] list[j]))->0,
        )
}

/// Findings about fields without members among the first `n` of a list.
pub open spec fn empty_findings(
    a: SceneArtifact,
    field: Seq<Option<usize>>,
    list: Seq<usize>,
    n: nat,
) -> Seq<Finding>
    decreases n,
{
    if n == 0 {
        Seq::empty()
    } else {
        let at = list[n - 1];
        let id = field_name(a, Some(at))->0;
        empty_findings(a, field, list, (n - 1) as nat) + found_if(
            !has_member(a, field, id),
            node_path(at as nat) + "/kind"@,
            "GlassField '"@ + id + "' must contain at least one Glass member"@,
        )
    }
}

fn check_paint(artifact: &SceneArtifact, at: usize, owner: &str, errors: &mut Vec<ValidationError>)
    requires
        at < artifact.nodes@.len(),
    ensures
        findings(final(errors)@) == findings(old(errors)@) + all_paint(
            *artifact,
            at as nat,
            owner@,
        ),
{
    let node = &artifact.nodes[at];
    let mut i: usize = 0;
    assert(findings(errors@) =~= findings(old(errors)@) + paint_findings(
        *node,
        at as nat,
        owner@,
        0,
    ));
    while i < node.styles.len()
        invariant
            i <= node.styles@.len(),
            at < artifact.nodes@.len(),
            *node == artifact.nodes@[at as int],
            findings(errors@) == findings(old(errors)@) + paint_findings(
                *node,
                at as nat,
                owner@,
                i as nat,
            ),
        decreases node.styles@.len() - i,
    {
        let property = node.styles[i].property.as_str();
        if is_paint(property) {
            let message = joined(
                said5(owner, " '", node.key.as_str(), "' has a paint style `", property),
                "` inside a GlassField; field members and wrappers cannot paint outside the shared material",
            );
            report(errors, joined(node_place(at, "/kind"), "/styles"), message.as_str());
        }
        i = i + 1;
        assert(findings(errors@) =~= findings(old(errors)@) + paint_findings(
            *node,
            at as nat,
            owner@,
            i as nat,
        ));
    }
}

fn check_shell(artifact: &SceneArtifact, at: usize, errors: &mut Vec<ValidationError>)
    requires
        at < artifact.nodes@.len(),
    ensures
        findings(final(errors)@) == findings(old(errors)@) + shell_findings(
            artifact.nodes@[at as int],
            at as nat,
            artifact.nodes@[at as int].styles@.len(),
        ),
{
    let node = &artifact.nodes[at];
    let mut i: usize = 0;
    assert(findings(errors@) =~= findings(old(errors)@) + shell_findings(*node, at as nat, 0));
    while i < node.styles.len()
        invariant
            i <= node.styles@.len(),
            findings(errors@) == findings(old(errors)@) + shell_findings(
                *node,
                at as nat,
                i as nat,
            ),
        decreases node.styles@.len() - i,
    {
        let property = node.styles[i].property.as_str();
        if is_shell_paint(property) {
            let message = said5(
                "Glass shell '",
                node.key.as_str(),
                "' cannot paint `",
                property,
                "`; put ordinary pixels in its foreground children",
            );
            report(errors, node_place(at, "/styles"), message.as_str());
        }
        i = i + 1;
        assert(findings(errors@) =~= findings(old(errors)@) + shell_findings(
            *node,
            at as nat,
            i as nat,
        ));
    }
}

fn name_at<'a>(artifact: &'a SceneArtifact, at: usize) -> (r: &'a str)
    requires
        is_field(*artifact, at as int),
    ensures
        field_name(*artifact, Some(at)) == Some(r@),
{
    match &artifact.nodes[at].kind {
        NodeKind::GlassField(node) => node.field_id.as_str(),
        _ => "",
    }
}

fn check_nested(artifact: &SceneArtifact, at: usize, errors: &mut Vec<ValidationError>)
    requires
        is_field(*artifact, at as int),
    ensures
        findings(final(errors)@) == findings(old(errors)@) + nested_findings(*artifact, at as nat),
{
    let line = ancestors(artifact, parent_index(artifact, at));
    let mut i: usize = 0;
    while i < line.len()
        invariant
            i <= line@.len(),
            is_field(*artifact, at as int),
            line@ == lineage(*artifact, parent_of(*artifact, at as int)),
            forall|k: int| 0 <= k < line@.len() ==> (#[trigger] line@[k]) < artifact.nodes@.len(),
            first_glass(*artifact, line@, 0) == first_glass(*artifact, line@, i as int),
            findings(errors@) == findings(old(errors)@),
        decreases line@.len() - i,
    {
        assert(line@[i as int] < artifact.nodes@.len());
        match &artifact.nodes[line[i]].kind {
            NodeKind::Glass(_) => {
                assert(findings(errors@) =~= findings(old(errors)@) + nested_findings(
                    *artifact,
                    at as nat,
                ));
                return;
            },
            NodeKind::GlassField(_) => {
                let message = said5(
                    "GlassField '",
                    name_at(artifact, at),
                    "' is structurally nested inside GlassField '",
                    name_at(artifact, line[i]),
                    "'; nested fields belong in a member foreground",
                );
                report(errors, joined(node_place(at, "/kind"), "/fieldId"), message.as_str());
                assert(findings(errors@) =~= findings(old(errors)@) + nested_findings(
                    *artifact,
                    at as nat,
                ));
                return;
            },
            _ => {},
        }
        i = i + 1;
    }
    assert(findings(errors@) =~= findings(old(errors)@) + nested_findings(*artifact, at as nat));
}

fn check_member(artifact: &SceneArtifact, at: usize, field: usize, errors: &mut Vec<ValidationError>)
    requires
        at < artifact.nodes@.len(),
        is_field(*artifact, field as int),
    ensures
        findings(final(errors)@) == findings(old(errors)@) + member_findings(
            *artifact,
            at as nat,
            field,
        ),
{
    check_paint(artifact, at, "Glass member", errors);
    let ghost start = findings(errors@);
    match field_before(&artifact.nodes, name_at(artifact, field), artifact.nodes.len()) {
        None => {},
        Some(root) => {
            let line = ancestors(artifact, parent_index(artifact, at));
            let mut i: usize = 0;
            assert(findings(errors@) =~= start + wrapper_findings(*artifact, line@, 0));
            while i < line.len() && line[i] != root
                invariant
                    i <= line@.len(),
                    forall|k: int|
                        0 <= k < line@.len() ==> (#[trigger] line@[k]) < artifact.nodes@.len(),
                    below_root(line@, root, 0) == below_root(line@, root, i as nat),
                    findings(errors@) == start + wrapper_findings(*artifact, line@, i as nat),
                decreases line@.len() - i,
            {
                assert(line@[i as int] < artifact.nodes@.len());
                check_paint(artifact, line[i], "Glass field wrapper", errors);
                i = i + 1;
                assert(findings(errors@) =~= start + wrapper_findings(*artifact, line@, i as nat));
            }
        },
    }
    assert(findings(errors@) =~= findings(old(errors)@) + member_findings(
        *artifact,
        at as nat,
        field,
    ));
}

fn check_place(
    artifact: &SceneArtifact,
    field: &Vec<Option<usize>>,
    at: usize,
    errors: &mut Vec<ValidationError>,
)
    requires
        at < artifact.nodes@.len(),
        field@.len() == artifact.nodes@.len(),
        forall|i: int|
            0 <= i < field@.len() ==> (#[trigger] field@[i] matches Some(f) ==> is_field(
                *artifact,
                f as int,
            )),
    ensures
        findings(final(errors)@) == findings(old(errors)@) + place_findings(
            *artifact,
            field@,
            at as nat,
        ),
{
    assert(field@[at as int] == field@[at as int]);
    match &artifact.nodes[at].kind {
        NodeKind::GlassField(_) => {
            check_paint(artifact, at, "GlassField", errors);
            check_nested(artifact, at, errors);
        },
        NodeKind::Glass(_) => {
            check_shell(artifact, at, errors);
            match field[at] {
                Some(f) => check_member(artifact, at, f, errors),
                None => {},
            }
        },
        NodeKind::Group | NodeKind::Box => {
            if field[at].is_some() {
                check_paint(artifact, at, "Glass field wrapper", errors);
            }
        },
        _ => {
            match field[at] {
                Some(f) => {
                    let message = said5(
                        "GlassField '",
                        name_at(artifact, f),
                        "' contains ordinary painted node '",
                        artifact.nodes[at].key.as_str(),
                        "' outside a member Glass foreground",
                    );
                    report(errors, node_place(at, "/kind"), message.as_str());
                },
                None => {},
            }
        },
    }
    assert(findings(errors@) =~= findings(old(errors)@) + place_findings(
        *artifact,
        field@,
        at as nat,
    ));
}

proof fn last_is_unique(a: SceneArtifact, x: usize, y: usize)
    requires
        is_last_field(a, x),
        is_last_field(a, y),
        field_name(a, Some(x)) == field_name(a, Some(y)),
    ensures
        x == y,
{
}

fn field_list(artifact: &SceneArtifact) -> (r: Vec<usize>)
    ensures
        lists_fields(*artifact, r@),
{
    let mut lasts: Vec<usize> = Vec::new();
    let mut names: Vec<String> = Vec::new();
    let mut at: usize = 0;
    while at < artifact.nodes.len()
        invariant
            at <= artifact.nodes@.len(),
            names@.len() == lasts@.len(),
            forall|i: int| 0 <= i < lasts@.len() ==> is_last_field(*artifact, #[trigger] lasts@[i])
                && lasts@[i] < at,
            forall|i: int|
                0 <= i < names@.len() ==> field_name(*artifact, Some(lasts@[i])) == Some(
                    (#[trigger] names@[i])@,
                ),
            forall|x: usize| x < at && #[trigger] is_last_field(*artifact, x) ==> lasts@.contains(x),
            forall|i: int, j: int| 0 <= i < j < lasts@.len() ==> lasts@[i] < lasts@[j],
        decreases artifact.nodes@.len() - at,
    {
        let ghost before_lasts = lasts@;
        let is_here: bool = match &artifact.nodes[at].kind {
            NodeKind::GlassField(node) => match field_before(
                &artifact.nodes,
                node.field_id.as_str(),
                artifact.nodes.len(),
            ) {
                Some(f) => f == at,
                None => false,
            },
            _ => false,
        };
        assert(is_here == is_last_field(*artifact, at));
        if is_here {
            names.push(name_at(artifact, at).to_owned());
            lasts.push(at);
        }
        proof {
            assert forall|x: usize|
                x < at + 1 && #[trigger] is_last_field(*artifact, x) implies lasts@.contains(x) by {
                if x < at {
                    let k = choose|k: int| 0 <= k < before_lasts.len() && before_lasts[k] == x;
                    assert(before_lasts.contains(x));
                    assert(lasts@[k] == x);
                } else {
                    assert(lasts@[lasts@.len() - 1] == x);
                }
            }
        }
        at = at + 1;
    }
    let order = sorted_positions(&names);
    let ghost keys = keys_of(names@);
    let mut out: Vec<usize> = Vec::new();
    let mut i: usize = 0;
    while i < order.len()
        invariant
            i <= order@.len(),
            order@.len() == lasts@.len(),
            forall|k: int| 0 <= k < order@.len() ==> (#[trigger] order@[k]) < lasts@.len(),
            out@.len() == i,
            forall|k: int| 0 <= k < i ==> #[trigger] out@[k] == lasts@[order@[k] as int],
        decreases order@.len() - i,
    {
        assert(order@[i as int] < lasts@.len());
        out.push(lasts[order[i]]);
        i = i + 1;
    }
    proof {
        assert forall|x: usize| #[trigger] is_last_field(*artifact, x) implies out@.contains(x) by {
            assert(lasts@.contains(x));
            let k = choose|k: int| 0 <= k < lasts@.len() && lasts@[k] == x;
            assert(order@.contains(k as usize));
            let m = choose|m: int| 0 <= m < order@.len() && order@[m] == k as usize;
            assert(out@[m] == x);
        }
        assert forall|a: int, b: int| 0 <= a < b < out@.len() implies before(
            field_name(*artifact, Some(#[trigger] out@[a]))->0,
            field_name(*artifact, Some(#[trigger] out@[b]))->0,
        ) by {
            let x = order@[a];
            let y = order@[b];
            assert(sorted_pair(keys, x, y));
            assert(keys[x as int] == names@[x as int]@);
            assert(keys[y as int] == names@[y as int]@);
            assert(is_last_field(*artifact, lasts@[x as int]));
            assert(is_last_field(*artifact, lasts@[y as int]));
            if keys[x as int] == keys[y as int] && x < y {
                last_is_unique(*artifact, lasts@[x as int], lasts@[y as int]);
                assert(lasts@[x as int] < lasts@[y as int]);
            }
        }
    }
    out
}

fn any_member(artifact: &SceneArtifact, field: &Vec<Option<usize>>, id: &str) -> (r: bool)
    requires
        field@.len() == artifact.nodes@.len(),
        forall|i: int|
            0 <= i < field@.len() ==> (#[trigger] field@[i] matches Some(f) ==> is_field(
                *artifact,
                f as int,
            )),
    ensures
        r == has_member(*artifact, field@, id@),
{
    let mut i: usize = 0;
    while i < artifact.nodes.len()
        invariant
            i <= artifact.nodes@.len(),
            field@.len() == artifact.nodes@.len(),
            forall|k: int|
                0 <= k < field@.len() ==> (#[trigger] field@[k] matches Some(f) ==> is_field(
                    *artifact,
                    f as int,
                )),
            forall|k: int| 0 <= k < i ==> !#[trigger] is_member(*artifact, field@, k, id@),
        decreases artifact.nodes@.len() - i,
    {
        assert(field@[i as int] == field@[i as int]);
        let hit: bool = match (&artifact.nodes[i].kind, field[i]) {
            (NodeKind::Glass(_), Some(f)) => same_text(name_at(artifact, f), id),
            _ => false,
        };
        assert(hit == is_member(*artifact, field@, i as int, id@));
        if hit {
            return true;
        }
        i = i + 1;
    }
    false
}

/// Checks the structure of all fields: painted wrappers and members, ordinary nodes outside a
/// foreground, fields directly inside fields, and fields without members.
pub(crate) fn validate_field_structure(artifact: &SceneArtifact, field: &Vec<Option<usize>>) -> (r:
    Vec<ValidationError>)
    requires
        field@.len() == artifact.nodes@.len(),
        forall|i: int|
            0 <= i < field@.len() ==> (#[trigger] field@[i] matches Some(f) ==> is_field(
                *artifact,
                f as int,
            )),
    ensures
        structure_found(*artifact, field@, findings(r@)),
{
    let mut errors: Vec<ValidationError> = Vec::new();
    let mut at: usize = 0;
    assert(findings(errors@) =~= places_findings(*artifact, field@, 0));
    while at < artifact.nodes.len()
        invariant
            at <= artifact.nodes@.len(),
            field@.len() == artifact.nodes@.len(),
            forall|i: int|
                0 <= i < field@.len() ==> (#[trigger] field@[i] matches Some(f) ==> is_field(
                    *artifact,
                    f as int,
                )),
            findings(errors@) == places_findings(*artifact, field@, at as nat),
        decreases artifact.nodes@.len() - at,
    {
        check_place(artifact, field, at, &mut errors);
        at = at + 1;
    }
    let list = field_list(artifact);
    let ghost start = findings(errors@);
    let mut i: usize = 0;
    assert(findings(errors@) =~= start + empty_findings(*artifact, field@, list@, 0));
    while i < list.len()
        invariant
            i <= list@.len(),
            lists_fields(*artifact, list@),
            field@.len() == artifact.nodes@.len(),
            forall|k: int|
                0 <= k < field@.len() ==> (#[trigger] field@[k] matches Some(f) ==> is_field(
                    *artifact,
                    f as int,
                )),
            findings(errors@) == start + empty_findings(*artifact, field@, list@, i as nat),
        decreases list@.len() - i,
    {
        assert(is_last_field(*artifact, list@[i as int]));
        let id = name_at(artifact, list[i]);
        if !any_member(artifact, field, id) {
            let message = said3("GlassField '", id, "' must contain at least one Glass member");
            report(&mut errors, node_place(list[i], "/kind"), message.as_str());
        }
        i = i + 1;
        assert(findings(errors@) =~= start + empty_findings(*artifact, field@, list@, i as nat));
    }
    errors
}

/// Whether findings are those about the structure of all fields.
pub open spec fn structure_found(
    a: SceneArtifact,
    field: Seq<Option<usize>>,
    found: Seq<Finding>,
) -> bool {
    exists|list: Seq<usize>| #[trigger]
        lists_fields(a, list) && found == places_findings(a, field, a.nodes@.len())
            + empty_findings(a, field, list, list.len())
}

/// Whether findings are those about one node: about a surface, a field, or none.
pub open spec fn node_found(
    a: SceneArtifact,
    field: Seq<Option<usize>>,
    lengths: Seq<Scalar>,
    at: int,
    found: Seq<Finding>,
) -> bool {
    match a.nodes@[at].kind {
        NodeKind::Glass(g) => exists|unknown: bool| #[trigger]
            search_ends(a, at, unknown) && found == glass_findings(
                a,
                at as nat,
                g,
                field_name(a, field[at]),
                lengths[at],
                unknown,
            ),
        NodeKind::GlassField(f) => found == field_findings(a, at as nat, f, lengths[at]),
        _ => found == Seq::<Finding>::empty(),
    }
}

/// The first `n` lists in a row.
pub open spec fn all_of(lists: Seq<Seq<Finding>>, n: nat) -> Seq<Finding>
    decreases n,
{
    if n == 0 { Seq::empty() } else { all_of(lists, (n - 1) as nat) + lists[n - 1] }
}

pub open spec fn tree_findings(is_tree: bool) -> Seq<Finding> {
    found_if(
        !is_tree,
        "/nodes"@,
        "Glass validation requires a rooted tree with valid, non-cyclic child links"@,
    )
}

/// Whether findings are all those about the surfaces and fields of a scene. `lengths` holds the length
/// of each node's fixed light direction.
pub open spec fn schema_found(a: SceneArtifact, lengths: Seq<Scalar>, all: Seq<Finding>) -> bool {
    exists|m: Membership, lists: Seq<Seq<Finding>>, last: Seq<Finding>|
        #![trigger found(a, m), all_of(lists, a.nodes@.len()), structure_found(a, m.field@, last)]
        found(a, m) && lists.len() == a.nodes@.len() && nodes_found(a, m.field@, lengths, lists)
            && structure_found(a, m.field@, last) && all == tree_findings(m.is_tree) + all_of(
            lists,
            a.nodes@.len(),
        ) + last
}

pub open spec fn nodes_found(
    a: SceneArtifact,
    field: Seq<Option<usize>>,
    lengths: Seq<Scalar>,
    lists: Seq<Seq<Finding>>,
) -> bool {
    forall|i: int| 0 <= i < lists.len() ==> node_found(a, field, lengths, i, #[trigger] lists[i])
}

proof fn all_of_prefix(lists: Seq<Seq<Finding>>, more: Seq<Finding>, n: nat)
    requires
        n <= lists.len(),
    ensures
        all_of(lists.push(more), n) == all_of(lists, n),
    decreases n,
{
    if n > 0 {
        all_of_prefix(lists, more, (n - 1) as nat);
    }
}

/// Checks all glass surfaces and fields of a scene. `lengths` holds the length of each node's fixed
/// light direction, as the host computes it.
pub fn validate_glass_schema(artifact: &SceneArtifact, lengths: &Vec<Scalar>) -> (r: Result<
    (),
    Vec<ValidationError>,
>)
    requires
        lengths@.len() == artifact.nodes@.len(),
    ensures
        match r {
            Ok(_) => schema_found(*artifact, lengths@, Seq::empty()),
            Err(errors) => errors@.len() > 0 && schema_found(
                *artifact,
                lengths@,
                findings(errors@),
            ),
        },
{
    let mut errors: Vec<ValidationError> = Vec::new();
    let continuity = infer_continuity(&artifact.exprs);
    let m = checked_field_membership(artifact);
    if !m.is_tree {
        report(
            &mut errors,
            "/nodes".to_owned(),
            "Glass validation requires a rooted tree with valid, non-cyclic child links",
        );
    }
    let ghost tree = tree_findings(m.is_tree);
    let ghost mut lists: Seq<Seq<Finding>> = Seq::empty();
    let mut at: usize = 0;
    assert(findings(errors@) =~= tree + all_of(lists, 0));
    while at < artifact.nodes.len()
        invariant
            at <= artifact.nodes@.len(),
            lengths@.len() == artifact.nodes@.len(),
            m.field@.len() == artifact.nodes@.len(),
            forall|i: int|
                0 <= i < m.field@.len() ==> (#[trigger] m.field@[i] matches Some(f) ==> is_field(
                    *artifact,
                    f as int,
                )),
            crate::continuity::have_ranks(
                continuity@,
                crate::continuity::ranks(artifact.exprs@, artifact.exprs@.len()),
            ),
            lists.len() == at,
            nodes_found(*artifact, m.field@, lengths@, lists),
            findings(errors@) == tree + all_of(lists, at as nat),
        decreases artifact.nodes@.len() - at,
    {
        let ghost start = findings(errors@);
        assert(m.field@[at as int] == m.field@[at as int]);
        let mine: Vec<ValidationError> = match &artifact.nodes[at].kind {
            NodeKind::Glass(glass) => {
                let actual: Option<&str> = match m.field[at] {
                    Some(f) => Some(name_at(artifact, f)),
                    None => None,
                };
                let ghost name = field_name(*artifact, m.field@[at as int]);
                validate_glass_node(
                    artifact,
                    at,
                    glass,
                    &continuity,
                    actual,
                    Ghost(name),
                    lengths[at],
                )
            },
            NodeKind::GlassField(field) => {
                let mut own: Vec<ValidationError> = Vec::new();
                validate_field_node(artifact, at, field, lengths[at], &mut own);
                assert(findings(own@) =~= field_findings(
                    *artifact,
                    at as nat,
                    *field,
                    lengths@[at as int],
                ));
                own
            },
            _ => {
                let own: Vec<ValidationError> = Vec::new();
                assert(findings(own@) =~= Seq::<Finding>::empty());
                own
            },
        };
        let ghost here = findings(mine@);
        extend(&mut errors, mine);
        proof {
            all_of_prefix(lists, here, at as nat);
            let now = lists.push(here);
            assert forall|i: int| 0 <= i < now.len() implies node_found(
                *artifact,
                m.field@,
                lengths@,
                i,
                #[trigger] now[i],
            ) by {
                if i < at {
                    assert(now[i] == lists[i]);
                }
            }
            lists = now;
            assert(findings(errors@) =~= tree + all_of(lists, (at + 1) as nat));
        }
        at = at + 1;
    }
    let last = validate_field_structure(artifact, &m.field);
    let ghost end = findings(last@);
    extend(&mut errors, last);
    assert(found(*artifact, m));
    assert(structure_found(*artifact, m.field@, end));
    assert(schema_found(*artifact, lengths@, findings(errors@)));
    if errors.len() == 0 {
        assert(findings(errors@) =~= Seq::empty());
        Ok(())
    } else {
        Err(errors)
    }
}

proof fn no_paint_found(node: SceneNode, at: nat, owner: Seq<char>, n: nat, k: int)
    requires
        paint_findings(node, at, owner, n).len() == 0,
        0 <= k < n,
    ensures
        !paints_or_reorders(node.styles@[k].property@),
    decreases n,
{
    if k < n - 1 {
        no_paint_found(node, at, owner, (n - 1) as nat, k);
    }
}

proof fn no_place_found(a: SceneArtifact, field: Seq<Option<usize>>, n: nat, at: nat)
    requires
        places_findings(a, field, n).len() == 0,
        at < n,
    ensures
        place_findings(a, field, at).len() == 0,
    decreases n,
{
    if at < n - 1 {
        no_place_found(a, field, (n - 1) as nat, at);
    }
}

proof fn nothing_found(lists: Seq<Seq<Finding>>, n: nat, i: int)
    requires
        all_of(lists, n).len() == 0,
        0 <= i < n,
    ensures
        lists[i].len() == 0,
    decreases n,
{
    if i < n - 1 {
        nothing_found(lists, (n - 1) as nat, i);
    }
}

proof fn no_earlier_surface(nodes: Seq<SceneNode>, id: Seq<char>, n: nat, i: int)
    requires
        last_surface(nodes, id, n) is None,
        0 <= i < n,
    ensures
        !(nodes[i].kind matches NodeKind::Glass(g) && g.surface_id@ == id),
    decreases n,
{
    if i < n - 1 {
        no_earlier_surface(nodes, id, (n - 1) as nat, i);
    }
}

proof fn no_earlier_field(nodes: Seq<SceneNode>, id: Seq<char>, n: nat, i: int)
    requires
        last_field(nodes, id, n) is None,
        0 <= i < n,
    ensures
        !(nodes[i].kind matches NodeKind::GlassField(g) && g.field_id@ == id),
    decreases n,
{
    if i < n - 1 {
        no_earlier_field(nodes, id, (n - 1) as nat, i);
    }
}

proof fn a_field_is_last(nodes: Seq<SceneNode>, id: Seq<char>, n: nat, at: int)
    requires
        0 <= at < n <= usize::MAX,
        nodes[at].kind matches NodeKind::GlassField(g) && g.field_id@ == id,
        forall|j: int|
            at < j < n ==> !((#[trigger] nodes[j]).kind matches NodeKind::GlassField(g)
                && g.field_id@ == id),
    ensures
        last_field(nodes, id, n) == Some(at as usize),
    decreases n,
{
    if at < n - 1 {
        assert(!(nodes[n - 1].kind matches NodeKind::GlassField(g) && g.field_id@ == id));
        a_field_is_last(nodes, id, (n - 1) as nat, at);
    }
}

proof fn no_empty_found(a: SceneArtifact, field: Seq<Option<usize>>, list: Seq<usize>, n: nat, i: int)
    requires
        empty_findings(a, field, list, n).len() == 0,
        0 <= i < n,
    ensures
        has_member(a, field, field_name(a, Some(list[i]))->0),
    decreases n,
{
    if i < n - 1 {
        no_empty_found(a, field, list, (n - 1) as nat, i);
    }
}

/// The identifier of the surface at a node.
pub open spec fn surface_name(a: SceneArtifact, at: int) -> Option<Seq<char>> {
    match a.nodes@[at].kind {
        NodeKind::Glass(g) => Some(g.surface_id@),
        _ => None,
    }
}

/// Whether no two surfaces share an identifier.
pub open spec fn surfaces_are_distinct(a: SceneArtifact) -> bool {
    forall|i: int, j: int|
        0 <= i < j < a.nodes@.len() && is_glass(a, i) && is_glass(a, j) ==> #[trigger] surface_name(
            a,
            i,
        ) != #[trigger] surface_name(a, j)
}

/// Whether no two fields share an identifier.
pub open spec fn fields_are_distinct(a: SceneArtifact) -> bool {
    forall|i: usize, j: usize|
        i < j < a.nodes@.len() && is_field(a, i as int) && is_field(a, j as int)
            ==> #[trigger] field_name(a, Some(i)) != #[trigger] field_name(a, Some(j))
}

/// Whether a surface records the field that collects it; as a member it declares nothing that its
/// field decides, and on its own it declares its material and environment.
pub open spec fn is_sound_surface(a: SceneArtifact, field: Seq<Option<usize>>, at: int) -> bool {
    match a.nodes@[at].kind {
        NodeKind::Glass(g) => {
            &&& declared_field(g) == field_name(a, field[at])
            &&& g.field_id is Some ==> g.material is None && g.environment is None
                && g.motion.character is None && g.motion.settle is None
            &&& g.field_id is None ==> g.material is Some && g.environment is Some
        },
        _ => true,
    }
}

pub open spec fn surfaces_are_sound(a: SceneArtifact, field: Seq<Option<usize>>) -> bool {
    forall|at: int| 0 <= at < a.nodes@.len() ==> #[trigger] is_sound_surface(a, field, at)
}

/// Whether every field has a member.
pub open spec fn no_field_is_empty(a: SceneArtifact, field: Seq<Option<usize>>) -> bool {
    forall|at: usize|
        at < a.nodes@.len() && is_field(a, at as int) ==> has_member(
            a,
            field,
            (#[trigger] field_name(a, Some(at)))->0,
        )
}

proof fn surfaces_accepted(
    a: SceneArtifact,
    field: Seq<Option<usize>>,
    lengths: Seq<Scalar>,
    lists: Seq<Seq<Finding>>,
)
    requires
        lists.len() == a.nodes@.len(),
        nodes_found(a, field, lengths, lists),
        all_of(lists, a.nodes@.len()).len() == 0,
    ensures
        surfaces_are_distinct(a),
        fields_are_distinct(a),
        surfaces_are_sound(a, field),
{
    assert(a.nodes.len() == a.nodes@.len());
    assert forall|at: int| 0 <= at < a.nodes@.len() implies #[trigger] is_sound_surface(
        a,
        field,
        at,
    ) && (is_glass(a, at) ==> last_surface(a.nodes@, surface_name(a, at)->0, at as nat) is None) && (
    is_field(a, at) ==> last_field(
        a.nodes@,
        field_name(a, Some(at as usize))->0,
        at as nat,
    ) is None) by {
        nothing_found(lists, a.nodes@.len(), at);
        assert(node_found(a, field, lengths, at, lists[at]));
        match a.nodes@[at].kind {
            NodeKind::Glass(g) => {
                let actual = field_name(a, field[at]);
                let unknown = choose|unknown: bool| #[trigger]
                    search_ends(a, at, unknown) && lists[at] == glass_findings(
                        a,
                        at as nat,
                        g,
                        actual,
                        lengths[at],
                        unknown,
                    );
                let identity = identity_findings(a, at as nat, g, actual);
                let ownership = ownership_findings(at as nat, g);
                let bindings = binding_findings(at as nat, g, lengths[at], unknown);
                assert(lists[at].len() == identity.len() + ownership.len() + bindings.len()
                    + crate::schema::track_findings(a, at as nat, g).len());
                assert(identity.len() == 0);
                assert(ownership.len() == 0);
            },
            NodeKind::GlassField(f) => {
                assert(field_name(a, Some(at as usize)) == Some(f.field_id@));
                if last_field(a.nodes@, f.field_id@, at as nat) is Some {
                    assert(field_findings(a, at as nat, f, lengths[at]).len() > 0);
                }
            },
            _ => {},
        }
    }
    assert forall|i: int, j: int|
        0 <= i < j < a.nodes@.len() && is_glass(a, i) && is_glass(a, j) implies #[trigger] surface_name(
        a,
        i,
    ) != #[trigger] surface_name(a, j) by {
        assert(is_sound_surface(a, field, j));
        no_earlier_surface(a.nodes@, surface_name(a, j)->0, j as nat, i);
    }
    assert forall|i: usize, j: usize|
        i < j < a.nodes@.len() && is_field(a, i as int) && is_field(
            a,
            j as int,
        ) implies #[trigger] field_name(a, Some(i)) != #[trigger] field_name(a, Some(j)) by {
        assert(is_sound_surface(a, field, j as int));
        no_earlier_field(a.nodes@, field_name(a, Some(j))->0, j as nat, i as int);
    }
}

proof fn fields_accepted(a: SceneArtifact, field: Seq<Option<usize>>, list: Seq<usize>)
    requires
        fields_are_distinct(a),
        lists_fields(a, list),
        empty_findings(a, field, list, list.len()).len() == 0,
    ensures
        no_field_is_empty(a, field),
{
    assert(a.nodes.len() == a.nodes@.len());
    assert forall|at: usize| at < a.nodes@.len() && is_field(a, at as int) implies has_member(
        a,
        field,
        (#[trigger] field_name(a, Some(at)))->0,
    ) by {
        let id = field_name(a, Some(at))->0;
        assert forall|j: int| at < j < a.nodes@.len() implies !((#[trigger] a.nodes@[j]).kind matches NodeKind::GlassField(
            g,
        ) && g.field_id@ == id) by {
            if is_field(a, j) {
                assert(field_name(a, Some(at)) != field_name(a, Some(j as usize)));
            }
        }
        a_field_is_last(a.nodes@, id, a.nodes@.len(), at as int);
        assert(is_last_field(a, at));
        let i = choose|i: int| 0 <= i < list.len() && list[i] == at;
        assert(list.contains(at));
        no_empty_found(a, field, list, list.len(), i);
    }
}

/// In an accepted scene every node is reached from the root exactly once, and has the field of its
/// nearest enclosing scope. Surfaces and fields have identifiers of their own. Every surface records its field, and
/// declares material and environment exactly where it has none. No field is empty, and no member of
/// one paints outside the shared material.
pub proof fn accepted_scenes_are_sound(a: SceneArtifact, lengths: Seq<Scalar>)
    requires
        schema_found(a, lengths, Seq::empty()),
    ensures
        exists|m: Membership| #[trigger]
            found(a, m) && m.is_tree && nearest(a, m.field@) && surfaces_are_sound(a, m.field@)
                && no_field_is_empty(a, m.field@) && members_do_not_paint(a, m.field@),
        forall|at: int| 0 <= at < a.nodes@.len() ==> #[trigger] reached_once(a, at),
        surfaces_are_distinct(a),
        fields_are_distinct(a),
{
    let none = Seq::<Finding>::empty();
    let (m, lists, last) = choose|
        m: Membership,
        lists: Seq<Seq<Finding>>,
        last: Seq<Finding>,
    |
        #![trigger found(a, m), all_of(lists, a.nodes@.len()), structure_found(a, m.field@, last)]
        found(a, m) && lists.len() == a.nodes@.len() && nodes_found(a, m.field@, lengths, lists)
            && structure_found(a, m.field@, last) && none == tree_findings(m.is_tree) + all_of(
            lists,
            a.nodes@.len(),
        ) + last;
    assert(none.len() == tree_findings(m.is_tree).len() + all_of(lists, a.nodes@.len()).len()
        + last.len());
    assert(m.is_tree);
    tree_membership_is_nearest(a, m);
    assert forall|at: int| 0 <= at < a.nodes@.len() implies #[trigger] reached_once(a, at) by {
        trees_reach_every_node_once(a, m, at);
    }
    let list = choose|list: Seq<usize>| #[trigger]
        lists_fields(a, list) && last == places_findings(a, m.field@, a.nodes@.len())
            + empty_findings(a, m.field@, list, list.len());
    assert(last.len() == places_findings(a, m.field@, a.nodes@.len()).len() + empty_findings(
        a,
        m.field@,
        list,
        list.len(),
    ).len());
    assert(places_findings(a, m.field@, a.nodes@.len()).len() == 0);
    surfaces_accepted(a, m.field@, lengths, lists);
    fields_accepted(a, m.field@, list);
    assert forall|at: int, k: int|
        0 <= at < a.nodes@.len() && is_glass(a, at) && m.field@[at] is Some && 0 <= k
            < a.nodes@[at].styles@.len() implies !paints_or_reorders(
        (#[trigger] a.nodes@[at].styles@[k]).property@,
    ) by {
        no_place_found(a, m.field@, a.nodes@.len(), at as nat);
        let f = m.field@[at]->0;
        assert(member_findings(a, at as nat, f).len() == 0);
        assert(all_paint(a, at as nat, "Glass member"@).len() == 0);
        no_paint_found(
            a.nodes@[at],
            at as nat,
            "Glass member"@,
            a.nodes@[at].styles@.len(),
            k,
        );
    }
    assert(found(a, m));
}

/// Whether no surface that belongs to a field paints outside the shared material.
pub open spec fn members_do_not_paint(a: SceneArtifact, field: Seq<Option<usize>>) -> bool {
    forall|at: int, k: int|
        0 <= at < a.nodes@.len() && is_glass(a, at) && field[at] is Some && 0 <= k
            < a.nodes@[at].styles@.len() ==> !paints_or_reorders(
            (#[trigger] a.nodes@[at].styles@[k]).property@,
        )
}

} // verus!
