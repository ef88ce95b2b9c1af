//! Laws of the glass schema: a scene has one list of findings, and tracks are refused by it alone.

use vstd::prelude::*;

use crate::admission::Finding;
use crate::artifact::{NodeKind, SceneArtifact};
use crate::eval::{Kernel, KernelError, MotionContext};
use crate::lineage::{search_ends, searched};
use crate::membership::{all_seen, ended, field_name, found, walked, Membership};
use crate::order::{before, texts_are_ordered};
use crate::scalar::Scalar;
use crate::schema::glass_findings;
use crate::structure::{
    all_of, empty_findings, is_last_field, lists_fields, node_found, nodes_found, places_findings,
    schema_found, structure_found, tree_findings,
};
use crate::tracks::{
    are_samples, instant_fails, instants_sampled, sample_gives, surfaces, tracks_give, tracks_told,
    GlassSurfaceTrackSample, TrackFault,
};
use crate::value::MotionValue;

verus! {

proof fn ended_walks_rest(a: SceneArtifact, m: nat, n: nat)
    requires
        m <= n,
        ended(walked(a, m)),
    ensures
        walked(a, n) == walked(a, m),
    decreases n - m,
{
    if m < n {
        ended_walks_rest(a, m, (n - 1) as nat);
    }
}

/// A scene has one membership.
pub proof fn membership_is_decided(a: SceneArtifact, x: Membership, y: Membership)
    requires
        found(a, x),
        found(a, y),
    ensures
        x.field@ == y.field@,
        x.is_tree == y.is_tree,
{
    let m = choose|n: nat| #[trigger]
        ended(walked(a, n)) && x.field@ == walked(a, n).field && x.is_tree == (walked(a, n).sound
            && all_seen(walked(a, n)));
    let n = choose|n: nat| #[trigger]
        ended(walked(a, n)) && y.field@ == walked(a, n).field && y.is_tree == (walked(a, n).sound
            && all_seen(walked(a, n)));
    if m <= n {
        ended_walks_rest(a, m, n);
    } else {
        ended_walks_rest(a, n, m);
    }
}

proof fn decided_searches_rest(a: SceneArtifact, glass: int, m: nat, n: nat)
    requires
        m <= n,
        searched(a, glass, m).outcome is Some,
    ensures
        searched(a, glass, n).outcome == searched(a, glass, m).outcome,
    decreases n - m,
{
    if m < n {
        decided_searches_rest(a, glass, m, (n - 1) as nat);
    }
}

proof fn searches_are_decided(a: SceneArtifact, glass: int, x: bool, y: bool)
    requires
        search_ends(a, glass, x),
        search_ends(a, glass, y),
    ensures
        x == y,
{
    let m = choose|n: nat| (#[trigger] searched(a, glass, n)).outcome == Some(x);
    let n = choose|n: nat| (#[trigger] searched(a, glass, n)).outcome == Some(y);
    if m <= n {
        decided_searches_rest(a, glass, m, n);
    } else {
        decided_searches_rest(a, glass, n, m);
    }
}

proof fn nodes_are_decided(
    a: SceneArtifact,
    field: Seq<Option<usize>>,
    lengths: Seq<Scalar>,
    x: Seq<Seq<Finding>>,
    y: Seq<Seq<Finding>>,
)
    requires
        x.len() == y.len() == a.nodes@.len(),
        nodes_found(a, field, lengths, x),
        nodes_found(a, field, lengths, y),
    ensures
        x == y,
{
    assert forall|i: int| 0 <= i < x.len() implies x[i] == y[i] by {
        assert(node_found(a, field, lengths, i, x[i]));
        assert(node_found(a, field, lengths, i, y[i]));
        match a.nodes@[i].kind {
            NodeKind::Glass(g) => {
                let name = field_name(a, field[i]);
                let p = choose|unknown: bool| #[trigger]
                    search_ends(a, i, unknown) && x[i] == glass_findings(
                        a,
                        i as nat,
                        g,
                        name,
                        lengths[i],
                        unknown,
                    );
                let q = choose|unknown: bool| #[trigger]
                    search_ends(a, i, unknown) && y[i] == glass_findings(
                        a,
                        i as nat,
                        g,
                        name,
                        lengths[i],
                        unknown,
                    );
                searches_are_decided(a, i, p, q);
            },
            _ => {},
        }
    }
    assert(x =~= y);
}

spec fn name(a: SceneArtifact, at: usize) -> Seq<char> {
    field_name(a, Some(at))->0
}

proof fn same_field(a: SceneArtifact, x: Seq<usize>, y: Seq<usize>, k: int)
    requires
        lists_fields(a, x),
        lists_fields(a, y),
        0 <= k < x.len(),
    ensures
        k < y.len(),
        x[k] == y[k],
    decreases k,
{
    assert(is_last_field(a, x[k]));
    assert(y.contains(x[k]));
    let j = choose|j: int| 0 <= j < y.len() && y[j] == x[k];
    if j < k {
        same_field(a, x, y, j);
        assert(before(name(a, x[j]), name(a, x[k])));
        texts_are_ordered(name(a, x[j]), name(a, x[k]), name(a, x[j]));
    }
    assert(is_last_field(a, y[k]));
    assert(x.contains(y[k]));
    let i = choose|i: int| 0 <= i < x.len() && x[i] == y[k];
    if i < k {
        same_field(a, x, y, i);
        assert(before(name(a, y[i]), name(a, y[k])));
        texts_are_ordered(name(a, y[i]), name(a, y[k]), name(a, y[i]));
    } else if k < j {
        assert(before(name(a, y[k]), name(a, y[j])));
        texts_are_ordered(name(a, y[k]), name(a, y[j]), name(a, y[k]));
        if k < i {
            assert(before(name(a, x[k]), name(a, x[i])));
        }
    }
}

proof fn fields_are_decided(a: SceneArtifact, x: Seq<usize>, y: Seq<usize>)
    requires
        lists_fields(a, x),
        lists_fields(a, y),
    ensures
        x == y,
{
    assert forall|k: int| 0 <= k < x.len() implies k < y.len() && x[k] == y[k] by {
        same_field(a, x, y, k);
    }
    if y.len() > x.len() {
        same_field(a, y, x, x.len() as int);
    } else if x.len() > y.len() {
        same_field(a, x, y, y.len() as int);
    }
    assert(x =~= y);
}

/// A scene has one list of findings.
pub proof fn schema_is_decided(
    a: SceneArtifact,
    lengths: Seq<Scalar>,
    x: Seq<Finding>,
    y: Seq<Finding>,
)
    requires
        schema_found(a, lengths, x),
        schema_found(a, lengths, y),
    ensures
        x == y,
{
    let (m, p, last) = choose|m: Membership, lists: Seq<Seq<Finding>>, last: Seq<Finding>|
        #![trigger found(a, m), all_of(lists, a.nodes@.len()), structure_found(a, m.field@, last)]
        found(a, m) && lists.len() == a.nodes@.len() && nodes_found(a, m.field@, lengths, lists)
            && structure_found(a, m.field@, last) && x == tree_findings(m.is_tree) + all_of(
            lists,
            a.nodes@.len(),
        ) + last;
    let (n, q, end) = choose|m: Membership, lists: Seq<Seq<Finding>>, last: Seq<Finding>|
        #![trigger found(a, m), all_of(lists, a.nodes@.len()), structure_found(a, m.field@, last)]
        found(a, m) && lists.len() == a.nodes@.len() && nodes_found(a, m.field@, lengths, lists)
            && structure_found(a, m.field@, last) && y == tree_findings(m.is_tree) + all_of(
            lists,
            a.nodes@.len(),
        ) + last;
    membership_is_decided(a, m, n);
    nodes_are_decided(a, m.field@, lengths, p, q);
    let f = choose|list: Seq<usize>| #[trigger]
        lists_fields(a, list) && last == places_findings(a, m.field@, a.nodes@.len())
            + empty_findings(a, m.field@, list, list.len());
    let g = choose|list: Seq<usize>| #[trigger]
        lists_fields(a, list) && end == places_findings(a, n.field@, a.nodes@.len())
            + empty_findings(a, n.field@, list, list.len());
    fields_are_decided(a, f, g);
}

/// Sampling tracks never ends in a schema error of its own.
pub proof fn tracks_fail_otherwise<
    K: Fn(&Kernel) -> Result<MotionValue, KernelError>,
    T: Fn(&MotionValue) -> String,
>(host: K, tokens: T, a: SceneArtifact, contexts: Seq<Option<MotionContext>>, message: Seq<char>)
    ensures
        !tracks_give(host, tokens, a, contexts, Err(TrackFault::Schema(message))),
{
    if tracks_give(host, tokens, a, contexts, Err(TrackFault::Schema(message))) {
        let lists = choose|lists: Seq<Seq<GlassSurfaceTrackSample>>| #[trigger]
            instants_sampled(host, tokens, a, contexts, lists) && lists.len()
                < contexts.len() && match contexts[lists.len() as int] {
                None => false,
                Some(ctx) => instant_fails(
                    host,
                    tokens,
                    a,
                    lists.len() as int,
                    ctx,
                    TrackFault::Schema(message),
                ),
            };
        let ctx = contexts[lists.len() as int]->0;
        let list = choose|list: Seq<GlassSurfaceTrackSample>| #[trigger]
            are_samples(host, tokens, a, lists.len() as int, ctx, list) && list.len()
                < surfaces(a, a.nodes@.len()).len() && sample_gives(
                host,
                tokens,
                a,
                surfaces(a, a.nodes@.len())[list.len() as int] as int,
                ctx,
                Err(TrackFault::Schema(message)),
            );
        assert(false);
    }
}

/// Tracks are refused for their schema exactly where the scene has a finding, with its first message.
pub proof fn schema_alone_refuses<
    K: Fn(&Kernel) -> Result<MotionValue, KernelError>,
    T: Fn(&MotionValue) -> String,
>(
    host: K,
    tokens: T,
    a: SceneArtifact,
    lengths: Seq<Scalar>,
    contexts: Seq<Option<MotionContext>>,
    r: Result<Seq<GlassSurfaceTrackSample>, TrackFault>,
    all: Seq<Finding>,
)
    requires
        tracks_told(host, tokens, a, lengths, contexts, r),
        schema_found(a, lengths, all),
    ensures
        (r matches Err(f) && f is Schema) <==> all.len() > 0,
        r matches Err(TrackFault::Schema(m)) ==> m == all[0].1,
{
    match r {
        Err(TrackFault::Schema(m)) => {
            tracks_fail_otherwise(host, tokens, a, contexts, m);
            let found_here = choose|found_here: Seq<(Seq<char>, Seq<char>)>| #[trigger]
                schema_found(a, lengths, found_here) && found_here.len() > 0 && found_here[0].1
                    == m;
            schema_is_decided(a, lengths, all, found_here);
        },
        _ => {
            schema_is_decided(a, lengths, all, Seq::empty());
        },
    }
}

} // verus!
