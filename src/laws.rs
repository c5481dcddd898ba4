use vstd::prelude::*;

use crate::router::{
    clamped_count, ranked_route, rotation, AnyRouter, DeterministicRouter, RoundRobinRouter, Router,
};
use crate::types::{index_bytes, lemma_id_eq, lemma_width_monotone, tier_rank, width_of, ExpertId, Tier};
use crate::weights::{
    lemma_ranked_before_irreflexive, lemma_ranked_before_transitive, ranked_before,
    top_picks, WeightEntry,
};

verus! {

/// For one router, a tier that is not wider never yields more experts, whatever the
/// token positions.
pub proof fn law_tier_monotone(
    r: AnyRouter,
    a: Tier,
    b: Tier,
    token_a: u64,
    token_b: u64,
    ids_a: Seq<ExpertId>,
    ids_b: Seq<ExpertId>,
)
    requires
        tier_rank(a) <= tier_rank(b),
        r.routes_to(a, token_a, ids_a),
        r.routes_to(b, token_b, ids_b),
    ensures
        ids_a.len() <= ids_b.len(),
{
    lemma_width_monotone(a, b);
    match r {
        AnyRouter::Deterministic(d) => {},
        AnyRouter::Gating(g) => {},
        AnyRouter::RoundRobin(rr) => {
            let sa = choose|s: nat| rotation(rr.experts(), width_of(a), s, ids_a);
            let sb = choose|s: nat| rotation(rr.experts(), width_of(b), s, ids_b);
        },
    }
}

/// For one router and one weight map, a tier that is not wider never yields more
/// experts from `route_with_weights`.
pub proof fn law_tier_monotone_weighted(
    r: AnyRouter,
    weights: Seq<WeightEntry>,
    a: Tier,
    b: Tier,
    token_a: u64,
    token_b: u64,
    ids_a: Seq<ExpertId>,
    ids_b: Seq<ExpertId>,
)
    requires
        tier_rank(a) <= tier_rank(b),
        r.routes_with_weights_to(a, token_a, weights, ids_a),
        r.routes_with_weights_to(b, token_b, weights, ids_b),
    ensures
        ids_a.len() <= ids_b.len(),
{
    lemma_width_monotone(a, b);
    match r {
        AnyRouter::Deterministic(d) => {},
        AnyRouter::Gating(g) => {},
        AnyRouter::RoundRobin(rr) => {
            let sa = choose|s: nat| rotation(rr.experts(), width_of(a), s, ids_a);
            let sb = choose|s: nat| rotation(rr.experts(), width_of(b), s, ids_b);
        },
    }
}

/// A deterministic router routes a tier and a token position to one expert list only.
pub proof fn law_deterministic_route_repeatable(
    r: DeterministicRouter,
    tier: Tier,
    token_index: u64,
    ids1: Seq<ExpertId>,
    ids2: Seq<ExpertId>,
)
    requires
        r.routes_to(tier, token_index, ids1),
        r.routes_to(tier, token_index, ids2),
    ensures
        ids1 == ids2,
{
    assert forall|i: int| 0 <= i < ids1.len() implies ids1[i] == ids2[i] by {
        lemma_id_eq(ids1[i], ids2[i]);
    }
    assert(ids1 =~= ids2);
}

proof fn lemma_top_picks_prefix(s: Seq<WeightEntry>, k: nat, p: Seq<int>, q: Seq<int>, i: int)
    requires
        top_picks(s, k, p),
        top_picks(s, k, q),
        0 <= i < p.len(),
    ensures
        forall|j: int| 0 <= j <= i ==> p[j] == q[j],
    decreases i,
{
    if i > 0 {
        lemma_top_picks_prefix(s, k, p, q, i - 1);
    }
    if p[i] != q[i] {
        lemma_first_difference(s, k, p, q, i);
        lemma_first_difference(s, k, q, p, i);
        lemma_ranked_before_transitive(s[p[i]], s[q[i]], s[p[i]]);
        lemma_ranked_before_irreflexive(s[p[i]]);
    }
    assert forall|j: int| 0 <= j <= i implies p[j] == q[j] by {
        if j < i {
            assert(p[j] == q[j]);
        }
    }
}

proof fn lemma_first_difference(s: Seq<WeightEntry>, k: nat, p: Seq<int>, q: Seq<int>, i: int)
    requires
        top_picks(s, k, p),
        top_picks(s, k, q),
        0 <= i < p.len(),
        p[i] != q[i],
        forall|j: int| 0 <= j < i ==> p[j] == q[j],
    ensures
        ranked_before(s[p[i]], s[q[i]]),
{
    if p.contains(q[i]) {
        let j = choose|j: int| 0 <= j < p.len() && p[j] == q[i];
        if j < i {
            assert(q[j] == q[i]);
            assert(ranked_before(s[q[j]], s[q[i]]));
            lemma_ranked_before_irreflexive(s[q[i]]);
        } else {
            assert(ranked_before(s[p[i]], s[p[j]]));
        }
    } else {
        assert(ranked_before(s[p[i]], s[q[i]]));
    }
}

/// Ranking a weight map is deterministic: for one map and one width there is one
/// result, equal weights included.
pub proof fn law_ranked_route_unique(
    weights: Seq<WeightEntry>,
    k: nat,
    ids1: Seq<ExpertId>,
    ids2: Seq<ExpertId>,
)
    requires
        ranked_route(weights, k, ids1),
        ranked_route(weights, k, ids2),
    ensures
        ids1 == ids2,
{
    let p = choose|p: Seq<int>|
        top_picks(weights, k, p) && ids1.len() == p.len() && forall|i: int|
            0 <= i < ids1.len() ==> #[trigger] ids1[i] == weights[p[i]].0;
    let q = choose|q: Seq<int>|
        top_picks(weights, k, q) && ids2.len() == q.len() && forall|i: int|
            0 <= i < ids2.len() ==> #[trigger] ids2[i] == weights[q[i]].0;
    if p.len() > 0 {
        lemma_top_picks_prefix(weights, k, p, q, p.len() - 1);
    }
    assert forall|i: int| 0 <= i < ids1.len() implies ids1[i] == ids2[i] by {
        assert(p[i] == q[i]);
    }
    assert(ids1 =~= ids2);
}

/// A deterministic router over zero experts treats the pool as one expert: every
/// selected identity is expert 0.
pub proof fn law_zero_pool_repeats_first(
    r: DeterministicRouter,
    tier: Tier,
    token_index: u64,
    ids: Seq<ExpertId>,
)
    requires
        r.expert_count() == 0,
        r.routes_to(tier, token_index, ids),
    ensures
        ids.len() == width_of(tier),
        forall|i: int| 0 <= i < ids.len() ==> (#[trigger] ids[i]).0@ == index_bytes(0),
{
    assert(clamped_count(r.expert_count()) == 1);
    assert forall|i: int| 0 <= i < ids.len() implies (#[trigger] ids[i]).0@ == index_bytes(0) by {
        assert((token_index + i) % 1int == 0);
    }
}

/// An empty weight map ranks to an empty expert list.
pub proof fn law_empty_weights_route_empty(k: nat, ids: Seq<ExpertId>)
    requires
        ranked_route(Seq::<WeightEntry>::empty(), k, ids),
    ensures
        ids.len() == 0,
{
}

/// A round-robin router over an empty pool selects nothing.
pub proof fn law_empty_pool_routes_empty(
    r: RoundRobinRouter,
    tier: Tier,
    token_index: u64,
    ids: Seq<ExpertId>,
)
    requires
        r.experts().len() == 0,
        r.routes_to(tier, token_index, ids),
    ensures
        ids.len() == 0,
{
    let s = choose|s: nat| rotation(r.experts(), width_of(tier), s, ids);
}

} // verus!
