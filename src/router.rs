use vstd::prelude::*;
use vstd::arithmetic::div_mod::lemma_add_mod_noop;

use crate::types::{index_bytes, width_of, ExpertId, RoutingDecision, Tier};
use crate::weights::{inserted, is_top_k, top_k, weight_key, weight_rank, WeightEntry, WeightMap};

verus! {

/// A routing strategy: picks the experts to activate for a tier and a token position.
pub trait Router: Send + Sync {
    /// The expert lists that `route(tier, token_index)` may return.
    spec fn routes_to(&self, tier: Tier, token_index: u64, ids: Seq<ExpertId>) -> bool;

    /// The expert lists that `route_with_weights(tier, token_index, weights)` may return.
    spec fn routes_with_weights_to(
        &self,
        tier: Tier,
        token_index: u64,
        weights: Seq<WeightEntry>,
        ids: Seq<ExpertId>,
    ) -> bool;

    /// How many distinct candidates `route` chooses from.
    spec fn candidates(&self) -> nat;

    /// How many distinct candidates `route_with_weights` chooses from.
    spec fn weighted_candidates(&self, weights: Seq<WeightEntry>) -> nat;

    /// Selects the experts for one step from the router's own state.
    fn route(&self, tier: Tier, token_index: u64) -> (r: RoutingDecision)
        ensures
            self.routes_to(tier, token_index, r.expert_ids@),
            r.expert_ids@.len() <= width_of(tier),
            self.candidates() >= width_of(tier) ==> r.expert_ids@.len() == width_of(tier),
    ;

    /// Selects the experts for one step, informed by a weight map where the strategy
    /// uses one.
    fn route_with_weights(&self, tier: Tier, token_index: u64, weights: &WeightMap) -> (r:
        RoutingDecision)
        ensures
            self.routes_with_weights_to(tier, token_index, weights@, r.expert_ids@),
            r.expert_ids@.len() <= width_of(tier),
            self.weighted_candidates(weights@) >= width_of(tier) ==> r.expert_ids@.len()
                == width_of(tier),
    ;
}

/// `ids` are the `k` best entries of `weights`, or all of them when fewer.
pub open spec fn ranked_route(weights: Seq<WeightEntry>, k: nat, ids: Seq<ExpertId>) -> bool {
    is_top_k(weights, k, ids) && ids.len() == (if k <= weights.len() {
        k
    } else {
        weights.len()
    })
}

/// Pool size with an empty pool counted as one.
pub open spec fn clamped_count(count: nat) -> nat {
    if count == 0 {
        1
    } else {
        count
    }
}

/// `ids` holds, for each `i` below the tier's width, the expert numbered
/// `(token_index + i) mod max(count, 1)`.
pub open spec fn modulo_route(count: nat, tier: Tier, token_index: nat, ids: Seq<ExpertId>) -> bool {
    &&& ids.len() == width_of(tier)
    &&& forall|i: int|
        0 <= i < ids.len() ==> (#[trigger] ids[i]).0@ == index_bytes(
            ((token_index + i) % (clamped_count(count) as int)) as nat,
        )
}

/// Selects experts by position: consecutive expert numbers from the token index on,
/// modulo the pool size.
pub struct DeterministicRouter {
    expert_count: u32,
}

impl DeterministicRouter {
    /// Number of experts in the pool, as configured.
    pub closed spec fn expert_count(&self) -> nat {
        self.expert_count as nat
    }

    /// A router over `expert_count` experts; zero is treated as one.
    pub fn new(expert_count: u32) -> (r: DeterministicRouter)
        ensures
            r.expert_count() == expert_count,
    {
        DeterministicRouter { expert_count }
    }

    fn get_top_k_experts(&self, token_index: u64, k: usize) -> (ids: Vec<ExpertId>)
        ensures
            ids@.len() == k,
            forall|i: int|
                0 <= i < k ==> (#[trigger] ids@[i]).0@ == index_bytes(
                    ((token_index + i) % (clamped_count(self.expert_count()) as int)) as nat,
                ),
    {
        let count: u64 = if self.expert_count == 0 {
            1
        } else {
            self.expert_count as u64
        };
        let base: u64 = token_index % count;
        let mut ids: Vec<ExpertId> = Vec::with_capacity(k);
        let mut i: usize = 0;
        while i < k
            invariant
                0 <= i <= k,
                count == clamped_count(self.expert_count()),
                1 <= count <= 0xFFFF_FFFF,
                base == token_index % count,
                ids@.len() == i,
                forall|x: int|
                    0 <= x < i ==> (#[trigger] ids@[x]).0@ == index_bytes(
                        ((token_index + x) % (count as int)) as nat,
                    ),
            decreases k - i,
        {
            let step: u64 = (i as u64) % count;
            let val: u64 = (base + step) % count;
            proof {
                lemma_add_mod_noop(token_index as int, i as int, count as int);
            }
            ids.push(ExpertId::from_index(val as u32));
            i = i + 1;
        }
        ids
    }
}

impl Router for DeterministicRouter {
    open spec fn routes_to(&self, tier: Tier, token_index: u64, ids: Seq<ExpertId>) -> bool {
        modulo_route(self.expert_count(), tier, token_index as nat, ids)
    }

    open spec fn routes_with_weights_to(
        &self,
        tier: Tier,
        token_index: u64,
        weights: Seq<WeightEntry>,
        ids: Seq<ExpertId>,
    ) -> bool {
        ranked_route(weights, width_of(tier), ids)
    }

    open spec fn candidates(&self) -> nat {
        clamped_count(self.expert_count())
    }

    open spec fn weighted_candidates(&self, weights: Seq<WeightEntry>) -> nat {
        weights.len()
    }

    /// The experts numbered `(token_index + i) mod max(expert_count, 1)` for each `i`
    /// below the tier's width.
    fn route(&self, tier: Tier, token_index: u64) -> (r: RoutingDecision) {
        let k = tier.width();
        let ids = self.get_top_k_experts(token_index, k);
        RoutingDecision { expert_ids: ids }
    }

    /// The tier's width of best-weighted experts, heaviest first and equal weights by
    /// ascending identity; the token index is not used.
    fn route_with_weights(&self, tier: Tier, token_index: u64, weights: &WeightMap) -> (r:
        RoutingDecision) {
        let k = tier.width();
        let ids = top_k(weights, k);
        RoutingDecision { expert_ids: ids }
    }
}

/// A router over 1024 experts.
pub fn create_default_router() -> (r: DeterministicRouter)
    ensures
        r.expert_count() == 1024,
{
    DeterministicRouter::new(1024)
}

} // verus!

verus! {

/// Bit pattern of the `f32` value 0.01, the least temperature a gating router takes.
pub const TEMPERATURE_FLOOR: u32 = 0x3C23_D70A;

/// The bit pattern is an `f32` NaN.
pub open spec fn is_nan_bits(bits: u32) -> bool {
    bits % 0x8000_0000 > 0x7F80_0000
}

/// The larger of a temperature and the floor, as `f32::max` takes it: a NaN yields
/// the floor.
pub open spec fn clamped_temperature(bits: u32) -> u32 {
    if is_nan_bits(bits) || weight_rank(bits) < weight_rank(TEMPERATURE_FLOOR) {
        TEMPERATURE_FLOOR
    } else {
        bits
    }
}

fn clamp_temperature(bits: u32) -> (r: u32)
    ensures
        r == clamped_temperature(bits),
{
    if bits % 0x8000_0000 > 0x7F80_0000 || weight_key(bits) < weight_key(TEMPERATURE_FLOOR) {
        TEMPERATURE_FLOOR
    } else {
        bits
    }
}

/// Selects the experts with the highest gate probability, a softmax of the router's own
/// gate weights at its temperature. With a positive temperature the softmax is strictly
/// increasing in the weight, so the probability ranking is the weight ranking: heavier
/// first, equal weights by ascending identity.
pub struct GatingRouter {
    gate_weights: WeightMap,
    temperature: u32,
}

impl GatingRouter {
    /// Its gate weights, as bit patterns of `f32` values.
    pub closed spec fn gate_weights(&self) -> Seq<WeightEntry> {
        self.gate_weights@
    }

    /// The temperature, as the bit pattern of an `f32`.
    pub closed spec fn temperature_bits(&self) -> u32 {
        self.temperature
    }

    /// A router with no gate weights; `temperature` is the bit pattern of an `f32`,
    /// raised to 0.01 where it is lower or NaN.
    pub fn new(temperature: u32) -> (r: GatingRouter)
        ensures
            r.gate_weights() == Seq::<WeightEntry>::empty(),
            r.temperature_bits() == clamped_temperature(temperature),
    {
        GatingRouter { gate_weights: WeightMap::new(), temperature: clamp_temperature(temperature) }
    }

    /// Sets one expert's gate weight, given as the bit pattern of an `f32`.
    pub fn set_gate_weight(&mut self, expert_id: ExpertId, weight: u32)
        ensures
            inserted(old(self).gate_weights(), expert_id, weight, final(self).gate_weights()),
            final(self).temperature_bits() == old(self).temperature_bits(),
    {
        self.gate_weights.insert(expert_id, weight);
    }

    /// Replaces all gate weights.
    pub fn set_gate_weights(&mut self, weights: WeightMap)
        ensures
            final(self).gate_weights() == weights@,
            final(self).temperature_bits() == old(self).temperature_bits(),
    {
        self.gate_weights = weights;
    }

    /// The temperature, as the bit pattern of an `f32`.
    pub fn temperature(&self) -> (t: u32)
        ensures
            t == self.temperature_bits(),
    {
        self.temperature
    }
}

impl Router for GatingRouter {
    open spec fn routes_to(&self, tier: Tier, token_index: u64, ids: Seq<ExpertId>) -> bool {
        ranked_route(self.gate_weights(), width_of(tier), ids)
    }

    open spec fn routes_with_weights_to(
        &self,
        tier: Tier,
        token_index: u64,
        weights: Seq<WeightEntry>,
        ids: Seq<ExpertId>,
    ) -> bool {
        ranked_route(self.gate_weights(), width_of(tier), ids)
    }

    open spec fn candidates(&self) -> nat {
        self.gate_weights().len()
    }

    open spec fn weighted_candidates(&self, weights: Seq<WeightEntry>) -> nat {
        self.gate_weights().len()
    }

    /// The tier's width of experts with the highest gate probability; the token index
    /// is not used. No gate weights give an empty decision.
    fn route(&self, tier: Tier, token_index: u64) -> (r: RoutingDecision) {
        let k = tier.width();
        let ids = top_k(&self.gate_weights, k);
        RoutingDecision { expert_ids: ids }
    }

    /// As `route`: the router's own gate weights decide, the given ones are not used.
    fn route_with_weights(&self, tier: Tier, token_index: u64, weights: &WeightMap) -> (r:
        RoutingDecision) {
        self.route(tier, token_index)
    }
}

/// `ids` reads `k` experts from `pool` from position `start mod |pool|` on, wrapping
/// around; nothing from an empty pool.
pub open spec fn rotation(pool: Seq<ExpertId>, k: nat, start: nat, ids: Seq<ExpertId>) -> bool {
    if pool.len() == 0 {
        ids.len() == 0
    } else {
        &&& ids.len() == k
        &&& forall|i: int| 0 <= i < k ==> #[trigger] ids[i] == pool[(start + i) % (pool.len() as int)]
    }
}

/// Rotates through a fixed pool of experts: each call starts one position after the
/// previous call's start.
pub struct RoundRobinRouter {
    experts: Vec<ExpertId>,
    current: std::sync::atomic::AtomicUsize,
}

impl RoundRobinRouter {
    /// The pool, in rotation order.
    pub closed spec fn experts(&self) -> Seq<ExpertId> {
        self.experts@
    }

    /// A router over `experts`, whose first call starts at the first of them.
    pub fn new(experts: Vec<ExpertId>) -> (r: RoundRobinRouter)
        ensures
            r.experts() == experts@,
    {
        RoundRobinRouter { experts, current: std::sync::atomic::AtomicUsize::new(0) }
    }

    /// The experts that a call with cursor value `start` selects.
    pub fn route_from_offset(&self, tier: Tier, start: usize) -> (r: RoutingDecision)
        ensures
            rotation(self.experts(), width_of(tier), start as nat, r.expert_ids@),
    {
        let k = tier.width();
        let n = self.experts.len();
        let mut ids: Vec<ExpertId> = Vec::new();
        if n == 0 {
            return RoutingDecision { expert_ids: ids };
        }
        let mut pos: usize = start % n;
        let mut i: usize = 0;
        while i < k
            invariant
                0 <= i <= k,
                k == width_of(tier),
                n == self.experts@.len(),
                n > 0,
                pos == (start + i) % (n as int),
                ids@.len() == i,
                forall|x: int|
                    0 <= x < i ==> #[trigger] ids@[x] == self.experts@[(start + x) % (n as int)],
            decreases k - i,
        {
            ids.push(self.experts[pos]);
            proof {
                lemma_add_mod_noop(start + i, 1, n as int);
                if n == 1 {
                    assert(1int % 1int == 0);
                } else {
                    assert(1int % (n as int) == 1) by (nonlinear_arith)
                        requires n > 1;
                    if pos + 1 < n {
                        assert((pos + 1) % (n as int) == pos + 1) by (nonlinear_arith)
                            requires 0 <= pos + 1 < n;
                    } else {
                        assert((n as int) % (n as int) == 0) by (nonlinear_arith)
                            requires n > 0;
                    }
                }
            }
            pos = if pos + 1 == n {
                0
            } else {
                pos + 1
            };
            i = i + 1;
        }
        RoutingDecision { expert_ids: ids }
    }
}

impl Router for RoundRobinRouter {
    open spec fn routes_to(&self, tier: Tier, token_index: u64, ids: Seq<ExpertId>) -> bool {
        exists|start: nat| rotation(self.experts(), width_of(tier), start, ids)
    }

    open spec fn routes_with_weights_to(
        &self,
        tier: Tier,
        token_index: u64,
        weights: Seq<WeightEntry>,
        ids: Seq<ExpertId>,
    ) -> bool {
        exists|start: nat| rotation(self.experts(), width_of(tier), start, ids)
    }

    open spec fn candidates(&self) -> nat {
        self.experts().len()
    }

    open spec fn weighted_candidates(&self, weights: Seq<WeightEntry>) -> nat {
        self.experts().len()
    }

    /// The tier's width of experts from the next cursor position on; the cursor advances
    /// by one atomically. An empty pool gives an empty decision and leaves the cursor.
    fn route(&self, tier: Tier, token_index: u64) -> (r: RoutingDecision) {
        if self.experts.len() == 0 {
            let r = RoutingDecision { expert_ids: Vec::new() };
            assert(rotation(self.experts(), width_of(tier), 0, r.expert_ids@));
            return r;
        }
        let start = self.current.fetch_add(1, std::sync::atomic::Ordering::Relaxed);
        let r = self.route_from_offset(tier, start);
        assert(rotation(self.experts(), width_of(tier), start as nat, r.expert_ids@));
        r
    }

    /// As `route`: the weights are not used.
    fn route_with_weights(&self, tier: Tier, token_index: u64, weights: &WeightMap) -> (r:
        RoutingDecision) {
        self.route(tier, token_index)
    }
}

/// One of the routing strategies, chosen at configuration time.
pub enum AnyRouter {
    Deterministic(DeterministicRouter),
    Gating(GatingRouter),
    RoundRobin(RoundRobinRouter),
}

impl Router for AnyRouter {
    open spec fn routes_to(&self, tier: Tier, token_index: u64, ids: Seq<ExpertId>) -> bool {
        match self {
            AnyRouter::Deterministic(r) => r.routes_to(tier, token_index, ids),
            AnyRouter::Gating(r) => r.routes_to(tier, token_index, ids),
            AnyRouter::RoundRobin(r) => r.routes_to(tier, token_index, ids),
        }
    }

    open spec fn routes_with_weights_to(
        &self,
        tier: Tier,
        token_index: u64,
        weights: Seq<WeightEntry>,
        ids: Seq<ExpertId>,
    ) -> bool {
        match self {
            AnyRouter::Deterministic(r) => r.routes_with_weights_to(tier, token_index, weights, ids),
            AnyRouter::Gating(r) => r.routes_with_weights_to(tier, token_index, weights, ids),
            AnyRouter::RoundRobin(r) => r.routes_with_weights_to(tier, token_index, weights, ids),
        }
    }

    open spec fn candidates(&self) -> nat {
        match self {
            AnyRouter::Deterministic(r) => r.candidates(),
            AnyRouter::Gating(r) => r.candidates(),
            AnyRouter::RoundRobin(r) => r.candidates(),
        }
    }

    open spec fn weighted_candidates(&self, weights: Seq<WeightEntry>) -> nat {
        match self {
            AnyRouter::Deterministic(r) => r.weighted_candidates(weights),
            AnyRouter::Gating(r) => r.weighted_candidates(weights),
            AnyRouter::RoundRobin(r) => r.weighted_candidates(weights),
        }
    }

    /// The active strategy's `route`.
    fn route(&self, tier: Tier, token_index: u64) -> (r: RoutingDecision) {
        match self {
            AnyRouter::Deterministic(r) => r.route(tier, token_index),
            AnyRouter::Gating(r) => r.route(tier, token_index),
            AnyRouter::RoundRobin(r) => r.route(tier, token_index),
        }
    }

    /// The active strategy's `route_with_weights`.
    fn route_with_weights(&self, tier: Tier, token_index: u64, weights: &WeightMap) -> (r:
        RoutingDecision) {
        match self {
            AnyRouter::Deterministic(r) => r.route_with_weights(tier, token_index, weights),
            AnyRouter::Gating(r) => r.route_with_weights(tier, token_index, weights),
            AnyRouter::RoundRobin(r) => r.route_with_weights(tier, token_index, weights),
        }
    }
}

} // verus!
