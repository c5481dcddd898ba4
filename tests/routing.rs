use auria_router::router::TEMPERATURE_FLOOR;
use auria_router::types::compare_ids;
use auria_router::weights::{top_k, weight_key};
use auria_router::{
    create_default_router, AnyRouter, DeterministicRouter, ExpertId, GatingRouter,
    RoundRobinRouter, Router, RoutingDecision, Tier, WeightMap,
};

fn indexed(v: u32) -> ExpertId {
    let mut bytes = [0u8; 32];
    bytes[0..4].copy_from_slice(&v.to_le_bytes());
    ExpertId(bytes)
}

fn filled(b: u8) -> ExpertId {
    ExpertId([b; 32])
}

fn map_of(pairs: &[(ExpertId, f32)]) -> WeightMap {
    let mut m = WeightMap::new();
    for (id, w) in pairs {
        m.insert(*id, w.to_bits());
    }
    m
}

const TIERS: [Tier; 4] = [Tier::Nano, Tier::Standard, Tier::Pro, Tier::Max];

#[test]
fn test_deterministic_router() {
    let router = DeterministicRouter::new(1024);
    let decision = router.route(Tier::Standard, 0);
    assert_eq!(decision.expert_ids.len(), 4);
}

#[test]
fn test_gating_router() {
    let mut router = GatingRouter::new(1.0f32.to_bits());
    let weights = map_of(&[(filled(1), 0.5), (filled(2), 0.3), (filled(3), 0.2)]);
    router.set_gate_weights(weights);

    let decision = router.route(Tier::Nano, 0);
    assert_eq!(decision.expert_ids.len(), 2);
}

#[test]
fn tier_widths() {
    assert_eq!(Tier::Nano.width(), 2);
    assert_eq!(Tier::Standard.width(), 4);
    assert_eq!(Tier::Pro.width(), 8);
    assert_eq!(Tier::Max.width(), 16);
}

#[test]
fn scenario_standard_from_zero() {
    let decision = DeterministicRouter::new(1024).route(Tier::Standard, 0);
    let expected: Vec<ExpertId> = (0..4).map(indexed).collect();
    assert_eq!(decision.expert_ids, expected);
}

#[test]
fn scenario_max_wraps_small_pool() {
    let decision = DeterministicRouter::new(5).route(Tier::Max, 3);
    let expected: Vec<ExpertId> =
        [3, 4, 0, 1, 2, 3, 4, 0, 1, 2, 3, 4, 0, 1, 2, 3].iter().map(|v| indexed(*v)).collect();
    assert_eq!(decision.expert_ids, expected);
}

#[test]
fn scenario_gating_top_two() {
    let mut router = GatingRouter::new(1.0f32.to_bits());
    let a = filled(1);
    let b = filled(2);
    let c = filled(3);
    router.set_gate_weights(map_of(&[(a, 0.5), (b, 0.3), (c, 0.2)]));
    assert_eq!(router.route(Tier::Nano, 7).expert_ids, vec![a, b]);
}

#[test]
fn scenario_round_robin_three_calls() {
    let e: Vec<ExpertId> = (10..13).map(indexed).collect();
    let router = RoundRobinRouter::new(e.clone());
    assert_eq!(router.route(Tier::Nano, 0).expert_ids, vec![e[0], e[1]]);
    assert_eq!(router.route(Tier::Nano, 0).expert_ids, vec![e[1], e[2]]);
    assert_eq!(router.route(Tier::Nano, 0).expert_ids, vec![e[2], e[0]]);
}

#[test]
fn round_robin_starts_are_distinct() {
    let e: Vec<ExpertId> = (0..64).map(indexed).collect();
    let router = RoundRobinRouter::new(e.clone());
    let mut firsts = Vec::new();
    for _ in 0..64 {
        firsts.push(router.route(Tier::Nano, 0).expert_ids[0]);
    }
    assert_eq!(firsts, e);
}

#[test]
fn round_robin_repeats_when_pool_is_small() {
    let e = vec![indexed(7), indexed(8)];
    let router = RoundRobinRouter::new(e.clone());
    let ids = router.route(Tier::Standard, 0).expert_ids;
    assert_eq!(ids, vec![e[0], e[1], e[0], e[1]]);
}

#[test]
fn round_robin_from_offset() {
    let e: Vec<ExpertId> = (0..3).map(indexed).collect();
    let router = RoundRobinRouter::new(e.clone());
    assert_eq!(router.route_from_offset(Tier::Nano, 5).expert_ids, vec![e[2], e[0]]);
    assert_eq!(
        router.route_from_offset(Tier::Nano, usize::MAX).expert_ids,
        vec![e[0], e[1]]
    );
}

#[test]
fn round_robin_empty_pool() {
    let router = RoundRobinRouter::new(Vec::new());
    for tier in TIERS {
        assert!(router.route(tier, 3).expert_ids.is_empty());
    }
    assert!(router.route_with_weights(Tier::Max, 0, &WeightMap::new()).expert_ids.is_empty());
}

#[test]
fn round_robin_ignores_weights() {
    let e: Vec<ExpertId> = (0..3).map(indexed).collect();
    let router = RoundRobinRouter::new(e.clone());
    let weights = map_of(&[(e[2], 9.0)]);
    assert_eq!(router.route_with_weights(Tier::Nano, 0, &weights).expert_ids, vec![e[0], e[1]]);
}

#[test]
fn deterministic_zero_pool_repeats_expert_zero() {
    let decision = DeterministicRouter::new(0).route(Tier::Pro, 12345);
    assert_eq!(decision.expert_ids, vec![indexed(0); 8]);
}

#[test]
fn deterministic_large_token_index() {
    let token = (1u64 << 32) + 5;
    let decision = DeterministicRouter::new(7).route(Tier::Nano, token);
    let first = (token % 7) as u32;
    assert_eq!(decision.expert_ids, vec![indexed(first), indexed((first + 1) % 7)]);
    let top = DeterministicRouter::new(u32::MAX).route(Tier::Nano, u64::MAX);
    let base = (u64::MAX % u32::MAX as u64) as u32;
    assert_eq!(top.expert_ids, vec![indexed(base), indexed(((base as u64 + 1) % u32::MAX as u64) as u32)]);
}

#[test]
fn deterministic_route_repeats() {
    let router = DeterministicRouter::new(37);
    for tier in TIERS {
        for token in [0u64, 1, 36, 1000, u64::MAX] {
            assert_eq!(router.route(tier, token), router.route(tier, token));
        }
    }
}

#[test]
fn widths_grow_with_tier() {
    let routers = vec![
        AnyRouter::Deterministic(DeterministicRouter::new(3)),
        AnyRouter::Gating({
            let mut g = GatingRouter::new(1.0f32.to_bits());
            g.set_gate_weights(map_of(&[(filled(1), 1.0), (filled(2), 2.0), (filled(3), 3.0)]));
            g
        }),
        AnyRouter::RoundRobin(RoundRobinRouter::new(vec![indexed(1), indexed(2), indexed(3)])),
    ];
    for r in &routers {
        let lens: Vec<usize> = TIERS.iter().map(|t| r.route(*t, 0).expert_ids.len()).collect();
        assert!(lens.windows(2).all(|w| w[0] <= w[1]));
        for (t, len) in TIERS.iter().zip(&lens) {
            assert!(*len <= t.width());
        }
    }
}

#[test]
fn weighted_route_ranks_heaviest_first() {
    let router = DeterministicRouter::new(4);
    let weights = map_of(&[
        (filled(1), 0.1),
        (filled(2), 0.9),
        (filled(3), -4.0),
        (filled(4), 0.5),
        (filled(5), f32::INFINITY),
    ]);
    let decision = router.route_with_weights(Tier::Standard, 99, &weights);
    assert_eq!(decision.expert_ids, vec![filled(5), filled(2), filled(4), filled(1)]);
    let all = router.route_with_weights(Tier::Max, 0, &weights);
    assert_eq!(all.expert_ids, vec![filled(5), filled(2), filled(4), filled(1), filled(3)]);
}

#[test]
fn weighted_route_breaks_ties_by_identity() {
    let router = DeterministicRouter::new(4);
    let weights = map_of(&[(filled(9), 0.25), (filled(3), 0.25), (filled(6), 0.25), (filled(1), 0.0)]);
    let decision = router.route_with_weights(Tier::Nano, 0, &weights);
    assert_eq!(decision.expert_ids, vec![filled(3), filled(6)]);
    let zeros = map_of(&[(filled(2), -0.0), (filled(1), 0.0)]);
    assert_eq!(router.route_with_weights(Tier::Nano, 0, &zeros).expert_ids, vec![filled(1), filled(2)]);
}

#[test]
fn weighted_route_empty_map() {
    let router = DeterministicRouter::new(4);
    assert!(router.route_with_weights(Tier::Max, 0, &WeightMap::new()).expert_ids.is_empty());
}

#[test]
fn gating_without_weights_is_empty() {
    let router = GatingRouter::new(1.0f32.to_bits());
    assert_eq!(router.route(Tier::Max, 0), RoutingDecision { expert_ids: Vec::new() });
}

#[test]
fn gating_ignores_given_weights() {
    let mut router = GatingRouter::new(0.5f32.to_bits());
    router.set_gate_weight(filled(1), 1.0f32.to_bits());
    router.set_gate_weight(filled(2), 3.0f32.to_bits());
    let other = map_of(&[(filled(7), 100.0), (filled(8), 200.0)]);
    assert_eq!(router.route_with_weights(Tier::Nano, 0, &other).expert_ids, vec![filled(2), filled(1)]);
}

#[test]
fn gating_set_weight_overwrites() {
    let mut router = GatingRouter::new(1.0f32.to_bits());
    router.set_gate_weight(filled(1), 5.0f32.to_bits());
    router.set_gate_weight(filled(2), 3.0f32.to_bits());
    router.set_gate_weight(filled(1), 1.0f32.to_bits());
    assert_eq!(router.route(Tier::Max, 0).expert_ids, vec![filled(2), filled(1)]);
}

#[test]
fn gating_temperature_floor() {
    assert_eq!(TEMPERATURE_FLOOR, 0.01f32.to_bits());
    assert_eq!(GatingRouter::new(0.0f32.to_bits()).temperature(), 0.01f32.to_bits());
    assert_eq!(GatingRouter::new((-3.0f32).to_bits()).temperature(), 0.01f32.to_bits());
    assert_eq!(GatingRouter::new(f32::NAN.to_bits()).temperature(), 0.01f32.to_bits());
    assert_eq!(GatingRouter::new(2.5f32.to_bits()).temperature(), 2.5f32.to_bits());
    assert_eq!(GatingRouter::new(0.01f32.to_bits()).temperature(), 0.01f32.to_bits());
}

#[test]
fn weight_keys_follow_float_order() {
    assert_eq!(weight_key(0.0f32.to_bits()), 0x8000_0000);
    assert_eq!(weight_key((-0.0f32).to_bits()), 0x8000_0000);
    assert_eq!(weight_key(1.0f32.to_bits()), 0x8000_0000 + 0x3F80_0000);
    assert_eq!(weight_key((-1.0f32).to_bits()), 0x8000_0000 - 0x3F80_0000);
    let values = [f32::NEG_INFINITY, -2.5, -1e-30, 0.0, 1e-30, 0.3, 0.5, 7.0, f32::INFINITY];
    for w in values.windows(2) {
        assert!(weight_key(w[0].to_bits()) < weight_key(w[1].to_bits()));
    }
}

#[test]
fn weight_map_insert_keeps_one_entry_per_expert() {
    let mut m = WeightMap::new();
    assert_eq!(m.len(), 0);
    m.insert(filled(1), 1.0f32.to_bits());
    m.insert(filled(2), 2.0f32.to_bits());
    m.insert(filled(1), 3.0f32.to_bits());
    assert_eq!(m.len(), 2);
    assert_eq!(top_k(&m, 1), vec![filled(1)]);
    assert_eq!(top_k(&m, 0), Vec::<ExpertId>::new());
}

#[test]
fn expert_id_order_and_encoding() {
    assert_eq!(ExpertId::from_index(0x0403_0201), {
        let mut b = [0u8; 32];
        b[0] = 1;
        b[1] = 2;
        b[2] = 3;
        b[3] = 4;
        ExpertId(b)
    });
    assert_eq!(ExpertId::from_index(9), indexed(9));
    assert_eq!(
        compare_ids(&filled(1), &filled(2)),
        std::cmp::Ordering::Less
    );
    assert_eq!(
        compare_ids(&indexed(256), &indexed(1)),
        std::cmp::Ordering::Less
    );
    assert_eq!(
        compare_ids(&indexed(3), &indexed(3)),
        std::cmp::Ordering::Equal
    );
}

#[test]
fn any_router_dispatches() {
    let det = AnyRouter::Deterministic(DeterministicRouter::new(10));
    assert_eq!(det.route(Tier::Nano, 9).expert_ids, vec![indexed(9), indexed(0)]);
    let weights = map_of(&[(filled(4), 1.0), (filled(5), 2.0)]);
    assert_eq!(det.route_with_weights(Tier::Nano, 0, &weights).expert_ids, vec![filled(5), filled(4)]);
    let rr = AnyRouter::RoundRobin(RoundRobinRouter::new(vec![indexed(1), indexed(2)]));
    assert_eq!(rr.route(Tier::Nano, 0).expert_ids, vec![indexed(1), indexed(2)]);
    assert_eq!(rr.route_with_weights(Tier::Nano, 0, &weights).expert_ids, vec![indexed(2), indexed(1)]);
    let mut g = GatingRouter::new(1.0f32.to_bits());
    g.set_gate_weight(filled(6), 0.5f32.to_bits());
    let gating = AnyRouter::Gating(g);
    assert_eq!(gating.route(Tier::Pro, 0).expert_ids, vec![filled(6)]);
}

#[test]
fn default_router_has_1024_experts() {
    let router = create_default_router();
    assert_eq!(router.route(Tier::Nano, 1023).expert_ids, vec![indexed(1023), indexed(0)]);
}

#[test]
fn tiers_are_ordered_by_width() {
    assert!(Tier::Nano < Tier::Standard && Tier::Standard < Tier::Pro && Tier::Pro < Tier::Max);
    for w in TIERS.windows(2) {
        assert!(w[0].width() < w[1].width());
    }
}
