//! Expert routing for sparsely-activated models: for each inference step, choose
//! which experts run for a service tier and a token position.
pub mod types;
pub mod weights;
pub mod router;
pub mod laws;

pub use router::{
    create_default_router, AnyRouter, DeterministicRouter, GatingRouter, RoundRobinRouter, Router,
};
pub use types::{ExpertId, RoutingDecision, Tier};
pub use weights::WeightMap;
