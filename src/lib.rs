//! A health-aware load-balancing dispatcher in front of a pool of worker
//! servers: the worker registry, round-robin selection, the forwarding
//! proxy's retry decisions, the distributed Monte Carlo estimate, request
//! parsing and response writing, and the worker service's own endpoints.
use vstd::prelude::*;

pub mod dispatch;
pub mod endpoints;
pub mod forwarding;
pub mod montecarlo;
pub mod registry;
pub mod request;
pub mod responses;
pub mod text;
pub mod worker;

verus! {

} // verus!
