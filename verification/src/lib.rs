//! Keeps an external load balancer's membership for a node's health-checked
//! pod endpoints consistent with the live TCP reachability of those pods.
//!
//! The crate holds the decision core of the controller: the per-target mode
//! state machine with its anti-flap debounce, the state store that makes
//! transitions idempotent across reconciliations, the binding resolver that
//! maps a node address and port to balancer identifiers, and the target
//! resolver that picks the pod endpoints to probe. All I/O (the cluster API,
//! the balancer API, the state database, the probe itself) is performed by
//! the surrounding program, which feeds plain values in and carries the
//! decided actions out.

pub mod controller;
pub mod crd;
pub mod mode;
pub mod reconciler;
pub mod store;
pub mod substr;
pub mod target;
pub mod topology;

pub use controller::NodeAction;
pub use crd::HealthCheckSpec;
pub use mode::{Decision, Mode};
pub use reconciler::MutationCall;
pub use store::{StateRecord, StateStore};
pub use target::PodInfo;
pub use topology::{BalancerBinding, TopologyMirror};
