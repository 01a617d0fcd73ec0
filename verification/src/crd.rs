//! The health-check configuration resource.
//!
//! One resource configures one health check: the probe timeout in seconds,
//! the balancer-facing port to check, and the namespace whose pods serve it.
//! The surrounding program reads these resources from the cluster API and
//! hands the spec values in.

use vstd::prelude::*;

verus! {

/// The spec of one health-check configuration resource.
pub struct HealthCheckSpec {
    /// Probe timeout, in seconds.
    pub timeout: u64,
    /// The balancer-facing port to health-check.
    pub port: i32,
    /// The namespace whose pods serve the checked port.
    pub serv_namespace: String,
}

impl Clone for HealthCheckSpec {
    fn clone(&self) -> (r: Self)
        ensures
            r == *self,
    {
        HealthCheckSpec {
            timeout: self.timeout,
            port: self.port,
            serv_namespace: self.serv_namespace.clone(),
        }
    }
}

} // verus!
