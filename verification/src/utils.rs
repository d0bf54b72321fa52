use vstd::prelude::*;
use vstd::string::StringExecFns;

verus! {

/// The name of the background service that health-checks the cluster
/// behind `health_check_host`.
pub fn health_check_service_name(health_check_host: &str) -> (r: String)
    ensures
        r@ == health_check_host@ + "_health_check"@,
{
    let mut name = String::from_str(health_check_host);
    name.append("_health_check");
    name
}

/// How often, in seconds, a cluster's upstreams are health-checked.
pub const HEALTH_CHECK_INTERVAL_SECS: u64 = 5;

} // verus!
