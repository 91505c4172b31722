//! The figures behind the dashboard endpoints.
//!
//! [`gather_stats`] condenses the metrics record and the backend pools
//! into one [`DashboardStats`] value; the HTTP endpoints that render it
//! as JSON or HTML live outside the verified core.

use vstd::prelude::*;
use crate::observability::metrics::Metrics;
use crate::proxy::load_balancer::BackendSet;

verus! {

/// The dashboard's aggregate view of the gateway.
#[derive(Debug, Clone)]
pub struct DashboardStats {
    pub total_requests: u64,
    pub waf_blocks: u64,
    pub ratelimit_hits: u64,
    pub backends_status: Vec<BackendStatus>,
}

/// One backend pool as shown on the dashboard.
#[derive(Debug, Clone)]
pub struct BackendStatus {
    pub name: String,
    pub urls: Vec<String>,
}

/// Condenses the metrics record and the backend pools: the three
/// counters are the numbers of recorded observations of each kind, and
/// every pool appears with its name and URL list.
pub fn gather_stats(metrics: &Metrics, backends: &Vec<BackendSet>) -> (s: DashboardStats)
    ensures
        s.total_requests == metrics.spec_requests().len() as u64,
        s.waf_blocks == metrics.spec_waf_blocks().len() as u64,
        s.ratelimit_hits == metrics.spec_ratelimit_hits().len() as u64,
        s.backends_status@.len() == backends@.len(),
        forall|i: int|
            0 <= i < backends@.len() ==> {
                &&& (#[trigger] s.backends_status@[i]).name == backends@[i].name
                &&& s.backends_status@[i].urls@ == backends@[i].urls@
            },
{
    let mut backends_status: Vec<BackendStatus> = Vec::new();
    let n = backends.len();
    let mut i: usize = 0;
    while i < n
        invariant
            n == backends@.len(),
            i <= n,
            backends_status@.len() == i,
            forall|k: int|
                0 <= k < i ==> {
                    &&& (#[trigger] backends_status@[k]).name == backends@[k].name
                    &&& backends_status@[k].urls@ == backends@[k].urls@
                },
        decreases n - i,
    {
        let b = &backends[i];
        let urls = b.urls.clone();
        proof {
            assert forall|k: int| 0 <= k < urls@.len() implies urls@[k] == b.urls@[k] by {
                assert(cloned::<String>(b.urls@[k], urls@[k]));
            }
            assert(urls@ =~= b.urls@);
        }
        backends_status.push(BackendStatus { name: b.name.clone(), urls });
        i = i + 1;
    }
    DashboardStats {
        total_requests: metrics.requests.len() as u64,
        waf_blocks: metrics.waf_blocks.len() as u64,
        ratelimit_hits: metrics.ratelimit_hits.len() as u64,
        backends_status,
    }
}

} // verus!
