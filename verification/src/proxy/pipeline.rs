//! The request pipeline: rate limiter → WAF → backend selection.
//!
//! Per request the three policy stages run strictly in this order and
//! the first rejecting stage is terminal: a rate-limited request is
//! answered 429 before the WAF ever sees it, a WAF match is answered
//! 403 before a backend is chosen, and an empty backend pool is
//! answered 502.  Only a request that passes all three is forwarded;
//! the caller performs the forward and reports its outcome back.
//! Every terminal transition records a metrics observation.

use vstd::prelude::*;
use vstd::string::StringExecFns;
use crate::observability::metrics::{Metrics, track_ratelimit, track_request, track_waf_block};
use crate::proxy::load_balancer::{spec_choice, spec_next_cursor, BackendSet};
use crate::ratelimit::RateLimiter;
use crate::waf::engine::{spec_scan, WafEngine};

verus! {

/// How the pipeline disposes of one request.
#[derive(Debug)]
pub enum Decision {
    /// The rate limiter rejected the client: answer 429.
    RateLimited,
    /// A WAF rule blocked the request: answer 403 and record the rule.
    WafBlocked(String),
    /// No upstream candidate was available: answer 502.
    NoBackend,
    /// Forward to this upstream URL and relay its response.
    Forward(String),
}

/// What came of a forward: the upstream's status code, or a transport
/// failure on the way to it.
#[derive(Debug)]
pub enum ForwardOutcome {
    Upstream(u16),
    Failed,
}

/// A decision that ends the request without a forward.
pub open spec fn spec_is_terminal(d: Decision) -> bool {
    !(d matches Decision::Forward(_))
}

/// The status code a terminal decision is answered with.
pub open spec fn spec_decision_status(d: Decision) -> u16 {
    match d {
        Decision::RateLimited => 429u16,
        Decision::WafBlocked(_) => 403u16,
        Decision::NoBackend => 502u16,
        Decision::Forward(_) => 0u16,
    }
}

/// The status code relayed for a forward: the upstream's own, or 502
/// for a transport failure.
pub open spec fn spec_forward_status(o: ForwardOutcome) -> u16 {
    match o {
        ForwardOutcome::Upstream(s) => s,
        ForwardOutcome::Failed => 502u16,
    }
}

/// The outbound URL: the upstream base followed by the request's path
/// and, when one was present, its query string.
pub open spec fn spec_forward_target(base: Seq<char>, path: Seq<char>, query: Seq<char>) -> Seq<
    char,
> {
    if query.len() == 0 {
        base + path
    } else {
        base + path + "?"@ + query
    }
}

/// What backend selection did to the pool list and the decision, given
/// the pool list before it ran: an empty pool list or an empty URL list
/// yields `NoBackend` and leaves everything unchanged; otherwise the
/// sole configured group (the first) hands out its next URL and only
/// its cursor advances.
pub open spec fn spec_selection(
    pre: Seq<BackendSet>,
    post: Seq<BackendSet>,
    d: Decision,
    path: Seq<char>,
    query: Seq<char>,
) -> bool {
    if pre.len() == 0 {
        (d matches Decision::NoBackend) && post == pre
    } else {
        match spec_choice(pre[0].urls@, pre[0].counter) {
            Option::None => (d matches Decision::NoBackend) && post == pre,
            Option::Some(base) => {
                &&& d matches Decision::Forward(t) && t@ == spec_forward_target(base, path, query)
                &&& post.len() == pre.len()
                &&& post[0].name == pre[0].name
                &&& post[0].urls == pre[0].urls
                &&& post[0].counter == spec_next_cursor(pre[0].counter)
                &&& forall|i: int| 1 <= i < pre.len() ==> post[i] == #[trigger] pre[i]
            },
        }
    }
}

/// The gateway's per-process state: the three policy engines and the
/// metrics they report into.
#[derive(Debug)]
pub struct RequestPipeline {
    pub limiter: RateLimiter,
    pub waf: WafEngine,
    pub backends: Vec<BackendSet>,
    pub metrics: Metrics,
}

impl RequestPipeline {
    /// Assembles the pipeline around its three engines, with nothing
    /// recorded yet.
    pub fn new(limiter: RateLimiter, waf: WafEngine, backends: Vec<BackendSet>) -> (p:
        RequestPipeline)
        ensures
            p.limiter == limiter,
            p.waf == waf,
            p.backends == backends,
            p.metrics.spec_requests() == Seq::<(Seq<char>, u16, u64)>::empty(),
            p.metrics.spec_waf_blocks() == Seq::<Seq<char>>::empty(),
            p.metrics.spec_ratelimit_hits() == Seq::<Seq<char>>::empty(),
    {
        RequestPipeline { limiter, waf, backends, metrics: Metrics::new() }
    }

    /// Runs the three admission stages in order for one request and
    /// says what to do with it.  The stages are strictly sequential: a
    /// rate-limited request is rejected before the WAF is consulted
    /// (and leaves the WAF's observations untouched), a WAF-blocked
    /// request is rejected before a backend is selected, and only a
    /// fully admitted request advances the round-robin cursor.
    /// Recording the terminal observation is the caller's next step
    /// (`record_decision`, or a forward followed by `record_forward`).
    pub fn decide(&mut self, client_ip: &str, now_ms: u64, path: &str, query: &str) -> (d:
        Decision)
        requires
            old(self).limiter.wf(),
        ensures
            final(self).limiter.wf(),
            final(self).waf == old(self).waf,
            final(self).metrics == old(self).metrics,
            final(self).limiter.max_requests == old(self).limiter.max_requests,
            final(self).limiter.window_ms == old(self).limiter.window_ms,
            final(self).limiter.whitelist == old(self).limiter.whitelist,
            final(self).limiter.enabled == old(self).limiter.enabled,
            final(self).limiter.windows() == old(self).limiter.spec_check_windows(
                client_ip@,
                now_ms,
            ),
            ({
                let allowed = old(self).limiter.spec_check_result(client_ip@, now_ms);
                let scanned = spec_scan(
                    old(self).waf.spec_rules(),
                    old(self).waf.spec_enabled(),
                    old(self).waf.spec_block_mode(),
                    path@,
                    query@,
                );
                &&& !allowed ==> (d matches Decision::RateLimited) && final(self).backends@ == old(
                    self,
                ).backends@
                &&& allowed ==> match scanned {
                    Option::Some(id) => (d matches Decision::WafBlocked(rid) && rid@ == id)
                        && final(self).backends@ == old(self).backends@,
                    Option::None => spec_selection(
                        old(self).backends@,
                        final(self).backends@,
                        d,
                        path@,
                        query@,
                    ),
                }
            }),
    {
        let allowed = self.limiter.check(client_ip, now_ms);
        if !allowed {
            return Decision::RateLimited;
        }
        match self.waf.scan_request(path, query) {
            Some(rule_id) => Decision::WafBlocked(rule_id),
            None => {
                if self.backends.len() == 0 {
                    return Decision::NoBackend;
                }
                let mut group = self.backends.remove(0);
                let choice = group.next_url();
                self.backends.insert(0, group);
                proof {
                    assert(self.backends@ =~= old(self).backends@.update(0, self.backends@[0]));
                }
                match choice {
                    None => {
                        proof {
                            assert(self.backends@ =~= old(self).backends@);
                        }
                        Decision::NoBackend
                    },
                    Some(base) => Decision::Forward(build_target(base, path, query)),
                }
            },
        }
    }
}

/// Builds the outbound URL for a forward.
fn build_target(base: String, path: &str, query: &str) -> (t: String)
    ensures
        t@ == spec_forward_target(base@, path@, query@),
{
    let mut t = base;
    t.append(path);
    if !query.is_empty() {
        t.append("?");
        t.append(query);
    }
    t
}

/// Records a terminal decision's observation — the request under its
/// method and status, plus the rule id of a WAF block or the client
/// address of a rate-limit rejection — and returns the status code to
/// answer with.
pub fn record_decision(
    metrics: &mut Metrics,
    method: &str,
    client_ip: &str,
    d: &Decision,
    elapsed_ms: u64,
) -> (status: u16)
    requires
        spec_is_terminal(*d),
    ensures
        status == spec_decision_status(*d),
        final(metrics).spec_requests() == old(metrics).spec_requests().push(
            (method@, status, elapsed_ms),
        ),
        *d matches Decision::RateLimited ==> final(metrics).spec_ratelimit_hits() == old(
            metrics,
        ).spec_ratelimit_hits().push(client_ip@) && final(metrics).waf_blocks == old(
            metrics,
        ).waf_blocks,
        *d matches Decision::WafBlocked(rid) ==> final(metrics).spec_waf_blocks() == old(
            metrics,
        ).spec_waf_blocks().push(rid@) && final(metrics).ratelimit_hits == old(
            metrics,
        ).ratelimit_hits,
        *d matches Decision::NoBackend ==> final(metrics).waf_blocks == old(metrics).waf_blocks
            && final(metrics).ratelimit_hits == old(metrics).ratelimit_hits,
{
    match d {
        Decision::RateLimited => {
            track_ratelimit(metrics, client_ip);
            track_request(metrics, method, 429, elapsed_ms);
            429
        },
        Decision::WafBlocked(rule_id) => {
            track_waf_block(metrics, rule_id.as_str());
            track_request(metrics, method, 403, elapsed_ms);
            403
        },
        Decision::NoBackend => {
            track_request(metrics, method, 502, elapsed_ms);
            502
        },
        Decision::Forward(_) => {
            // Excluded by the precondition: a forward is not terminal.
            proof {
                assert(false);
            }
            500
        },
    }
}

/// Records a finished forward — the relayed upstream status, or 502
/// for a transport failure — and returns the status code to answer
/// with.
pub fn record_forward(
    metrics: &mut Metrics,
    method: &str,
    outcome: &ForwardOutcome,
    elapsed_ms: u64,
) -> (status: u16)
    ensures
        status == spec_forward_status(*outcome),
        final(metrics).spec_requests() == old(metrics).spec_requests().push(
            (method@, status, elapsed_ms),
        ),
        final(metrics).waf_blocks == old(metrics).waf_blocks,
        final(metrics).ratelimit_hits == old(metrics).ratelimit_hits,
{
    let status = match outcome {
        ForwardOutcome::Upstream(s) => *s,
        ForwardOutcome::Failed => 502,
    };
    track_request(metrics, method, status, elapsed_ms);
    status
}

} // verus!
