//! The gateway's metrics model.
//!
//! Every terminal pipeline transition records an observation keyed by
//! method and final status code, together with the elapsed wall-clock
//! duration; WAF blocks and rate-limit rejections are recorded under
//! their rule id and client address.  An exporter outside the verified
//! core may publish these records; the model here is the ground truth
//! the dashboard reads.

use vstd::prelude::*;

verus! {

/// One finished request: its method, final status code, and elapsed
/// wall-clock duration in milliseconds.
#[derive(Debug, Clone)]
pub struct RequestRecord {
    pub method: String,
    pub status: u16,
    pub elapsed_ms: u64,
}

/// Everything the gateway has observed so far, in order of recording.
#[derive(Debug, Clone)]
pub struct Metrics {
    /// One entry per finished request.
    pub requests: Vec<RequestRecord>,
    /// The rule id of every WAF block, one entry per blocked request.
    pub waf_blocks: Vec<String>,
    /// The client address of every rate-limit rejection.
    pub ratelimit_hits: Vec<String>,
}

impl Metrics {
    /// The recorded requests as plain (method, status, elapsed) triples.
    pub open spec fn spec_requests(&self) -> Seq<(Seq<char>, u16, u64)> {
        self.requests@.map_values(|r: RequestRecord| (r.method@, r.status, r.elapsed_ms))
    }

    /// The recorded WAF blocks as rule-id strings.
    pub open spec fn spec_waf_blocks(&self) -> Seq<Seq<char>> {
        self.waf_blocks@.map_values(|s: String| s@)
    }

    /// The recorded rate-limit rejections as client-address strings.
    pub open spec fn spec_ratelimit_hits(&self) -> Seq<Seq<char>> {
        self.ratelimit_hits@.map_values(|s: String| s@)
    }

    /// A fresh recorder has seen nothing.
    pub fn new() -> (m: Metrics)
        ensures
            m.spec_requests() == Seq::<(Seq<char>, u16, u64)>::empty(),
            m.spec_waf_blocks() == Seq::<Seq<char>>::empty(),
            m.spec_ratelimit_hits() == Seq::<Seq<char>>::empty(),
    {
        let m = Metrics { requests: Vec::new(), waf_blocks: Vec::new(), ratelimit_hits: Vec::new() };
        proof {
            assert(m.spec_requests() =~= Seq::<(Seq<char>, u16, u64)>::empty());
            assert(m.spec_waf_blocks() =~= Seq::<Seq<char>>::empty());
            assert(m.spec_ratelimit_hits() =~= Seq::<Seq<char>>::empty());
        }
        m
    }
}

/// Records one finished request under its method and final status code,
/// with the elapsed duration from pipeline start to terminal transition.
pub fn track_request(m: &mut Metrics, method: &str, status: u16, elapsed_ms: u64)
    ensures
        final(m).spec_requests() == old(m).spec_requests().push((method@, status, elapsed_ms)),
        final(m).waf_blocks == old(m).waf_blocks,
        final(m).ratelimit_hits == old(m).ratelimit_hits,
{
    let record = RequestRecord { method: method.to_owned(), status, elapsed_ms };
    m.requests.push(record);
    proof {
        assert(m.spec_requests() =~= old(m).spec_requests().push((method@, status, elapsed_ms)));
    }
}

/// Records one request blocked by the WAF, under the id of the rule that
/// blocked it.
pub fn track_waf_block(m: &mut Metrics, rule_id: &str)
    ensures
        final(m).spec_waf_blocks() == old(m).spec_waf_blocks().push(rule_id@),
        final(m).requests == old(m).requests,
        final(m).ratelimit_hits == old(m).ratelimit_hits,
{
    m.waf_blocks.push(rule_id.to_owned());
    proof {
        assert(m.spec_waf_blocks() =~= old(m).spec_waf_blocks().push(rule_id@));
    }
}

/// Records one request rejected by the rate limiter, under the client's
/// address.
pub fn track_ratelimit(m: &mut Metrics, ip: &str)
    ensures
        final(m).spec_ratelimit_hits() == old(m).spec_ratelimit_hits().push(ip@),
        final(m).requests == old(m).requests,
        final(m).waf_blocks == old(m).waf_blocks,
{
    m.ratelimit_hits.push(ip.to_owned());
    proof {
        assert(m.spec_ratelimit_hits() =~= old(m).spec_ratelimit_hits().push(ip@));
    }
}

} // verus!
