use shield_proxy::dashboard::routes::gather_stats;
use shield_proxy::error::AppError;
use shield_proxy::observability::metrics::{track_ratelimit, track_request, track_waf_block, Metrics};
use shield_proxy::proxy::load_balancer::BackendSet;
use shield_proxy::proxy::pipeline::{
    record_decision, record_forward, Decision, ForwardOutcome, RequestPipeline,
};
use shield_proxy::ratelimit::RateLimiter;
use shield_proxy::waf::engine::WafEngine;
use shield_proxy::waf::rules::{WafRuleConfig, WafRulesDefinition};

fn block_rule(id: &str, pattern: &str) -> WafRuleConfig {
    WafRuleConfig {
        id: id.to_string(),
        name: id.to_string(),
        category: "generic".to_string(),
        severity: "high".to_string(),
        pattern: pattern.to_string(),
        action: "block".to_string(),
    }
}

fn pipeline(max_req: u32, urls: Vec<&str>) -> RequestPipeline {
    let limiter = RateLimiter::new(true, max_req, 60, vec![]);
    let defs = WafRulesDefinition { rules: vec![block_rule("xss-001", "(?i)<script")] };
    let waf = WafEngine::new(true, "block", defs).unwrap();
    let backends = vec![BackendSet::new(
        "app".to_string(),
        urls.into_iter().map(|u| u.to_string()).collect(),
    )];
    RequestPipeline::new(limiter, waf, backends)
}

#[test]
fn test_round_robin_cycles_in_order() {
    let mut set = BackendSet::new(
        "app".to_string(),
        vec!["http://a".to_string(), "http://b".to_string(), "http://c".to_string()],
    );
    assert_eq!(set.next_url().as_deref(), Some("http://a"));
    assert_eq!(set.next_url().as_deref(), Some("http://b"));
    assert_eq!(set.next_url().as_deref(), Some("http://c"));
    assert_eq!(set.next_url().as_deref(), Some("http://a"));
}

#[test]
fn test_round_robin_empty_pool_has_no_candidate() {
    let mut set = BackendSet::new("app".to_string(), vec![]);
    assert!(set.next_url().is_none());
    assert!(set.next_url().is_none());
}

#[test]
fn test_pipeline_forwards_admitted_clean_request() {
    let mut p = pipeline(10, vec!["http://upstream:8080"]);
    match p.decide("1.2.3.4", 0, "/products/view", "id=123") {
        Decision::Forward(target) => {
            assert_eq!(target, "http://upstream:8080/products/view?id=123");
        }
        other => panic!("expected a forward, got {:?}", other),
    }
    // Without a query string no '?' is appended.
    match p.decide("1.2.3.4", 0, "/health", "") {
        Decision::Forward(target) => assert_eq!(target, "http://upstream:8080/health"),
        other => panic!("expected a forward, got {:?}", other),
    }
}

#[test]
fn test_pipeline_blocks_waf_match() {
    let mut p = pipeline(10, vec!["http://upstream:8080"]);
    match p.decide("1.2.3.4", 0, "/search", "q=<script>alert(1)</script>") {
        Decision::WafBlocked(rule_id) => assert_eq!(rule_id, "xss-001"),
        other => panic!("expected a WAF block, got {:?}", other),
    }
}

#[test]
fn test_pipeline_rate_limit_precedes_waf() {
    // A request that would be both rate-limited and WAF-blocked is
    // rejected at the rate-limit stage; the WAF never observes it and
    // its block count stays zero.
    let mut p = pipeline(1, vec!["http://upstream:8080"]);
    let attack_query = "q=<script>alert(1)</script>";

    // First request: admitted by the limiter, then blocked by the WAF.
    let d1 = p.decide("9.9.9.9", 0, "/search", attack_query);
    assert!(matches!(d1, Decision::WafBlocked(_)));
    let status1 = record_decision(&mut p.metrics, "GET", "9.9.9.9", &d1, 1);
    assert_eq!(status1, 403);
    assert_eq!(p.metrics.waf_blocks.len(), 1);

    // Second request, same window: rejected by the limiter before the
    // WAF stage — the WAF block count does not move.
    let d2 = p.decide("9.9.9.9", 10, "/search", attack_query);
    assert!(matches!(d2, Decision::RateLimited));
    let status2 = record_decision(&mut p.metrics, "GET", "9.9.9.9", &d2, 1);
    assert_eq!(status2, 429);
    assert_eq!(p.metrics.waf_blocks.len(), 1);
    assert_eq!(p.metrics.ratelimit_hits.len(), 1);
    assert_eq!(p.metrics.requests.len(), 2);
}

#[test]
fn test_pipeline_empty_pool_is_bad_gateway_not_a_crash() {
    let mut p = pipeline(10, vec![]);
    let d = p.decide("1.2.3.4", 0, "/products/view", "id=123");
    assert!(matches!(d, Decision::NoBackend));
    let status = record_decision(&mut p.metrics, "GET", "1.2.3.4", &d, 1);
    assert_eq!(status, 502);
}

#[test]
fn test_record_forward_relays_upstream_status() {
    let mut m = Metrics::new();
    assert_eq!(record_forward(&mut m, "GET", &ForwardOutcome::Upstream(204), 7), 204);
    assert_eq!(record_forward(&mut m, "POST", &ForwardOutcome::Failed, 7), 502);
    assert_eq!(m.requests.len(), 2);
    assert_eq!(m.requests[0].status, 204);
    assert_eq!(m.requests[1].status, 502);
}

#[test]
fn test_error_status_codes() {
    assert_eq!(AppError::BackendUnavailable.status_code(), 502);
    assert_eq!(AppError::UpstreamRequest("timed out".to_string()).status_code(), 502);
    assert_eq!(AppError::ConfigLoad("x".to_string()).status_code(), 500);
    assert_eq!(AppError::RuleFileIo("x".to_string()).status_code(), 500);
    assert_eq!(AppError::RulePatternCompile("x".to_string()).status_code(), 500);
    assert_eq!(AppError::Internal("x".to_string()).status_code(), 500);
}

#[test]
fn test_error_client_messages_are_generic() {
    assert_eq!(AppError::BackendUnavailable.client_message(), "Backend services unavailable");
    assert_eq!(
        AppError::UpstreamRequest("secret detail".to_string()).client_message(),
        "Upstream error"
    );
    assert_eq!(AppError::Internal("secret detail".to_string()).client_message(), "Internal server error");
}

#[test]
fn test_metrics_tracking_appends_records() {
    let mut m = Metrics::new();
    track_request(&mut m, "GET", 200, 12);
    track_waf_block(&mut m, "sqli-001");
    track_ratelimit(&mut m, "1.2.3.4");
    assert_eq!(m.requests.len(), 1);
    assert_eq!(m.requests[0].method, "GET");
    assert_eq!(m.requests[0].status, 200);
    assert_eq!(m.requests[0].elapsed_ms, 12);
    assert_eq!(m.waf_blocks, vec!["sqli-001".to_string()]);
    assert_eq!(m.ratelimit_hits, vec!["1.2.3.4".to_string()]);
}

#[test]
fn test_dashboard_stats_reflect_state() {
    let mut p = pipeline(1, vec!["http://a", "http://b"]);
    let d1 = p.decide("8.8.8.8", 0, "/search", "q=<script>x</script>");
    record_decision(&mut p.metrics, "GET", "8.8.8.8", &d1, 1);
    let d2 = p.decide("8.8.8.8", 10, "/ok", "");
    record_decision(&mut p.metrics, "GET", "8.8.8.8", &d2, 1);

    let stats = gather_stats(&p.metrics, &p.backends);
    assert_eq!(stats.total_requests, 2);
    assert_eq!(stats.waf_blocks, 1);
    assert_eq!(stats.ratelimit_hits, 1);
    assert_eq!(stats.backends_status.len(), 1);
    assert_eq!(stats.backends_status[0].name, "app");
    assert_eq!(
        stats.backends_status[0].urls,
        vec!["http://a".to_string(), "http://b".to_string()]
    );
}
