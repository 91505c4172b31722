use shield_proxy::error::AppError;
use shield_proxy::waf::engine::WafEngine;
use shield_proxy::waf::rules::{WafRuleConfig, WafRulesDefinition};

fn rule(id: &str, name: &str, pattern: &str, action: &str) -> WafRuleConfig {
    WafRuleConfig {
        id: id.to_string(),
        name: name.to_string(),
        category: "generic".to_string(),
        severity: "high".to_string(),
        pattern: pattern.to_string(),
        action: action.to_string(),
    }
}

fn example_rules() -> WafRulesDefinition {
    WafRulesDefinition {
        rules: vec![
            rule("sqli-001", "SQL Injection", "(?i)union[+ ]+select", "block"),
            rule("xss-001", "Cross-Site Scripting", "(?i)<script", "block"),
            rule("trav-001", "Path Traversal", r"\.\./", "block"),
        ],
    }
}

#[test]
fn test_waf_engine_blocking() {
    let waf = WafEngine::new(true, "block", example_rules()).unwrap();

    // Test 1: SQL Injection (SQLi)
    let sqli_uri = "/login?user=admin%27+UNION+SELECT+1,2,3";
    let sqli_query = "user=admin%27+UNION+SELECT+1,2,3";
    assert!(waf.scan_request(sqli_uri, sqli_query).is_some(), "SQLi should be blocked");

    // Test 2: Cross-Site Scripting (XSS)
    let xss_uri = "/search?q=<script>alert(1)</script>";
    let xss_query = "q=<script>alert(1)</script>";
    assert!(waf.scan_request(xss_uri, xss_query).is_some(), "XSS should be blocked");

    // Test 3: Path Traversal
    let path_traversal_uri = "/image?file=../../../../etc/passwd";
    let path_traversal_query = "file=../../../../etc/passwd";
    assert!(
        waf.scan_request(path_traversal_uri, path_traversal_query).is_some(),
        "Path Traversal should be blocked"
    );

    // Test 4: A legitimate request
    let clean_uri = "/products/view?id=123";
    let clean_query = "id=123";
    assert!(waf.scan_request(clean_uri, clean_query).is_none(), "Clean request should be allowed");
}

#[test]
fn test_waf_returns_matching_rule_id() {
    let waf = WafEngine::new(true, "block", example_rules()).unwrap();
    let hit = waf.scan_request("/search?q=<script>alert(1)</script>", "q=<script>alert(1)</script>");
    assert_eq!(hit.as_deref(), Some("xss-001"));
}

#[test]
fn test_waf_first_matching_block_rule_wins() {
    // Two block rules match the same target: the one loaded first is
    // the one reported.
    let defs = WafRulesDefinition {
        rules: vec![
            rule("r-1", "broad", "attack", "block"),
            rule("r-2", "narrow", "attack=1", "block"),
        ],
    };
    let waf = WafEngine::new(true, "block", defs).unwrap();
    assert_eq!(waf.scan_request("/x", "attack=1").as_deref(), Some("r-1"));
}

#[test]
fn test_waf_allow_action_rule_never_blocks() {
    let defs = WafRulesDefinition {
        rules: vec![rule("allow-1", "observed only", "probe", "allow")],
    };
    let waf = WafEngine::new(true, "block", defs).unwrap();
    assert!(waf.scan_request("/probe", "probe=1").is_none());
}

#[test]
fn test_waf_monitor_mode_never_blocks() {
    // Identical inputs as the blocking cases, but the engine is in
    // monitor mode: everything is allowed through.
    let waf = WafEngine::new(true, "monitor", example_rules()).unwrap();
    assert!(waf
        .scan_request("/login?user=admin%27+UNION+SELECT+1,2,3", "user=admin%27+UNION+SELECT+1,2,3")
        .is_none());
    assert!(waf
        .scan_request("/search?q=<script>alert(1)</script>", "q=<script>alert(1)</script>")
        .is_none());
}

#[test]
fn test_waf_disabled_scans_nothing() {
    let waf = WafEngine::new(false, "block", example_rules()).unwrap();
    assert!(waf.scan_request("/search?q=<script>", "q=<script>").is_none());
}

#[test]
fn test_waf_malformed_pattern_fails_construction() {
    // One invalid pattern aborts the whole load: no partial rule set.
    let defs = WafRulesDefinition {
        rules: vec![
            rule("ok-1", "fine", "abc", "block"),
            rule("bad-1", "broken", "(unclosed", "block"),
        ],
    };
    match WafEngine::new(true, "block", defs) {
        Err(AppError::RulePatternCompile(_)) => {}
        other => panic!("expected a RulePatternCompile error, got {:?}", other),
    }
}
