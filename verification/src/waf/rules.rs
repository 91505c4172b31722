//! The shape of the WAF rule-definition file.
//!
//! A rule file lists rules with an id, a human-readable name, a
//! category and severity, a pattern string, and an action (`"block"` or
//! `"allow"`).  The file reader outside the verified core parses the
//! document and hands a [`WafRulesDefinition`] to the engine.

use vstd::prelude::*;

verus! {

/// The whole rule file: the rules, in load order.
#[derive(Debug, Clone)]
pub struct WafRulesDefinition {
    pub rules: Vec<WafRuleConfig>,
}

/// One rule as written in the rule file.
#[derive(Debug, Clone)]
pub struct WafRuleConfig {
    pub id: String,
    pub name: String,
    pub category: String,
    pub severity: String,
    pub pattern: String,
    pub action: String,
}

} // verus!
