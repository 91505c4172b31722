//! The WAF matching engine.
//!
//! At construction every rule's pattern string must compile as a
//! regular expression; one bad pattern fails the whole load, so a
//! running engine never holds a partial rule set.  A scan inspects the
//! target `"{path}?{query}"` against the rules in load order; in block
//! mode the first matching `block`-action rule wins and its id is
//! returned, while monitor mode observes matches but never blocks.
//!
//! Rules are kept as their validated pattern source: a compiled
//! expression's behaviour is a function of that source alone, so the
//! trusted boundary around the regex crate stays at two small
//! functions, and everything above it is proved.

use vstd::prelude::*;
use vstd::string::StringExecFns;
use crate::error::AppError;
use crate::waf::rules::WafRulesDefinition;

verus! {

/// Whether a pattern string compiles as a regular expression.
/// Compilation is a function of the string alone.
pub uninterp spec fn pattern_ok(p: Seq<char>) -> bool;

/// Whether the regular expression compiled from a valid pattern `p`
/// matches somewhere in the text `t`.  Matching is a function of the
/// pattern and the text alone.
pub uninterp spec fn pattern_matches(p: Seq<char>, t: Seq<char>) -> bool;

/// Relies on regex::Regex::new: it returns `Ok` or `Err` depending only
/// on the pattern string (its default configuration is fixed), and the
/// error's rendering describes the bad pattern.
#[verifier::external_body]
fn compile_pattern(p: &str) -> (r: Result<(), String>)
    ensures
        (r matches Ok(_)) <==> pattern_ok(p@),
{
    match regex::Regex::new(p) {
        Ok(_) => Ok(()),
        Err(e) => Err(format!("{}", e)),
    }
}

/// Relies on regex::Regex::new and regex::Regex::is_match: for a valid
/// pattern, compilation succeeds and whether the compiled expression
/// matches is a function of the pattern and the haystack alone.
#[verifier::external_body]
fn match_pattern(p: &str, t: &str) -> (r: bool)
    requires
        pattern_ok(p@),
    ensures
        r == pattern_matches(p@, t@),
{
    match regex::Regex::new(p) {
        Ok(re) => re.is_match(t),
        Err(_) => false,
    }
}

/// One loaded rule: its id and name, the validated pattern source, and
/// its action (`"block"` or anything else, which never blocks).
#[derive(Debug, Clone)]
pub struct CompiledRule {
    pub id: String,
    pub name: String,
    pub pattern: String,
    pub action: String,
}

/// The WAF engine: the compiled rule set in load order, whether it is
/// enabled, and whether matches block (`block_mode`) or are only
/// observed (monitor mode).
#[derive(Debug)]
pub struct WafEngine {
    rules: Vec<CompiledRule>,
    enabled: bool,
    block_mode: bool,
}

/// The single inspection surface: path and query concatenated as
/// `"{path}?{query}"`.
pub open spec fn spec_target(uri: Seq<char>, query: Seq<char>) -> Seq<char> {
    uri + "?"@ + query
}

/// Whether a rule's action string marks it as blocking.
pub open spec fn spec_action_is_block(action: Seq<char>) -> bool {
    action == "block"@
}

/// Whether a rule both matches the target and carries the block action.
pub open spec fn spec_rule_blocks(rule: CompiledRule, target: Seq<char>) -> bool {
    spec_action_is_block(rule.action@) && pattern_matches(rule.pattern@, target)
}

/// The position of the first rule, in load order, that matches the
/// target with a block action.
pub open spec fn spec_first_block(rules: Seq<CompiledRule>, target: Seq<char>) -> Option<int>
    decreases rules.len(),
{
    if rules.len() == 0 {
        None
    } else if spec_rule_blocks(rules[0], target) {
        Some(0int)
    } else {
        match spec_first_block(rules.drop_first(), target) {
            None => None,
            Some(i) => Some(i + 1),
        }
    }
}

/// What a scan returns: nothing when the engine is disabled or in
/// monitor mode; otherwise the id of the first matching block rule.
pub open spec fn spec_scan(
    rules: Seq<CompiledRule>,
    enabled: bool,
    block_mode: bool,
    uri: Seq<char>,
    query: Seq<char>,
) -> Option<Seq<char>> {
    if !enabled || !block_mode {
        None
    } else {
        match spec_first_block(rules, spec_target(uri, query)) {
            None => None,
            Some(i) => Some(rules[i].id@),
        }
    }
}

impl WafEngine {
    /// Every loaded rule's pattern compiles; established at
    /// construction and relied on by every scan.
    #[verifier::type_invariant]
    spec fn patterns_valid(self) -> bool {
        forall|i: int| 0 <= i < self.rules@.len() ==> pattern_ok(#[trigger] self.rules@[i].pattern@)
    }

    /// The loaded rules, in load order.
    pub closed spec fn spec_rules(&self) -> Seq<CompiledRule> {
        self.rules@
    }

    /// Whether the engine inspects requests at all.
    pub closed spec fn spec_enabled(&self) -> bool {
        self.enabled
    }

    /// Whether matches block (true) or are only observed (false).
    pub closed spec fn spec_block_mode(&self) -> bool {
        self.block_mode
    }

    /// Loads the engine from parsed rule definitions.  A disabled
    /// engine loads no rules.  Otherwise every pattern must compile:
    /// construction succeeds exactly when all of them do, and one bad
    /// pattern aborts the whole load with a `RulePatternCompile` error,
    /// leaving no partial rule set behind.
    pub fn new(enabled: bool, mode: &str, defs: WafRulesDefinition) -> (r: Result<
        WafEngine,
        AppError,
    >)
        ensures
            !enabled ==> (r matches Ok(e) && !e.spec_enabled() && !e.spec_block_mode()
                && e.spec_rules().len() == 0),
            enabled ==> ((r matches Ok(_)) <==> (forall|i: int|
                0 <= i < defs.rules@.len() ==> pattern_ok(#[trigger] defs.rules@[i].pattern@))),
            enabled ==> (r matches Ok(e) ==> {
                &&& e.spec_enabled()
                &&& e.spec_block_mode() == (mode@ == "block"@)
                &&& e.spec_rules().len() == defs.rules@.len()
                &&& forall|i: int|
                    0 <= i < defs.rules@.len() ==> {
                        &&& (#[trigger] e.spec_rules()[i]).id@ == defs.rules@[i].id@
                        &&& e.spec_rules()[i].name@ == defs.rules@[i].name@
                        &&& e.spec_rules()[i].pattern@ == defs.rules@[i].pattern@
                        &&& e.spec_rules()[i].action@ == defs.rules@[i].action@
                    }
            }),
            r matches Err(err) ==> err matches AppError::RulePatternCompile(_),
    {
        if !enabled {
            return Ok(WafEngine { rules: Vec::new(), enabled: false, block_mode: false });
        }

        let mut compiled: Vec<CompiledRule> = Vec::new();
        let n = defs.rules.len();
        let mut i: usize = 0;
        while i < n
            invariant
                enabled,
                n == defs.rules@.len(),
                i <= n,
                compiled@.len() == i,
                forall|k: int|
                    0 <= k < i ==> {
                        &&& pattern_ok(#[trigger] defs.rules@[k].pattern@)
                        &&& compiled@[k].id@ == defs.rules@[k].id@
                        &&& compiled@[k].name@ == defs.rules@[k].name@
                        &&& compiled@[k].pattern@ == defs.rules@[k].pattern@
                        &&& compiled@[k].action@ == defs.rules@[k].action@
                    },
            decreases n - i,
        {
            let rule = &defs.rules[i];
            match compile_pattern(rule.pattern.as_str()) {
                Ok(_) => {
                    compiled.push(
                        CompiledRule {
                            id: rule.id.clone(),
                            name: rule.name.clone(),
                            pattern: rule.pattern.clone(),
                            action: rule.action.clone(),
                        },
                    );
                },
                Err(msg) => {
                    return Err(AppError::RulePatternCompile(msg));
                },
            }
            i = i + 1;
        }

        proof {
            assert forall|k: int| 0 <= k < compiled@.len() implies pattern_ok(
                #[trigger] compiled@[k].pattern@,
            ) by {
                assert(pattern_ok(defs.rules@[k].pattern@));
            }
        }
        let block_mode = mode.to_owned() == "block".to_owned();
        let engine = WafEngine { rules: compiled, enabled: true, block_mode };
        proof {
            assert forall|i: int| 0 <= i < defs.rules@.len() implies {
                &&& (#[trigger] engine.spec_rules()[i]).id@ == defs.rules@[i].id@
                &&& engine.spec_rules()[i].name@ == defs.rules@[i].name@
                &&& engine.spec_rules()[i].pattern@ == defs.rules@[i].pattern@
                &&& engine.spec_rules()[i].action@ == defs.rules@[i].action@
            } by {
                assert(pattern_ok(defs.rules@[i].pattern@));
            }
        }
        Ok(engine)
    }

    /// Inspects a request's path and query string.  Returns the id of
    /// the rule that blocks it, or `None` when nothing blocks — which
    /// in monitor mode is every time, even for a matching rule.
    pub fn scan_request(&self, uri: &str, query: &str) -> (r: Option<String>)
        ensures
            ({
                let scanned = spec_scan(
                    self.spec_rules(),
                    self.spec_enabled(),
                    self.spec_block_mode(),
                    uri@,
                    query@,
                );
                match scanned {
                    Option::None => r is None,
                    Option::Some(id) => r matches Some(s) && s@ == id,
                }
            }),
    {
        proof {
            use_type_invariant(self);
        }
        if !self.enabled {
            return None;
        }

        let mut target = uri.to_owned();
        target.append("?");
        target.append(query);
        let block_string = "block".to_owned();

        let n = self.rules.len();
        let mut i: usize = 0;
        while i < n
            invariant
                self.enabled,
                n == self.rules@.len(),
                i <= n,
                self.patterns_valid(),
                target@ == spec_target(uri@, query@),
                block_string@ == "block"@,
                self.block_mode ==> forall|j: int|
                    0 <= j < i ==> !spec_rule_blocks(#[trigger] self.rules@[j], target@),
            decreases n - i,
        {
            let rule = &self.rules[i];
            if match_pattern(rule.pattern.as_str(), target.as_str()) {
                // A match is observed here whatever the mode; only
                // block mode with a block action stops the request.
                if self.block_mode && rule.action == block_string {
                    proof {
                        lemma_first_block_at(self.rules@, target@, i as int);
                    }
                    return Some(rule.id.clone());
                }
            }
            i = i + 1;
        }
        proof {
            if self.block_mode {
                lemma_first_block_none(self.rules@, target@);
            }
        }
        None
    }
}

/// If the first `i` rules do not block and rule `i` does, then `i` is
/// the first blocking position.
proof fn lemma_first_block_at(rules: Seq<CompiledRule>, target: Seq<char>, i: int)
    requires
        0 <= i < rules.len(),
        spec_rule_blocks(rules[i], target),
        forall|j: int| 0 <= j < i ==> !spec_rule_blocks(#[trigger] rules[j], target),
    ensures
        spec_first_block(rules, target) == Some(i),
    decreases rules.len(),
{
    if i > 0 {
        assert(!spec_rule_blocks(rules[0], target));
        assert(rules.drop_first()[i - 1] == rules[i]);
        assert(forall|j: int|
            0 <= j < i - 1 ==> !spec_rule_blocks(#[trigger] rules.drop_first()[j], target));
        lemma_first_block_at(rules.drop_first(), target, i - 1);
    }
}

/// If no rule blocks the target, there is no first blocking position.
proof fn lemma_first_block_none(rules: Seq<CompiledRule>, target: Seq<char>)
    requires
        forall|j: int| 0 <= j < rules.len() ==> !spec_rule_blocks(#[trigger] rules[j], target),
    ensures
        spec_first_block(rules, target) is None,
    decreases rules.len(),
{
    if rules.len() > 0 {
        assert(forall|j: int|
            0 <= j < rules.drop_first().len() ==> !spec_rule_blocks(
                #[trigger] rules.drop_first()[j],
                target,
            ));
        lemma_first_block_none(rules.drop_first(), target);
    }
}

/// Block-mode law: the scan position exists exactly when some rule
/// matches with a block action, and it is the least such position — the
/// first matching block rule wins and later rules are never consulted.
pub proof fn lemma_first_match_wins(rules: Seq<CompiledRule>, target: Seq<char>)
    ensures
        (spec_first_block(rules, target) is Some) <==> (exists|i: int|
            0 <= i < rules.len() && spec_rule_blocks(#[trigger] rules[i], target)),
        spec_first_block(rules, target) matches Some(i) ==> {
            &&& 0 <= i < rules.len()
            &&& spec_rule_blocks(rules[i], target)
            &&& forall|j: int| 0 <= j < i ==> !spec_rule_blocks(#[trigger] rules[j], target)
        },
    decreases rules.len(),
{
    if rules.len() > 0 {
        lemma_first_match_wins(rules.drop_first(), target);
        if spec_rule_blocks(rules[0], target) {
        } else {
            match spec_first_block(rules.drop_first(), target) {
                None => {
                    if exists|i: int|
                        0 <= i < rules.len() && spec_rule_blocks(#[trigger] rules[i], target) {
                        let i = choose|i: int|
                            0 <= i < rules.len() && spec_rule_blocks(#[trigger] rules[i], target);
                        assert(rules.drop_first()[i - 1] == rules[i]);
                    }
                },
                Some(k) => {
                    assert(rules.drop_first()[k] == rules[k + 1]);
                    assert forall|j: int| 0 <= j < k + 1 implies !spec_rule_blocks(
                        #[trigger] rules[j],
                        target,
                    ) by {
                        if j >= 1 {
                            assert(rules.drop_first()[j - 1] == rules[j]);
                            assert(!spec_rule_blocks(rules.drop_first()[j - 1], target));
                        }
                    }
                },
            }
        }
    }
}

/// Monitor-mode law: with `block_mode` off the scan never returns a
/// match, whatever the rules and the target — matches are observed but
/// never alter the pipeline's decision.
pub proof fn lemma_monitor_mode_never_blocks(
    rules: Seq<CompiledRule>,
    enabled: bool,
    uri: Seq<char>,
    query: Seq<char>,
)
    ensures
        spec_scan(rules, enabled, false, uri, query) is None,
{
}

} // verus!
