//! Platform rules: the allow/deny predicates that gate libraries and
//! launch arguments.

use vstd::prelude::*;

verus! {

/// What a rule does when its predicate matches.
#[derive(Clone, Copy, Debug, PartialEq, Eq, Structural)]
pub enum RuleAction {
    Allow,
    Deny,
}

/// The operating-system predicate of a rule. An absent part matches
/// every platform.
#[derive(Clone, Debug)]
pub struct JsonOperatingSystem {
    pub name: Option<String>,
    pub version: Option<String>,
    pub arch: Option<String>,
}

/// One rule: an action, optionally restricted to some platforms.
#[derive(Clone, Debug)]
pub struct JsonRule {
    pub action: RuleAction,
    pub os: Option<JsonOperatingSystem>,
}

/// The platform that rules are evaluated against.
#[derive(Clone, Debug)]
pub struct Platform {
    pub os_name: String,
    pub os_version: String,
    pub arch: String,
}

/// What `str::to_lowercase` makes of a string.
pub uninterp spec fn lower_of(s: Seq<char>) -> Seq<char>;

/// Relies on `str::to_lowercase`: its result depends on the characters alone.
#[verifier::external_body]
fn lowercase(s: &str) -> (r: String)
    ensures
        r@ == lower_of(s@),
{
    s.to_lowercase()
}

/// Whether an operating-system predicate matches the platform. Names are
/// compared without regard to case, architectures exactly (only when
/// `check_arch` holds); a version pattern is never matched.
pub open spec fn os_matches(os: JsonOperatingSystem, p: Platform, check_arch: bool) -> bool {
    &&& (os.name matches Some(n) ==> lower_of(n@) == lower_of(p.os_name@))
    &&& os.version is None
    &&& (check_arch && os.arch is Some ==> os.arch->0@ == p.arch@)
}

/// Whether a rule takes part in the evaluation on the platform.
pub open spec fn rule_matches(r: JsonRule, p: Platform, check_arch: bool) -> bool {
    match r.os {
        None => true,
        Some(os) => os_matches(os, p, check_arch),
    }
}

/// The outcome of a rule list: the action of the last matching rule, and
/// "not included" when no rule matches.
pub open spec fn rules_outcome(rules: Seq<JsonRule>, p: Platform, check_arch: bool) -> bool
    decreases rules.len(),
{
    if rules.len() == 0 {
        false
    } else if rule_matches(rules.last(), p, check_arch) {
        rules.last().action == RuleAction::Allow
    } else {
        rules_outcome(rules.drop_last(), p, check_arch)
    }
}

fn os_predicate_matches(os: &JsonOperatingSystem, p: &Platform, check_arch: bool) -> (r: bool)
    ensures
        r == os_matches(*os, *p, check_arch),
{
    if os.version.is_some() {
        return false;
    }
    match &os.name {
        Some(n) => {
            let a = lowercase(n.as_str());
            let b = lowercase(p.os_name.as_str());
            if !(a == b) {
                return false;
            }
        },
        None => {},
    }
    if check_arch {
        match &os.arch {
            Some(arch) => *arch == p.arch,
            None => true,
        }
    } else {
        true
    }
}

/// Evaluates a rule list left to right: every matching rule sets the
/// running result to its action, starting from "not included".
pub fn evaluate_rules(rules: &Vec<JsonRule>, platform: &Platform, check_arch: bool) -> (r: bool)
    ensures
        r == rules_outcome(rules@, *platform, check_arch),
{
    let mut included = false;
    let mut i: usize = 0;
    while i < rules.len()
        invariant
            i <= rules@.len(),
            included == rules_outcome(rules@.take(i as int), *platform, check_arch),
        decreases rules@.len() - i,
    {
        let rule = &rules[i];
        let matched = match &rule.os {
            None => true,
            Some(os) => os_predicate_matches(os, platform, check_arch),
        };
        if matched {
            included = rule.action == RuleAction::Allow;
        }
        proof {
            assert(rules@.take(i + 1).drop_last() =~= rules@.take(i as int));
        }
        i = i + 1;
    }
    proof {
        assert(rules@.take(i as int) =~= rules@);
    }
    included
}

/// Whether a rule list includes its subject on the platform, architecture
/// predicates included.
pub fn applies(rules: &Vec<JsonRule>, platform: &Platform) -> (r: bool)
    ensures
        r == rules_outcome(rules@, *platform, true),
{
    evaluate_rules(rules, platform, true)
}

/// An empty rule list includes nothing: absent an explicit allow, the
/// outcome is "not included".
pub proof fn lemma_empty_rules_exclude(p: Platform, check_arch: bool)
    ensures
        !rules_outcome(Seq::<JsonRule>::empty(), p, check_arch),
{
}

/// A default allow followed by a deny for some operating system excludes
/// the platforms that the deny names and includes every other one.
pub proof fn lemma_deny_revokes_default_allow(
    allow: JsonRule,
    deny: JsonRule,
    p: Platform,
    check_arch: bool,
)
    requires
        allow.action == RuleAction::Allow,
        allow.os is None,
        deny.action == RuleAction::Deny,
        deny.os is Some,
    ensures
        rules_outcome(seq![allow, deny], p, check_arch) == !os_matches(deny.os->0, p, check_arch),
{
    reveal_with_fuel(rules_outcome, 3);
    let rs = seq![allow, deny];
    assert(rs.last() == deny);
    assert(rs.drop_last() =~= seq![allow]);
    assert(seq![allow].drop_last() =~= Seq::<JsonRule>::empty());
}

/// An allow for another operating system, with no default allow, leaves
/// the platform excluded.
pub proof fn lemma_foreign_allow_excludes(allow: JsonRule, p: Platform, check_arch: bool)
    requires
        allow.action == RuleAction::Allow,
        allow.os is Some,
        !os_matches(allow.os->0, p, check_arch),
    ensures
        !rules_outcome(seq![allow], p, check_arch),
{
    reveal_with_fuel(rules_outcome, 2);
    assert(seq![allow].last() == allow);
    assert(seq![allow].drop_last() =~= Seq::<JsonRule>::empty());
}

} // verus!
