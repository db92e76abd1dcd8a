use gittop::calendar::{ClockTime, LocalMoment, Weekday};
use gittop::engine::{ranks_before, sort_by_rank, MatchResult, RuleDecisionReason, RuleEngine};
use gittop::rules::{AccountRule, NotificationRuleSet, OrgRule, OutsideScheduleBehavior, RuleAction, TypeRule};
use gittop::text::{eq_ignore_ascii_case, is_blank, str_eq};

fn noon() -> LocalMoment {
    LocalMoment { weekday: Weekday::Tue, time: ClockTime::from_hm(12, 0).unwrap() }
}

fn org(id: &str, name: &str, priority: i32, action: RuleAction) -> OrgRule {
    OrgRule { id: id.to_string(), enabled: true, org: name.to_string(), priority, action }
}

fn type_rule(id: &str, t: &str, account: Option<&str>, priority: i32, action: RuleAction) -> TypeRule {
    TypeRule {
        id: id.to_string(),
        enabled: true,
        notification_type: t.to_string(),
        account: account.map(|a| a.to_string()),
        priority,
        action,
    }
}

fn rule_set() -> NotificationRuleSet {
    let mut rules = NotificationRuleSet::default();
    rules.enabled = true;
    rules
}

#[test]
fn disabled_rule_set_shows_everything() {
    let mut rules = rule_set();
    rules.type_rules.push(type_rule("t", "mention", None, 0, RuleAction::Hide));
    rules.enabled = false;
    let (a, d) = rules.evaluate_detailed("mention", None, None, &noon());
    assert_eq!(a, RuleAction::Show);
    assert!(d.is_none());
}

#[test]
fn no_match_shows() {
    let mut rules = rule_set();
    rules.type_rules.push(type_rule("t", "mention", None, 0, RuleAction::Hide));
    let (a, d) = rules.evaluate_detailed("assign", None, None, &noon());
    assert_eq!(a, RuleAction::Show);
    assert!(d.is_none());
}

#[test]
fn highest_priority_wins() {
    let mut rules = rule_set();
    rules.org_rules.push(org("o", "acme", -50, RuleAction::Hide));
    rules.type_rules.push(type_rule("t", "mention", None, 50, RuleAction::Silent));
    let (a, d) = rules.evaluate_detailed("mention", Some("acme"), None, &noon());
    assert_eq!(a, RuleAction::Silent);
    let d = d.unwrap();
    assert_eq!(d.applied_rule_id, "t");
    assert_eq!(d.priority, 50);
    assert_eq!(d.reason, RuleDecisionReason::Type("mention".to_string()));
}

#[test]
fn ties_go_to_the_most_restrictive_action() {
    let mut rules = rule_set();
    rules.type_rules.push(type_rule("show", "mention", None, 0, RuleAction::Show));
    rules.type_rules.push(type_rule("silent", "mention", None, 0, RuleAction::Silent));
    rules.org_rules.push(org("hide", "acme", 0, RuleAction::Hide));
    let (a, d) = rules.evaluate_detailed("mention", Some("acme"), None, &noon());
    assert_eq!(a, RuleAction::Hide);
    assert_eq!(d.unwrap().applied_rule_id, "hide");
}

#[test]
fn important_beats_higher_priorities() {
    let mut rules = rule_set();
    rules.org_rules.push(org("hide", "acme", 100, RuleAction::Hide));
    rules.type_rules.push(type_rule("imp", "mention", None, -100, RuleAction::Important));
    let (a, d) = rules.evaluate_detailed("mention", Some("acme"), None, &noon());
    assert_eq!(a, RuleAction::Important);
    let d = d.unwrap();
    assert_eq!(d.applied_rule_id, "imp");
    assert_eq!(d.action, RuleAction::Important);
    assert_eq!(d.priority, -100);
}

#[test]
fn account_rule_outside_schedule() {
    let mut rules = rule_set();
    let mut acc = AccountRule::new("Alice");
    acc.id = "acc".to_string();
    acc.active_days.clear();
    acc.active_days.insert(Weekday::Mon);
    acc.outside_behavior = OutsideScheduleBehavior::Defer;
    rules.account_rules.push(acc);
    let (a, d) = rules.evaluate_detailed("mention", None, Some("alice"), &noon());
    assert_eq!(a, RuleAction::Silent);
    assert_eq!(d.unwrap().reason, RuleDecisionReason::Account("Alice".to_string()));
    rules.account_rules[0].outside_behavior = OutsideScheduleBehavior::Suppress;
    assert_eq!(rules.evaluate_detailed("mention", None, Some("ALICE"), &noon()).0, RuleAction::Hide);
    let monday = LocalMoment { weekday: Weekday::Mon, time: ClockTime::from_hm(12, 0).unwrap() };
    let (a, d) = rules.evaluate_detailed("mention", None, Some("alice"), &monday);
    assert_eq!(a, RuleAction::Show);
    assert_eq!(d.unwrap().applied_rule_id, "acc");
}

#[test]
fn disabled_account_rule_does_not_match() {
    let mut rules = rule_set();
    let mut acc = AccountRule::new("alice");
    acc.active_days.clear();
    acc.enabled = false;
    rules.account_rules.push(acc);
    assert!(rules.trace("mention", None, Some("alice"), &noon(), false).is_empty());
    assert_eq!(rules.evaluate_detailed("mention", None, Some("alice"), &noon()).0, RuleAction::Show);
}

#[test]
fn type_rule_scopes() {
    let mut rules = rule_set();
    rules.type_rules.push(type_rule("scoped", "Mention", Some("Bob"), 0, RuleAction::Hide));
    rules.type_rules.push(type_rule("global", "mention", None, 0, RuleAction::Silent));
    let both = rules.trace("mention", None, Some("bob"), &noon(), false);
    let ids: Vec<&str> = both.iter().map(|m| m.id.as_str()).collect();
    assert_eq!(ids, vec!["scoped", "global"]);
    assert_eq!(both[0].name, "Mention (Bob)");
    assert_eq!(both[1].name, "mention (Global)");
    assert_eq!(both[0].rule_source, "Type");
    let other = rules.trace("mention", None, Some("carol"), &noon(), false);
    assert_eq!(other.len(), 1);
    let strict = rules.trace("mention", None, None, &noon(), false);
    assert_eq!(strict.len(), 1);
    let loose = rules.trace("mention", None, None, &noon(), true);
    assert_eq!(loose.len(), 2);
}

#[test]
fn org_rules_need_an_owner() {
    let mut rules = rule_set();
    rules.org_rules.push(org("o", "Acme", 0, RuleAction::Hide));
    assert!(rules.trace("mention", None, None, &noon(), false).is_empty());
    let m = rules.trace("mention", Some("ACME"), None, &noon(), false);
    assert_eq!(m.len(), 1);
    assert_eq!(m[0].rule_source, "Org");
    assert_eq!(m[0].name, "Acme");
    assert!(m[0].enabled);
}

#[test]
fn trace_orders_and_keeps_ties_stable() {
    let mut rules = rule_set();
    rules.type_rules.push(type_rule("a", "x", None, 0, RuleAction::Show));
    rules.type_rules.push(type_rule("b", "x", None, 10, RuleAction::Show));
    rules.type_rules.push(type_rule("c", "x", None, 0, RuleAction::Show));
    rules.type_rules.push(type_rule("d", "x", None, 0, RuleAction::Hide));
    rules.type_rules.push(type_rule("e", "x", None, -5, RuleAction::Important));
    let ids: Vec<String> = rules.trace("x", None, None, &noon(), false).into_iter().map(|m| m.id).collect();
    assert_eq!(ids, vec!["e", "b", "d", "a", "c"]);
}

#[test]
fn sort_and_comparison() {
    let m = |id: &str, p: i32, a: RuleAction| MatchResult {
        id: id.to_string(),
        priority: p,
        action: a,
        reason: RuleDecisionReason::Org(id.to_string()),
        rule_source: "Org".to_string(),
        name: id.to_string(),
        enabled: true,
    };
    assert!(ranks_before(&m("a", 0, RuleAction::Important), &m("b", 100, RuleAction::Hide)));
    assert!(ranks_before(&m("a", 1, RuleAction::Show), &m("b", 0, RuleAction::Hide)));
    assert!(ranks_before(&m("a", 0, RuleAction::Silent), &m("b", 0, RuleAction::Show)));
    assert!(!ranks_before(&m("a", 0, RuleAction::Show), &m("b", 0, RuleAction::Show)));
    let sorted = sort_by_rank(&vec![m("1", 0, RuleAction::Show), m("2", 0, RuleAction::Hide), m("3", 5, RuleAction::Show)]);
    let ids: Vec<&str> = sorted.iter().map(|x| x.id.as_str()).collect();
    assert_eq!(ids, vec!["3", "2", "1"]);
}

#[test]
fn engine_delegates_to_rule_set() {
    let mut rules = rule_set();
    rules.org_rules.push(org("o", "acme", 0, RuleAction::Silent));
    let direct = rules.evaluate_detailed("x", Some("acme"), None, &noon());
    let engine = RuleEngine::new(rules.clone());
    assert_eq!(engine.evaluate_detailed("x", Some("acme"), None, &noon()), direct);
    assert_eq!(direct.0, RuleAction::Silent);
}

#[test]
fn text_helpers() {
    assert!(eq_ignore_ascii_case("WorkOrg", "workorg"));
    assert!(!eq_ignore_ascii_case("WorkOrg", "workorgs"));
    assert!(!eq_ignore_ascii_case("É", "é"));
    assert!(is_blank("  \t\n"));
    assert!(is_blank(""));
    assert!(!is_blank(" a "));
    assert!(str_eq("abc", "abc"));
    assert!(!str_eq("abc", "abd"));
}

#[test]
fn priority_never_lets_show_override_hide() {
    let mut rules = rule_set();
    rules.type_rules.push(type_rule("show", "mention", None, 10, RuleAction::Show));
    rules.type_rules.push(type_rule("hide", "mention", None, 0, RuleAction::Hide));
    let (a, d) = rules.evaluate_detailed("mention", None, None, &noon());
    assert_eq!(a, RuleAction::Hide);
    let d = d.unwrap();
    assert_eq!(d.applied_rule_id, "hide");
    assert_eq!(d.priority, 0);
    // The trace still lists the Show rule first: priority orders the list.
    let trace = rules.trace("mention", None, None, &noon(), false);
    assert_eq!(trace[0].id, "show");
}

#[test]
fn highest_priority_suppression_decides_among_suppressions() {
    let mut rules = rule_set();
    rules.type_rules.push(type_rule("show", "mention", None, 100, RuleAction::Show));
    rules.type_rules.push(type_rule("hide", "mention", None, 0, RuleAction::Hide));
    rules.org_rules.push(org("silent", "acme", 10, RuleAction::Silent));
    let (a, d) = rules.evaluate_detailed("mention", Some("acme"), None, &noon());
    assert_eq!(a, RuleAction::Silent);
    assert_eq!(d.unwrap().applied_rule_id, "silent");
}

#[test]
fn highest_priority_show_decides_when_nothing_suppresses() {
    let mut rules = rule_set();
    rules.type_rules.push(type_rule("low", "mention", None, -5, RuleAction::Show));
    rules.org_rules.push(org("high", "acme", 7, RuleAction::Show));
    let (a, d) = rules.evaluate_detailed("mention", Some("acme"), None, &noon());
    assert_eq!(a, RuleAction::Show);
    let d = d.unwrap();
    assert_eq!(d.applied_rule_id, "high");
    assert_eq!(d.priority, 7);
}

fn ids(v: &[MatchResult]) -> Vec<String> {
    v.iter().map(|m| m.id.clone()).collect()
}

#[test]
fn trace_ignores_the_case_of_its_arguments() {
    let mut rules = rule_set();
    let mut acc = AccountRule::new("Alice");
    acc.id = "acc".to_string();
    rules.account_rules.push(acc);
    rules.org_rules.push(org("o", "Acme", 3, RuleAction::Silent));
    rules.type_rules.push(type_rule("t", "Mention", Some("ALICE"), 1, RuleAction::Hide));
    let lower = rules.trace("mention", Some("acme"), Some("alice"), &noon(), false);
    let upper = rules.trace("MENTION", Some("ACME"), Some("Alice"), &noon(), false);
    assert_eq!(ids(&lower), vec!["o", "t", "acc"]);
    assert_eq!(ids(&upper), ids(&lower));
    for (a, b) in lower.iter().zip(upper.iter()) {
        assert_eq!((a.priority, a.action, &a.reason, &a.rule_source, &a.name), (b.priority, b.action, &b.reason, &b.rule_source, &b.name));
    }
}

#[test]
fn loose_matching_changes_nothing_with_an_account() {
    let mut rules = rule_set();
    rules.type_rules.push(type_rule("scoped", "mention", Some("bob"), 0, RuleAction::Hide));
    rules.type_rules.push(type_rule("global", "mention", None, 0, RuleAction::Silent));
    let strict = rules.trace("mention", None, Some("carol"), &noon(), false);
    let loose = rules.trace("mention", None, Some("carol"), &noon(), true);
    assert_eq!(ids(&strict), vec!["global"]);
    assert_eq!(ids(&loose), ids(&strict));
}

#[test]
fn loose_matching_without_account_adds_only_scoped_type_rules() {
    let mut rules = rule_set();
    rules.type_rules.push(type_rule("g1", "mention", None, 0, RuleAction::Show));
    rules.type_rules.push(type_rule("s1", "mention", Some("bob"), 5, RuleAction::Hide));
    rules.type_rules.push(type_rule("g2", "mention", None, 9, RuleAction::Silent));
    rules.type_rules.push(type_rule("s2", "mention", Some("eve"), -1, RuleAction::Show));
    rules.org_rules.push(org("o", "acme", 1, RuleAction::Show));
    let strict = rules.trace("mention", Some("acme"), None, &noon(), false);
    let loose = rules.trace("mention", Some("acme"), None, &noon(), true);
    assert_eq!(ids(&strict), vec!["g2", "o", "g1"]);
    assert_eq!(ids(&loose), vec!["g2", "s1", "o", "g1", "s2"]);
    let kept: Vec<String> = ids(&loose).into_iter().filter(|id| !id.starts_with('s')).collect();
    assert_eq!(kept, ids(&strict));
}

#[test]
fn disabling_a_rule_removes_exactly_its_match() {
    let mut rules = rule_set();
    rules.type_rules.push(type_rule("a", "x", None, 0, RuleAction::Show));
    rules.type_rules.push(type_rule("b", "x", None, 10, RuleAction::Hide));
    rules.org_rules.push(org("o", "acme", 5, RuleAction::Silent));
    let mut acc = AccountRule::new("alice");
    acc.id = "acc".to_string();
    rules.account_rules.push(acc);
    let before = rules.trace("x", Some("acme"), Some("alice"), &noon(), false);
    assert_eq!(ids(&before), vec!["b", "o", "acc", "a"]);
    let mut no_b = rules.clone();
    no_b.type_rules[1].enabled = false;
    assert_eq!(ids(&no_b.trace("x", Some("acme"), Some("alice"), &noon(), false)), vec!["o", "acc", "a"]);
    let mut no_o = rules.clone();
    no_o.org_rules[0].enabled = false;
    assert_eq!(ids(&no_o.trace("x", Some("acme"), Some("alice"), &noon(), false)), vec!["b", "acc", "a"]);
    let mut no_acc = rules.clone();
    no_acc.account_rules[0].enabled = false;
    let after = no_acc.trace("x", Some("acme"), Some("alice"), &noon(), false);
    assert_eq!(ids(&after), vec!["b", "o", "a"]);
    assert!(after.iter().all(|m| m.enabled));
}
