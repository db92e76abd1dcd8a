use gittop::calendar::{ClockTime, Weekday};
use gittop::rule_screen::{
    AccountMessage, ExplainMessage, InspectorMessage, OrgMessage, RuleEngineMessage, RuleEngineScreen, RuleTab,
    TypeMessage,
};
use gittop::rules::{AccountRule, NotificationRuleSet, OrgRule, OutsideScheduleBehavior, RuleAction, TypeRule};

fn screen() -> RuleEngineScreen {
    let mut rules = NotificationRuleSet::default();
    rules.enabled = true;
    let mut acc = AccountRule::new("Alice");
    acc.id = "acc".to_string();
    rules.account_rules.push(acc);
    rules.org_rules.push(OrgRule { id: "o1".to_string(), enabled: true, org: "acme".to_string(), priority: 5, action: RuleAction::Hide });
    rules.type_rules.push(TypeRule {
        id: "t1".to_string(),
        enabled: true,
        notification_type: "mention".to_string(),
        account: None,
        priority: 0,
        action: RuleAction::Silent,
    });
    RuleEngineScreen::new(rules, vec!["alice".to_string(), "Bob".to_string(), "bob".to_string()], "Mentioned".to_string())
}

#[test]
fn new_screen_adds_rules_for_missing_accounts() {
    let s = screen();
    let names: Vec<&str> = s.rules.account_rules.iter().map(|r| r.account.as_str()).collect();
    assert_eq!(names, vec!["Alice", "Bob"]);
    assert_eq!(s.selected_tab, RuleTab::Overview);
    assert_eq!(s.explain_test_type, "Mentioned");
    assert_eq!(s.new_type_rule_priority, 0);
    assert!(!s.show_handbook);
    assert_eq!(RuleTab::default(), RuleTab::Overview);
}

#[test]
fn simple_messages() {
    let mut s = screen();
    assert!(!s.update(RuleEngineMessage::SelectTab(RuleTab::TypeRules)));
    assert_eq!(s.selected_tab, RuleTab::TypeRules);
    assert!(!s.update(RuleEngineMessage::ToggleHandbook));
    assert!(s.show_handbook);
    assert!(s.update(RuleEngineMessage::ToggleEnabled(false)));
    assert!(!s.rules.enabled);
    assert!(!s.update(RuleEngineMessage::Inspector(InspectorMessage::Select("o1".to_string()))));
    assert_eq!(s.selected_rule_id.as_deref(), Some("o1"));
    assert!(!s.update(RuleEngineMessage::Inspector(InspectorMessage::Close)));
    assert!(s.selected_rule_id.is_none());
    assert!(!s.update(RuleEngineMessage::Explain(ExplainMessage::SetTestType("Assigned".to_string()))));
    assert_eq!(s.explain_test_type, "Assigned");
    assert!(!s.update(RuleEngineMessage::Back));
    assert!(!s.update(RuleEngineMessage::NoOp));
}

#[test]
fn account_messages() {
    let mut s = screen();
    assert!(!s.update(RuleEngineMessage::Account(AccountMessage::Select("acc".to_string()))));
    assert_eq!(s.selected_account_id.as_deref(), Some("acc"));
    assert!(s.update(RuleEngineMessage::Account(AccountMessage::ToggleEnabled("acc".to_string(), false))));
    assert!(!s.rules.account_rules[0].enabled);
    assert!(!s.update(RuleEngineMessage::Account(AccountMessage::ToggleEnabled("nope".to_string(), true))));
    assert!(s.update(RuleEngineMessage::Account(AccountMessage::ToggleDay("acc".to_string(), Weekday::Wed))));
    assert!(!s.rules.account_rules[0].active_days.contains(Weekday::Wed));
    assert!(s.update(RuleEngineMessage::Account(AccountMessage::ToggleDay("acc".to_string(), Weekday::Wed))));
    assert!(s.rules.account_rules[0].active_days.contains(Weekday::Wed));
    assert!(s.update(RuleEngineMessage::Account(AccountMessage::SetTimeWindow(
        "acc".to_string(),
        Some("22:00".to_string()),
        Some("bad".to_string()),
    ))));
    assert_eq!(s.rules.account_rules[0].start_time, ClockTime::from_hm(22, 0));
    assert_eq!(s.rules.account_rules[0].end_time, None);
    assert!(s.update(RuleEngineMessage::Account(AccountMessage::SetOutsideBehavior(
        "acc".to_string(),
        OutsideScheduleBehavior::Defer,
    ))));
    assert_eq!(s.rules.account_rules[0].outside_behavior, OutsideScheduleBehavior::Defer);
    assert!(!s.update(RuleEngineMessage::Account(AccountMessage::SetTimeWindowExpanded("acc".to_string(), true))));
    assert!(!s.update(RuleEngineMessage::Account(AccountMessage::SetTimeWindowExpanded("acc".to_string(), true))));
    assert_eq!(s.expanded_account_time_windows, vec!["acc".to_string()]);
    assert!(!s.update(RuleEngineMessage::Account(AccountMessage::SetTimeWindowExpanded("acc".to_string(), false))));
    assert!(s.expanded_account_time_windows.is_empty());
}

#[test]
fn org_messages() {
    let mut s = screen();
    assert!(s.update(RuleEngineMessage::Org(OrgMessage::Toggle("o1".to_string(), false))));
    assert!(!s.rules.org_rules[0].enabled);
    assert!(s.update(RuleEngineMessage::Org(OrgMessage::Toggle("missing".to_string(), false))));
    assert!(s.update(RuleEngineMessage::Org(OrgMessage::Duplicate("o1".to_string()))));
    assert_eq!(s.rules.org_rules.len(), 2);
    let copy = &s.rules.org_rules[1];
    assert_ne!(copy.id, "o1");
    assert_eq!(copy.id.len(), 36);
    assert_eq!((copy.org.as_str(), copy.priority, copy.action, copy.enabled), ("acme", 5, RuleAction::Hide, false));
    assert!(!s.update(RuleEngineMessage::Org(OrgMessage::Duplicate("missing".to_string()))));
    assert!(s.update(RuleEngineMessage::Org(OrgMessage::Delete("o1".to_string()))));
    assert_eq!(s.rules.org_rules.len(), 1);
    assert_ne!(s.rules.org_rules[0].id, "o1");
}

#[test]
fn type_messages() {
    let mut s = screen();
    assert!(!s.update(RuleEngineMessage::Type(TypeMessage::FormTypeChanged("review_requested".to_string()))));
    assert!(!s.update(RuleEngineMessage::Type(TypeMessage::FormAccountChanged("Global".to_string()))));
    assert!(s.new_type_rule_account.is_none());
    assert!(!s.update(RuleEngineMessage::Type(TypeMessage::FormAccountChanged("   ".to_string()))));
    assert!(s.new_type_rule_account.is_none());
    assert!(!s.update(RuleEngineMessage::Type(TypeMessage::FormAccountChanged("bob".to_string()))));
    assert_eq!(s.new_type_rule_account.as_deref(), Some("bob"));
    assert!(!s.update(RuleEngineMessage::Type(TypeMessage::FormPriorityChanged(50))));
    assert!(!s.update(RuleEngineMessage::Type(TypeMessage::FormActionChanged(RuleAction::Important))));
    assert!(s.update(RuleEngineMessage::Type(TypeMessage::Add)));
    assert_eq!(s.rules.type_rules.len(), 2);
    let added = &s.rules.type_rules[1];
    assert_eq!(added.notification_type, "review_requested");
    assert_eq!(added.account.as_deref(), Some("bob"));
    assert_eq!((added.priority, added.action, added.enabled), (50, RuleAction::Important, true));
    assert!(s.new_type_rule_account.is_none());
    assert_eq!(s.new_type_rule_priority, 0);
    assert_eq!(s.new_type_rule_action, RuleAction::Show);
    assert_eq!(s.new_type_rule_type, "review_requested");
    assert!(s.update(RuleEngineMessage::Type(TypeMessage::Toggle("t1".to_string(), false))));
    assert!(!s.rules.type_rules[0].enabled);
    assert!(s.update(RuleEngineMessage::Type(TypeMessage::Duplicate("t1".to_string()))));
    assert_eq!(s.rules.type_rules.len(), 3);
    assert!(s.update(RuleEngineMessage::Type(TypeMessage::Delete("t1".to_string()))));
    assert_eq!(s.rules.type_rules.len(), 2);
    assert!(!s.update(RuleEngineMessage::Type(TypeMessage::ToggleGroup("mention".to_string()))));
    assert_eq!(s.expanded_type_groups, vec!["mention".to_string()]);
    assert!(!s.update(RuleEngineMessage::Type(TypeMessage::ToggleGroup("mention".to_string()))));
    assert!(s.expanded_type_groups.is_empty());
}
