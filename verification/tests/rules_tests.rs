use chrono::{Datelike, Local, Timelike};
use gittop::calendar::{ClockTime, LocalMoment, Weekday, WeekdaySet};
use gittop::engine::RuleEngine;
use gittop::rules::{
    default_rule_set_name, priority_levels, type_rule_name, AccountRule, NotificationRuleSet,
    OrgRule, OutsideScheduleBehavior, RuleAction, TypeRule, PRIORITY_HIGH,
};

fn enabled_rules() -> NotificationRuleSet {
    let mut rules = NotificationRuleSet::default();
    rules.enabled = true;
    rules
}

fn at(day: Weekday, hour: u32, minute: u32) -> LocalMoment {
    LocalMoment { weekday: day, time: ClockTime::from_hm(hour, minute).unwrap() }
}

#[test]
fn test_rule_set_default() {
    let rules = NotificationRuleSet::default();
    assert!(!rules.enabled);
    assert_eq!(rules.active_rule_count(), 0);
}

#[test]
fn test_active_schedule_logic() {
    let mut rules = enabled_rules();

    let mut acc_rule = AccountRule::new("Amar");
    acc_rule.enabled = true;
    acc_rule.outside_behavior = OutsideScheduleBehavior::Suppress;
    // Make it active only on Monday
    acc_rule.active_days.clear();
    acc_rule.active_days.insert(Weekday::Mon);
    rules.account_rules.push(acc_rule);
}

#[test]
fn test_is_active_checks() {
    let acc_rule = AccountRule::new("Test");
    // Active all days by default

    let monday_noon = Local::now()
        .with_year(2023)
        .unwrap()
        .with_ordinal(1)
        .unwrap()
        .with_hour(12)
        .unwrap()
        .with_minute(0)
        .unwrap();

    assert_eq!(acc_rule.account, "Test");
    assert!(monday_noon.year() == 2023);
}

#[test]
fn test_priority_action_override() {
    // High priority rule (Org) vs Schedule suppression
    let mut rules = enabled_rules();

    let mut acc_rule = AccountRule::new("WorkAcc");
    acc_rule.enabled = true;
    acc_rule.active_days.clear(); // Never active
    acc_rule.outside_behavior = OutsideScheduleBehavior::Suppress;
    rules.account_rules.push(acc_rule);

    let org_rule = OrgRule {
        id: "org1".to_string(),
        enabled: true,
        org: "WorkOrg".to_string(),
        priority: 50,
        action: RuleAction::Important, // Force show!
    };
    rules.org_rules.push(org_rule);

    let engine = RuleEngine::new(rules);
    let now = LocalMoment::now();

    // Account rule says Hide. Org rule says Important.
    // Important should win.
    let (action, _) = engine.evaluate_detailed("mention", Some("WorkOrg"), Some("WorkAcc"), &now);
    assert_eq!(action, RuleAction::Important);
}

#[test]
fn new_account_rule_defaults() {
    let r = AccountRule::new("octo");
    assert!(r.enabled);
    assert_eq!(r.account, "octo");
    assert_eq!(r.id.len(), 36);
    assert_eq!(r.outside_behavior, OutsideScheduleBehavior::Suppress);
    assert!(r.start_time.is_none() && r.end_time.is_none());
    for d in [Weekday::Mon, Weekday::Tue, Weekday::Wed, Weekday::Thu, Weekday::Fri, Weekday::Sat, Weekday::Sun] {
        assert!(r.active_days.contains(d));
    }
    let other = AccountRule::new("octo");
    assert_ne!(r.id, other.id);
}

#[test]
fn org_and_type_rule_constructors() {
    let o = OrgRule::new("rust-lang", 50);
    assert!(o.enabled && o.org == "rust-lang" && o.priority == 50 && o.action == RuleAction::Show);
    let t = TypeRule::new("mention", Some("me".to_string()), -50);
    assert!(t.enabled && t.notification_type == "mention" && t.priority == -50);
    assert_eq!(t.account.as_deref(), Some("me"));
    assert_eq!(t.action, RuleAction::Show);
    assert_eq!(t.id.len(), 36);
}

#[test]
fn disabled_account_is_never_active() {
    let mut r = AccountRule::new("a");
    r.enabled = false;
    assert!(!r.is_active(&at(Weekday::Mon, 12, 0)));
}

#[test]
fn account_inactive_on_unlisted_day() {
    let mut r = AccountRule::new("a");
    r.active_days.clear();
    r.active_days.insert(Weekday::Mon);
    assert!(r.is_active(&at(Weekday::Mon, 3, 0)));
    assert!(!r.is_active(&at(Weekday::Tue, 3, 0)));
}

#[test]
fn standard_window_is_half_open() {
    let mut r = AccountRule::new("a");
    r.start_time = ClockTime::from_hm(9, 0);
    r.end_time = ClockTime::from_hm(17, 0);
    assert!(!r.is_active(&at(Weekday::Wed, 8, 59)));
    assert!(r.is_active(&at(Weekday::Wed, 9, 0)));
    assert!(r.is_active(&at(Weekday::Wed, 16, 59)));
    assert!(!r.is_active(&at(Weekday::Wed, 17, 0)));
}

#[test]
fn window_crossing_midnight() {
    let mut r = AccountRule::new("a");
    r.start_time = ClockTime::from_hm(22, 0);
    r.end_time = ClockTime::from_hm(7, 0);
    assert!(r.is_active(&at(Weekday::Fri, 23, 30)));
    assert!(r.is_active(&at(Weekday::Fri, 6, 59)));
    assert!(!r.is_active(&at(Weekday::Fri, 7, 0)));
    assert!(!r.is_active(&at(Weekday::Fri, 12, 0)));
    assert!(r.is_active(&at(Weekday::Fri, 22, 0)));
}

#[test]
fn only_one_window_end_means_all_day() {
    let mut r = AccountRule::new("a");
    r.start_time = ClockTime::from_hm(9, 0);
    assert!(r.is_active(&at(Weekday::Sun, 2, 0)));
}

#[test]
fn equal_window_ends_are_never_active() {
    let mut r = AccountRule::new("a");
    r.start_time = ClockTime::from_hm(9, 0);
    r.end_time = ClockTime::from_hm(9, 0);
    assert!(!r.is_active(&at(Weekday::Sun, 9, 0)));
    assert!(!r.is_active(&at(Weekday::Sun, 10, 0)));
}

#[test]
fn counts_of_a_rule_set() {
    let mut rules = enabled_rules();
    let mut a1 = AccountRule::new("a");
    a1.active_days.clear();
    let mut a2 = AccountRule::new("b");
    a2.active_days.clear();
    a2.outside_behavior = OutsideScheduleBehavior::Defer;
    let mut a3 = AccountRule::new("c");
    a3.enabled = false;
    rules.account_rules = vec![a1, a2, a3];
    let mut o1 = OrgRule::new("x", 50);
    o1.action = RuleAction::Hide;
    let o2 = OrgRule::new("y", 0);
    let mut o3 = OrgRule::new("z", 0);
    o3.action = RuleAction::Important;
    o3.enabled = false;
    rules.org_rules = vec![o1, o2, o3];
    let mut t1 = TypeRule::new("mention", None, 0);
    t1.action = RuleAction::Important;
    let mut t2 = TypeRule::new("ci_activity", Some("b".to_string()), -50);
    t2.action = RuleAction::Hide;
    rules.type_rules = vec![t1, t2];

    assert_eq!(rules.active_rule_count(), 2 + 2 + 2);
    let now = at(Weekday::Mon, 12, 0);
    assert_eq!(rules.count_suppress_rules_at(&now), 1 + 1 + 1);
    assert_eq!(rules.count_high_priority_rules(), 1 + 1);

    let impact = rules.get_high_impact_rules_at(&now);
    let names: Vec<(String, RuleAction)> = impact.iter().map(|h| (h.name.clone(), h.action)).collect();
    assert_eq!(
        names,
        vec![
            ("a".to_string(), RuleAction::Hide),
            ("b".to_string(), RuleAction::Silent),
            ("x".to_string(), RuleAction::Hide),
            ("mention (Global)".to_string(), RuleAction::Important),
            ("ci_activity (b)".to_string(), RuleAction::Hide),
        ]
    );
    // The clock-reading forms agree on rules that do not depend on the time of day.
    assert_eq!(rules.count_suppress_rules(), 3);
    assert_eq!(rules.get_high_impact_rules().len(), 5);

    rules.enabled = false;
    assert_eq!(rules.active_rule_count(), 0);
    assert_eq!(rules.count_suppress_rules_at(&now), 0);
    assert_eq!(rules.count_high_priority_rules(), 0);
    assert!(rules.get_high_impact_rules_at(&now).is_empty());
}

#[test]
fn labels_and_constants() {
    assert_eq!(RuleAction::Show.display_label(), "Show");
    assert_eq!(RuleAction::Silent.display_label(), "Silent");
    assert_eq!(RuleAction::Hide.display_label(), "Hide");
    assert_eq!(RuleAction::Important.display_label(), "Important");
    assert_eq!(RuleAction::all(), vec![RuleAction::Show, RuleAction::Silent, RuleAction::Hide, RuleAction::Important]);
    assert_eq!(RuleAction::default(), RuleAction::Show);
    assert_eq!(OutsideScheduleBehavior::default(), OutsideScheduleBehavior::Defer);
    assert_eq!(OutsideScheduleBehavior::Suppress.display_label(), "Suppress notifications");
    assert_eq!(OutsideScheduleBehavior::Defer.display_label(), "Defer until next active window");
    assert_eq!(OutsideScheduleBehavior::Suppress.action(), RuleAction::Hide);
    assert_eq!(OutsideScheduleBehavior::Defer.action(), RuleAction::Silent);
    assert_eq!(default_rule_set_name(), "Default");
    assert_eq!(PRIORITY_HIGH, 50);
    let levels = priority_levels();
    assert_eq!(levels[1], ("High (50)", 50));
    assert_eq!(levels[4], ("Min (-100)", -100));
    let t = TypeRule::new("review_requested", None, 0);
    assert_eq!(type_rule_name(&t), "review_requested (Global)");
}

#[test]
fn weekday_set_operations() {
    let mut s = WeekdaySet::none();
    assert!(!s.contains(Weekday::Sat));
    assert!(s.insert(Weekday::Sat));
    assert!(!s.insert(Weekday::Sat));
    assert!(s.contains(Weekday::Sat));
    assert!(s.remove(Weekday::Sat));
    assert!(!s.remove(Weekday::Sat));
    let mut all = WeekdaySet::all();
    all.clear();
    assert_eq!(all, WeekdaySet::none());
    assert_eq!(Weekday::from_number(3), Weekday::Thu);
    assert_eq!(Weekday::Sun.number(), 6);
}

#[test]
fn clock_time_parsing_and_order() {
    let t = ClockTime::parse_hour_minute("09:30").unwrap();
    assert_eq!(t, ClockTime { secs: 9 * 3600 + 30 * 60, nanos: 0 });
    assert_eq!(ClockTime::parse_hour_minute("7:15"), ClockTime::from_hm(7, 15));
    assert!(ClockTime::parse_hour_minute("17:60").is_none());
    assert!(ClockTime::parse_hour_minute("noon").is_none());
    assert!(ClockTime::from_hm(24, 0).is_none());
    let a = ClockTime::from_hm(8, 0).unwrap();
    let b = ClockTime::from_hm(8, 1).unwrap();
    assert!(a.is_before(&b) && !b.is_before(&a) && !a.is_before(&a));
    let now = LocalMoment::now();
    assert!(now.time.secs < 86400);
}

#[test]
fn high_impact_list_counts_accounts_high_priority_and_hiding_rules() {
    let mut rules = enabled_rules();
    let mut a1 = AccountRule::new("a");
    a1.active_days.clear();
    rules.account_rules = vec![a1, AccountRule::new("always")];
    let mut o1 = OrgRule::new("x", 10);
    o1.action = RuleAction::Hide;
    let o2 = OrgRule::new("y", 60);
    rules.org_rules = vec![o1, o2, OrgRule::new("z", 0)];
    let mut t1 = TypeRule::new("mention", None, 0);
    t1.action = RuleAction::Important;
    let mut t2 = TypeRule::new("review", None, 70);
    t2.action = RuleAction::Hide;
    rules.type_rules = vec![t1, t2];
    let now = at(Weekday::Mon, 12, 0);
    let outside_schedule = 1;
    let hiding_below_high = 1;
    assert_eq!(rules.count_high_priority_rules(), 3);
    assert_eq!(
        rules.get_high_impact_rules_at(&now).len(),
        outside_schedule + rules.count_high_priority_rules() + hiding_below_high
    );
}
