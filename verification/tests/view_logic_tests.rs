use gittop::calendar::{ClockTime, LocalMoment, Weekday};
use gittop::explain::{action_color, badge_color, final_action, status_of, winner_flags};
use gittop::inspector::{action_explanation, hide_warning};
use gittop::rule_screen::priority_input;
use gittop::rules::{
    hidden_count_color, overview_high_impact, AccountRule, HighImpactRule, NotificationRuleSet, OrgRule, RuleAction,
    TypeRule,
};
use gittop::text::parse_i32;
use gittop::visual::PaletteColor;

fn noon() -> LocalMoment {
    LocalMoment { weekday: Weekday::Tue, time: ClockTime::from_hm(12, 0).unwrap() }
}

#[test]
fn parse_i32_agrees_with_std() {
    let inputs = [
        "0", "42", "-42", "+7", "007", "-0", "2147483647", "2147483648", "-2147483648", "-2147483649",
        "", "-", "+", "--1", "+-1", "1-", " 1", "1 ", "12a", "٣", "99999999999999999999", "-000000000000000000001",
    ];
    for s in inputs {
        assert_eq!(parse_i32(s), s.parse::<i32>().ok(), "input {:?}", s);
    }
}

#[test]
fn priority_field_input() {
    assert_eq!(priority_input("42", 7), 42);
    assert_eq!(priority_input("-15", 7), -15);
    assert_eq!(priority_input("+3", 7), 3);
    assert_eq!(priority_input("", 7), 0);
    assert_eq!(priority_input("-", 7), 0);
    assert_eq!(priority_input("abc", 7), 7);
    assert_eq!(priority_input("+", 5), 5);
    assert_eq!(priority_input("2147483648", 1), 1);
    assert_eq!(priority_input("-2147483648", 0), i32::MIN);
}

fn type_rule(id: &str, priority: i32, action: RuleAction) -> TypeRule {
    let mut r = TypeRule::new("mention", None, priority);
    r.id = id.to_string();
    r.action = action;
    r
}

#[test]
fn explainer_marks_the_deciding_rule() {
    let mut rules = NotificationRuleSet::default();
    rules.enabled = true;
    rules.type_rules.push(type_rule("show", 10, RuleAction::Show));
    rules.type_rules.push(type_rule("hide", 0, RuleAction::Hide));
    let matches = rules.trace("mention", None, None, &noon(), true);
    assert_eq!(matches[0].id, "show");
    assert_eq!(winner_flags(&matches), vec![false, true]);
    assert_eq!(final_action(&matches), Some(RuleAction::Hide));
    assert_eq!(final_action(&Vec::new()), None);
    assert!(winner_flags(&Vec::new()).is_empty());
    rules.type_rules.push(type_rule("imp", -100, RuleAction::Important));
    let matches = rules.trace("mention", None, None, &noon(), true);
    assert_eq!(winner_flags(&matches), vec![true, false, false]);
    assert_eq!(final_action(&matches), Some(RuleAction::Important));
}

#[test]
fn explainer_colours_and_labels() {
    assert_eq!(action_color(RuleAction::Hide), PaletteColor::AccentWarning);
    assert_eq!(action_color(RuleAction::Important), PaletteColor::Accent);
    assert_eq!(action_color(RuleAction::Silent), PaletteColor::TextPrimary);
    assert_eq!(action_color(RuleAction::Show), PaletteColor::TextPrimary);
    assert_eq!(badge_color(RuleAction::Hide), PaletteColor::AccentWarning);
    assert_eq!(badge_color(RuleAction::Show), PaletteColor::Accent);
    assert_eq!(status_of(true), ("ON", PaletteColor::AccentSuccess));
    assert_eq!(status_of(false), ("OFF", PaletteColor::TextMuted));
}

#[test]
fn inspector_texts() {
    assert_eq!(action_explanation(RuleAction::Hide), "Notification is completely hidden from the list.");
    assert_eq!(
        action_explanation(RuleAction::Silent),
        "Notification appears in list but does not trigger desktop notification."
    );
    assert_eq!(hide_warning(RuleAction::Hide), Some("This rule hides notifications"));
    assert_eq!(hide_warning(RuleAction::Important), None);
}

#[test]
fn overview_lists_six_high_impact_rules() {
    let v: Vec<HighImpactRule> =
        (0..8).map(|i| HighImpactRule { name: format!("r{}", i), action: RuleAction::Hide }).collect();
    let shown = overview_high_impact(&v);
    let names: Vec<&str> = shown.iter().map(|h| h.name.as_str()).collect();
    assert_eq!(names, vec!["r0", "r1", "r2", "r3", "r4", "r5"]);
    assert_eq!(overview_high_impact(&v[..2].to_vec()).len(), 2);
    assert_eq!(hidden_count_color(0), PaletteColor::TextPrimary);
    assert_eq!(hidden_count_color(3), PaletteColor::AccentWarning);
}

#[test]
fn new_rules_get_hyphenated_v4_identifiers() {
    let ids = vec![
        AccountRule::new("alice").id,
        OrgRule::new("acme", 0).id,
        TypeRule::new("mention", None, 0).id,
    ];
    for id in &ids {
        let c: Vec<char> = id.chars().collect();
        assert_eq!(c.len(), 36);
        for (i, ch) in c.iter().enumerate() {
            if [8, 13, 18, 23].contains(&i) {
                assert_eq!(*ch, '-');
            } else {
                assert!(ch.is_ascii_digit() || ('a'..='f').contains(ch), "{}", id);
            }
        }
        assert_eq!(c[14], '4');
        assert!(['8', '9', 'a', 'b'].contains(&c[19]));
    }
    assert_ne!(ids[0], ids[1]);
}
