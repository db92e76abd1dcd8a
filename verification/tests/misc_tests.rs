use gittop::labels::{parse_hex_color, truncate_text};
use gittop::inspector::{find_rule_by_id, FoundRule};
use gittop::rules::{AccountRule, NotificationRuleSet, OrgRule, RuleAction, TypeRule};
use gittop::settings_screen::{
    AccountsTabState, ProxyCredentialChange, ProxySettings, SettingsScreen, SettingsTab, SubmissionStatus,
};
use gittop::theme::{current_theme, set_theme, AppTheme, ThemeState};
use gittop::visual::{AccountInfo, NotificationVisualState, PaletteColor, SubjectType, Tint};
use gittop::window_state::{is_hidden, restore_from_hidden, set_hidden, WindowFlags};

#[test]
fn window_flags() {
    let mut f = WindowFlags::default();
    assert!(!is_hidden(&f));
    set_hidden(&mut f, true);
    assert!(is_hidden(&f));
    assert!(restore_from_hidden(&mut f));
    assert!(!is_hidden(&f));
    assert!(!restore_from_hidden(&mut f));
}

#[test]
fn theme_state() {
    let mut s = ThemeState::default();
    assert_eq!(current_theme(&s, AppTheme::GtkDark), AppTheme::Light);
    set_theme(&mut s, AppTheme::HighContrast);
    assert_eq!(current_theme(&s, AppTheme::GtkDark), AppTheme::HighContrast);
    assert_eq!(AppTheme::from_u8(AppTheme::MacOS.to_u8()), Some(AppTheme::MacOS));
    let broken = ThemeState { code: 200 };
    assert_eq!(current_theme(&broken, AppTheme::Windows11), AppTheme::Windows11);
}

fn proxy(url: &str, has_credentials: bool) -> ProxySettings {
    ProxySettings { enabled: true, url: url.to_string(), has_credentials }
}

#[test]
fn settings_screen_proxy_form() {
    let creds = Some(("u".to_string(), "p".to_string()));
    let s = SettingsScreen::new(proxy("http://p:8080", false), creds.clone());
    assert_eq!(s.proxy_username, "");
    assert!(!s.has_unsaved_proxy_changes());
    let mut s = SettingsScreen::new(proxy("http://p:8080", true), creds);
    assert_eq!((s.proxy_username.as_str(), s.proxy_password.as_str()), ("u", "p"));
    assert_eq!(s.selected_tab, SettingsTab::PowerMode);
    assert!(!s.has_unsaved_proxy_changes());
    s.proxy_url_changed("http://q:1".to_string());
    assert!(s.has_unsaved_proxy_changes());
    match s.update_proxy_credentials() {
        ProxyCredentialChange::Save { url, username, password } => {
            assert_eq!((url.as_str(), username.as_str(), password.as_str()), ("http://q:1", "u", "p"));
        }
        other => panic!("unexpected {:?}", other),
    }
    assert!(!s.has_unsaved_proxy_changes());
    s.proxy_username_changed(String::new());
    s.proxy_password_changed(String::new());
    assert!(s.has_unsaved_proxy_changes());
    match s.update_proxy_credentials() {
        ProxyCredentialChange::Delete { url } => assert_eq!(url, "http://q:1"),
        other => panic!("unexpected {:?}", other),
    }
    assert!(!s.proxy.has_credentials);
    assert!(!s.has_unsaved_proxy_changes());
    s.set_proxy_enabled(false);
    assert!(!s.proxy.enabled);
}

#[test]
fn settings_screen_token_flow() {
    let mut s = SettingsScreen::new(proxy("", false), None);
    s.token_input_changed("ghp_x".to_string());
    assert_eq!(s.accounts_state.token_input, "ghp_x");
    assert!(!s.begin_token_submission(Err("Token must start with ghp_".to_string())));
    assert!(matches!(&s.accounts_state.status, SubmissionStatus::Error(e) if e == "Token must start with ghp_"));
    assert!(s.begin_token_submission(Ok(())));
    assert!(matches!(s.accounts_state.status, SubmissionStatus::Validating));
    assert_eq!(s.token_validated(Ok("octocat".to_string())), Some("octocat".to_string()));
    assert_eq!(s.accounts_state.token_input, "");
    assert!(matches!(&s.accounts_state.status, SubmissionStatus::Success(m) if m == "Account 'octocat' added successfully!"));
    assert_eq!(s.token_validated(Err("Validation failed".to_string())), None);
    assert!(matches!(&s.accounts_state.status, SubmissionStatus::Error(e) if e == "Validation failed"));
    s.select_tab(SettingsTab::NetworkProxy);
    assert_eq!(s.selected_tab, SettingsTab::NetworkProxy);
    assert!(matches!(s.accounts_state.status, SubmissionStatus::Idle));
    let d = AccountsTabState::default();
    assert!(d.token_input.is_empty() && matches!(d.status, SubmissionStatus::Idle));
    assert_eq!(SettingsTab::default(), SettingsTab::PowerMode);
}

#[test]
fn visual_state() {
    let v = NotificationVisualState::compute(true, SubjectType::Issue, RuleAction::Important, true);
    assert!(v.is_priority && !v.is_silent && v.show_border);
    assert_eq!(v.bar_color, Tint::Warning);
    assert_eq!(v.subject_color, PaletteColor::AccentSuccess);
    let v = NotificationVisualState::compute(true, SubjectType::PullRequest, RuleAction::Important, false);
    assert!(!v.is_priority);
    assert_eq!(v.card_bg, Tint::Subject);
    let v = NotificationVisualState::compute(false, SubjectType::Commit, RuleAction::Silent, true);
    assert!(v.is_silent && !v.show_border);
    assert_eq!(v.border_color, Tint::Transparent);
    assert_eq!(NotificationVisualState::color_for_subject_type(SubjectType::RepositoryVulnerabilityAlert), PaletteColor::AccentDanger);
    let a = AccountInfo { username: "me".to_string() };
    assert_eq!(a.username, "me");
}

#[test]
fn inspector_lookup() {
    let mut rules = NotificationRuleSet::default();
    let mut acc = AccountRule::new("alice");
    acc.id = "same".to_string();
    rules.account_rules.push(acc);
    rules.org_rules.push(OrgRule { id: "same".to_string(), enabled: false, org: "x".to_string(), priority: 0, action: RuleAction::Hide });
    rules.org_rules.push(OrgRule { id: "org".to_string(), enabled: false, org: "x".to_string(), priority: 0, action: RuleAction::Hide });
    rules.type_rules.push(TypeRule::new("mention", None, 0));
    let tid = rules.type_rules[0].id.clone();
    let found = find_rule_by_id(&rules, "same").unwrap();
    assert!(matches!(found, FoundRule::Account(_)));
    assert_eq!(found.type_label(), "Account Rule");
    assert_eq!(found.action(), None);
    let found = find_rule_by_id(&rules, "org").unwrap();
    assert_eq!((found.id(), found.enabled(), found.action(), found.type_label()), ("org", false, Some(RuleAction::Hide), "Org Rule"));
    let found = find_rule_by_id(&rules, &tid).unwrap();
    assert_eq!(found.type_label(), "Type Rule");
    assert!(find_rule_by_id(&rules, "none").is_none());
}

#[test]
fn label_colors_and_truncation() {
    assert_eq!(parse_hex_color("#ff8000"), Some((255, 128, 0)));
    assert_eq!(parse_hex_color("##0a0B0c"), Some((10, 11, 12)));
    assert_eq!(parse_hex_color("+f+f+f"), Some((15, 15, 15)));
    assert_eq!(parse_hex_color("fff"), None);
    assert_eq!(parse_hex_color("gg0000"), None);
    assert_eq!(parse_hex_color("-f0000"), None);
    assert_eq!(parse_hex_color("é1234"), None);
    assert_eq!(truncate_text("hello world", 5), "hello...");
    assert_eq!(truncate_text("short", 10), "short");
    assert_eq!(truncate_text("exact", 5), "exact");
    assert_eq!(truncate_text("héllo", 3), "hé...");
    assert_eq!(truncate_text("abc", 0), "...");
}

#[test]
fn settings_screen_detects_edited_credentials() {
    let creds = Some(("a".to_string(), "b".to_string()));
    let mut s = SettingsScreen::new(proxy("http://p:8080", true), creds);
    assert_eq!((s.saved_proxy_username.as_str(), s.saved_proxy_password.as_str()), ("a", "b"));
    assert!(!s.has_unsaved_proxy_changes());
    s.proxy_username_changed("c".to_string());
    assert!(s.has_unsaved_proxy_changes());
    s.proxy_username_changed("a".to_string());
    assert!(!s.has_unsaved_proxy_changes());
    s.proxy_password_changed("z".to_string());
    assert!(s.has_unsaved_proxy_changes());
    match s.update_proxy_credentials() {
        ProxyCredentialChange::Save { username, password, .. } => {
            assert_eq!((username.as_str(), password.as_str()), ("a", "z"));
        }
        other => panic!("unexpected {:?}", other),
    }
    assert_eq!(s.saved_proxy_password, "z");
    assert!(!s.has_unsaved_proxy_changes());
}

#[test]
fn hex_color_with_wide_characters_is_no_colour() {
    // Six bytes: a two-byte letter, an ASCII letter and a three-byte sign.
    assert_eq!("éa€".len(), 6);
    assert_eq!(parse_hex_color("éa€"), None);
    assert_eq!(parse_hex_color("#0aébc"), None);
}
