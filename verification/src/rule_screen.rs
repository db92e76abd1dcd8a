//! State of the rule engine screen and how each message changes it. The screen reports
//! whether the rule set has to be written to storage; the caller does the writing.

use vstd::prelude::*;

use crate::calendar::{ClockTime, Weekday};
use crate::rules::{
    account_with_id, org_with_id, type_with_id, AccountRule, NotificationRuleSet, OrgRule,
    OutsideScheduleBehavior, RuleAction, TypeRule, uuid_v4_text,
};
use crate::seqs::{
    is_first, lemma_filter_step, lemma_first_unique, lemma_take_all, none_satisfy, text_set,
    texts_contain, texts_insert, texts_remove,
};
use crate::text::{
    blank, eq_ignore_ascii_case, is_blank, parse_i32, parsed_i32, same_ignoring_ascii_case,
};
use crate::visual::PaletteColor;

verus! {

// ============================================================================
// Messages
// ============================================================================

/// Tabs of the rule engine screen.
#[derive(Debug, Clone, Copy, PartialEq, Eq, Structural)]
pub enum RuleTab {
    Overview,
    AccountRules,
    OrgRules,
    TypeRules,
}

impl Default for RuleTab {
    fn default() -> (t: RuleTab)
        ensures
            t == RuleTab::Overview,
    {
        RuleTab::Overview
    }
}

/// Messages of the account rules tab (rules are named by their identifier).
#[derive(Debug, Clone)]
pub enum AccountMessage {
    Select(String),
    ToggleEnabled(String, bool),
    ToggleDay(String, Weekday),
    /// Start and end of the daily window as `hours:minutes` texts.
    SetTimeWindow(String, Option<String>, Option<String>),
    SetTimeWindowExpanded(String, bool),
    SetOutsideBehavior(String, OutsideScheduleBehavior),
}

/// Messages of the organisation rules tab.
#[derive(Debug, Clone)]
pub enum OrgMessage {
    Toggle(String, bool),
    Delete(String),
    Duplicate(String),
}

/// Messages of the type rules tab.
#[derive(Debug, Clone)]
pub enum TypeMessage {
    Toggle(String, bool),
    Delete(String),
    Duplicate(String),
    ToggleGroup(String),
    /// The notification type picked in the form, by its label.
    FormTypeChanged(String),
    FormAccountChanged(String),
    FormPriorityChanged(i32),
    FormActionChanged(RuleAction),
    Add,
}

/// Messages of the rule inspector.
#[derive(Debug, Clone)]
pub enum InspectorMessage {
    Select(String),
    Close,
}

/// Messages of the decision explainer.
#[derive(Debug, Clone)]
pub enum ExplainMessage {
    SetTestType(String),
}

/// Messages of the rule engine screen.
#[derive(Debug, Clone)]
pub enum RuleEngineMessage {
    Back,
    SelectTab(RuleTab),
    ToggleEnabled(bool),
    ToggleHandbook,
    NoOp,
    Account(AccountMessage),
    Org(OrgMessage),
    Type(TypeMessage),
    Inspector(InspectorMessage),
    Explain(ExplainMessage),
}

// ============================================================================
// State
// ============================================================================

/// Rule engine screen state.
#[derive(Debug, Clone)]
pub struct RuleEngineScreen {
    pub rules: NotificationRuleSet,
    pub selected_tab: RuleTab,
    /// Usernames of the signed-in accounts.
    pub accounts: Vec<String>,
    pub selected_account_id: Option<String>,
    /// Identifiers of the account rules whose time window editor is open.
    pub expanded_account_time_windows: Vec<String>,
    /// Type rule form: the notification type label.
    pub new_type_rule_type: String,
    /// Type rule form: the account the rule is scoped to, if any.
    pub new_type_rule_account: Option<String>,
    /// Type rule form: priority.
    pub new_type_rule_priority: i32,
    /// Type rule form: action.
    pub new_type_rule_action: RuleAction,
    /// Names of the expanded type rule groups.
    pub expanded_type_groups: Vec<String>,
    /// Rule shown in the inspector.
    pub selected_rule_id: Option<String>,
    /// Notification type the decision explainer tests.
    pub explain_test_type: String,
    pub show_handbook: bool,
}

/// An organisation rule does not have identifier `id`.
pub open spec fn org_without_id(id: Seq<char>) -> spec_fn(OrgRule) -> bool {
    |r: OrgRule| r.id@ != id
}

/// A type rule does not have identifier `id`.
pub open spec fn type_without_id(id: Seq<char>) -> spec_fn(TypeRule) -> bool {
    |r: TypeRule| r.id@ != id
}

/// `new` differs from `old` in the account rules at most.
pub open spec fn only_account_rules_changed(old: RuleEngineScreen, new: RuleEngineScreen) -> bool {
    new == RuleEngineScreen {
        rules: NotificationRuleSet { account_rules: new.rules.account_rules, ..old.rules },
        ..old
    }
}

/// `new` differs from `old` in the organisation rules at most.
pub open spec fn only_org_rules_changed(old: RuleEngineScreen, new: RuleEngineScreen) -> bool {
    new == RuleEngineScreen {
        rules: NotificationRuleSet { org_rules: new.rules.org_rules, ..old.rules },
        ..old
    }
}

/// `new` differs from `old` in the type rules at most.
pub open spec fn only_type_rules_changed(old: RuleEngineScreen, new: RuleEngineScreen) -> bool {
    new == RuleEngineScreen {
        rules: NotificationRuleSet { type_rules: new.rules.type_rules, ..old.rules },
        ..old
    }
}

/// The optional time of day a `hours:minutes` text stands for (none when there is no text
/// or it does not parse).
pub open spec fn parsed_window_end(text: Option<String>) -> Option<ClockTime> {
    match text {
        Some(t) => match crate::calendar::parsed_hour_minute(t@) {
            Some((secs, nanos)) => Some(ClockTime { secs, nanos }),
            None => None,
        },
        None => None,
    }
}

/// Changing the account rule with identifier `id` by `change`: the first rule with that
/// identifier is changed and the rule set is to be saved; without such a rule nothing changes.
pub open spec fn account_rule_changed(
    old: RuleEngineScreen,
    new: RuleEngineScreen,
    persist: bool,
    id: Seq<char>,
    change: spec_fn(AccountRule) -> AccountRule,
) -> bool {
    let s = old.rules.account_rules@;
    if exists|i: int| is_first(s, account_with_id(id), i) {
        let i = choose|i: int| is_first(s, account_with_id(id), i);
        &&& persist
        &&& only_account_rules_changed(old, new)
        &&& new.rules.account_rules@ == s.update(i, change(s[i]))
    } else {
        !persist && new == old
    }
}

/// What an account rules message does.
pub open spec fn account_step(
    old: RuleEngineScreen,
    msg: AccountMessage,
    new: RuleEngineScreen,
    persist: bool,
) -> bool {
    match msg {
        AccountMessage::Select(id) => !persist && new == RuleEngineScreen {
            selected_account_id: Some(id),
            ..old
        },
        AccountMessage::ToggleEnabled(id, enabled) => account_rule_changed(
            old,
            new,
            persist,
            id@,
            |r: AccountRule| AccountRule { enabled, ..r },
        ),
        AccountMessage::ToggleDay(id, day) => account_rule_changed(
            old,
            new,
            persist,
            id@,
            |r: AccountRule|
                AccountRule {
                    active_days: r.active_days.with_day(day, !r.active_days@.contains(day)),
                    ..r
                },
        ),
        AccountMessage::SetTimeWindow(id, start, end) => account_rule_changed(
            old,
            new,
            persist,
            id@,
            |r: AccountRule|
                AccountRule {
                    start_time: parsed_window_end(start),
                    end_time: parsed_window_end(end),
                    ..r
                },
        ),
        AccountMessage::SetTimeWindowExpanded(id, expanded) => {
            &&& !persist
            &&& new == RuleEngineScreen {
                expanded_account_time_windows: new.expanded_account_time_windows,
                ..old
            }
            &&& text_set(new.expanded_account_time_windows@) == if expanded {
                text_set(old.expanded_account_time_windows@).insert(id@)
            } else {
                text_set(old.expanded_account_time_windows@).remove(id@)
            }
        },
        AccountMessage::SetOutsideBehavior(id, behavior) => account_rule_changed(
            old,
            new,
            persist,
            id@,
            |r: AccountRule| AccountRule { outside_behavior: behavior, ..r },
        ),
    }
}

/// Changing the organisation rule with identifier `id` by `change`: the first rule with that
/// identifier is changed; without such a rule nothing changes.
pub open spec fn org_rule_changed(
    old: RuleEngineScreen,
    new: RuleEngineScreen,
    id: Seq<char>,
    change: spec_fn(OrgRule) -> OrgRule,
) -> bool {
    let s = old.rules.org_rules@;
    if exists|i: int| is_first(s, org_with_id(id), i) {
        let i = choose|i: int| is_first(s, org_with_id(id), i);
        &&& only_org_rules_changed(old, new)
        &&& new.rules.org_rules@ == s.update(i, change(s[i]))
    } else {
        new == old
    }
}

/// Changing the type rule with identifier `id` by `change`: the first rule with that
/// identifier is changed; without such a rule nothing changes.
pub open spec fn type_rule_changed(
    old: RuleEngineScreen,
    new: RuleEngineScreen,
    id: Seq<char>,
    change: spec_fn(TypeRule) -> TypeRule,
) -> bool {
    let s = old.rules.type_rules@;
    if exists|i: int| is_first(s, type_with_id(id), i) {
        let i = choose|i: int| is_first(s, type_with_id(id), i);
        &&& only_type_rules_changed(old, new)
        &&& new.rules.type_rules@ == s.update(i, change(s[i]))
    } else {
        new == old
    }
}

/// Duplicating the organisation rule with identifier `id`: a copy of the first rule with that
/// identifier, under a fresh 36-character identifier, is appended and the rule set is to be
/// saved; without such a rule nothing changes.
pub open spec fn org_rule_duplicated(
    old: RuleEngineScreen,
    new: RuleEngineScreen,
    persist: bool,
    id: Seq<char>,
) -> bool {
    let s = old.rules.org_rules@;
    if exists|i: int| is_first(s, org_with_id(id), i) {
        let i = choose|i: int| is_first(s, org_with_id(id), i);
        let t = new.rules.org_rules@;
        &&& persist
        &&& only_org_rules_changed(old, new)
        &&& t.len() == s.len() + 1
        &&& t.take(s.len() as int) == s
        &&& t.last() == OrgRule { id: t.last().id, ..s[i] }
        &&& uuid_v4_text(t.last().id@)
    } else {
        !persist && new == old
    }
}

/// Duplicating the type rule with identifier `id` (as for organisation rules).
pub open spec fn type_rule_duplicated(
    old: RuleEngineScreen,
    new: RuleEngineScreen,
    persist: bool,
    id: Seq<char>,
) -> bool {
    let s = old.rules.type_rules@;
    if exists|i: int| is_first(s, type_with_id(id), i) {
        let i = choose|i: int| is_first(s, type_with_id(id), i);
        let t = new.rules.type_rules@;
        &&& persist
        &&& only_type_rules_changed(old, new)
        &&& t.len() == s.len() + 1
        &&& t.take(s.len() as int) == s
        &&& t.last() == TypeRule { id: t.last().id, ..s[i] }
        &&& uuid_v4_text(t.last().id@)
    } else {
        !persist && new == old
    }
}

/// What an organisation rules message does.
pub open spec fn org_step(
    old: RuleEngineScreen,
    msg: OrgMessage,
    new: RuleEngineScreen,
    persist: bool,
) -> bool {
    match msg {
        OrgMessage::Toggle(id, enabled) => persist && org_rule_changed(
            old,
            new,
            id@,
            |r: OrgRule| OrgRule { enabled, ..r },
        ),
        OrgMessage::Delete(id) => {
            &&& persist
            &&& only_org_rules_changed(old, new)
            &&& new.rules.org_rules@ == old.rules.org_rules@.filter(org_without_id(id@))
        },
        OrgMessage::Duplicate(id) => org_rule_duplicated(old, new, persist, id@),
    }
}

/// The account scope the type rule form takes from the text entered: none for "Global" or a
/// blank text.
pub open spec fn form_account(s: String) -> Option<String> {
    if s@ == "Global"@ || blank(s@) {
        None
    } else {
        Some(s)
    }
}

/// What a type rules message does.
pub open spec fn type_step(
    old: RuleEngineScreen,
    msg: TypeMessage,
    new: RuleEngineScreen,
    persist: bool,
) -> bool {
    match msg {
        TypeMessage::Toggle(id, enabled) => persist && type_rule_changed(
            old,
            new,
            id@,
            |r: TypeRule| TypeRule { enabled, ..r },
        ),
        TypeMessage::Delete(id) => {
            &&& persist
            &&& only_type_rules_changed(old, new)
            &&& new.rules.type_rules@ == old.rules.type_rules@.filter(type_without_id(id@))
        },
        TypeMessage::Duplicate(id) => type_rule_duplicated(old, new, persist, id@),
        TypeMessage::ToggleGroup(group) => {
            &&& !persist
            &&& new == RuleEngineScreen { expanded_type_groups: new.expanded_type_groups, ..old }
            &&& text_set(new.expanded_type_groups@) == if text_set(
                old.expanded_type_groups@,
            ).contains(group@) {
                text_set(old.expanded_type_groups@).remove(group@)
            } else {
                text_set(old.expanded_type_groups@).insert(group@)
            }
        },
        TypeMessage::FormTypeChanged(t) => !persist && new == RuleEngineScreen {
            new_type_rule_type: t,
            ..old
        },
        TypeMessage::FormAccountChanged(a) => !persist && new == RuleEngineScreen {
            new_type_rule_account: form_account(a),
            ..old
        },
        TypeMessage::FormPriorityChanged(p) => !persist && new == RuleEngineScreen {
            new_type_rule_priority: p,
            ..old
        },
        TypeMessage::FormActionChanged(a) => !persist && new == RuleEngineScreen {
            new_type_rule_action: a,
            ..old
        },
        TypeMessage::Add => {
            let s = old.rules.type_rules@;
            let t = new.rules.type_rules@;
            let added = t.last();
            &&& persist
            &&& new == RuleEngineScreen {
                rules: NotificationRuleSet { type_rules: new.rules.type_rules, ..old.rules },
                new_type_rule_account: None,
                new_type_rule_priority: 0,
                new_type_rule_action: RuleAction::Show,
                ..old
            }
            &&& t.len() == s.len() + 1
            &&& t.take(s.len() as int) == s
            &&& added.enabled
            &&& added.notification_type@ == old.new_type_rule_type@
            &&& added.account == old.new_type_rule_account
            &&& added.priority == old.new_type_rule_priority
            &&& added.action == old.new_type_rule_action
            &&& uuid_v4_text(added.id@)
        },
    }
}

/// What a message does to the screen, and whether the rule set is to be saved afterwards.
pub open spec fn screen_step(
    old: RuleEngineScreen,
    msg: RuleEngineMessage,
    new: RuleEngineScreen,
    persist: bool,
) -> bool {
    match msg {
        RuleEngineMessage::Back => !persist && new == old,
        RuleEngineMessage::NoOp => !persist && new == old,
        RuleEngineMessage::SelectTab(tab) => !persist && new == RuleEngineScreen {
            selected_tab: tab,
            ..old
        },
        RuleEngineMessage::ToggleEnabled(enabled) => persist && new == RuleEngineScreen {
            rules: NotificationRuleSet { enabled, ..old.rules },
            ..old
        },
        RuleEngineMessage::ToggleHandbook => !persist && new == RuleEngineScreen {
            show_handbook: !old.show_handbook,
            ..old
        },
        RuleEngineMessage::Account(m) => account_step(old, m, new, persist),
        RuleEngineMessage::Org(m) => org_step(old, m, new, persist),
        RuleEngineMessage::Type(m) => type_step(old, m, new, persist),
        RuleEngineMessage::Inspector(InspectorMessage::Select(id)) => !persist && new
            == RuleEngineScreen { selected_rule_id: Some(id), ..old },
        RuleEngineMessage::Inspector(InspectorMessage::Close) => !persist && new
            == RuleEngineScreen { selected_rule_id: None, ..old },
        RuleEngineMessage::Explain(ExplainMessage::SetTestType(t)) => !persist && new
            == RuleEngineScreen { explain_test_type: t, ..old },
    }
}

/// Some name in `names` equals `a` ignoring ASCII case.
pub open spec fn has_name_like(names: Seq<Seq<char>>, a: Seq<char>) -> bool {
    exists|i: int| 0 <= i < names.len() && same_ignoring_ascii_case(#[trigger] names[i], a)
}

/// The accounts, in order, that get a new rule when the screen opens: those not yet named
/// (ignoring ASCII case) by an existing rule or by an account added before them.
pub open spec fn missing_accounts(existing: Seq<Seq<char>>, accounts: Seq<Seq<char>>) -> Seq<Seq<char>>
    decreases accounts.len(),
{
    if accounts.len() == 0 {
        Seq::empty()
    } else {
        let prev = missing_accounts(existing, accounts.drop_last());
        if has_name_like(existing + prev, accounts.last()) {
            prev
        } else {
            prev.push(accounts.last())
        }
    }
}

/// Every account is named, ignoring ASCII case, by an existing name or by one of the missing
/// accounts.
pub proof fn lemma_missing_accounts_cover(existing: Seq<Seq<char>>, accounts: Seq<Seq<char>>)
    ensures
        forall|k: int|
            0 <= k < accounts.len() ==> has_name_like(
                existing + missing_accounts(existing, accounts),
                #[trigger] accounts[k],
            ),
    decreases accounts.len(),
{
    if accounts.len() > 0 {
        let front = accounts.drop_last();
        lemma_missing_accounts_cover(existing, front);
        let prev = missing_accounts(existing, front);
        let all = existing + missing_accounts(existing, accounts);
        assert forall|k: int| 0 <= k < accounts.len() implies has_name_like(
            all,
            #[trigger] accounts[k],
        ) by {
            if k < accounts.len() - 1 {
                assert(accounts[k] == front[k]);
                assert(has_name_like(existing + prev, front[k]));
                let j = choose|j: int|
                    0 <= j < (existing + prev).len() && same_ignoring_ascii_case(
                        #[trigger] (existing + prev)[j],
                        front[k],
                    );
                assert(all[j] == (existing + prev)[j]);
            } else if has_name_like(existing + prev, accounts.last()) {
                let j = choose|j: int|
                    0 <= j < (existing + prev).len() && same_ignoring_ascii_case(
                        #[trigger] (existing + prev)[j],
                        accounts.last(),
                    );
                assert(all[j] == (existing + prev)[j]);
            } else {
                assert(all[all.len() - 1] == accounts.last());
                assert(same_ignoring_ascii_case(all[all.len() - 1], accounts[k]));
            }
        }
    }
}

/// The usernames of a sequence of account rules.
pub open spec fn rule_accounts(s: Seq<AccountRule>) -> Seq<Seq<char>> {
    s.map_values(|r: AccountRule| r.account@)
}

/// The texts of a sequence of strings.
pub open spec fn texts(s: Seq<String>) -> Seq<Seq<char>> {
    s.map_values(|t: String| t@)
}

/// An account rule as `AccountRule::new` makes it, for some account.
pub open spec fn fresh_account_rule(r: AccountRule) -> bool {
    &&& r.enabled
    &&& r.active_days@ == Set::<Weekday>::full()
    &&& r.start_time is None
    &&& r.end_time is None
    &&& r.outside_behavior == OutsideScheduleBehavior::Suppress
    &&& uuid_v4_text(r.id@)
}

/// Whether some account rule names `account`, ignoring ASCII case.
fn has_rule_for(rules: &Vec<AccountRule>, account: &String) -> (b: bool)
    ensures
        b == has_name_like(rule_accounts(rules@), account@),
{
    let mut i: usize = 0;
    while i < rules.len()
        invariant
            i <= rules@.len(),
            forall|k: int|
                0 <= k < i ==> !same_ignoring_ascii_case(
                    #[trigger] rule_accounts(rules@)[k],
                    account@,
                ),
        decreases rules@.len() - i,
    {
        if eq_ignore_ascii_case(rules[i].account.as_str(), account.as_str()) {
            assert(same_ignoring_ascii_case(rule_accounts(rules@)[i as int], account@));
            return true;
        }
        i = i + 1;
    }
    false
}

impl RuleEngineScreen {
    /// The screen for `rules` and the signed-in `accounts`: every account that no rule names
    /// (ignoring ASCII case) gets a new account rule, appended in order. The tab is Overview,
    /// nothing is selected or expanded, the type rule form starts with the notification type
    /// labelled `initial_type`, no account, priority 0 and action Show, and the decision
    /// explainer tests "Mentioned".
    pub fn new(rules: NotificationRuleSet, accounts: Vec<String>, initial_type: String) -> (s: RuleEngineScreen)
        ensures
            rule_accounts(s.rules.account_rules@) == rule_accounts(rules.account_rules@)
                + missing_accounts(rule_accounts(rules.account_rules@), texts(accounts@)),
            s.rules.account_rules@.take(rules.account_rules@.len() as int) == rules.account_rules@,
            forall|k: int|
                0 <= k < accounts@.len() ==> has_name_like(
                    rule_accounts(s.rules.account_rules@),
                    (#[trigger] accounts@[k])@,
                ),
            forall|i: int|
                rules.account_rules@.len() <= i < s.rules.account_rules@.len()
                    ==> fresh_account_rule(#[trigger] s.rules.account_rules@[i]),
            s.rules == (NotificationRuleSet { account_rules: s.rules.account_rules, ..rules }),
            s.accounts == accounts,
            s.selected_tab == RuleTab::Overview,
            s.selected_account_id is None,
            s.expanded_account_time_windows@.len() == 0,
            s.new_type_rule_type == initial_type,
            s.new_type_rule_account is None,
            s.new_type_rule_priority == 0,
            s.new_type_rule_action == RuleAction::Show,
            s.expanded_type_groups@.len() == 0,
            s.selected_rule_id is None,
            s.explain_test_type@ == "Mentioned"@,
            !s.show_handbook,
    {
        let ghost given = rules;
        let mut rules = rules;
        let ghost existing = rules.account_rules@;
        let ghost names = texts(accounts@);
        let mut i: usize = 0;
        while i < accounts.len()
            invariant
                i <= accounts@.len(),
                names == texts(accounts@),
                rules == (NotificationRuleSet { account_rules: rules.account_rules, ..given }),
                rules.account_rules@.len() >= existing.len(),
                rules.account_rules@.take(existing.len() as int) == existing,
                rule_accounts(rules.account_rules@) == rule_accounts(existing) + missing_accounts(
                    rule_accounts(existing),
                    names.take(i as int),
                ),
                forall|k: int|
                    existing.len() <= k < rules.account_rules@.len() ==> fresh_account_rule(
                        #[trigger] rules.account_rules@[k],
                    ),
            decreases accounts@.len() - i,
        {
            let ghost before = rules.account_rules@;
            proof {
                assert(names.take(i + 1).drop_last() =~= names.take(i as int));
                assert(names.take(i + 1).last() == accounts@[i as int]@);
            }
            if !has_rule_for(&rules.account_rules, &accounts[i]) {
                let rule = AccountRule::new(accounts[i].as_str());
                rules.account_rules.push(rule);
                assert(rule_accounts(rules.account_rules@) =~= rule_accounts(before).push(
                    accounts@[i as int]@,
                ));
                assert(rules.account_rules@.take(existing.len() as int) =~= before.take(
                    existing.len() as int,
                ));
            }
            i = i + 1;
        }
        proof {
            assert(names.take(accounts@.len() as int) =~= names);
            lemma_missing_accounts_cover(rule_accounts(existing), names);
            assert forall|k: int| 0 <= k < accounts@.len() implies has_name_like(
                rule_accounts(rules.account_rules@),
                (#[trigger] accounts@[k])@,
            ) by {
                assert(names[k] == accounts@[k]@);
            }
        }
        RuleEngineScreen {
            rules,
            selected_tab: RuleTab::Overview,
            accounts,
            selected_account_id: None,
            expanded_account_time_windows: Vec::new(),
            new_type_rule_type: initial_type,
            new_type_rule_account: None,
            new_type_rule_priority: 0,
            new_type_rule_action: RuleAction::Show,
            expanded_type_groups: Vec::new(),
            selected_rule_id: None,
            explain_test_type: String::from_str("Mentioned"),
            show_handbook: false,
        }
    }
}

// ============================================================================
// Finding rules
// ============================================================================

/// Position of the first account rule with identifier `id`.
fn find_account_rule(rules: &Vec<AccountRule>, id: &String) -> (r: Option<usize>)
    ensures
        match r {
            Some(i) => is_first(rules@, account_with_id(id@), i as int),
            None => none_satisfy(rules@, account_with_id(id@)),
        },
{
    let mut i: usize = 0;
    while i < rules.len()
        invariant
            i <= rules@.len(),
            forall|k: int| 0 <= k < i ==> !account_with_id(id@)(#[trigger] rules@[k]),
        decreases rules@.len() - i,
    {
        if rules[i].id == *id {
            return Some(i);
        }
        i = i + 1;
    }
    None
}

/// Position of the first organisation rule with identifier `id`.
fn find_org_rule(rules: &Vec<OrgRule>, id: &String) -> (r: Option<usize>)
    ensures
        match r {
            Some(i) => is_first(rules@, org_with_id(id@), i as int),
            None => none_satisfy(rules@, org_with_id(id@)),
        },
{
    let mut i: usize = 0;
    while i < rules.len()
        invariant
            i <= rules@.len(),
            forall|k: int| 0 <= k < i ==> !org_with_id(id@)(#[trigger] rules@[k]),
        decreases rules@.len() - i,
    {
        if rules[i].id == *id {
            return Some(i);
        }
        i = i + 1;
    }
    None
}

/// Position of the first type rule with identifier `id`.
fn find_type_rule(rules: &Vec<TypeRule>, id: &String) -> (r: Option<usize>)
    ensures
        match r {
            Some(i) => is_first(rules@, type_with_id(id@), i as int),
            None => none_satisfy(rules@, type_with_id(id@)),
        },
{
    let mut i: usize = 0;
    while i < rules.len()
        invariant
            i <= rules@.len(),
            forall|k: int| 0 <= k < i ==> !type_with_id(id@)(#[trigger] rules@[k]),
        decreases rules@.len() - i,
    {
        if rules[i].id == *id {
            return Some(i);
        }
        i = i + 1;
    }
    None
}

/// The organisation rules without identifier `id`, in order.
fn org_rules_without(rules: &Vec<OrgRule>, id: &String) -> (r: Vec<OrgRule>)
    ensures
        r@ == rules@.filter(org_without_id(id@)),
{
    let ghost p = org_without_id(id@);
    let mut out: Vec<OrgRule> = Vec::new();
    let mut i: usize = 0;
    while i < rules.len()
        invariant
            i <= rules@.len(),
            p == org_without_id(id@),
            out@ == rules@.take(i as int).filter(p),
        decreases rules@.len() - i,
    {
        proof {
            lemma_filter_step(rules@, i as int, p);
        }
        if rules[i].id != *id {
            out.push(rules[i].copied());
        }
        i = i + 1;
    }
    proof {
        lemma_take_all(rules@);
    }
    out
}

/// The type rules without identifier `id`, in order.
fn type_rules_without(rules: &Vec<TypeRule>, id: &String) -> (r: Vec<TypeRule>)
    ensures
        r@ == rules@.filter(type_without_id(id@)),
{
    let ghost p = type_without_id(id@);
    let mut out: Vec<TypeRule> = Vec::new();
    let mut i: usize = 0;
    while i < rules.len()
        invariant
            i <= rules@.len(),
            p == type_without_id(id@),
            out@ == rules@.take(i as int).filter(p),
        decreases rules@.len() - i,
    {
        proof {
            lemma_filter_step(rules@, i as int, p);
        }
        if rules[i].id != *id {
            out.push(rules[i].copied());
        }
        i = i + 1;
    }
    proof {
        lemma_take_all(rules@);
    }
    out
}

// ============================================================================
// Updates
// ============================================================================

impl RuleEngineScreen {
    /// Sets the daily window of the account rule with identifier `id` to the given (already
    /// read) start and end; returns whether the rule set is to be saved.
    pub fn set_time_window(&mut self, id: &String, start: Option<ClockTime>, end: Option<ClockTime>) -> (persist: bool)
        ensures
            account_rule_changed(
                *old(self),
                *final(self),
                persist,
                id@,
                |r: AccountRule| AccountRule { start_time: start, end_time: end, ..r },
            ),
    {
        match find_account_rule(&self.rules.account_rules, id) {
            Some(i) => {
                proof {
                    lemma_first_unique(self.rules.account_rules@, account_with_id(id@), i as int);
                }
                let mut rule = self.rules.account_rules[i].copied();
                rule.start_time = start;
                rule.end_time = end;
                self.rules.account_rules.set(i, rule);
                true
            },
            None => false,
        }
    }

    /// Applies an account rules message; returns whether the rule set is to be saved.
    pub fn update_account(&mut self, message: AccountMessage) -> (persist: bool)
        ensures
            account_step(*old(self), message, *final(self), persist),
    {
        match message {
            AccountMessage::Select(id) => {
                self.selected_account_id = Some(id);
                false
            },
            AccountMessage::ToggleEnabled(id, enabled) => {
                match find_account_rule(&self.rules.account_rules, &id) {
                    Some(i) => {
                        proof {
                            lemma_first_unique(self.rules.account_rules@, account_with_id(id@), i as int);
                        }
                        let mut rule = self.rules.account_rules[i].copied();
                        rule.enabled = enabled;
                        self.rules.account_rules.set(i, rule);
                        true
                    },
                    None => false,
                }
            },
            AccountMessage::ToggleDay(id, day) => {
                match find_account_rule(&self.rules.account_rules, &id) {
                    Some(i) => {
                        proof {
                            lemma_first_unique(self.rules.account_rules@, account_with_id(id@), i as int);
                        }
                        let mut rule = self.rules.account_rules[i].copied();
                        if rule.active_days.contains(day) {
                            rule.active_days.remove(day);
                        } else {
                            rule.active_days.insert(day);
                        }
                        self.rules.account_rules.set(i, rule);
                        true
                    },
                    None => false,
                }
            },
            AccountMessage::SetTimeWindow(id, start_text, end_text) => {
                match find_account_rule(&self.rules.account_rules, &id) {
                    Some(_) => {
                        let start = match &start_text {
                            Some(t) => ClockTime::parse_hour_minute(t.as_str()),
                            None => None,
                        };
                        let end = match &end_text {
                            Some(t) => ClockTime::parse_hour_minute(t.as_str()),
                            None => None,
                        };
                        self.set_time_window(&id, start, end)
                    },
                    None => false,
                }
            },
            AccountMessage::SetTimeWindowExpanded(id, expanded) => {
                if expanded {
                    texts_insert(&mut self.expanded_account_time_windows, id);
                } else {
                    texts_remove(&mut self.expanded_account_time_windows, &id);
                }
                false
            },
            AccountMessage::SetOutsideBehavior(id, behavior) => {
                match find_account_rule(&self.rules.account_rules, &id) {
                    Some(i) => {
                        proof {
                            lemma_first_unique(self.rules.account_rules@, account_with_id(id@), i as int);
                        }
                        let mut rule = self.rules.account_rules[i].copied();
                        rule.outside_behavior = behavior;
                        self.rules.account_rules.set(i, rule);
                        true
                    },
                    None => false,
                }
            },
        }
    }

    /// Applies an organisation rules message; returns whether the rule set is to be saved.
    pub fn update_org(&mut self, message: OrgMessage) -> (persist: bool)
        ensures
            org_step(*old(self), message, *final(self), persist),
    {
        match message {
            OrgMessage::Toggle(id, enabled) => {
                match find_org_rule(&self.rules.org_rules, &id) {
                    Some(i) => {
                        proof {
                            lemma_first_unique(self.rules.org_rules@, org_with_id(id@), i as int);
                        }
                        let mut rule = self.rules.org_rules[i].copied();
                        rule.enabled = enabled;
                        self.rules.org_rules.set(i, rule);
                    },
                    None => {},
                }
                true
            },
            OrgMessage::Delete(id) => {
                self.rules.org_rules = org_rules_without(&self.rules.org_rules, &id);
                true
            },
            OrgMessage::Duplicate(id) => {
                match find_org_rule(&self.rules.org_rules, &id) {
                    Some(i) => {
                        proof {
                            lemma_first_unique(self.rules.org_rules@, org_with_id(id@), i as int);
                        }
                        let ghost before = self.rules.org_rules@;
                        let mut copy = self.rules.org_rules[i].copied();
                        copy.id = crate::rules::fresh_rule_id();
                        self.rules.org_rules.push(copy);
                        assert(self.rules.org_rules@.take(before.len() as int) =~= before);
                        true
                    },
                    None => false,
                }
            },
        }
    }

    /// Applies a type rules message; returns whether the rule set is to be saved.
    pub fn update_type(&mut self, message: TypeMessage) -> (persist: bool)
        ensures
            type_step(*old(self), message, *final(self), persist),
    {
        match message {
            TypeMessage::Toggle(id, enabled) => {
                match find_type_rule(&self.rules.type_rules, &id) {
                    Some(i) => {
                        proof {
                            lemma_first_unique(self.rules.type_rules@, type_with_id(id@), i as int);
                        }
                        let mut rule = self.rules.type_rules[i].copied();
                        rule.enabled = enabled;
                        self.rules.type_rules.set(i, rule);
                    },
                    None => {},
                }
                true
            },
            TypeMessage::Delete(id) => {
                self.rules.type_rules = type_rules_without(&self.rules.type_rules, &id);
                true
            },
            TypeMessage::Duplicate(id) => {
                match find_type_rule(&self.rules.type_rules, &id) {
                    Some(i) => {
                        proof {
                            lemma_first_unique(self.rules.type_rules@, type_with_id(id@), i as int);
                        }
                        let ghost before = self.rules.type_rules@;
                        let mut copy = self.rules.type_rules[i].copied();
                        copy.id = crate::rules::fresh_rule_id();
                        self.rules.type_rules.push(copy);
                        assert(self.rules.type_rules@.take(before.len() as int) =~= before);
                        true
                    },
                    None => false,
                }
            },
            TypeMessage::ToggleGroup(group) => {
                if texts_contain(&self.expanded_type_groups, &group) {
                    texts_remove(&mut self.expanded_type_groups, &group);
                } else {
                    texts_insert(&mut self.expanded_type_groups, group);
                }
                false
            },
            TypeMessage::FormTypeChanged(t) => {
                self.new_type_rule_type = t;
                false
            },
            TypeMessage::FormAccountChanged(a) => {
                let global = String::from_str("Global");
                self.new_type_rule_account = if a == global || is_blank(a.as_str()) {
                    None
                } else {
                    Some(a)
                };
                false
            },
            TypeMessage::FormPriorityChanged(p) => {
                self.new_type_rule_priority = p;
                false
            },
            TypeMessage::FormActionChanged(a) => {
                self.new_type_rule_action = a;
                false
            },
            TypeMessage::Add => {
                let priority = self.new_type_rule_priority;
                let account = match &self.new_type_rule_account {
                    Some(a) => Some(a.clone()),
                    None => None,
                };
                let mut rule = TypeRule::new(self.new_type_rule_type.as_str(), account, priority);
                rule.action = self.new_type_rule_action;
                let ghost before = self.rules.type_rules@;
                self.rules.type_rules.push(rule);
                assert(self.rules.type_rules@.take(before.len() as int) =~= before);
                self.new_type_rule_account = None;
                self.new_type_rule_priority = 0;
                self.new_type_rule_action = RuleAction::Show;
                true
            },
        }
    }

    /// Colour of a navigation icon: the accent for the selected tab, muted otherwise.
    pub fn nav_icon_color(&self, tab: RuleTab) -> (c: PaletteColor)
        ensures
            c == if self.selected_tab == tab {
                PaletteColor::Accent
            } else {
                PaletteColor::TextMuted
            },
    {
        if self.selected_tab == tab {
            PaletteColor::Accent
        } else {
            PaletteColor::TextMuted
        }
    }

    /// Applies a rule inspector message (never asks for saving).
    pub fn update_inspector(&mut self, message: InspectorMessage) -> (persist: bool)
        ensures
            screen_step(*old(self), RuleEngineMessage::Inspector(message), *final(self), persist),
    {
        match message {
            InspectorMessage::Select(id) => {
                self.selected_rule_id = Some(id);
            },
            InspectorMessage::Close => {
                self.selected_rule_id = None;
            },
        }
        false
    }

    /// Applies a decision explainer message (never asks for saving).
    pub fn update_explain(&mut self, message: ExplainMessage) -> (persist: bool)
        ensures
            screen_step(*old(self), RuleEngineMessage::Explain(message), *final(self), persist),
    {
        match message {
            ExplainMessage::SetTestType(t) => {
                self.explain_test_type = t;
            },
        }
        false
    }

    /// Applies a message to the screen; returns whether the rule set is to be saved.
    pub fn update(&mut self, message: RuleEngineMessage) -> (persist: bool)
        ensures
            screen_step(*old(self), message, *final(self), persist),
    {
        match message {
            RuleEngineMessage::Back => false,
            RuleEngineMessage::NoOp => false,
            RuleEngineMessage::SelectTab(tab) => {
                self.selected_tab = tab;
                false
            },
            RuleEngineMessage::ToggleEnabled(enabled) => {
                self.rules.enabled = enabled;
                true
            },
            RuleEngineMessage::ToggleHandbook => {
                self.show_handbook = !self.show_handbook;
                false
            },
            RuleEngineMessage::Account(m) => self.update_account(m),
            RuleEngineMessage::Org(m) => self.update_org(m),
            RuleEngineMessage::Type(m) => self.update_type(m),
            RuleEngineMessage::Inspector(m) => self.update_inspector(m),
            RuleEngineMessage::Explain(m) => self.update_explain(m),
        }
    }
}

// ============================================================================
// Laws of the screen
// ============================================================================

/// Toggling the same day of the same account rule twice leaves the rules as they were.
pub proof fn law_toggle_day_twice_restores(
    s0: RuleEngineScreen,
    s1: RuleEngineScreen,
    s2: RuleEngineScreen,
    p1: bool,
    p2: bool,
    id: String,
    day: Weekday,
)
    requires
        screen_step(s0, RuleEngineMessage::Account(AccountMessage::ToggleDay(id, day)), s1, p1),
        screen_step(s1, RuleEngineMessage::Account(AccountMessage::ToggleDay(id, day)), s2, p2),
    ensures
        s2.rules.account_rules@ == s0.rules.account_rules@,
        only_account_rules_changed(s0, s2),
{
    let p = account_with_id(id@);
    let a0 = s0.rules.account_rules@;
    if exists|i: int| is_first(a0, p, i) {
        let i = choose|i: int| is_first(a0, p, i);
        let a1 = s1.rules.account_rules@;
        assert(a1[i].id == a0[i].id);
        assert forall|k: int| 0 <= k < i implies !p(#[trigger] a1[k]) by {
            assert(a1[k] == a0[k]);
        }
        assert(is_first(a1, p, i));
        lemma_first_unique(a1, p, i);
        a0[i].active_days.lemma_toggle_twice(day);
        a0[i].active_days.lemma_with_day_view(day, !a0[i].active_days@.contains(day));
        assert(s2.rules.account_rules@ =~= a0);
    }
}

/// Toggling the same type rule group twice gives back the set of expanded groups.
pub proof fn law_toggle_group_twice_restores(
    s0: RuleEngineScreen,
    s1: RuleEngineScreen,
    s2: RuleEngineScreen,
    p1: bool,
    p2: bool,
    group: String,
)
    requires
        screen_step(s0, RuleEngineMessage::Type(TypeMessage::ToggleGroup(group)), s1, p1),
        screen_step(s1, RuleEngineMessage::Type(TypeMessage::ToggleGroup(group)), s2, p2),
    ensures
        text_set(s2.expanded_type_groups@) == text_set(s0.expanded_type_groups@),
        !p1 && !p2,
{
    assert(text_set(s2.expanded_type_groups@) =~= text_set(s0.expanded_type_groups@));
}

/// The priority the type rule form takes from the text entered in its priority field: the
/// number the text reads as; 0 for an empty text or a lone `-`; otherwise the current
/// priority, unchanged.
pub open spec fn priority_from_text(text: Seq<char>, current: i32) -> i32 {
    match parsed_i32(text) {
        Some(v) => v,
        None => if text.len() == 0 || (text.len() == 1 && text[0] == '-') {
            0
        } else {
            current
        },
    }
}

/// The priority the type rule form takes from the text entered in its priority field.
pub fn priority_input(text: &str, current: i32) -> (p: i32)
    ensures
        p == priority_from_text(text@, current),
{
    match parse_i32(text) {
        Some(v) => v,
        None => {
            let n = text.unicode_len();
            if n == 0 || (n == 1 && text.get_char(0) == '-') {
                0
            } else {
                current
            }
        },
    }
}


/// Setting the time window of an account rule stores the two texts as given, each read as
/// `hours:minutes`: the first rule with the identifier gets as start the time the start text
/// reads as and as end the time the end text reads as (none for a missing or unreadable
/// text), in that order whatever the two times are; its other fields and the other rules stay
/// as they were, and the rules are to be saved.
pub proof fn law_set_time_window_stores_what_was_given(
    old: RuleEngineScreen,
    new: RuleEngineScreen,
    persist: bool,
    id: String,
    start: Option<String>,
    end: Option<String>,
    i: int,
)
    requires
        screen_step(
            old,
            RuleEngineMessage::Account(AccountMessage::SetTimeWindow(id, start, end)),
            new,
            persist,
        ),
        is_first(old.rules.account_rules@, account_with_id(id@), i),
    ensures
        persist,
        new.rules.account_rules@.len() == old.rules.account_rules@.len(),
        new.rules.account_rules@[i].start_time == match start {
            Some(t) => match crate::calendar::parsed_hour_minute(t@) {
                Some((secs, nanos)) => Some(ClockTime { secs, nanos }),
                None => None,
            },
            None => None::<ClockTime>,
        },
        new.rules.account_rules@[i].end_time == match end {
            Some(t) => match crate::calendar::parsed_hour_minute(t@) {
                Some((secs, nanos)) => Some(ClockTime { secs, nanos }),
                None => None,
            },
            None => None::<ClockTime>,
        },
        new.rules.account_rules@[i] == (AccountRule {
            start_time: new.rules.account_rules@[i].start_time,
            end_time: new.rules.account_rules@[i].end_time,
            ..old.rules.account_rules@[i]
        }),
        forall|k: int|
            0 <= k < old.rules.account_rules@.len() && k != i ==> new.rules.account_rules@[k]
                == #[trigger] old.rules.account_rules@[k],
{
    lemma_first_unique(old.rules.account_rules@, account_with_id(id@), i);
}

} // verus!
