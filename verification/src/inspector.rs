//! Looking a rule up by its identifier across the rule lists, for the rule inspector.

use vstd::prelude::*;

use crate::rules::{
    account_with_id, org_with_id, type_with_id, AccountRule, NotificationRuleSet, OrgRule,
    RuleAction, TypeRule,
};
use crate::seqs::{is_first, lemma_first_unique, none_satisfy};
use crate::text::str_eq;

verus! {

/// A rule found by its identifier.
#[derive(Debug, Clone)]
pub enum FoundRule {
    Account(AccountRule),
    Org(OrgRule),
    Type(TypeRule),
}

/// The label shown for the kind of a found rule.
pub open spec fn found_rule_label(r: FoundRule) -> Seq<char> {
    match r {
        FoundRule::Account(_) => "Account Rule"@,
        FoundRule::Org(_) => "Org Rule"@,
        FoundRule::Type(_) => "Type Rule"@,
    }
}

impl FoundRule {
    /// The rule's identifier.
    pub fn id(&self) -> (s: &str)
        ensures
            s@ == match *self {
                FoundRule::Account(r) => r.id@,
                FoundRule::Org(r) => r.id@,
                FoundRule::Type(r) => r.id@,
            },
    {
        match self {
            FoundRule::Account(r) => r.id.as_str(),
            FoundRule::Org(r) => r.id.as_str(),
            FoundRule::Type(r) => r.id.as_str(),
        }
    }

    /// Whether the rule is enabled.
    pub fn enabled(&self) -> (b: bool)
        ensures
            b == match *self {
                FoundRule::Account(r) => r.enabled,
                FoundRule::Org(r) => r.enabled,
                FoundRule::Type(r) => r.enabled,
            },
    {
        match self {
            FoundRule::Account(r) => r.enabled,
            FoundRule::Org(r) => r.enabled,
            FoundRule::Type(r) => r.enabled,
        }
    }

    /// The rule's fixed action; account rules have none (their action depends on the schedule).
    pub fn action(&self) -> (a: Option<RuleAction>)
        ensures
            a == match *self {
                FoundRule::Account(_) => None,
                FoundRule::Org(r) => Some(r.action),
                FoundRule::Type(r) => Some(r.action),
            },
    {
        match self {
            FoundRule::Account(_) => None,
            FoundRule::Org(r) => Some(r.action),
            FoundRule::Type(r) => Some(r.action),
        }
    }

    /// The label of the rule's kind.
    pub fn type_label(&self) -> (s: &'static str)
        ensures
            s@ == found_rule_label(*self),
    {
        match self {
            FoundRule::Account(_) => "Account Rule",
            FoundRule::Org(_) => "Org Rule",
            FoundRule::Type(_) => "Type Rule",
        }
    }
}

/// What looking up `id` finds: the first account rule with that identifier, else the first
/// organisation rule, else the first type rule.
pub open spec fn found_by_id(rules: NotificationRuleSet, id: Seq<char>) -> Option<FoundRule> {
    let a = rules.account_rules@;
    let o = rules.org_rules@;
    let t = rules.type_rules@;
    if exists|i: int| is_first(a, account_with_id(id), i) {
        Some(FoundRule::Account(a[choose|i: int| is_first(a, account_with_id(id), i)]))
    } else if exists|i: int| is_first(o, org_with_id(id), i) {
        Some(FoundRule::Org(o[choose|i: int| is_first(o, org_with_id(id), i)]))
    } else if exists|i: int| is_first(t, type_with_id(id), i) {
        Some(FoundRule::Type(t[choose|i: int| is_first(t, type_with_id(id), i)]))
    } else {
        None
    }
}

/// Finds a rule by identifier across all rule lists.
pub fn find_rule_by_id(rules: &NotificationRuleSet, id: &str) -> (r: Option<FoundRule>)
    ensures
        r == found_by_id(*rules, id@),
{
    let ghost pa = account_with_id(id@);
    let ghost po = org_with_id(id@);
    let ghost pt = type_with_id(id@);
    let mut i: usize = 0;
    while i < rules.account_rules.len()
        invariant
            i <= rules.account_rules@.len(),
            pa == account_with_id(id@),
            forall|k: int| 0 <= k < i ==> !pa(#[trigger] rules.account_rules@[k]),
        decreases rules.account_rules@.len() - i,
    {
        if str_eq(rules.account_rules[i].id.as_str(), id) {
            proof {
                lemma_first_unique(rules.account_rules@, pa, i as int);
            }
            return Some(FoundRule::Account(rules.account_rules[i].copied()));
        }
        i = i + 1;
    }
    assert(none_satisfy(rules.account_rules@, pa));
    let mut j: usize = 0;
    while j < rules.org_rules.len()
        invariant
            j <= rules.org_rules@.len(),
            po == org_with_id(id@),
            pa == account_with_id(id@),
            none_satisfy(rules.account_rules@, pa),
            forall|k: int| 0 <= k < j ==> !po(#[trigger] rules.org_rules@[k]),
        decreases rules.org_rules@.len() - j,
    {
        if str_eq(rules.org_rules[j].id.as_str(), id) {
            proof {
                assert forall|x: int| !is_first(rules.account_rules@, pa, x) by {
                    if 0 <= x < rules.account_rules@.len() {
                        assert(!pa(rules.account_rules@[x]));
                    }
                }
                lemma_first_unique(rules.org_rules@, po, j as int);
            }
            return Some(FoundRule::Org(rules.org_rules[j].copied()));
        }
        j = j + 1;
    }
    let mut k: usize = 0;
    while k < rules.type_rules.len()
        invariant
            k <= rules.type_rules@.len(),
            pt == type_with_id(id@),
            pa == account_with_id(id@),
            po == org_with_id(id@),
            none_satisfy(rules.account_rules@, pa),
            none_satisfy(rules.org_rules@, po),
            forall|m: int| 0 <= m < k ==> !pt(#[trigger] rules.type_rules@[m]),
        decreases rules.type_rules@.len() - k,
    {
        if str_eq(rules.type_rules[k].id.as_str(), id) {
            proof {
                assert forall|x: int| !is_first(rules.account_rules@, pa, x) by {
                    if 0 <= x < rules.account_rules@.len() {
                        assert(!pa(rules.account_rules@[x]));
                    }
                }
                assert forall|x: int| !is_first(rules.org_rules@, po, x) by {
                    if 0 <= x < rules.org_rules@.len() {
                        assert(!po(rules.org_rules@[x]));
                    }
                }
                lemma_first_unique(rules.type_rules@, pt, k as int);
            }
            return Some(FoundRule::Type(rules.type_rules[k].copied()));
        }
        k = k + 1;
    }
    proof {
        assert forall|x: int| !is_first(rules.account_rules@, pa, x) by {
            if 0 <= x < rules.account_rules@.len() {
                assert(!pa(rules.account_rules@[x]));
            }
        }
        assert forall|x: int| !is_first(rules.org_rules@, po, x) by {
            if 0 <= x < rules.org_rules@.len() {
                assert(!po(rules.org_rules@[x]));
            }
        }
        assert forall|x: int| !is_first(rules.type_rules@, pt, x) by {
            if 0 <= x < rules.type_rules@.len() {
                assert(!pt(rules.type_rules@[x]));
            }
        }
    }
    None
}

/// What the inspector says an action does.
pub open spec fn action_explanation_text(a: RuleAction) -> Seq<char> {
    match a {
        RuleAction::Show => "Notification appears normally and triggers desktop notification."@,
        RuleAction::Silent =>
            "Notification appears in list but does not trigger desktop notification."@,
        RuleAction::Hide => "Notification is completely hidden from the list."@,
        RuleAction::Important =>
            "Notification is highlighted and always triggers desktop notification."@,
    }
}

/// What the inspector says an action does.
pub fn action_explanation(a: RuleAction) -> (s: &'static str)
    ensures
        s@ == action_explanation_text(a),
{
    match a {
        RuleAction::Show => "Notification appears normally and triggers desktop notification.",
        RuleAction::Silent =>
            "Notification appears in list but does not trigger desktop notification.",
        RuleAction::Hide => "Notification is completely hidden from the list.",
        RuleAction::Important =>
            "Notification is highlighted and always triggers desktop notification.",
    }
}

/// The warning the inspector shows for a rule that hides notifications; none for other
/// actions.
pub fn hide_warning(a: RuleAction) -> (w: Option<&'static str>)
    ensures
        w is Some <==> a == RuleAction::Hide,
        w matches Some(t) ==> t@ == "This rule hides notifications"@,
{
    if a == RuleAction::Hide {
        Some("This rule hides notifications")
    } else {
        None
    }
}

} // verus!
