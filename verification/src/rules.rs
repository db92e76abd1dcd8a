//! Notification rules: per-account schedules, organisation rules and notification-type rules,
//! gathered in a rule set, with the statistics shown on the rule engine's overview.

use vstd::prelude::*;

use crate::visual::PaletteColor;
use crate::calendar::{clock_time_wf, earlier, ClockTime, LocalMoment, Weekday, WeekdaySet};
use crate::seqs::{
    collect, lemma_collect_len, lemma_collect_step, lemma_filter_len_mono, lemma_filter_len_split,
    lemma_filter_none, lemma_filter_step, lemma_take_all,
};

verus! {

// ============================================================================
// Rule actions
// ============================================================================

/// What a rule does to a notification it matches.
#[derive(Debug, Clone, Copy, PartialEq, Eq, Structural)]
pub enum RuleAction {
    /// Shown in the list and announced with a desktop notification.
    Show,
    /// Shown in the list, without a desktop notification or sound.
    Silent,
    /// Left out of the list entirely.
    Hide,
    /// Overrides Hide and Silent: always shown and announced.
    Important,
}

impl Default for RuleAction {
    fn default() -> (a: RuleAction)
        ensures
            a == RuleAction::Show,
    {
        RuleAction::Show
    }
}

/// The label shown for an action.
pub open spec fn action_label(a: RuleAction) -> Seq<char> {
    match a {
        RuleAction::Show => "Show"@,
        RuleAction::Silent => "Silent"@,
        RuleAction::Hide => "Hide"@,
        RuleAction::Important => "Important"@,
    }
}

impl RuleAction {
    /// Every action, in the order they are offered.
    pub fn all() -> (v: Vec<RuleAction>)
        ensures
            v@ == seq![RuleAction::Show, RuleAction::Silent, RuleAction::Hide, RuleAction::Important],
    {
        vec![RuleAction::Show, RuleAction::Silent, RuleAction::Hide, RuleAction::Important]
    }

    /// User-facing label of the action (used in rule cards and as its text form).
    pub fn display_label(&self) -> (s: &'static str)
        ensures
            s@ == action_label(*self),
    {
        match self {
            RuleAction::Show => "Show",
            RuleAction::Silent => "Silent",
            RuleAction::Hide => "Hide",
            RuleAction::Important => "Important",
        }
    }
}

// ============================================================================
// Priority levels
// ============================================================================

pub const PRIORITY_MAX: i32 = 100;

pub const PRIORITY_HIGH: i32 = 50;

pub const PRIORITY_DEFAULT: i32 = 0;

pub const PRIORITY_LOW: i32 = -50;

pub const PRIORITY_MIN: i32 = -100;

/// The named priority levels offered when a priority is picked.
pub fn priority_levels() -> (v: Vec<(&'static str, i32)>)
    ensures
        v@.len() == 5,
        v@[0].0@ == "Max (100)"@ && v@[0].1 == PRIORITY_MAX,
        v@[1].0@ == "High (50)"@ && v@[1].1 == PRIORITY_HIGH,
        v@[2].0@ == "Default (0)"@ && v@[2].1 == PRIORITY_DEFAULT,
        v@[3].0@ == "Low (-50)"@ && v@[3].1 == PRIORITY_LOW,
        v@[4].0@ == "Min (-100)"@ && v@[4].1 == PRIORITY_MIN,
{
    vec![
        ("Max (100)", PRIORITY_MAX),
        ("High (50)", PRIORITY_HIGH),
        ("Default (0)", PRIORITY_DEFAULT),
        ("Low (-50)", PRIORITY_LOW),
        ("Min (-100)", PRIORITY_MIN),
    ]
}

// ============================================================================
// Rule identifiers
// ============================================================================

/// A lowercase hexadecimal digit.
pub open spec fn is_lower_hex(c: char) -> bool {
    ('0' <= c <= '9') || ('a' <= c <= 'f')
}

/// `s` is a random (version 4) UUID in hyphenated lowercase form: 36 characters, hyphens at
/// 8, 13, 18 and 23, lowercase hexadecimal digits elsewhere, the version digit `4` at 14 and
/// the variant digit (8, 9, a or b) at 19.
pub open spec fn uuid_v4_text(s: Seq<char>) -> bool {
    &&& s.len() == 36
    &&& forall|i: int|
        #![trigger s[i]]
        0 <= i < 36 ==> if i == 8 || i == 13 || i == 18 || i == 23 {
            s[i] == '-'
        } else {
            is_lower_hex(s[i])
        }
    &&& s[14] == '4'
    &&& (s[19] == '8' || s[19] == '9' || s[19] == 'a' || s[19] == 'b')
}

/// Makes a fresh rule identifier with uuid's `Uuid::new_v4()` written by `to_string()`.
/// Trusted: the text is the hyphenated lowercase form that uuid's `Display` writes, with the
/// version and variant digits that `new_v4` sets. Which identifier comes out (it is random)
/// is not stated.
#[verifier::external_body]
pub(crate) fn fresh_rule_id() -> (id: String)
    ensures
        uuid_v4_text(id@),
{
    uuid::Uuid::new_v4().to_string()
}

// ============================================================================
// Account rules
// ============================================================================

/// Behaviour of an account rule outside its active schedule.
#[derive(Debug, Clone, Copy, PartialEq, Eq, Structural)]
pub enum OutsideScheduleBehavior {
    /// Hide notifications completely.
    Suppress,
    /// Show notifications silently (no queuing or delayed delivery takes place).
    Defer,
}

impl Default for OutsideScheduleBehavior {
    fn default() -> (b: OutsideScheduleBehavior)
        ensures
            b == OutsideScheduleBehavior::Defer,
    {
        OutsideScheduleBehavior::Defer
    }
}

/// The action an account rule takes outside its schedule.
pub open spec fn outside_action(b: OutsideScheduleBehavior) -> RuleAction {
    match b {
        OutsideScheduleBehavior::Suppress => RuleAction::Hide,
        OutsideScheduleBehavior::Defer => RuleAction::Silent,
    }
}

/// The text shown for a behaviour.
pub open spec fn behavior_label(b: OutsideScheduleBehavior) -> Seq<char> {
    match b {
        OutsideScheduleBehavior::Suppress => "Suppress notifications"@,
        OutsideScheduleBehavior::Defer => "Defer until next active window"@,
    }
}

impl OutsideScheduleBehavior {
    /// The action taken on notifications outside the schedule.
    pub fn action(&self) -> (a: RuleAction)
        ensures
            a == outside_action(*self),
    {
        match self {
            OutsideScheduleBehavior::Suppress => RuleAction::Hide,
            OutsideScheduleBehavior::Defer => RuleAction::Silent,
        }
    }

    /// The text form of the behaviour.
    pub fn display_label(&self) -> (s: &'static str)
        ensures
            s@ == behavior_label(*self),
    {
        match self {
            OutsideScheduleBehavior::Suppress => "Suppress notifications",
            OutsideScheduleBehavior::Defer => "Defer until next active window",
        }
    }
}

/// Per-account notification schedule: when notifications of the account are shown.
#[derive(Debug, Clone)]
pub struct AccountRule {
    pub id: String,
    /// Master switch; a disabled account counts as not active.
    pub enabled: bool,
    /// GitHub username.
    pub account: String,
    /// Days on which notifications of the account are shown.
    pub active_days: WeekdaySet,
    /// Optional start of the daily window.
    pub start_time: Option<ClockTime>,
    /// Optional end of the daily window.
    pub end_time: Option<ClockTime>,
    /// What happens outside the schedule.
    pub outside_behavior: OutsideScheduleBehavior,
}

/// The time of day `t` lies in the window from `start` to `end`; a window whose start is
/// later than its end crosses midnight.
pub open spec fn in_window(start: ClockTime, end: ClockTime, t: ClockTime) -> bool {
    if !earlier(end, start) {
        !earlier(t, start) && earlier(t, end)
    } else {
        !earlier(t, start) || earlier(t, end)
    }
}

/// The account rule is in its active schedule at `now`.
pub open spec fn account_active_at(r: AccountRule, now: LocalMoment) -> bool {
    &&& r.enabled
    &&& r.active_days@.contains(now.weekday)
    &&& match (r.start_time, r.end_time) {
        (Some(start), Some(end)) => in_window(start, end, now.time),
        _ => true,
    }
}

impl AccountRule {
    /// A new, enabled rule for `account`, active on every day at every time, suppressing
    /// outside its schedule, with a fresh random identifier.
    pub fn new(account: &str) -> (r: AccountRule)
        ensures
            r.enabled,
            r.account@ == account@,
            r.active_days@ == Set::<Weekday>::full(),
            r.start_time is None,
            r.end_time is None,
            r.outside_behavior == OutsideScheduleBehavior::Suppress,
            uuid_v4_text(r.id@),
    {
        AccountRule {
            id: fresh_rule_id(),
            enabled: true,
            account: String::from_str(account),
            active_days: WeekdaySet::all(),
            start_time: None,
            end_time: None,
            outside_behavior: OutsideScheduleBehavior::Suppress,
        }
    }

    /// Whether the account is in its active schedule at `now`.
    pub fn is_active(&self, now: &LocalMoment) -> (b: bool)
        ensures
            b == account_active_at(*self, *now),
    {
        if !self.enabled {
            return false;
        }
        if !self.active_days.contains(now.weekday) {
            return false;
        }
        match (self.start_time, self.end_time) {
            (Some(start), Some(end)) => {
                let current = now.time;
                if !end.is_before(&start) {
                    if current.is_before(&start) || !current.is_before(&end) {
                        return false;
                    }
                } else {
                    if current.is_before(&start) && !current.is_before(&end) {
                        return false;
                    }
                }
            },
            _ => {},
        }
        true
    }

    /// An exact copy of the rule.
    pub fn copied(&self) -> (r: AccountRule)
        ensures
            r == *self,
    {
        AccountRule {
            id: self.id.clone(),
            enabled: self.enabled,
            account: self.account.clone(),
            active_days: self.active_days,
            start_time: self.start_time,
            end_time: self.end_time,
            outside_behavior: self.outside_behavior,
        }
    }
}

// ============================================================================
// Organisation and type rules
// ============================================================================

/// Organisation-level priority and filtering.
#[derive(Debug, Clone)]
pub struct OrgRule {
    pub id: String,
    pub enabled: bool,
    /// GitHub organisation name.
    pub org: String,
    /// Priority level (higher is more important).
    pub priority: i32,
    pub action: RuleAction,
}

impl OrgRule {
    /// A new, enabled rule for `org` with the given priority, action Show, and a fresh
    /// random identifier.
    pub fn new(org: &str, priority: i32) -> (r: OrgRule)
        ensures
            r.enabled,
            r.org@ == org@,
            r.priority == priority,
            r.action == RuleAction::Show,
            uuid_v4_text(r.id@),
    {
        OrgRule {
            id: fresh_rule_id(),
            enabled: true,
            org: String::from_str(org),
            priority,
            action: RuleAction::Show,
        }
    }

    /// An exact copy of the rule.
    pub fn copied(&self) -> (r: OrgRule)
        ensures
            r == *self,
    {
        OrgRule {
            id: self.id.clone(),
            enabled: self.enabled,
            org: self.org.clone(),
            priority: self.priority,
            action: self.action,
        }
    }
}

/// Rule on a notification reason type (mention, review_requested, ...).
#[derive(Debug, Clone)]
pub struct TypeRule {
    pub id: String,
    pub enabled: bool,
    /// Notification reason type.
    pub notification_type: String,
    /// Optional GitHub username the rule is scoped to.
    pub account: Option<String>,
    /// Priority level (higher is more important).
    pub priority: i32,
    pub action: RuleAction,
}

impl TypeRule {
    /// A new, enabled rule for the type with the given scope and priority, action Show,
    /// and a fresh random identifier.
    pub fn new(notification_type: &str, account: Option<String>, priority: i32) -> (r: TypeRule)
        ensures
            r.enabled,
            r.notification_type@ == notification_type@,
            r.account == account,
            r.priority == priority,
            r.action == RuleAction::Show,
            uuid_v4_text(r.id@),
    {
        TypeRule {
            id: fresh_rule_id(),
            enabled: true,
            notification_type: String::from_str(notification_type),
            account,
            priority,
            action: RuleAction::Show,
        }
    }

    /// An exact copy of the rule.
    pub fn copied(&self) -> (r: TypeRule)
        ensures
            r == *self,
    {
        let account = match &self.account {
            Some(a) => Some(a.clone()),
            None => None,
        };
        TypeRule {
            id: self.id.clone(),
            enabled: self.enabled,
            notification_type: self.notification_type.clone(),
            account,
            priority: self.priority,
            action: self.action,
        }
    }
}

/// How a type rule is named: `type (account)`, or `type (Global)` for an unscoped rule.
pub open spec fn type_rule_label(r: TypeRule) -> Seq<char> {
    r.notification_type@ + " ("@ + match r.account {
        Some(a) => a@,
        None => "Global"@,
    } + ")"@
}

/// The name of a type rule, `type (account)` or `type (Global)`.
pub fn type_rule_name(r: &TypeRule) -> (s: String)
    ensures
        s@ == type_rule_label(*r),
{
    let mut s = r.notification_type.clone();
    s.append(" (");
    match &r.account {
        Some(a) => s.append(a.as_str()),
        None => s.append("Global"),
    }
    s.append(")");
    s
}

/// An account rule has identifier `id`.
pub open spec fn account_with_id(id: Seq<char>) -> spec_fn(AccountRule) -> bool {
    |r: AccountRule| r.id@ == id
}

/// An organisation rule has identifier `id`.
pub open spec fn org_with_id(id: Seq<char>) -> spec_fn(OrgRule) -> bool {
    |r: OrgRule| r.id@ == id
}

/// A type rule has identifier `id`.
pub open spec fn type_with_id(id: Seq<char>) -> spec_fn(TypeRule) -> bool {
    |r: TypeRule| r.id@ == id
}

// ============================================================================
// Rule set
// ============================================================================

/// Complete notification rule configuration.
#[derive(Debug, Clone)]
pub struct NotificationRuleSet {
    /// Rule set name (e.g. "Work", "On-Call", "Weekend").
    pub name: String,
    /// Global switch for all rules.
    pub enabled: bool,
    /// Per-account schedules.
    pub account_rules: Vec<AccountRule>,
    /// Organisation rules.
    pub org_rules: Vec<OrgRule>,
    /// Notification-type rules.
    pub type_rules: Vec<TypeRule>,
}

/// The name a rule set read from storage gets when none is stored.
pub fn default_rule_set_name() -> (s: String)
    ensures
        s@ == "Default"@,
{
    String::from_str("Default")
}

impl Default for NotificationRuleSet {
    /// An empty, disabled rule set with an empty name.
    fn default() -> (r: NotificationRuleSet)
        ensures
            r.name@.len() == 0,
            !r.enabled,
            r.account_rules@.len() == 0,
            r.org_rules@.len() == 0,
            r.type_rules@.len() == 0,
    {
        NotificationRuleSet {
            name: String::new(),
            enabled: false,
            account_rules: Vec::new(),
            org_rules: Vec::new(),
            type_rules: Vec::new(),
        }
    }
}

/// High-impact rule shown on the overview: a name and the action it takes.
#[derive(Debug, Clone)]
pub struct HighImpactRule {
    pub name: String,
    pub action: RuleAction,
}

impl View for HighImpactRule {
    type V = (Seq<char>, RuleAction);

    open spec fn view(&self) -> (Seq<char>, RuleAction) {
        (self.name@, self.action)
    }
}

/// The views of a sequence of high-impact rules.
pub open spec fn impact_views(s: Seq<HighImpactRule>) -> Seq<(Seq<char>, RuleAction)> {
    s.map_values(|h: HighImpactRule| h@)
}

/// An organisation or type rule is high-priority: enabled, and Important or of priority at
/// least `PRIORITY_HIGH`.
pub open spec fn high_priority(enabled: bool, priority: i32, action: RuleAction) -> bool {
    enabled && (priority >= PRIORITY_HIGH || action == RuleAction::Important)
}

/// An organisation or type rule is high-impact: enabled, and Hide, Important, or of priority
/// at least `PRIORITY_HIGH`.
pub open spec fn high_impact(enabled: bool, priority: i32, action: RuleAction) -> bool {
    enabled && (action == RuleAction::Hide || action == RuleAction::Important || priority
        >= PRIORITY_HIGH)
}

/// An account rule suppresses at `now`: enabled, outside its schedule, suppressing there.
pub open spec fn account_suppressing_at(r: AccountRule, now: LocalMoment) -> bool {
    r.enabled && !account_active_at(r, now) && r.outside_behavior
        == OutsideScheduleBehavior::Suppress
}

/// The overview entry of an account rule at `now`, if it is outside its schedule.
pub open spec fn account_impact_at(now: LocalMoment) -> spec_fn(AccountRule) -> Option<
    (Seq<char>, RuleAction),
> {
    |r: AccountRule|
        if r.enabled && !account_active_at(r, now) {
            Some((r.account@, outside_action(r.outside_behavior)))
        } else {
            None
        }
}

/// The overview entry of an organisation rule, if it is high-impact.
pub open spec fn org_impact() -> spec_fn(OrgRule) -> Option<(Seq<char>, RuleAction)> {
    |r: OrgRule|
        if high_impact(r.enabled, r.priority, r.action) {
            Some((r.org@, r.action))
        } else {
            None
        }
}

/// The overview entry of a type rule, if it is high-impact.
pub open spec fn type_impact() -> spec_fn(TypeRule) -> Option<(Seq<char>, RuleAction)> {
    |r: TypeRule|
        if high_impact(r.enabled, r.priority, r.action) {
            Some((type_rule_label(r), r.action))
        } else {
            None
        }
}

/// Number of high-impact rules the overview lists at most.
pub const OVERVIEW_HIGH_IMPACT_LIMIT: usize = 6;

/// The high-impact rules the overview lists: the first six.
pub fn overview_high_impact(v: &Vec<HighImpactRule>) -> (r: Vec<HighImpactRule>)
    ensures
        impact_views(r@) == impact_views(v@).take(
            if v@.len() < OVERVIEW_HIGH_IMPACT_LIMIT {
                v@.len() as int
            } else {
                OVERVIEW_HIGH_IMPACT_LIMIT as int
            },
        ),
{
    let n = if v.len() < OVERVIEW_HIGH_IMPACT_LIMIT {
        v.len()
    } else {
        OVERVIEW_HIGH_IMPACT_LIMIT
    };
    let mut r: Vec<HighImpactRule> = Vec::new();
    let mut i: usize = 0;
    while i < n
        invariant
            n <= v@.len(),
            i <= n,
            impact_views(r@) == impact_views(v@).take(i as int),
        decreases n - i,
    {
        let h = HighImpactRule { name: v[i].name.clone(), action: v[i].action };
        assert(h@ == v@[i as int]@);
        let ghost before = r@;
        r.push(h);
        assert(r@ == before.push(h));
        assert(impact_views(v@).take(i + 1) =~= impact_views(v@).take(i as int).push(v@[i as int]@));
        assert(impact_views(r@) =~= impact_views(before).push(h@));
        i = i + 1;
    }
    r
}

/// The colour of the overview's hidden count: the warning accent when some rule hides
/// notifications, primary text otherwise.
pub fn hidden_count_color(hidden: usize) -> (c: PaletteColor)
    ensures
        c == if hidden > 0 {
            PaletteColor::AccentWarning
        } else {
            PaletteColor::TextPrimary
        },
{
    if hidden > 0 {
        PaletteColor::AccentWarning
    } else {
        PaletteColor::TextPrimary
    }
}

impl NotificationRuleSet {
    /// Number of enabled rules (0 when the rule set is disabled).
    pub open spec fn spec_active_rule_count(self) -> nat {
        if !self.enabled {
            0
        } else {
            self.account_rules@.filter(|r: AccountRule| r.enabled).len() + self.org_rules@.filter(
                |r: OrgRule| r.enabled,
            ).len() + self.type_rules@.filter(|r: TypeRule| r.enabled).len()
        }
    }

    /// Number of suppressing rules at `now` (0 when the rule set is disabled).
    pub open spec fn spec_suppress_count_at(self, now: LocalMoment) -> nat {
        if !self.enabled {
            0
        } else {
            self.account_rules@.filter(|r: AccountRule| account_suppressing_at(r, now)).len()
                + self.org_rules@.filter(
                |r: OrgRule| r.enabled && r.action == RuleAction::Hide,
            ).len() + self.type_rules@.filter(
                |r: TypeRule| r.enabled && r.action == RuleAction::Hide,
            ).len()
        }
    }

    /// Number of high-priority organisation and type rules (0 when the rule set is disabled).
    pub open spec fn spec_high_priority_count(self) -> nat {
        if !self.enabled {
            0
        } else {
            self.org_rules@.filter(|r: OrgRule| high_priority(r.enabled, r.priority, r.action)).len()
                + self.type_rules@.filter(
                |r: TypeRule| high_priority(r.enabled, r.priority, r.action),
            ).len()
        }
    }

    /// The overview list of high-impact rules at `now`: accounts outside their schedule,
    /// then high-impact organisation rules, then high-impact type rules.
    pub open spec fn spec_high_impact_at(self, now: LocalMoment) -> Seq<(Seq<char>, RuleAction)> {
        if !self.enabled {
            Seq::empty()
        } else {
            collect(self.account_rules@, account_impact_at(now)) + collect(
                self.org_rules@,
                org_impact(),
            ) + collect(self.type_rules@, type_impact())
        }
    }

    /// The lengths of the three rule lists add up to a number that fits in `usize`.
    pub open spec fn sizes_fit(self) -> bool {
        self.account_rules@.len() + self.org_rules@.len() + self.type_rules@.len() <= usize::MAX
    }

    /// Count total active rules.
    pub fn active_rule_count(&self) -> (n: usize)
        requires
            self.sizes_fit(),
        ensures
            n == self.spec_active_rule_count(),
    {
        if !self.enabled {
            return 0;
        }
        let ghost pa = |r: AccountRule| r.enabled;
        let ghost po = |r: OrgRule| r.enabled;
        let ghost pt = |r: TypeRule| r.enabled;
        let mut a: usize = 0;
        let mut i: usize = 0;
        while i < self.account_rules.len()
            invariant
                i <= self.account_rules@.len(),
                pa == (|r: AccountRule| r.enabled),
                a == self.account_rules@.take(i as int).filter(pa).len(),
                a <= i,
            decreases self.account_rules@.len() - i,
        {
            proof {
                lemma_filter_step(self.account_rules@, i as int, pa);
                assert(pa(self.account_rules@[i as int]) == self.account_rules@[i as int].enabled);
            }
            if self.account_rules[i].enabled {
                a = a + 1;
            }
            i = i + 1;
        }
        let mut o: usize = 0;
        let mut j: usize = 0;
        while j < self.org_rules.len()
            invariant
                j <= self.org_rules@.len(),
                po == (|r: OrgRule| r.enabled),
                o == self.org_rules@.take(j as int).filter(po).len(),
                o <= j,
            decreases self.org_rules@.len() - j,
        {
            proof {
                lemma_filter_step(self.org_rules@, j as int, po);
                assert(po(self.org_rules@[j as int]) == self.org_rules@[j as int].enabled);
            }
            if self.org_rules[j].enabled {
                o = o + 1;
            }
            j = j + 1;
        }
        let mut t: usize = 0;
        let mut k: usize = 0;
        while k < self.type_rules.len()
            invariant
                k <= self.type_rules@.len(),
                pt == (|r: TypeRule| r.enabled),
                t == self.type_rules@.take(k as int).filter(pt).len(),
                t <= k,
            decreases self.type_rules@.len() - k,
        {
            proof {
                lemma_filter_step(self.type_rules@, k as int, pt);
                assert(pt(self.type_rules@[k as int]) == self.type_rules@[k as int].enabled);
            }
            if self.type_rules[k].enabled {
                t = t + 1;
            }
            k = k + 1;
        }
        proof {
            lemma_take_all(self.account_rules@);
            lemma_take_all(self.org_rules@);
            lemma_take_all(self.type_rules@);
        }
        a + o + t
    }

    /// Count rules with a Hide effect at `now`: account rules enabled, outside their schedule
    /// and suppressing there, and enabled organisation and type rules with action Hide.
    pub fn count_suppress_rules_at(&self, now: &LocalMoment) -> (n: usize)
        requires
            self.sizes_fit(),
        ensures
            n == self.spec_suppress_count_at(*now),
    {
        if !self.enabled {
            return 0;
        }
        let ghost pa = |r: AccountRule| account_suppressing_at(r, *now);
        let ghost po = |r: OrgRule| r.enabled && r.action == RuleAction::Hide;
        let ghost pt = |r: TypeRule| r.enabled && r.action == RuleAction::Hide;
        let mut a: usize = 0;
        let mut i: usize = 0;
        while i < self.account_rules.len()
            invariant
                i <= self.account_rules@.len(),
                pa == (|r: AccountRule| account_suppressing_at(r, *now)),
                a == self.account_rules@.take(i as int).filter(pa).len(),
                a <= i,
            decreases self.account_rules@.len() - i,
        {
            proof {
                lemma_filter_step(self.account_rules@, i as int, pa);
            }
            let r = &self.account_rules[i];
            if r.enabled && !r.is_active(now) && r.outside_behavior
                == OutsideScheduleBehavior::Suppress {
                a = a + 1;
            }
            i = i + 1;
        }
        let mut o: usize = 0;
        let mut j: usize = 0;
        while j < self.org_rules.len()
            invariant
                j <= self.org_rules@.len(),
                po == (|r: OrgRule| r.enabled && r.action == RuleAction::Hide),
                o == self.org_rules@.take(j as int).filter(po).len(),
                o <= j,
            decreases self.org_rules@.len() - j,
        {
            proof {
                lemma_filter_step(self.org_rules@, j as int, po);
            }
            if self.org_rules[j].enabled && self.org_rules[j].action == RuleAction::Hide {
                o = o + 1;
            }
            j = j + 1;
        }
        let mut t: usize = 0;
        let mut k: usize = 0;
        while k < self.type_rules.len()
            invariant
                k <= self.type_rules@.len(),
                pt == (|r: TypeRule| r.enabled && r.action == RuleAction::Hide),
                t == self.type_rules@.take(k as int).filter(pt).len(),
                t <= k,
            decreases self.type_rules@.len() - k,
        {
            proof {
                lemma_filter_step(self.type_rules@, k as int, pt);
            }
            if self.type_rules[k].enabled && self.type_rules[k].action == RuleAction::Hide {
                t = t + 1;
            }
            k = k + 1;
        }
        proof {
            lemma_take_all(self.account_rules@);
            lemma_take_all(self.org_rules@);
            lemma_take_all(self.type_rules@);
        }
        a + o + t
    }

    /// Count rules with a Hide effect now (the local clock is read).
    pub fn count_suppress_rules(&self) -> (n: usize)
        requires
            self.sizes_fit(),
        ensures
            exists|now: LocalMoment| clock_time_wf(now.time) && n == self.spec_suppress_count_at(now),
    {
        let now = LocalMoment::now();
        self.count_suppress_rules_at(&now)
    }

    /// Count organisation and type rules with action Important or priority of at least
    /// `PRIORITY_HIGH`.
    pub fn count_high_priority_rules(&self) -> (n: usize)
        requires
            self.sizes_fit(),
        ensures
            n == self.spec_high_priority_count(),
    {
        if !self.enabled {
            return 0;
        }
        let ghost po = |r: OrgRule| high_priority(r.enabled, r.priority, r.action);
        let ghost pt = |r: TypeRule| high_priority(r.enabled, r.priority, r.action);
        let mut o: usize = 0;
        let mut j: usize = 0;
        while j < self.org_rules.len()
            invariant
                j <= self.org_rules@.len(),
                po == (|r: OrgRule| high_priority(r.enabled, r.priority, r.action)),
                o == self.org_rules@.take(j as int).filter(po).len(),
                o <= j,
            decreases self.org_rules@.len() - j,
        {
            proof {
                lemma_filter_step(self.org_rules@, j as int, po);
            }
            let r = &self.org_rules[j];
            if r.enabled && (r.priority >= PRIORITY_HIGH || r.action == RuleAction::Important) {
                o = o + 1;
            }
            j = j + 1;
        }
        let mut t: usize = 0;
        let mut k: usize = 0;
        while k < self.type_rules.len()
            invariant
                k <= self.type_rules@.len(),
                pt == (|r: TypeRule| high_priority(r.enabled, r.priority, r.action)),
                t == self.type_rules@.take(k as int).filter(pt).len(),
                t <= k,
            decreases self.type_rules@.len() - k,
        {
            proof {
                lemma_filter_step(self.type_rules@, k as int, pt);
            }
            let r = &self.type_rules[k];
            if r.enabled && (r.priority >= PRIORITY_HIGH || r.action == RuleAction::Important) {
                t = t + 1;
            }
            k = k + 1;
        }
        proof {
            lemma_take_all(self.org_rules@);
            lemma_take_all(self.type_rules@);
        }
        o + t
    }

    /// The high-impact rules for the overview at `now`.
    pub fn get_high_impact_rules_at(&self, now: &LocalMoment) -> (v: Vec<HighImpactRule>)
        ensures
            impact_views(v@) == self.spec_high_impact_at(*now),
    {
        let mut out: Vec<HighImpactRule> = Vec::new();
        if !self.enabled {
            assert(impact_views(out@) =~= Seq::empty());
            return out;
        }
        let ghost fa = account_impact_at(*now);
        let mut i: usize = 0;
        while i < self.account_rules.len()
            invariant
                i <= self.account_rules@.len(),
                fa == account_impact_at(*now),
                impact_views(out@) == collect(self.account_rules@.take(i as int), fa),
            decreases self.account_rules@.len() - i,
        {
            proof {
                lemma_collect_step(self.account_rules@, i as int, fa);
            }
            let r = &self.account_rules[i];
            if r.enabled && !r.is_active(now) {
                let h = HighImpactRule { name: r.account.clone(), action: r.outside_behavior.action() };
                out.push(h);
            }
            assert(impact_views(out@) =~= collect(self.account_rules@.take(i + 1), fa));
            i = i + 1;
        }
        proof {
            lemma_take_all(self.account_rules@);
        }
        let ghost base = impact_views(out@);
        let ghost fo = org_impact();
        let mut j: usize = 0;
        while j < self.org_rules.len()
            invariant
                j <= self.org_rules@.len(),
                fo == org_impact(),
                impact_views(out@) == base + collect(self.org_rules@.take(j as int), fo),
            decreases self.org_rules@.len() - j,
        {
            proof {
                lemma_collect_step(self.org_rules@, j as int, fo);
            }
            let r = &self.org_rules[j];
            let ghost before = impact_views(out@);
            if r.enabled && (r.action == RuleAction::Hide || r.action == RuleAction::Important
                || r.priority >= PRIORITY_HIGH) {
                let h = HighImpactRule { name: r.org.clone(), action: r.action };
                out.push(h);
                assert(fo(*r) == Some(h@));
                assert(impact_views(out@) =~= before.push(h@));
            } else {
                assert(fo(*r) is None);
            }
            assert(impact_views(out@) =~= base + collect(self.org_rules@.take(j + 1), fo));
            j = j + 1;
        }
        proof {
            lemma_take_all(self.org_rules@);
        }
        let ghost base2 = impact_views(out@);
        let ghost ft = type_impact();
        let mut k: usize = 0;
        while k < self.type_rules.len()
            invariant
                k <= self.type_rules@.len(),
                ft == type_impact(),
                impact_views(out@) == base2 + collect(self.type_rules@.take(k as int), ft),
            decreases self.type_rules@.len() - k,
        {
            proof {
                lemma_collect_step(self.type_rules@, k as int, ft);
            }
            let r = &self.type_rules[k];
            let ghost before = impact_views(out@);
            if r.enabled && (r.action == RuleAction::Hide || r.action == RuleAction::Important
                || r.priority >= PRIORITY_HIGH) {
                let h = HighImpactRule { name: type_rule_name(r), action: r.action };
                out.push(h);
                assert(ft(*r) == Some(h@));
                assert(impact_views(out@) =~= before.push(h@));
            } else {
                assert(ft(*r) is None);
            }
            assert(impact_views(out@) =~= base2 + collect(self.type_rules@.take(k + 1), ft));
            k = k + 1;
        }
        proof {
            lemma_take_all(self.type_rules@);
        }
        out
    }

    /// The high-impact rules for the overview now (the local clock is read).
    pub fn get_high_impact_rules(&self) -> (v: Vec<HighImpactRule>)
        ensures
            exists|now: LocalMoment|
                clock_time_wf(now.time) && impact_views(v@) == self.spec_high_impact_at(now),
    {
        let now = LocalMoment::now();
        self.get_high_impact_rules_at(&now)
    }
}

// ============================================================================
// Laws of rules
// ============================================================================

/// A disabled account rule (the master switch off) is never in its active schedule.
pub proof fn law_disabled_account_never_active(r: AccountRule, now: LocalMoment)
    requires
        !r.enabled,
    ensures
        !account_active_at(r, now),
{
}

/// An enabled account rule without a daily window is active all day on its active days.
pub proof fn law_no_window_means_whole_day(r: AccountRule, now: LocalMoment)
    requires
        r.enabled,
        r.start_time is None || r.end_time is None,
    ensures
        account_active_at(r, now) == r.active_days@.contains(now.weekday),
{
}

/// A window crossing midnight (start after end) is active from its start to midnight and
/// from midnight to its end.
pub proof fn law_midnight_window(start: ClockTime, end: ClockTime, t: ClockTime)
    requires
        earlier(end, start),
    ensures
        in_window(start, end, t) <==> (!earlier(t, start) || earlier(t, end)),
{
}

/// A disabled rule set reports no active, suppressing, high-priority or high-impact rules.
pub proof fn law_disabled_rule_set_reports_nothing(rules: NotificationRuleSet, now: LocalMoment)
    requires
        !rules.enabled,
    ensures
        rules.spec_active_rule_count() == 0,
        rules.spec_suppress_count_at(now) == 0,
        rules.spec_high_priority_count() == 0,
        rules.spec_high_impact_at(now).len() == 0,
{
}

/// The number of active rules is at most the number of rules.
pub proof fn law_active_count_bounded(rules: NotificationRuleSet)
    ensures
        rules.spec_active_rule_count() <= rules.account_rules@.len() + rules.org_rules@.len()
            + rules.type_rules@.len(),
{
    rules.account_rules@.lemma_filter_len(|r: AccountRule| r.enabled);
    rules.org_rules@.lemma_filter_len(|r: OrgRule| r.enabled);
    rules.type_rules@.lemma_filter_len(|r: TypeRule| r.enabled);
}

/// The overview list of high-impact rules holds one entry for each enabled account rule
/// outside its schedule, each high-priority rule counted by `count_high_priority_rules`, and
/// each enabled organisation or type rule that hides with a priority below `PRIORITY_HIGH`.
pub proof fn law_high_impact_count(rules: NotificationRuleSet, now: LocalMoment)
    requires
        rules.enabled,
    ensures
        rules.spec_high_impact_at(now).len() == rules.account_rules@.filter(
            |r: AccountRule| r.enabled && !account_active_at(r, now),
        ).len() + rules.spec_high_priority_count() + rules.org_rules@.filter(
            |r: OrgRule| r.enabled && r.action == RuleAction::Hide && r.priority < PRIORITY_HIGH,
        ).len() + rules.type_rules@.filter(
            |r: TypeRule| r.enabled && r.action == RuleAction::Hide && r.priority < PRIORITY_HIGH,
        ).len(),
{
    let pa = |r: AccountRule| r.enabled && !account_active_at(r, now);
    lemma_collect_len(rules.account_rules@, account_impact_at(now), pa);
    let po = |r: OrgRule| high_impact(r.enabled, r.priority, r.action);
    let qo = |r: OrgRule| high_priority(r.enabled, r.priority, r.action);
    let ro = |r: OrgRule| r.enabled && r.action == RuleAction::Hide && r.priority < PRIORITY_HIGH;
    lemma_collect_len(rules.org_rules@, org_impact(), po);
    lemma_filter_len_split(rules.org_rules@, po, qo, ro);
    let pt = |r: TypeRule| high_impact(r.enabled, r.priority, r.action);
    let qt = |r: TypeRule| high_priority(r.enabled, r.priority, r.action);
    let rt = |r: TypeRule| r.enabled && r.action == RuleAction::Hide && r.priority < PRIORITY_HIGH;
    lemma_collect_len(rules.type_rules@, type_impact(), pt);
    lemma_filter_len_split(rules.type_rules@, pt, qt, rt);
}


/// An account rule is in its schedule exactly when it is enabled, the day is one of its active
/// days (whether or not it has a daily window) and, with a window, the time lies in it (from
/// the start up to the end, or across midnight when the end comes before the start).
pub proof fn law_active_needs_an_active_day(r: AccountRule, now: LocalMoment)
    ensures
        account_active_at(r, now) ==> r.enabled,
        account_active_at(r, now) ==> r.active_days@.contains(now.weekday),
        !r.active_days@.contains(now.weekday) ==> !account_active_at(r, now),
        account_active_at(r, now) ==> match (r.start_time, r.end_time) {
            (Some(start), Some(end)) => if earlier(end, start) {
                !earlier(now.time, start) || earlier(now.time, end)
            } else {
                !earlier(now.time, start) && earlier(now.time, end)
            },
            _ => true,
        },
        r.enabled && r.active_days@.contains(now.weekday) && match (r.start_time, r.end_time) {
            (Some(start), Some(end)) => if earlier(end, start) {
                !earlier(now.time, start) || earlier(now.time, end)
            } else {
                !earlier(now.time, start) && earlier(now.time, end)
            },
            _ => true,
        } ==> account_active_at(r, now),
{
}

/// Only enabled rules hide: the number of hiding rules is at most the number of enabled
/// rules, and a rule set whose rules are all disabled has no hiding rule.
pub proof fn law_suppress_count_counts_enabled_rules(rules: NotificationRuleSet, now: LocalMoment)
    ensures
        rules.spec_suppress_count_at(now) <= rules.spec_active_rule_count(),
        (forall|k: int| 0 <= k < rules.account_rules@.len() ==> !(#[trigger] rules.account_rules@[k]).enabled)
            && (forall|k: int| 0 <= k < rules.org_rules@.len() ==> !(#[trigger] rules.org_rules@[k]).enabled)
            && (forall|k: int| 0 <= k < rules.type_rules@.len() ==> !(#[trigger] rules.type_rules@[k]).enabled)
            ==> rules.spec_suppress_count_at(now) == 0,
{
    let sa = |r: AccountRule| account_suppressing_at(r, now);
    let ea = |r: AccountRule| r.enabled;
    let so = |r: OrgRule| r.enabled && r.action == RuleAction::Hide;
    let eo = |r: OrgRule| r.enabled;
    let st = |r: TypeRule| r.enabled && r.action == RuleAction::Hide;
    let et = |r: TypeRule| r.enabled;
    lemma_filter_len_mono(rules.account_rules@, sa, ea);
    lemma_filter_len_mono(rules.org_rules@, so, eo);
    lemma_filter_len_mono(rules.type_rules@, st, et);
    if (forall|k: int| 0 <= k < rules.account_rules@.len() ==> !(#[trigger] rules.account_rules@[k]).enabled)
        && (forall|k: int| 0 <= k < rules.org_rules@.len() ==> !(#[trigger] rules.org_rules@[k]).enabled)
        && (forall|k: int| 0 <= k < rules.type_rules@.len() ==> !(#[trigger] rules.type_rules@[k]).enabled) {
        assert forall|k: int| 0 <= k < rules.account_rules@.len() implies !sa(#[trigger] rules.account_rules@[k]) by {}
        assert forall|k: int| 0 <= k < rules.org_rules@.len() implies !so(#[trigger] rules.org_rules@[k]) by {}
        assert forall|k: int| 0 <= k < rules.type_rules@.len() implies !st(#[trigger] rules.type_rules@[k]) by {}
        lemma_filter_none(rules.account_rules@, sa);
        lemma_filter_none(rules.org_rules@, so);
        lemma_filter_none(rules.type_rules@, st);
    }
}

} // verus!
