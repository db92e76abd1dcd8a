//! Rule evaluation: which rules match a notification, in which order they rank, and which
//! one decides what happens to the notification.

use vstd::prelude::*;

use crate::calendar::LocalMoment;
use crate::rules::{
    account_active_at, outside_action, type_rule_label, type_rule_name, AccountRule,
    NotificationRuleSet, OrgRule, RuleAction, TypeRule, PRIORITY_DEFAULT,
};
use crate::seqs::{collect, lemma_collect_none, lemma_collect_step, lemma_take_all};
use crate::text::{eq_ignore_ascii_case, same_ignoring_ascii_case};

verus! {

// ============================================================================
// Match results and decisions
// ============================================================================

/// Which kind of rule applied, with the rule's subject.
#[derive(Debug, Clone, PartialEq, Eq)]
pub enum RuleDecisionReason {
    Account(String),
    Org(String),
    Type(String),
}

/// A reason with its text as a sequence of characters.
pub enum ReasonView {
    Account(Seq<char>),
    Org(Seq<char>),
    Type(Seq<char>),
}

impl View for RuleDecisionReason {
    type V = ReasonView;

    open spec fn view(&self) -> ReasonView {
        match self {
            RuleDecisionReason::Account(s) => ReasonView::Account(s@),
            RuleDecisionReason::Org(s) => ReasonView::Org(s@),
            RuleDecisionReason::Type(s) => ReasonView::Type(s@),
        }
    }
}

impl RuleDecisionReason {
    /// An exact copy of the reason.
    pub fn copied(&self) -> (r: RuleDecisionReason)
        ensures
            r == *self,
    {
        match self {
            RuleDecisionReason::Account(s) => RuleDecisionReason::Account(s.clone()),
            RuleDecisionReason::Org(s) => RuleDecisionReason::Org(s.clone()),
            RuleDecisionReason::Type(s) => RuleDecisionReason::Type(s.clone()),
        }
    }
}

/// A rule that matched a notification.
#[derive(Debug, Clone)]
pub struct MatchResult {
    pub id: String,
    pub priority: i32,
    pub action: RuleAction,
    pub reason: RuleDecisionReason,
    /// "Account", "Org" or "Type".
    pub rule_source: String,
    /// Name shown for the rule.
    pub name: String,
    pub enabled: bool,
}

/// A match result with its texts as sequences of characters.
pub struct MatchView {
    pub id: Seq<char>,
    pub priority: i32,
    pub action: RuleAction,
    pub reason: ReasonView,
    pub rule_source: Seq<char>,
    pub name: Seq<char>,
    pub enabled: bool,
}

impl View for MatchResult {
    type V = MatchView;

    open spec fn view(&self) -> MatchView {
        MatchView {
            id: self.id@,
            priority: self.priority,
            action: self.action,
            reason: self.reason@,
            rule_source: self.rule_source@,
            name: self.name@,
            enabled: self.enabled,
        }
    }
}

/// The views of a sequence of match results.
pub open spec fn match_views(s: Seq<MatchResult>) -> Seq<MatchView> {
    s.map_values(|m: MatchResult| m@)
}

/// Why a rule was applied to a notification.
#[derive(Debug, Clone, PartialEq, Eq)]
pub struct RuleDecision {
    pub applied_rule_id: String,
    pub action: RuleAction,
    pub priority: i32,
    pub reason: RuleDecisionReason,
}

/// A decision with its texts as sequences of characters.
pub struct DecisionView {
    pub applied_rule_id: Seq<char>,
    pub action: RuleAction,
    pub priority: i32,
    pub reason: ReasonView,
}

impl View for RuleDecision {
    type V = DecisionView;

    open spec fn view(&self) -> DecisionView {
        DecisionView {
            applied_rule_id: self.applied_rule_id@,
            action: self.action,
            priority: self.priority,
            reason: self.reason@,
        }
    }
}

/// The decision recorded when the match `m` is applied.
pub open spec fn decision_of(m: MatchView) -> DecisionView {
    DecisionView { applied_rule_id: m.id, action: m.action, priority: m.priority, reason: m.reason }
}

/// The view of an optional decision.
pub open spec fn decision_view(d: Option<RuleDecision>) -> Option<DecisionView> {
    match d {
        Some(d) => Some(d@),
        None => None,
    }
}

/// The view of an optional text.
pub open spec fn text_view(s: Option<&str>) -> Option<Seq<char>> {
    match s {
        Some(s) => Some(s@),
        None => None,
    }
}

// ============================================================================
// Which rules match
// ============================================================================

/// The match an account rule gives for a notification of `account` at `now`: an enabled rule
/// whose account equals `account` ignoring ASCII case; Show inside its schedule, its
/// outside-schedule action otherwise; priority `PRIORITY_DEFAULT`.
pub open spec fn account_match(account: Seq<char>, now: LocalMoment) -> spec_fn(AccountRule) -> Option<MatchView> {
    |r: AccountRule|
        if r.enabled && same_ignoring_ascii_case(r.account@, account) {
            Some(
                MatchView {
                    id: r.id@,
                    priority: PRIORITY_DEFAULT,
                    action: if account_active_at(r, now) {
                        RuleAction::Show
                    } else {
                        outside_action(r.outside_behavior)
                    },
                    reason: ReasonView::Account(r.account@),
                    rule_source: "Account"@,
                    name: r.account@,
                    enabled: true,
                },
            )
        } else {
            None
        }
}

/// The match an organisation rule gives for a repository owned by `owner`: an enabled rule
/// whose organisation equals `owner` ignoring ASCII case.
pub open spec fn org_match(owner: Seq<char>) -> spec_fn(OrgRule) -> Option<MatchView> {
    |r: OrgRule|
        if r.enabled && same_ignoring_ascii_case(r.org@, owner) {
            Some(
                MatchView {
                    id: r.id@,
                    priority: r.priority,
                    action: r.action,
                    reason: ReasonView::Org(r.org@),
                    rule_source: "Org"@,
                    name: r.org@,
                    enabled: true,
                },
            )
        } else {
            None
        }
}

/// A type rule's account scope admits a notification of `account`: an unscoped rule admits
/// all; a scoped one admits an equal account (ignoring ASCII case), and a notification without
/// account only when loose matching is allowed.
pub open spec fn scope_admits(scope: Option<String>, account: Option<Seq<char>>, loose: bool) -> bool {
    match (scope, account) {
        (None, _) => true,
        (Some(s), Some(a)) => same_ignoring_ascii_case(s@, a),
        (Some(_), None) => loose,
    }
}

/// The match a type rule gives for a notification of type `ntype` and `account`.
pub open spec fn type_match(ntype: Seq<char>, account: Option<Seq<char>>, loose: bool) -> spec_fn(TypeRule) -> Option<MatchView> {
    |r: TypeRule|
        if r.enabled && same_ignoring_ascii_case(r.notification_type@, ntype) && scope_admits(
            r.account,
            account,
            loose,
        ) {
            Some(
                MatchView {
                    id: r.id@,
                    priority: r.priority,
                    action: r.action,
                    reason: ReasonView::Type(r.notification_type@),
                    rule_source: "Type"@,
                    name: type_rule_label(r),
                    enabled: true,
                },
            )
        } else {
            None
        }
}

/// All matches for a notification, before ranking: account rules (only when the notification
/// has an account), organisation rules (only when the repository owner is known), type rules.
pub open spec fn candidate_matches(
    rules: NotificationRuleSet,
    ntype: Seq<char>,
    owner: Option<Seq<char>>,
    account: Option<Seq<char>>,
    now: LocalMoment,
    loose: bool,
) -> Seq<MatchView> {
    let from_accounts = match account {
        Some(a) => collect(rules.account_rules@, account_match(a, now)),
        None => Seq::empty(),
    };
    let from_orgs = match owner {
        Some(o) => collect(rules.org_rules@, org_match(o)),
        None => Seq::empty(),
    };
    from_accounts + from_orgs + collect(rules.type_rules@, type_match(ntype, account, loose))
}

// ============================================================================
// Ranking
// ============================================================================

/// 1 for Important, 0 otherwise.
pub open spec fn importance(a: RuleAction) -> int {
    if a == RuleAction::Important {
        1
    } else {
        0
    }
}

/// How restrictive an action is: Hide 3 > Silent 2 > Show 1 (Important 4).
pub open spec fn severity(a: RuleAction) -> int {
    match a {
        RuleAction::Hide => 3,
        RuleAction::Silent => 2,
        RuleAction::Show => 1,
        RuleAction::Important => 4,
    }
}

/// `a` ranks strictly before `b`: Important first; then higher priority; then the more
/// restrictive action.
pub open spec fn outranks(a: MatchView, b: MatchView) -> bool {
    ||| importance(a.action) > importance(b.action)
    ||| importance(a.action) == importance(b.action) && a.priority > b.priority
    ||| importance(a.action) == importance(b.action) && a.priority == b.priority && severity(
        a.action,
    ) > severity(b.action)
}

/// `x` inserted into `s` before the first element it outranks.
pub open spec fn insert_ranked(s: Seq<MatchView>, x: MatchView) -> Seq<MatchView>
    decreases s.len(),
{
    if s.len() == 0 {
        seq![x]
    } else if outranks(x, s[0]) {
        seq![x] + s
    } else {
        seq![s[0]] + insert_ranked(s.drop_first(), x)
    }
}

/// `s` sorted by rank, keeping the given order among equally ranked elements (a stable sort).
pub open spec fn rank_sort(s: Seq<MatchView>) -> Seq<MatchView>
    decreases s.len(),
{
    if s.len() == 0 {
        s
    } else {
        insert_ranked(rank_sort(s.drop_last()), s.last())
    }
}

/// No element of `s` outranks an element before it.
pub open spec fn ranked(s: Seq<MatchView>) -> bool {
    forall|i: int, j: int| 0 <= i < j < s.len() ==> !outranks(#[trigger] s[j], #[trigger] s[i])
}

/// `x` goes into `s` at position `p`: after every element it does not outrank, before the
/// first one it outranks.
pub proof fn lemma_insert_ranked_at(s: Seq<MatchView>, x: MatchView, p: int)
    requires
        0 <= p <= s.len(),
        forall|k: int| 0 <= k < p ==> !outranks(x, #[trigger] s[k]),
        p == s.len() || outranks(x, s[p]),
    ensures
        insert_ranked(s, x) == s.insert(p, x),
    decreases s.len(),
{
    if s.len() == 0 {
        assert(s.insert(p, x) =~= seq![x]);
    } else if p == 0 {
        assert(s.insert(p, x) =~= seq![x] + s);
    } else {
        assert(!outranks(x, s[0]));
        let t = s.drop_first();
        assert forall|k: int| 0 <= k < p - 1 implies !outranks(x, #[trigger] t[k]) by {
            assert(t[k] == s[k + 1]);
        }
        lemma_insert_ranked_at(t, x, p - 1);
        assert(seq![s[0]] + t.insert(p - 1, x) =~= s.insert(p, x));
    }
}

/// Where `insert_ranked` puts `x`.
pub proof fn lemma_insert_ranked_position(s: Seq<MatchView>, x: MatchView) -> (p: int)
    ensures
        0 <= p <= s.len(),
        forall|k: int| 0 <= k < p ==> !outranks(x, #[trigger] s[k]),
        p == s.len() || outranks(x, s[p]),
        insert_ranked(s, x) == s.insert(p, x),
    decreases s.len(),
{
    if s.len() == 0 || outranks(x, s[0]) {
        lemma_insert_ranked_at(s, x, 0);
        0
    } else {
        let t = s.drop_first();
        let q = lemma_insert_ranked_position(t, x);
        assert forall|k: int| 0 <= k < q + 1 implies !outranks(x, #[trigger] s[k]) by {
            if k > 0 {
                assert(s[k] == t[k - 1]);
            }
        }
        if q < t.len() {
            assert(s[q + 1] == t[q]);
        }
        lemma_insert_ranked_at(s, x, q + 1);
        q + 1
    }
}

/// Inserting by rank into a ranked sequence keeps it ranked and adds exactly `x`.
pub proof fn lemma_insert_ranked_properties(s: Seq<MatchView>, x: MatchView)
    ensures
        insert_ranked(s, x).to_multiset() == s.to_multiset().insert(x),
        insert_ranked(s, x).len() == s.len() + 1,
        ranked(s) ==> ranked(insert_ranked(s, x)),
{
    let p = lemma_insert_ranked_position(s, x);
    let r = s.insert(p, x);
    s.insert_ensures(p, x);
    vstd::seq_lib::to_multiset_insert(s, p, x);
    if ranked(s) {
        assert forall|i: int, j: int| 0 <= i < j < r.len() implies !outranks(
            #[trigger] r[j],
            #[trigger] r[i],
        ) by {
            if j < p {
                assert(r[i] == s[i] && r[j] == s[j]);
            } else if j == p {
                assert(r[i] == s[i]);
            } else if i == p {
                assert(r[j] == s[j - 1]);
                assert(outranks(x, s[p]));
                if j - 1 > p {
                    assert(!outranks(s[j - 1], s[p]));
                }
            } else if i < p {
                assert(r[i] == s[i] && r[j] == s[j - 1]);
            } else {
                assert(r[i] == s[i - 1] && r[j] == s[j - 1]);
            }
        }
    }
}

/// Sorting by rank keeps every element exactly once and gives a ranked sequence.
pub proof fn lemma_rank_sort_properties(s: Seq<MatchView>)
    ensures
        rank_sort(s).to_multiset() == s.to_multiset(),
        rank_sort(s).len() == s.len(),
        ranked(rank_sort(s)),
    decreases s.len(),
{
    if s.len() == 0 {
        assert(ranked(rank_sort(s)));
    } else {
        let t = s.drop_last();
        lemma_rank_sort_properties(t);
        lemma_insert_ranked_properties(rank_sort(t), s.last());
        vstd::seq_lib::to_multiset_build(t, s.last());
        assert(t.push(s.last()) =~= s);
    }
}

/// Every element of `s` shows up in `rank_sort(s)` and the other way round.
pub proof fn lemma_rank_sort_same_elements(s: Seq<MatchView>)
    ensures
        forall|m: MatchView| s.contains(m) <==> rank_sort(s).contains(m),
{
    lemma_rank_sort_properties(s);
    assert forall|m: MatchView| s.contains(m) <==> rank_sort(s).contains(m) by {
        vstd::seq_lib::to_multiset_contains(s, m);
        vstd::seq_lib::to_multiset_contains(rank_sort(s), m);
    }
}

// ============================================================================
// Evaluation
// ============================================================================

/// Hide and Silent suppress a notification; Show and Important do not.
pub open spec fn suppresses(a: RuleAction) -> bool {
    a == RuleAction::Hide || a == RuleAction::Silent
}

/// The first match in `ms` whose action is in `actions`, if any.
pub open spec fn first_with(ms: Seq<MatchView>, actions: Set<RuleAction>) -> Option<MatchView>
    decreases ms.len(),
{
    if ms.len() == 0 {
        None
    } else if actions.contains(ms[0].action) {
        Some(ms[0])
    } else {
        first_with(ms.drop_first(), actions)
    }
}

/// The match that decides among the ranked matches `ms` (not empty). An Important match
/// overrides everything. Otherwise a Hide or Silent match is never overridden by a Show,
/// whatever the priorities: the best-ranked suppressing match decides (highest priority, then
/// Hide over Silent). Only when nothing suppresses does the best-ranked match (a Show) decide.
pub open spec fn deciding_match(ms: Seq<MatchView>) -> MatchView {
    match first_with(ms, set![RuleAction::Important]) {
        Some(m) => m,
        None => match first_with(ms, set![RuleAction::Hide, RuleAction::Silent]) {
            Some(m) => m,
            None => ms[0],
        },
    }
}

/// What evaluating a notification gives: Show without decision when the rule set is disabled
/// or nothing matches; otherwise the action of the deciding match, with its decision.
pub open spec fn evaluation(
    rules: NotificationRuleSet,
    ntype: Seq<char>,
    owner: Option<Seq<char>>,
    account: Option<Seq<char>>,
    now: LocalMoment,
) -> (RuleAction, Option<DecisionView>) {
    if !rules.enabled {
        (RuleAction::Show, None)
    } else {
        let ms = rank_sort(candidate_matches(rules, ntype, owner, account, now, false));
        if ms.len() == 0 {
            (RuleAction::Show, None)
        } else {
            (deciding_match(ms).action, Some(decision_of(deciding_match(ms))))
        }
    }
}

/// `first_with` finds the match at `k` when none before it has one of the actions and it has
/// one (or nothing when `k` is the length).
pub proof fn lemma_first_with_at(ms: Seq<MatchView>, actions: Set<RuleAction>, k: int)
    requires
        0 <= k <= ms.len(),
        forall|j: int| 0 <= j < k ==> !actions.contains((#[trigger] ms[j]).action),
        k < ms.len() ==> actions.contains(ms[k].action),
    ensures
        first_with(ms, actions) == if k < ms.len() {
            Some(ms[k])
        } else {
            None::<MatchView>
        },
    decreases k,
{
    if ms.len() > 0 && k > 0 {
        let t = ms.drop_first();
        assert(!actions.contains(ms[0].action));
        assert forall|j: int| 0 <= j < k - 1 implies !actions.contains((#[trigger] t[j]).action) by {
            assert(t[j] == ms[j + 1]);
        }
        if k < ms.len() {
            assert(t[k - 1] == ms[k]);
        }
        lemma_first_with_at(t, actions, k - 1);
    }
}

/// Where `first_with` stops: the first index with one of the actions, or the length.
pub proof fn lemma_first_with_index(ms: Seq<MatchView>, actions: Set<RuleAction>) -> (k: int)
    ensures
        0 <= k <= ms.len(),
        forall|j: int| 0 <= j < k ==> !actions.contains((#[trigger] ms[j]).action),
        k < ms.len() ==> actions.contains(ms[k].action),
        first_with(ms, actions) == if k < ms.len() {
            Some(ms[k])
        } else {
            None::<MatchView>
        },
    decreases ms.len(),
{
    if ms.len() == 0 || actions.contains(ms[0].action) {
        lemma_first_with_at(ms, actions, 0);
        0
    } else {
        let t = ms.drop_first();
        let q = lemma_first_with_index(t, actions);
        assert forall|j: int| 0 <= j < q + 1 implies !actions.contains((#[trigger] ms[j]).action) by {
            if j > 0 {
                assert(ms[j] == t[j - 1]);
            }
        }
        if q < t.len() {
            assert(ms[q + 1] == t[q]);
        }
        lemma_first_with_at(ms, actions, q + 1);
        q + 1
    }
}

impl MatchResult {
    /// An exact copy of the match.
    pub fn copied(&self) -> (r: MatchResult)
        ensures
            r == *self,
    {
        MatchResult {
            id: self.id.clone(),
            priority: self.priority,
            action: self.action,
            reason: self.reason.copied(),
            rule_source: self.rule_source.clone(),
            name: self.name.clone(),
            enabled: self.enabled,
        }
    }

    /// The decision recorded when this match is applied.
    pub fn decision(&self) -> (d: RuleDecision)
        ensures
            d@ == decision_of(self@),
    {
        RuleDecision {
            applied_rule_id: self.id.clone(),
            action: self.action,
            priority: self.priority,
            reason: self.reason.copied(),
        }
    }
}

/// How restrictive an action is (Hide 3, Silent 2, Show 1, Important 4).
fn action_score(a: RuleAction) -> (n: i32)
    ensures
        n == severity(a),
{
    match a {
        RuleAction::Hide => 3,
        RuleAction::Silent => 2,
        RuleAction::Show => 1,
        RuleAction::Important => 4,
    }
}

/// Whether `a` ranks strictly before `b`.
pub fn ranks_before(a: &MatchResult, b: &MatchResult) -> (r: bool)
    ensures
        r == outranks(a@, b@),
{
    if a.action == RuleAction::Important && b.action != RuleAction::Important {
        return true;
    }
    if b.action == RuleAction::Important && a.action != RuleAction::Important {
        return false;
    }
    if a.priority != b.priority {
        return a.priority > b.priority;
    }
    action_score(a.action) > action_score(b.action)
}

/// Sorts matches by rank, keeping the given order among equally ranked ones.
pub fn sort_by_rank(v: &Vec<MatchResult>) -> (r: Vec<MatchResult>)
    ensures
        match_views(r@) == rank_sort(match_views(v@)),
{
    let mut out: Vec<MatchResult> = Vec::new();
    let mut i: usize = 0;
    assert(match_views(v@).take(0) =~= Seq::<MatchView>::empty());
    assert(match_views(out@) =~= Seq::<MatchView>::empty());
    while i < v.len()
        invariant
            i <= v@.len(),
            match_views(out@) == rank_sort(match_views(v@).take(i as int)),
        decreases v@.len() - i,
    {
        let x = v[i].copied();
        let mut p: usize = 0;
        while p < out.len() && !ranks_before(&x, &out[p])
            invariant
                p <= out@.len(),
                forall|k: int| 0 <= k < p ==> !outranks(x@, #[trigger] match_views(out@)[k]),
            decreases out@.len() - p,
        {
            p = p + 1;
        }
        let ghost before = match_views(out@);
        proof {
            lemma_insert_ranked_at(before, x@, p as int);
            let t = match_views(v@).take(i + 1);
            assert(t.drop_last() =~= match_views(v@).take(i as int));
            assert(t.last() == x@);
        }
        out.insert(p, x);
        assert(match_views(out@) =~= before.insert(p as int, x@));
        i = i + 1;
    }
    assert(match_views(v@).take(v@.len() as int) =~= match_views(v@));
    out
}

impl NotificationRuleSet {
    /// All matches for a notification, before ranking.
    fn candidates(
        &self,
        notification_type: &str,
        repo_owner: Option<&str>,
        account: Option<&str>,
        now: &LocalMoment,
        allow_loose_account_match: bool,
    ) -> (v: Vec<MatchResult>)
        ensures
            match_views(v@) == candidate_matches(
                *self,
                notification_type@,
                text_view(repo_owner),
                text_view(account),
                *now,
                allow_loose_account_match,
            ),
    {
        let mut out: Vec<MatchResult> = Vec::new();
        assert(match_views(out@) =~= Seq::<MatchView>::empty());
        match account {
            Some(acc) => {
                let ghost f = account_match(acc@, *now);
                let mut i: usize = 0;
                while i < self.account_rules.len()
                    invariant
                        i <= self.account_rules@.len(),
                        f == account_match(acc@, *now),
                        match_views(out@) == collect(self.account_rules@.take(i as int), f),
                    decreases self.account_rules@.len() - i,
                {
                    proof {
                        lemma_collect_step(self.account_rules@, i as int, f);
                    }
                    let rule = &self.account_rules[i];
                    let ghost before = match_views(out@);
                    if rule.enabled && eq_ignore_ascii_case(rule.account.as_str(), acc) {
                        let action = if rule.is_active(now) {
                            RuleAction::Show
                        } else {
                            rule.outside_behavior.action()
                        };
                        let m = MatchResult {
                            id: rule.id.clone(),
                            priority: PRIORITY_DEFAULT,
                            action,
                            reason: RuleDecisionReason::Account(rule.account.clone()),
                            rule_source: String::from_str("Account"),
                            name: rule.account.clone(),
                            enabled: true,
                        };
                        out.push(m);
                        assert(f(*rule) == Some(m@));
                        assert(match_views(out@) =~= before.push(m@));
                    } else {
                        assert(f(*rule) is None);
                    }
                    i = i + 1;
                }
                proof {
                    lemma_take_all(self.account_rules@);
                }
            },
            None => {},
        }
        let ghost base = match_views(out@);
        match repo_owner {
            Some(owner) => {
                let ghost f = org_match(owner@);
                let mut j: usize = 0;
                while j < self.org_rules.len()
                    invariant
                        j <= self.org_rules@.len(),
                        f == org_match(owner@),
                        match_views(out@) == base + collect(self.org_rules@.take(j as int), f),
                    decreases self.org_rules@.len() - j,
                {
                    proof {
                        lemma_collect_step(self.org_rules@, j as int, f);
                    }
                    let rule = &self.org_rules[j];
                    let ghost before = match_views(out@);
                    if rule.enabled && eq_ignore_ascii_case(rule.org.as_str(), owner) {
                        let m = MatchResult {
                            id: rule.id.clone(),
                            priority: rule.priority,
                            action: rule.action,
                            reason: RuleDecisionReason::Org(rule.org.clone()),
                            rule_source: String::from_str("Org"),
                            name: rule.org.clone(),
                            enabled: true,
                        };
                        out.push(m);
                        assert(f(*rule) == Some(m@));
                        assert(match_views(out@) =~= before.push(m@));
                    } else {
                        assert(f(*rule) is None);
                    }
                    j = j + 1;
                }
                proof {
                    lemma_take_all(self.org_rules@);
                }
            },
            None => {
                assert(base + Seq::<MatchView>::empty() =~= base);
            },
        }
        let ghost base2 = match_views(out@);
        let ghost f = type_match(notification_type@, text_view(account), allow_loose_account_match);
        let mut k: usize = 0;
        while k < self.type_rules.len()
            invariant
                k <= self.type_rules@.len(),
                f == type_match(notification_type@, text_view(account), allow_loose_account_match),
                match_views(out@) == base2 + collect(self.type_rules@.take(k as int), f),
            decreases self.type_rules@.len() - k,
        {
            proof {
                lemma_collect_step(self.type_rules@, k as int, f);
            }
            let rule = &self.type_rules[k];
            let ghost before = match_views(out@);
            let in_scope = match (&rule.account, account) {
                (None, _) => true,
                (Some(rule_acc), Some(notif_acc)) => eq_ignore_ascii_case(rule_acc.as_str(), notif_acc),
                (Some(_), None) => allow_loose_account_match,
            };
            if rule.enabled && eq_ignore_ascii_case(rule.notification_type.as_str(), notification_type)
                && in_scope {
                let m = MatchResult {
                    id: rule.id.clone(),
                    priority: rule.priority,
                    action: rule.action,
                    reason: RuleDecisionReason::Type(rule.notification_type.clone()),
                    rule_source: String::from_str("Type"),
                    name: type_rule_name(rule),
                    enabled: true,
                };
                out.push(m);
                assert(f(*rule) == Some(m@));
                assert(match_views(out@) =~= before.push(m@));
            } else {
                assert(f(*rule) is None);
            }
            k = k + 1;
        }
        proof {
            lemma_take_all(self.type_rules@);
        }
        out
    }

    /// Gathers every rule that applies to a notification, sorted by rank: Important first,
    /// then by priority (higher first), then by restrictiveness (Hide, Silent, Show), equal
    /// ranks in rule order (account, organisation, type rules).
    pub fn trace(
        &self,
        notification_type: &str,
        repo_owner: Option<&str>,
        account: Option<&str>,
        now: &LocalMoment,
        allow_loose_account_match: bool,
    ) -> (v: Vec<MatchResult>)
        ensures
            match_views(v@) == rank_sort(
                candidate_matches(
                    *self,
                    notification_type@,
                    text_view(repo_owner),
                    text_view(account),
                    *now,
                    allow_loose_account_match,
                ),
            ),
    {
        let matches = self.candidates(
            notification_type,
            repo_owner,
            account,
            now,
            allow_loose_account_match,
        );
        sort_by_rank(&matches)
    }

    /// Decides what happens to a notification, with the decision that led there.
    pub fn evaluate_detailed(
        &self,
        notification_type: &str,
        repo_owner: Option<&str>,
        account: Option<&str>,
        now: &LocalMoment,
    ) -> (r: (RuleAction, Option<RuleDecision>))
        ensures
            (r.0, decision_view(r.1)) == evaluation(
                *self,
                notification_type@,
                text_view(repo_owner),
                text_view(account),
                *now,
            ),
    {
        if !self.enabled {
            return (RuleAction::Show, None);
        }
        let matches = self.trace(notification_type, repo_owner, account, now, false);
        if matches.len() == 0 {
            return (RuleAction::Show, None);
        }
        let i = deciding_index(&matches);
        (matches[i].action, Some(matches[i].decision()))
    }
}

/// The position of the deciding match among ranked matches (see `deciding_match`): the
/// first Important one; else the first Hide or Silent one; else the first.
pub fn deciding_index(matches: &Vec<MatchResult>) -> (i: usize)
    requires
        matches@.len() > 0,
    ensures
        i < matches@.len(),
        matches@[i as int]@ == deciding_match(match_views(matches@)),
{
    let ghost ms = match_views(matches@);
    // Important rules override Hide and Silent whatever their priority.
    let ghost important = set![RuleAction::Important];
    let mut k: usize = 0;
    while k < matches.len() && matches[k].action != RuleAction::Important
        invariant
            k <= matches@.len(),
            ms == match_views(matches@),
            important == set![RuleAction::Important],
            forall|j: int| 0 <= j < k ==> !important.contains((#[trigger] ms[j]).action),
        decreases matches@.len() - k,
    {
        assert(ms[k as int] == matches@[k as int]@);
        k = k + 1;
    }
    if k < matches.len() {
        proof {
            assert(ms[k as int] == matches@[k as int]@);
            lemma_first_with_at(ms, important, k as int);
        }
        return k;
    }
    proof {
        lemma_first_with_at(ms, important, k as int);
    }
    // Without Important, a Hide or Silent rule is never overridden by a Show: the best-ranked
    // suppressing rule decides.
    let ghost suppressing = set![RuleAction::Hide, RuleAction::Silent];
    let mut s: usize = 0;
    while s < matches.len() && matches[s].action != RuleAction::Hide
        && matches[s].action != RuleAction::Silent
        invariant
            s <= matches@.len(),
            ms == match_views(matches@),
            suppressing == set![RuleAction::Hide, RuleAction::Silent],
            forall|j: int| 0 <= j < s ==> !suppressing.contains((#[trigger] ms[j]).action),
        decreases matches@.len() - s,
    {
        assert(ms[s as int] == matches@[s as int]@);
        s = s + 1;
    }
    if s < matches.len() {
        proof {
            assert(ms[s as int] == matches@[s as int]@);
            lemma_first_with_at(ms, suppressing, s as int);
        }
        return s;
    }
    proof {
        lemma_first_with_at(ms, suppressing, s as int);
        assert(ms[0] == matches@[0]@);
    }
    0
}

/// Rule engine holding a rule set.
pub struct RuleEngine {
    rules: NotificationRuleSet,
}

impl RuleEngine {
    /// The rule set the engine evaluates with.
    pub closed spec fn rule_set(self) -> NotificationRuleSet {
        self.rules
    }

    /// An engine for `rules`.
    pub fn new(rules: NotificationRuleSet) -> (e: RuleEngine)
        ensures
            e.rule_set() == rules,
    {
        RuleEngine { rules }
    }

    /// Decides what happens to a notification, as the rule set does.
    pub fn evaluate_detailed(
        &self,
        notification_type: &str,
        repo_owner: Option<&str>,
        account: Option<&str>,
        now: &LocalMoment,
    ) -> (r: (RuleAction, Option<RuleDecision>))
        ensures
            (r.0, decision_view(r.1)) == evaluation(
                self.rule_set(),
                notification_type@,
                text_view(repo_owner),
                text_view(account),
                *now,
            ),
    {
        self.rules.evaluate_detailed(notification_type, repo_owner, account, now)
    }
}

// ============================================================================
// Laws of evaluation
// ============================================================================

/// The deciding match is one of the ranked matches, at the index that `first_with` picks.
proof fn lemma_deciding_index(ms: Seq<MatchView>) -> (d: int)
    requires
        ms.len() > 0,
    ensures
        0 <= d < ms.len(),
        deciding_match(ms) == ms[d],
{
    let k1 = lemma_first_with_index(ms, set![RuleAction::Important]);
    let k2 = lemma_first_with_index(ms, set![RuleAction::Hide, RuleAction::Silent]);
    if k1 < ms.len() {
        k1
    } else if k2 < ms.len() {
        k2
    } else {
        0
    }
}

/// Important always wins: when the rule set is enabled and any matching rule marks the
/// notification Important, it is treated as Important, whatever the other rules and priorities.
pub proof fn law_important_always_wins(
    rules: NotificationRuleSet,
    ntype: Seq<char>,
    owner: Option<Seq<char>>,
    account: Option<Seq<char>>,
    now: LocalMoment,
    i: int,
)
    requires
        rules.enabled,
        0 <= i < candidate_matches(rules, ntype, owner, account, now, false).len(),
        candidate_matches(rules, ntype, owner, account, now, false)[i].action
            == RuleAction::Important,
    ensures
        evaluation(rules, ntype, owner, account, now).0 == RuleAction::Important,
{
    let c = candidate_matches(rules, ntype, owner, account, now, false);
    let ms = rank_sort(c);
    let important = set![RuleAction::Important];
    lemma_rank_sort_properties(c);
    lemma_rank_sort_same_elements(c);
    assert(c.contains(c[i]));
    let j = choose|j: int| 0 <= j < ms.len() && ms[j] == c[i];
    let k = lemma_first_with_index(ms, important);
    assert(important.contains(ms[j].action));
    assert(k < ms.len());
}

/// Priority never overrides a suppression: when the rule set is enabled, no matching rule is
/// Important and some matching rule hides or silences the notification, it is hidden or
/// silenced, never shown. The deciding rule is a suppressing one of the highest priority among
/// the suppressing rules, and among those of that priority none is more restrictive than it
/// (Hide over Silent).
pub proof fn law_suppression_is_never_overridden(
    rules: NotificationRuleSet,
    ntype: Seq<char>,
    owner: Option<Seq<char>>,
    account: Option<Seq<char>>,
    now: LocalMoment,
    i: int,
)
    requires
        rules.enabled,
        forall|x: int|
            0 <= x < candidate_matches(rules, ntype, owner, account, now, false).len() ==> (
            #[trigger] candidate_matches(rules, ntype, owner, account, now, false)[x]).action
                != RuleAction::Important,
        0 <= i < candidate_matches(rules, ntype, owner, account, now, false).len(),
        suppresses(candidate_matches(rules, ntype, owner, account, now, false)[i].action),
    ensures
        evaluation(rules, ntype, owner, account, now).0 != RuleAction::Show,
        suppresses(evaluation(rules, ntype, owner, account, now).0),
        evaluation(rules, ntype, owner, account, now).1 is Some,
        forall|x: int|
            0 <= x < candidate_matches(rules, ntype, owner, account, now, false).len() && suppresses(
                (#[trigger] candidate_matches(rules, ntype, owner, account, now, false)[x]).action,
            ) ==> candidate_matches(rules, ntype, owner, account, now, false)[x].priority
                <= evaluation(rules, ntype, owner, account, now).1->Some_0.priority,
        forall|x: int|
            0 <= x < candidate_matches(rules, ntype, owner, account, now, false).len() && suppresses(
                (#[trigger] candidate_matches(rules, ntype, owner, account, now, false)[x]).action,
            ) && candidate_matches(rules, ntype, owner, account, now, false)[x].priority
                == evaluation(rules, ntype, owner, account, now).1->Some_0.priority ==> severity(
                candidate_matches(rules, ntype, owner, account, now, false)[x].action,
            ) <= severity(evaluation(rules, ntype, owner, account, now).0),
{
    let c = candidate_matches(rules, ntype, owner, account, now, false);
    let ms = rank_sort(c);
    let important = set![RuleAction::Important];
    let suppressing = set![RuleAction::Hide, RuleAction::Silent];
    lemma_rank_sort_properties(c);
    lemma_rank_sort_same_elements(c);
    let k1 = lemma_first_with_index(ms, important);
    if k1 < ms.len() {
        assert(ms.contains(ms[k1]));
        assert(c.contains(ms[k1]));
    }
    assert(c.contains(c[i]));
    let j = choose|j: int| 0 <= j < ms.len() && ms[j] == c[i];
    let k2 = lemma_first_with_index(ms, suppressing);
    assert(suppressing.contains(ms[j].action));
    assert(k2 < ms.len());
    let w = ms[k2];
    assert(ms.contains(w));
    assert(c.contains(w));
    assert(w.action != RuleAction::Important);
    assert forall|x: int| 0 <= x < c.len() && suppresses((#[trigger] c[x]).action) implies c[x].priority
        <= w.priority && (c[x].priority == w.priority ==> severity(c[x].action) <= severity(
        w.action,
    )) by {
        assert(c.contains(c[x]));
        let y = choose|y: int| 0 <= y < ms.len() && ms[y] == c[x];
        assert(suppressing.contains(ms[y].action));
        if y > k2 {
            assert(!outranks(ms[y], ms[k2]));
        }
    }
}

/// When the rule set is enabled and the matching rules all show the notification (none is
/// Important, none hides or silences it), it is shown, and the deciding rule has the highest
/// priority among them.
pub proof fn law_show_when_nothing_suppresses(
    rules: NotificationRuleSet,
    ntype: Seq<char>,
    owner: Option<Seq<char>>,
    account: Option<Seq<char>>,
    now: LocalMoment,
)
    requires
        rules.enabled,
        candidate_matches(rules, ntype, owner, account, now, false).len() > 0,
        forall|x: int|
            0 <= x < candidate_matches(rules, ntype, owner, account, now, false).len() ==> (
            #[trigger] candidate_matches(rules, ntype, owner, account, now, false)[x]).action
                == RuleAction::Show,
    ensures
        evaluation(rules, ntype, owner, account, now).0 == RuleAction::Show,
        evaluation(rules, ntype, owner, account, now).1 is Some,
        forall|x: int|
            0 <= x < candidate_matches(rules, ntype, owner, account, now, false).len() ==> (
            #[trigger] candidate_matches(rules, ntype, owner, account, now, false)[x]).priority
                <= evaluation(rules, ntype, owner, account, now).1->Some_0.priority,
{
    let c = candidate_matches(rules, ntype, owner, account, now, false);
    let ms = rank_sort(c);
    lemma_rank_sort_properties(c);
    lemma_rank_sort_same_elements(c);
    let d = lemma_deciding_index(ms);
    assert(ms.contains(ms[d]));
    assert(c.contains(ms[d]));
    assert(ms.contains(ms[0]));
    assert(c.contains(ms[0]));
    let k1 = lemma_first_with_index(ms, set![RuleAction::Important]);
    let k2 = lemma_first_with_index(ms, set![RuleAction::Hide, RuleAction::Silent]);
    if k1 < ms.len() {
        assert(ms.contains(ms[k1]));
    }
    if k2 < ms.len() {
        assert(ms.contains(ms[k2]));
    }
    assert(deciding_match(ms) == ms[0]);
    assert forall|x: int| 0 <= x < c.len() implies (#[trigger] c[x]).priority <= ms[0].priority by {
        assert(c.contains(c[x]));
        let y = choose|y: int| 0 <= y < ms.len() && ms[y] == c[x];
        if y > 0 {
            assert(!outranks(ms[y], ms[0]));
        }
    }
}

/// When the rule set is disabled, or no rule matches, the notification is shown with a
/// desktop notification and no decision is recorded.
pub proof fn law_default_is_show(
    rules: NotificationRuleSet,
    ntype: Seq<char>,
    owner: Option<Seq<char>>,
    account: Option<Seq<char>>,
    now: LocalMoment,
)
    requires
        !rules.enabled || candidate_matches(rules, ntype, owner, account, now, false).len() == 0,
    ensures
        evaluation(rules, ntype, owner, account, now) == (RuleAction::Show, None::<DecisionView>),
{
    if rules.enabled {
        lemma_rank_sort_properties(candidate_matches(rules, ntype, owner, account, now, false));
    }
}

/// The applied rule is a matching rule: its decision is that of one of the candidates.
pub proof fn law_decision_comes_from_a_match(
    rules: NotificationRuleSet,
    ntype: Seq<char>,
    owner: Option<Seq<char>>,
    account: Option<Seq<char>>,
    now: LocalMoment,
)
    requires
        evaluation(rules, ntype, owner, account, now).1 is Some,
    ensures
        exists|i: int|
            0 <= i < candidate_matches(rules, ntype, owner, account, now, false).len() && decision_of(
                #[trigger] candidate_matches(rules, ntype, owner, account, now, false)[i],
            ) == evaluation(rules, ntype, owner, account, now).1->Some_0 && candidate_matches(
                rules,
                ntype,
                owner,
                account,
                now,
                false,
            )[i].action == evaluation(rules, ntype, owner, account, now).0,
{
    let c = candidate_matches(rules, ntype, owner, account, now, false);
    let ms = rank_sort(c);
    lemma_rank_sort_properties(c);
    lemma_rank_sort_same_elements(c);
    assert(ms.len() > 0);
    let d = lemma_deciding_index(ms);
    assert(ms.contains(ms[d]));
    assert(c.contains(ms[d]));
    let i = choose|i: int| 0 <= i < c.len() && c[i] == ms[d];
    assert(decision_of(c[i]) == evaluation(rules, ntype, owner, account, now).1->Some_0);
}

/// A disabled account rule is a no-op: it matches no notification.
pub proof fn law_disabled_account_rule_never_matches(
    account: Seq<char>,
    now: LocalMoment,
    r: AccountRule,
)
    requires
        !r.enabled,
    ensures
        account_match(account, now)(r) is None,
{
}

/// An enabled account rule matching the notification's account gives Show inside its
/// schedule; outside it gives Hide when suppressing and Silent when deferring.
pub proof fn law_account_rule_action(account: Seq<char>, now: LocalMoment, r: AccountRule)
    requires
        r.enabled,
        same_ignoring_ascii_case(r.account@, account),
    ensures
        account_match(account, now)(r) is Some,
        account_match(account, now)(r)->Some_0.action == if account_active_at(r, now) {
            RuleAction::Show
        } else if r.outside_behavior == crate::rules::OutsideScheduleBehavior::Suppress {
            RuleAction::Hide
        } else {
            RuleAction::Silent
        },
{
}


/// An account rule applies only to notifications of its own account: whenever it gives a
/// match, the rule is enabled and its account equals the notification's ignoring ASCII case.
pub proof fn law_account_rule_matches_only_its_account(
    account: Seq<char>,
    now: LocalMoment,
    r: AccountRule,
)
    ensures
        account_match(account, now)(r) is Some ==> r.enabled && same_ignoring_ascii_case(
            r.account@,
            account,
        ),
{
}

/// A notification whose account no account rule names, without repository owner, and that no
/// type rule matches is shown with no decision recorded, whatever the account rules say.
pub proof fn law_unnamed_account_is_shown(
    rules: NotificationRuleSet,
    ntype: Seq<char>,
    account: Seq<char>,
    now: LocalMoment,
)
    requires
        forall|k: int|
            0 <= k < rules.account_rules@.len() ==> !same_ignoring_ascii_case(
                (#[trigger] rules.account_rules@[k]).account@,
                account,
            ),
        forall|k: int|
            0 <= k < rules.type_rules@.len() ==> (#[trigger] type_match(ntype, Some(account), false)(
                rules.type_rules@[k],
            )) is None,
    ensures
        evaluation(rules, ntype, None, Some(account), now) == (RuleAction::Show, None::<DecisionView>),
{
    let f = account_match(account, now);
    assert forall|k: int| 0 <= k < rules.account_rules@.len() implies #[trigger] f(
        rules.account_rules@[k],
    ) is None by {
        assert(!same_ignoring_ascii_case(rules.account_rules@[k].account@, account));
    }
    lemma_collect_none(rules.account_rules@, f);
    lemma_collect_none(rules.type_rules@, type_match(ntype, Some(account), false));
    let c = candidate_matches(rules, ntype, None, Some(account), now, false);
    assert(c.len() == 0);
    law_default_is_show(rules, ntype, None, Some(account), now);
}

} // verus!
