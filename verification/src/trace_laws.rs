//! Laws of the trace: what the list of matching rules depends on, and how it changes when
//! the rules or the matching mode change.

use vstd::prelude::*;

use crate::calendar::LocalMoment;
use crate::engine::{
    account_match, candidate_matches, importance, insert_ranked, lemma_rank_sort_properties,
    lemma_rank_sort_same_elements,
    org_match, outranks, rank_sort, severity, type_match, MatchView,
};
use crate::rules::{AccountRule, NotificationRuleSet, OrgRule, TypeRule};
use crate::seqs::{collect, lemma_collect_values};
use crate::text::same_ignoring_ascii_case;

verus! {

/// Two optional names are both absent, or both present and equal ignoring ASCII case.
pub open spec fn same_name_ignoring_case(a: Option<Seq<char>>, b: Option<Seq<char>>) -> bool {
    match (a, b) {
        (None, None) => true,
        (Some(x), Some(y)) => same_ignoring_ascii_case(x, y),
        _ => false,
    }
}

/// Case-insensitive equality is transitive.
pub proof fn lemma_same_ignoring_ascii_case_transitive(a: Seq<char>, b: Seq<char>, c: Seq<char>)
    requires
        same_ignoring_ascii_case(a, b),
        same_ignoring_ascii_case(b, c),
    ensures
        same_ignoring_ascii_case(a, c),
{
    assert forall|i: int| 0 <= i < a.len() implies #[trigger] crate::text::ascii_folded(a[i])
        == crate::text::ascii_folded(c[i]) by {
        assert(crate::text::ascii_folded(a[i]) == crate::text::ascii_folded(b[i]));
        assert(crate::text::ascii_folded(b[i]) == crate::text::ascii_folded(c[i]));
    }
}

/// A name compares alike with two names that are equal ignoring ASCII case.
proof fn lemma_compares_alike(x: Seq<char>, a: Seq<char>, b: Seq<char>)
    requires
        same_ignoring_ascii_case(a, b),
    ensures
        same_ignoring_ascii_case(x, a) == same_ignoring_ascii_case(x, b),
{
    assert(same_ignoring_ascii_case(b, a));
    if same_ignoring_ascii_case(x, a) {
        lemma_same_ignoring_ascii_case_transitive(x, a, b);
    }
    if same_ignoring_ascii_case(x, b) {
        lemma_same_ignoring_ascii_case_transitive(x, b, a);
    }
}

/// The trace does not depend on the ASCII case of the notification's type, repository owner
/// and account: arguments equal ignoring ASCII case give the same matches in the same order,
/// equal in every field.
pub proof fn law_trace_ignores_ascii_case(
    rules: NotificationRuleSet,
    t1: Seq<char>,
    t2: Seq<char>,
    o1: Option<Seq<char>>,
    o2: Option<Seq<char>>,
    a1: Option<Seq<char>>,
    a2: Option<Seq<char>>,
    now: LocalMoment,
    loose: bool,
)
    requires
        same_ignoring_ascii_case(t1, t2),
        same_name_ignoring_case(o1, o2),
        same_name_ignoring_case(a1, a2),
    ensures
        candidate_matches(rules, t1, o1, a1, now, loose) == candidate_matches(
            rules,
            t2,
            o2,
            a2,
            now,
            loose,
        ),
        rank_sort(candidate_matches(rules, t1, o1, a1, now, loose)) == rank_sort(
            candidate_matches(rules, t2, o2, a2, now, loose),
        ),
{
    if let (Some(x), Some(y)) = (a1, a2) {
        assert forall|r: crate::rules::AccountRule| #[trigger] account_match(x, now)(r)
            == account_match(y, now)(r) by {
            lemma_compares_alike(r.account@, x, y);
        }
        assert(account_match(x, now) =~= account_match(y, now));
    }
    if let (Some(x), Some(y)) = (o1, o2) {
        assert forall|r: crate::rules::OrgRule| #[trigger] org_match(x)(r) == org_match(y)(r) by {
            lemma_compares_alike(r.org@, x, y);
        }
        assert(org_match(x) =~= org_match(y));
    }
    assert forall|r: crate::rules::TypeRule| #[trigger] type_match(t1, a1, loose)(r) == type_match(
        t2,
        a2,
        loose,
    )(r) by {
        lemma_compares_alike(r.notification_type@, t1, t2);
        if let (Some(s), Some(x), Some(y)) = (r.account, a1, a2) {
            lemma_compares_alike(s@, x, y);
        }
    }
    assert(type_match(t1, a1, loose) =~= type_match(t2, a2, loose));
}

/// With an account given, loose account matching changes nothing: the trace is the same
/// whether or not it is allowed.
pub proof fn law_loose_matching_needs_no_account(
    rules: NotificationRuleSet,
    ntype: Seq<char>,
    owner: Option<Seq<char>>,
    account: Seq<char>,
    now: LocalMoment,
)
    ensures
        candidate_matches(rules, ntype, owner, Some(account), now, true) == candidate_matches(
            rules,
            ntype,
            owner,
            Some(account),
            now,
            false,
        ),
        rank_sort(candidate_matches(rules, ntype, owner, Some(account), now, true)) == rank_sort(
            candidate_matches(rules, ntype, owner, Some(account), now, false),
        ),
{
    assert(type_match(ntype, Some(account), true) =~= type_match(ntype, Some(account), false));
}

// ============================================================================
// Ranking matches that carry a flag
// ============================================================================

/// A match with a flag: whether it is kept.
pub type FlaggedMatch = (MatchView, bool);

/// The matches, without their flags.
pub open spec fn unflagged(s: Seq<FlaggedMatch>) -> Seq<MatchView> {
    s.map_values(|t: FlaggedMatch| t.0)
}

/// Selects the kept matches.
pub open spec fn is_kept() -> spec_fn(FlaggedMatch) -> bool {
    |t: FlaggedMatch| t.1
}

/// Selects the dropped matches.
pub open spec fn is_dropped() -> spec_fn(FlaggedMatch) -> bool {
    |t: FlaggedMatch| !t.1
}

/// A number that orders matches as ranking does: `a` outranks `b` exactly when its key is
/// larger.
pub open spec fn rank_key(m: MatchView) -> int {
    importance(m.action) * 0x10_0000_0000 + (m.priority + 0x8000_0000) * 8 + severity(m.action)
}

/// Ranking compares keys.
pub proof fn lemma_outranks_by_key(a: MatchView, b: MatchView)
    ensures
        outranks(a, b) <==> rank_key(a) > rank_key(b),
{
}

/// `x` inserted by rank into `s`, flags carried along.
pub open spec fn insert_flagged(s: Seq<FlaggedMatch>, x: FlaggedMatch) -> Seq<FlaggedMatch>
    decreases s.len(),
{
    if s.len() == 0 {
        seq![x]
    } else if outranks(x.0, s[0].0) {
        seq![x] + s
    } else {
        seq![s[0]] + insert_flagged(s.drop_first(), x)
    }
}

/// `s` sorted by rank as `rank_sort` sorts, flags carried along.
pub open spec fn sort_flagged(s: Seq<FlaggedMatch>) -> Seq<FlaggedMatch>
    decreases s.len(),
{
    if s.len() == 0 {
        s
    } else {
        insert_flagged(sort_flagged(s.drop_last()), s.last())
    }
}

/// No match of `s` has a larger key than one before it.
pub open spec fn keys_descending(s: Seq<FlaggedMatch>) -> bool {
    forall|i: int, j: int|
        0 <= i < j < s.len() ==> rank_key((#[trigger] s[j]).0) <= rank_key((#[trigger] s[i]).0)
}

/// Inserting with flags inserts the matches as `insert_ranked` does.
pub proof fn lemma_unflagged_insert(s: Seq<FlaggedMatch>, x: FlaggedMatch)
    ensures
        unflagged(insert_flagged(s, x)) == insert_ranked(unflagged(s), x.0),
    decreases s.len(),
{
    let u = unflagged(s);
    if s.len() == 0 {
        assert(unflagged(seq![x]) =~= seq![x.0]);
    } else if outranks(x.0, s[0].0) {
        assert(u[0] == s[0].0);
        assert(unflagged(seq![x] + s) =~= seq![x.0] + u);
    } else {
        assert(u[0] == s[0].0);
        lemma_unflagged_insert(s.drop_first(), x);
        assert(u.drop_first() =~= unflagged(s.drop_first()));
        let rest = insert_flagged(s.drop_first(), x);
        assert(unflagged(seq![s[0]] + rest) =~= seq![s[0].0] + unflagged(rest));
    }
}

/// Sorting with flags sorts the matches as `rank_sort` does.
pub proof fn lemma_unflagged_sort(s: Seq<FlaggedMatch>)
    ensures
        unflagged(sort_flagged(s)) == rank_sort(unflagged(s)),
    decreases s.len(),
{
    if s.len() > 0 {
        lemma_unflagged_sort(s.drop_last());
        lemma_unflagged_insert(sort_flagged(s.drop_last()), s.last());
        assert(unflagged(s).drop_last() =~= unflagged(s.drop_last()));
    }
}

/// Sorting with flags gives descending keys.
pub proof fn lemma_sort_flagged_keys(s: Seq<FlaggedMatch>)
    ensures
        keys_descending(sort_flagged(s)),
        sort_flagged(s).len() == s.len(),
{
    let r = sort_flagged(s);
    lemma_unflagged_sort(s);
    lemma_rank_sort_properties(unflagged(s));
    assert forall|i: int, j: int| 0 <= i < j < r.len() implies rank_key((#[trigger] r[j]).0)
        <= rank_key((#[trigger] r[i]).0) by {
        assert(unflagged(r)[i] == r[i].0);
        assert(unflagged(r)[j] == r[j].0);
        lemma_outranks_by_key(r[j].0, r[i].0);
    }
}

/// The empty sequence filtered is empty.
proof fn lemma_filter_empty<T>(s: Seq<T>, p: spec_fn(T) -> bool)
    requires
        s.len() == 0,
    ensures
        s.filter(p) == s,
{
    s.lemma_filter_len(p);
    assert(s.filter(p) =~= s);
}

/// Filtering after inserting by rank is inserting after filtering (or nothing, when the
/// inserted match does not pass).
pub proof fn lemma_filter_insert_flagged(
    r: Seq<FlaggedMatch>,
    x: FlaggedMatch,
    p: spec_fn(FlaggedMatch) -> bool,
)
    requires
        keys_descending(r),
    ensures
        insert_flagged(r, x).filter(p) == if p(x) {
            insert_flagged(r.filter(p), x)
        } else {
            r.filter(p)
        },
    decreases r.len(),
{
    if r.len() == 0 {
        lemma_filter_empty(r, p);
        r.lemma_filter_prepend(x, p);
        assert(seq![x] + r =~= seq![x]);
        assert(Seq::<FlaggedMatch>::empty() + r =~= r);
        assert(seq![x] + r.filter(p) =~= seq![x]);
    } else if outranks(x.0, r[0].0) {
        r.lemma_filter_prepend(x, p);
        let k = r.filter(p);
        assert(Seq::<FlaggedMatch>::empty() + k =~= k);
        if p(x) && k.len() > 0 {
            assert(k.contains(k[0]));
            r.lemma_filter_contains_rev(p, k[0]);
            let q = choose|q: int| 0 <= q < r.len() && r[q] == k[0];
            if q > 0 {
                assert(rank_key(r[q].0) <= rank_key(r[0].0));
            }
            lemma_outranks_by_key(x.0, r[0].0);
            lemma_outranks_by_key(x.0, k[0].0);
        }
        if p(x) && k.len() == 0 {
            assert(seq![x] + k =~= seq![x]);
        }
    } else {
        let r0 = r[0];
        let t = r.drop_first();
        assert forall|i: int, j: int| 0 <= i < j < t.len() implies rank_key((#[trigger] t[j]).0)
            <= rank_key((#[trigger] t[i]).0) by {
            assert(t[i] == r[i + 1] && t[j] == r[j + 1]);
        }
        lemma_filter_insert_flagged(t, x, p);
        let ins = insert_flagged(t, x);
        ins.lemma_filter_prepend(r0, p);
        t.lemma_filter_prepend(r0, p);
        assert(seq![r0] + t =~= r);
        let kt = t.filter(p);
        assert(Seq::<FlaggedMatch>::empty() + kt =~= kt);
        assert(Seq::<FlaggedMatch>::empty() + ins.filter(p) =~= ins.filter(p));
        if p(x) && p(r0) {
            let kr = seq![r0] + kt;
            assert(kr[0] == r0);
            assert(kr.drop_first() =~= kt);
        }
    }
}

/// Filtering and sorting with flags can be done in either order.
pub proof fn lemma_sort_flagged_filter(s: Seq<FlaggedMatch>, p: spec_fn(FlaggedMatch) -> bool)
    ensures
        sort_flagged(s.filter(p)) == sort_flagged(s).filter(p),
    decreases s.len(),
{
    if s.len() == 0 {
        lemma_filter_empty(s, p);
    } else {
        let t = s.drop_last();
        let x = s.last();
        assert(t.push(x) =~= s);
        t.lemma_filter_push(x, p);
        lemma_sort_flagged_filter(t, p);
        lemma_sort_flagged_keys(t);
        lemma_filter_insert_flagged(sort_flagged(t), x, p);
        if p(x) {
            let ft = t.filter(p).push(x);
            assert(ft.drop_last() =~= t.filter(p));
        }
    }
}

// ============================================================================
// Flagging the matches of a rule list
// ============================================================================

/// The matches `f` gives for the rules of `s`, each flagged by `keep` at the rule's index.
pub open spec fn collect_flagged<T>(
    s: Seq<T>,
    f: spec_fn(T) -> Option<MatchView>,
    keep: spec_fn(int) -> bool,
) -> Seq<FlaggedMatch>
    decreases s.len(),
{
    if s.len() == 0 {
        Seq::empty()
    } else {
        let prev = collect_flagged(s.drop_last(), f, keep);
        match f(s.last()) {
            Some(u) => prev.push((u, keep(s.len() - 1))),
            None => prev,
        }
    }
}

/// Every match of `s` flagged as kept.
pub open spec fn all_kept(s: Seq<MatchView>) -> Seq<FlaggedMatch> {
    s.map_values(|m: MatchView| (m, true))
}

/// A match as a sequence of at most one element.
pub open spec fn opt_seq(m: Option<MatchView>) -> Seq<MatchView> {
    match m {
        Some(u) => seq![u],
        None => Seq::empty(),
    }
}

/// The flagged matches of a rule list: all of them are what `f` gives; the kept ones are what
/// `g` gives for `s2`, and the dropped ones what `h` gives for `s3`, when at each index `g`
/// gives `f`'s match for kept indices and `h` for dropped ones.
pub proof fn lemma_collect_flagged<T>(
    s: Seq<T>,
    f: spec_fn(T) -> Option<MatchView>,
    keep: spec_fn(int) -> bool,
    s2: Seq<T>,
    g: spec_fn(T) -> Option<MatchView>,
    s3: Seq<T>,
    h: spec_fn(T) -> Option<MatchView>,
)
    requires
        s2.len() == s.len(),
        s3.len() == s.len(),
        forall|k: int|
            0 <= k < s.len() ==> #[trigger] g(s2[k]) == if keep(k) {
                f(s[k])
            } else {
                None
            },
        forall|k: int|
            0 <= k < s.len() ==> #[trigger] h(s3[k]) == if keep(k) {
                None
            } else {
                f(s[k])
            },
    ensures
        unflagged(collect_flagged(s, f, keep)) == collect(s, f),
        unflagged(collect_flagged(s, f, keep).filter(is_kept())) == collect(s2, g),
        unflagged(collect_flagged(s, f, keep).filter(is_dropped())) == collect(s3, h),
    decreases s.len(),
{
    let c = collect_flagged(s, f, keep);
    if s.len() == 0 {
        lemma_filter_empty(c, is_kept());
        lemma_filter_empty(c, is_dropped());
        assert(unflagged(c) =~= Seq::<MatchView>::empty());
    } else {
        let n = s.len() - 1;
        let t = s.drop_last();
        assert forall|k: int| 0 <= k < t.len() implies #[trigger] g(s2.drop_last()[k]) == if keep(
            k,
        ) {
            f(t[k])
        } else {
            None
        } by {
            assert(s2.drop_last()[k] == s2[k]);
            assert(g(s2[k]) == g(s2.drop_last()[k]));
        }
        assert forall|k: int| 0 <= k < t.len() implies #[trigger] h(s3.drop_last()[k]) == if keep(
            k,
        ) {
            None
        } else {
            f(t[k])
        } by {
            assert(s3.drop_last()[k] == s3[k]);
            assert(h(s3[k]) == h(s3.drop_last()[k]));
        }
        lemma_collect_flagged(t, f, keep, s2.drop_last(), g, s3.drop_last(), h);
        let prev = collect_flagged(t, f, keep);
        assert(g(s2[n]) == if keep(n) {
            f(s[n])
        } else {
            None
        });
        assert(h(s3[n]) == if keep(n) {
            None
        } else {
            f(s[n])
        });
        match f(s.last()) {
            Some(u) => {
                let y = (u, keep(n));
                prev.lemma_filter_push(y, is_kept());
                prev.lemma_filter_push(y, is_dropped());
                assert(unflagged(prev.push(y)) =~= unflagged(prev).push(u));
                assert(unflagged(prev.filter(is_kept()).push(y)) =~= unflagged(
                    prev.filter(is_kept()),
                ).push(u));
                assert(unflagged(prev.filter(is_dropped()).push(y)) =~= unflagged(
                    prev.filter(is_dropped()),
                ).push(u));
            },
            None => {},
        }
    }
}

/// Flagging keeps every match when every index is kept, and drops the match of index `i`
/// alone when every other index is kept.
pub proof fn lemma_collect_flagged_drops_one<T>(
    s: Seq<T>,
    f: spec_fn(T) -> Option<MatchView>,
    keep: spec_fn(int) -> bool,
    i: int,
)
    requires
        forall|k: int| 0 <= k < s.len() && k != i ==> #[trigger] keep(k),
        0 <= i < s.len() ==> !keep(i),
    ensures
        unflagged(collect_flagged(s, f, keep).filter(is_dropped())) == if 0 <= i < s.len() {
            opt_seq(f(s[i]))
        } else {
            Seq::<MatchView>::empty()
        },
    decreases s.len(),
{
    let c = collect_flagged(s, f, keep);
    if s.len() == 0 {
        lemma_filter_empty(c, is_dropped());
        assert(unflagged(c) =~= Seq::<MatchView>::empty());
    } else {
        let n = s.len() - 1;
        let t = s.drop_last();
        let j = if i == n {
            s.len() as int
        } else {
            i
        };
        assert forall|k: int| 0 <= k < t.len() && k != j implies #[trigger] keep(k) by {
            assert(k != i);
        }
        lemma_collect_flagged_drops_one(t, f, keep, j);
        let prev = collect_flagged(t, f, keep);
        if 0 <= i < n {
            assert(t[i] == s[i]);
        }
        match f(s.last()) {
            Some(u) => {
                let y = (u, keep(n));
                prev.lemma_filter_push(y, is_dropped());
                if i == n {
                    assert(unflagged(prev.filter(is_dropped()).push(y)) =~= seq![u]);
                }
            },
            None => {
                if i == n {
                    assert(unflagged(prev.filter(is_dropped())) =~= opt_seq(f(s[i])));
                }
            },
        }
    }
}

/// Matches flagged as kept: all kept, none dropped.
pub proof fn lemma_all_kept(s: Seq<MatchView>)
    ensures
        unflagged(all_kept(s)) == s,
        all_kept(s).filter(is_kept()) == all_kept(s),
        all_kept(s).filter(is_dropped()).len() == 0,
    decreases s.len(),
{
    let a = all_kept(s);
    assert(unflagged(a) =~= s);
    if s.len() == 0 {
        lemma_filter_empty(a, is_kept());
        lemma_filter_empty(a, is_dropped());
    } else {
        let t = s.drop_last();
        lemma_all_kept(t);
        assert(all_kept(t).push((s.last(), true)) =~= a);
        all_kept(t).lemma_filter_push((s.last(), true), is_kept());
        all_kept(t).lemma_filter_push((s.last(), true), is_dropped());
    }
}

/// Sorting flagged matches: all, the kept and the dropped ones are sorted as `rank_sort` sorts
/// the corresponding matches.
pub proof fn lemma_flagged_trace(fl: Seq<FlaggedMatch>)
    ensures
        unflagged(sort_flagged(fl)) == rank_sort(unflagged(fl)),
        unflagged(sort_flagged(fl).filter(is_kept())) == rank_sort(unflagged(fl.filter(is_kept()))),
        unflagged(sort_flagged(fl).filter(is_dropped())) == rank_sort(
            unflagged(fl.filter(is_dropped())),
        ),
{
    lemma_unflagged_sort(fl);
    lemma_sort_flagged_filter(fl, is_kept());
    lemma_sort_flagged_filter(fl, is_dropped());
    lemma_unflagged_sort(fl.filter(is_kept()));
    lemma_unflagged_sort(fl.filter(is_dropped()));
}

/// Ranking at most one match leaves it as it is.
pub proof fn lemma_rank_sort_opt(m: Option<MatchView>)
    ensures
        rank_sort(opt_seq(m)) == opt_seq(m),
{
    let e = Seq::<MatchView>::empty();
    assert(rank_sort(e) == e);
    if let Some(u) = m {
        assert(seq![u].drop_last() =~= e);
        assert(seq![u].last() == u);
        assert(insert_ranked(e, u) == seq![u]);
    }
}

/// Flagged matches of three parts: what unflagging, keeping and dropping give.
pub proof fn lemma_flagged_parts(a: Seq<FlaggedMatch>, b: Seq<FlaggedMatch>, c: Seq<FlaggedMatch>)
    ensures
        unflagged(a + b + c) == unflagged(a) + unflagged(b) + unflagged(c),
        unflagged((a + b + c).filter(is_kept())) == unflagged(a.filter(is_kept())) + unflagged(
            b.filter(is_kept()),
        ) + unflagged(c.filter(is_kept())),
        unflagged((a + b + c).filter(is_dropped())) == unflagged(a.filter(is_dropped()))
            + unflagged(b.filter(is_dropped())) + unflagged(c.filter(is_dropped())),
{
    assert(unflagged(a + b + c) =~= unflagged(a) + unflagged(b) + unflagged(c));
    Seq::filter_distributes_over_add(a + b, c, is_kept());
    Seq::filter_distributes_over_add(a, b, is_kept());
    Seq::filter_distributes_over_add(a + b, c, is_dropped());
    Seq::filter_distributes_over_add(a, b, is_dropped());
    let (ka, kb, kc) = (a.filter(is_kept()), b.filter(is_kept()), c.filter(is_kept()));
    assert(unflagged(ka + kb + kc) =~= unflagged(ka) + unflagged(kb) + unflagged(kc));
    let (da, db, dc) = (a.filter(is_dropped()), b.filter(is_dropped()), c.filter(is_dropped()));
    assert(unflagged(da + db + dc) =~= unflagged(da) + unflagged(db) + unflagged(dc));
}

// ============================================================================
// Laws: what a change of the rules or of the matching mode does to the trace
// ============================================================================

/// The matches account rules give for a notification of `account` (none without account).
pub open spec fn account_part(rules: NotificationRuleSet, account: Option<Seq<char>>, now: LocalMoment) -> Seq<MatchView> {
    match account {
        Some(a) => collect(rules.account_rules@, account_match(a, now)),
        None => Seq::empty(),
    }
}

/// The matches organisation rules give for a repository of `owner` (none without owner).
pub open spec fn org_part(rules: NotificationRuleSet, owner: Option<Seq<char>>) -> Seq<MatchView> {
    match owner {
        Some(o) => collect(rules.org_rules@, org_match(o)),
        None => Seq::empty(),
    }
}

/// The match a type rule scoped to an account gives for a notification without account when
/// loose matching is allowed; nothing for an unscoped rule.
pub open spec fn scoped_type_match(ntype: Seq<char>) -> spec_fn(TypeRule) -> Option<MatchView> {
    |r: TypeRule|
        if r.account is Some {
            type_match(ntype, None, true)(r)
        } else {
            None
        }
}

/// Sorting three flagged parts whose unflagged, kept and dropped matches are known.
proof fn lemma_trace_of_parts(
    a: Seq<FlaggedMatch>,
    b: Seq<FlaggedMatch>,
    c: Seq<FlaggedMatch>,
) -> (fl: Seq<FlaggedMatch>)
    ensures
        unflagged(fl) == rank_sort(unflagged(a) + unflagged(b) + unflagged(c)),
        unflagged(fl.filter(is_kept())) == rank_sort(
            unflagged(a.filter(is_kept())) + unflagged(b.filter(is_kept())) + unflagged(
                c.filter(is_kept()),
            ),
        ),
        unflagged(fl.filter(is_dropped())) == rank_sort(
            unflagged(a.filter(is_dropped())) + unflagged(b.filter(is_dropped())) + unflagged(
                c.filter(is_dropped()),
            ),
        ),
{
    lemma_flagged_parts(a, b, c);
    lemma_flagged_trace(a + b + c);
    sort_flagged(a + b + c)
}

/// Kept matches flagged as such: unflagging gives them back, and nothing is dropped.
proof fn lemma_kept_part(m: Seq<MatchView>)
    ensures
        unflagged(all_kept(m)) == m,
        unflagged(all_kept(m).filter(is_kept())) == m,
        unflagged(all_kept(m).filter(is_dropped())) == Seq::<MatchView>::empty(),
{
    lemma_all_kept(m);
    assert(unflagged(all_kept(m).filter(is_dropped())) =~= Seq::<MatchView>::empty());
}

/// Without an account, allowing loose account matching adds exactly the matches of the type
/// rules scoped to an account, and keeps the order of the others. The result flags the trace
/// with loose matching: its kept matches are the trace without loose matching, its dropped
/// ones the matches of the scoped type rules, in rank order.
pub proof fn law_loose_matching_without_account(
    rules: NotificationRuleSet,
    ntype: Seq<char>,
    owner: Option<Seq<char>>,
    now: LocalMoment,
) -> (fl: Seq<FlaggedMatch>)
    ensures
        unflagged(fl) == rank_sort(candidate_matches(rules, ntype, owner, None, now, true)),
        unflagged(fl.filter(is_kept())) == rank_sort(
            candidate_matches(rules, ntype, owner, None, now, false),
        ),
        unflagged(fl.filter(is_dropped())) == rank_sort(
            collect(rules.type_rules@, scoped_type_match(ntype)),
        ),
{
    let t = rules.type_rules@;
    let f = type_match(ntype, None, true);
    let g = type_match(ntype, None, false);
    let h = scoped_type_match(ntype);
    let keep = |k: int| t[k].account is None;
    assert forall|k: int| 0 <= k < t.len() implies #[trigger] g(t[k]) == if keep(k) {
        f(t[k])
    } else {
        None
    } by {}
    assert forall|k: int| 0 <= k < t.len() implies #[trigger] h(t[k]) == if keep(k) {
        None
    } else {
        f(t[k])
    } by {}
    lemma_collect_flagged(t, f, keep, t, g, t, h);
    let e = Seq::<MatchView>::empty();
    let o = org_part(rules, owner);
    lemma_kept_part(e);
    lemma_kept_part(o);
    let fl = lemma_trace_of_parts(all_kept(e), all_kept(o), collect_flagged(t, f, keep));
    assert(e + e + collect(t, h) =~= collect(t, h));
    fl
}

/// Disabling one type rule removes exactly its match (if it had one) from the trace and keeps
/// the order of the other matches. The result flags the trace before the change: its kept
/// matches are the trace after the change, its dropped ones the rule's match.
pub proof fn law_disabling_a_type_rule(
    rules: NotificationRuleSet,
    changed: NotificationRuleSet,
    i: int,
    ntype: Seq<char>,
    owner: Option<Seq<char>>,
    account: Option<Seq<char>>,
    now: LocalMoment,
    loose: bool,
) -> (fl: Seq<FlaggedMatch>)
    requires
        0 <= i < rules.type_rules@.len(),
        changed.account_rules@ == rules.account_rules@,
        changed.org_rules@ == rules.org_rules@,
        changed.type_rules@ == rules.type_rules@.update(
            i,
            TypeRule { enabled: false, ..rules.type_rules@[i] },
        ),
    ensures
        unflagged(fl) == rank_sort(candidate_matches(rules, ntype, owner, account, now, loose)),
        unflagged(fl.filter(is_kept())) == rank_sort(
            candidate_matches(changed, ntype, owner, account, now, loose),
        ),
        unflagged(fl.filter(is_dropped())) == opt_seq(
            type_match(ntype, account, loose)(rules.type_rules@[i]),
        ),
{
    let t = rules.type_rules@;
    let off = TypeRule { enabled: false, ..t[i] };
    let f = type_match(ntype, account, loose);
    let keep = |k: int| k != i;
    let t3 = Seq::new(t.len(), |k: int| if k == i { t[i] } else { off });
    assert forall|k: int| 0 <= k < t.len() implies #[trigger] f(changed.type_rules@[k]) == if keep(
        k,
    ) {
        f(t[k])
    } else {
        None
    } by {}
    assert forall|k: int| 0 <= k < t.len() implies #[trigger] f(t3[k]) == if keep(k) {
        None
    } else {
        f(t[k])
    } by {}
    lemma_collect_flagged(t, f, keep, changed.type_rules@, f, t3, f);
    lemma_collect_flagged_drops_one(t, f, keep, i);
    let a = account_part(rules, account, now);
    let o = org_part(rules, owner);
    lemma_kept_part(a);
    lemma_kept_part(o);
    let fl = lemma_trace_of_parts(all_kept(a), all_kept(o), collect_flagged(t, f, keep));
    let e = Seq::<MatchView>::empty();
    assert(e + e + opt_seq(f(t[i])) =~= opt_seq(f(t[i])));
    lemma_rank_sort_opt(f(t[i]));
    fl
}

/// Disabling one organisation rule removes exactly its match (if it had one) from the trace
/// and keeps the order of the other matches. The result flags the trace before the change:
/// its kept matches are the trace after the change, its dropped ones the rule's match.
pub proof fn law_disabling_an_org_rule(
    rules: NotificationRuleSet,
    changed: NotificationRuleSet,
    i: int,
    ntype: Seq<char>,
    owner: Option<Seq<char>>,
    account: Option<Seq<char>>,
    now: LocalMoment,
    loose: bool,
) -> (fl: Seq<FlaggedMatch>)
    requires
        0 <= i < rules.org_rules@.len(),
        changed.account_rules@ == rules.account_rules@,
        changed.org_rules@ == rules.org_rules@.update(
            i,
            OrgRule { enabled: false, ..rules.org_rules@[i] },
        ),
        changed.type_rules@ == rules.type_rules@,
    ensures
        unflagged(fl) == rank_sort(candidate_matches(rules, ntype, owner, account, now, loose)),
        unflagged(fl.filter(is_kept())) == rank_sort(
            candidate_matches(changed, ntype, owner, account, now, loose),
        ),
        unflagged(fl.filter(is_dropped())) == match owner {
            Some(on) => opt_seq(org_match(on)(rules.org_rules@[i])),
            None => Seq::empty(),
        },
{
    let a = account_part(rules, account, now);
    let ty = collect(rules.type_rules@, type_match(ntype, account, loose));
    lemma_kept_part(a);
    lemma_kept_part(ty);
    let e = Seq::<MatchView>::empty();
    match owner {
        Some(on) => {
            let s = rules.org_rules@;
            let off = OrgRule { enabled: false, ..s[i] };
            let f = org_match(on);
            let keep = |k: int| k != i;
            let s3 = Seq::new(s.len(), |k: int| if k == i { s[i] } else { off });
            assert forall|k: int| 0 <= k < s.len() implies #[trigger] f(changed.org_rules@[k])
                == if keep(k) {
                f(s[k])
            } else {
                None
            } by {}
            assert forall|k: int| 0 <= k < s.len() implies #[trigger] f(s3[k]) == if keep(k) {
                None
            } else {
                f(s[k])
            } by {}
            lemma_collect_flagged(s, f, keep, changed.org_rules@, f, s3, f);
            lemma_collect_flagged_drops_one(s, f, keep, i);
            let fl = lemma_trace_of_parts(all_kept(a), collect_flagged(s, f, keep), all_kept(ty));
            assert(e + opt_seq(f(s[i])) + e =~= opt_seq(f(s[i])));
            lemma_rank_sort_opt(f(s[i]));
            fl
        },
        None => {
            lemma_kept_part(e);
            let fl = lemma_trace_of_parts(all_kept(a), all_kept(e), all_kept(ty));
            assert(e + e + e =~= e);
            lemma_rank_sort_opt(None);
            fl
        },
    }
}

/// Disabling one account rule removes exactly its match (if it had one) from the trace and
/// keeps the order of the other matches. The result flags the trace before the change: its
/// kept matches are the trace after the change, its dropped ones the rule's match.
pub proof fn law_disabling_an_account_rule(
    rules: NotificationRuleSet,
    changed: NotificationRuleSet,
    i: int,
    ntype: Seq<char>,
    owner: Option<Seq<char>>,
    account: Option<Seq<char>>,
    now: LocalMoment,
    loose: bool,
) -> (fl: Seq<FlaggedMatch>)
    requires
        0 <= i < rules.account_rules@.len(),
        changed.account_rules@ == rules.account_rules@.update(
            i,
            AccountRule { enabled: false, ..rules.account_rules@[i] },
        ),
        changed.org_rules@ == rules.org_rules@,
        changed.type_rules@ == rules.type_rules@,
    ensures
        unflagged(fl) == rank_sort(candidate_matches(rules, ntype, owner, account, now, loose)),
        unflagged(fl.filter(is_kept())) == rank_sort(
            candidate_matches(changed, ntype, owner, account, now, loose),
        ),
        unflagged(fl.filter(is_dropped())) == match account {
            Some(an) => opt_seq(account_match(an, now)(rules.account_rules@[i])),
            None => Seq::empty(),
        },
{
    let o = org_part(rules, owner);
    let ty = collect(rules.type_rules@, type_match(ntype, account, loose));
    lemma_kept_part(o);
    lemma_kept_part(ty);
    let e = Seq::<MatchView>::empty();
    match account {
        Some(an) => {
            let s = rules.account_rules@;
            let off = AccountRule { enabled: false, ..s[i] };
            let f = account_match(an, now);
            let keep = |k: int| k != i;
            let s3 = Seq::new(s.len(), |k: int| if k == i { s[i] } else { off });
            assert forall|k: int| 0 <= k < s.len() implies #[trigger] f(changed.account_rules@[k])
                == if keep(k) {
                f(s[k])
            } else {
                None
            } by {}
            assert forall|k: int| 0 <= k < s.len() implies #[trigger] f(s3[k]) == if keep(k) {
                None
            } else {
                f(s[k])
            } by {}
            lemma_collect_flagged(s, f, keep, changed.account_rules@, f, s3, f);
            lemma_collect_flagged_drops_one(s, f, keep, i);
            let fl = lemma_trace_of_parts(collect_flagged(s, f, keep), all_kept(o), all_kept(ty));
            assert(opt_seq(f(s[i])) + e + e =~= opt_seq(f(s[i])));
            lemma_rank_sort_opt(f(s[i]));
            fl
        },
        None => {
            lemma_kept_part(e);
            let fl = lemma_trace_of_parts(all_kept(e), all_kept(o), all_kept(ty));
            assert(e + e + e =~= e);
            lemma_rank_sort_opt(None);
            fl
        },
    }
}

/// Every match in the trace is marked enabled: disabled rules never match.
pub proof fn law_trace_matches_are_enabled(
    rules: NotificationRuleSet,
    ntype: Seq<char>,
    owner: Option<Seq<char>>,
    account: Option<Seq<char>>,
    now: LocalMoment,
    loose: bool,
    k: int,
)
    requires
        0 <= k < rank_sort(candidate_matches(rules, ntype, owner, account, now, loose)).len(),
    ensures
        rank_sort(candidate_matches(rules, ntype, owner, account, now, loose))[k].enabled,
{
    let a = account_part(rules, account, now);
    let o = org_part(rules, owner);
    let ty = collect(rules.type_rules@, type_match(ntype, account, loose));
    let c = candidate_matches(rules, ntype, owner, account, now, loose);
    assert(c == a + o + ty);
    let r = rank_sort(c);
    lemma_rank_sort_same_elements(c);
    assert(r.contains(r[k]));
    assert(c.contains(r[k]));
    let q = choose|q: int| 0 <= q < c.len() && c[q] == r[k];
    assert(c.len() == a.len() + o.len() + ty.len());
    if q < a.len() {
        assert(account is Some);
        let an = account->Some_0;
        assert(c[q] == a[q]);
        lemma_collect_values(rules.account_rules@, account_match(an, now), q);
    } else if q < a.len() + o.len() {
        assert(owner is Some);
        let on = owner->Some_0;
        assert(c[q] == o[q - a.len()]);
        lemma_collect_values(rules.org_rules@, org_match(on), q - a.len());
    } else {
        assert(c[q] == ty[q - a.len() - o.len()]);
        lemma_collect_values(
            rules.type_rules@,
            type_match(ntype, account, loose),
            q - a.len() - o.len(),
        );
    }
}

} // verus!
