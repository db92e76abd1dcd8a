//! Facts about walking a sequence from the front, used by the loops over rule lists.

use vstd::prelude::*;

verus! {

/// The values that `f` gives for the elements of `s`, in order, skipping `None`.
pub open spec fn collect<T, U>(s: Seq<T>, f: spec_fn(T) -> Option<U>) -> Seq<U>
    decreases s.len(),
{
    if s.len() == 0 {
        Seq::empty()
    } else {
        let prev = collect(s.drop_last(), f);
        match f(s.last()) {
            Some(u) => prev.push(u),
            None => prev,
        }
    }
}

/// Taking one more element of `s` adds what `f` gives for it.
pub proof fn lemma_collect_step<T, U>(s: Seq<T>, i: int, f: spec_fn(T) -> Option<U>)
    requires
        0 <= i < s.len(),
    ensures
        collect(s.take(i + 1), f) == match f(s[i]) {
            Some(u) => collect(s.take(i), f).push(u),
            None => collect(s.take(i), f),
        },
{
    assert(s.take(i + 1).drop_last() =~= s.take(i));
}

/// Taking one more element of `s` adds it to the filtered sequence when it passes `p`.
pub proof fn lemma_filter_step<T>(s: Seq<T>, i: int, p: spec_fn(T) -> bool)
    requires
        0 <= i < s.len(),
    ensures
        s.take(i + 1).filter(p) == if p(s[i]) {
            s.take(i).filter(p).push(s[i])
        } else {
            s.take(i).filter(p)
        },
        s.take(i + 1).filter(p).len() <= i + 1,
{
    assert(s.take(i + 1) =~= s.take(i).push(s[i]));
    s.take(i).lemma_filter_push(s[i], p);
    s.take(i + 1).lemma_filter_len(p);
}

/// `f` gives a value exactly for the elements that pass `p`: it gives as many values as
/// `p` passes elements.
pub proof fn lemma_collect_len<T, U>(s: Seq<T>, f: spec_fn(T) -> Option<U>, p: spec_fn(T) -> bool)
    requires
        forall|x: T| #[trigger] f(x) is Some <==> p(x),
    ensures
        collect(s, f).len() == s.filter(p).len(),
    decreases s.len(),
{
    if s.len() > 0 {
        lemma_collect_len(s.drop_last(), f, p);
        s.drop_last().lemma_filter_push(s.last(), p);
        assert(s.drop_last().push(s.last()) =~= s);
    }
}

/// When `p` passes exactly the elements that pass one of `q` and `r`, never both, it passes
/// as many elements as they do together.
pub proof fn lemma_filter_len_split<T>(
    s: Seq<T>,
    p: spec_fn(T) -> bool,
    q: spec_fn(T) -> bool,
    r: spec_fn(T) -> bool,
)
    requires
        forall|x: T| #[trigger] p(x) <==> (q(x) || r(x)),
        forall|x: T| !(#[trigger] q(x) && r(x)),
    ensures
        s.filter(p).len() == s.filter(q).len() + s.filter(r).len(),
    decreases s.len(),
{
    if s.len() > 0 {
        let t = s.drop_last();
        lemma_filter_len_split(t, p, q, r);
        t.lemma_filter_push(s.last(), p);
        t.lemma_filter_push(s.last(), q);
        t.lemma_filter_push(s.last(), r);
        assert(t.push(s.last()) =~= s);
    }
}

/// Every value collected is what `f` gives for some element of `s`.
pub proof fn lemma_collect_values<T, U>(s: Seq<T>, f: spec_fn(T) -> Option<U>, k: int)
    requires
        0 <= k < collect(s, f).len(),
    ensures
        exists|j: int| 0 <= j < s.len() && #[trigger] f(s[j]) == Some(collect(s, f)[k]),
    decreases s.len(),
{
    let t = s.drop_last();
    let prev = collect(t, f);
    if k < prev.len() {
        lemma_collect_values(t, f, k);
        let j = choose|j: int| 0 <= j < t.len() && #[trigger] f(t[j]) == Some(prev[k]);
        assert(s[j] == t[j]);
        assert(f(s[j]) == Some(collect(s, f)[k]));
    } else {
        assert(f(s[s.len() - 1]) == Some(collect(s, f)[k]));
    }
}

/// When `f` gives nothing for any element of `s`, nothing is collected.
pub proof fn lemma_collect_none<T, U>(s: Seq<T>, f: spec_fn(T) -> Option<U>)
    requires
        forall|k: int| 0 <= k < s.len() ==> #[trigger] f(s[k]) is None,
    ensures
        collect(s, f).len() == 0,
    decreases s.len(),
{
    if s.len() > 0 {
        let t = s.drop_last();
        assert forall|k: int| 0 <= k < t.len() implies #[trigger] f(t[k]) is None by {
            assert(t[k] == s[k]);
        }
        lemma_collect_none(t, f);
        assert(f(s[s.len() - 1]) is None);
    }
}

/// A filter that passes fewer elements keeps no more of them.
pub proof fn lemma_filter_len_mono<T>(s: Seq<T>, p: spec_fn(T) -> bool, q: spec_fn(T) -> bool)
    requires
        forall|x: T| #[trigger] p(x) ==> q(x),
    ensures
        s.filter(p).len() <= s.filter(q).len(),
    decreases s.len(),
{
    if s.len() > 0 {
        let t = s.drop_last();
        lemma_filter_len_mono(t, p, q);
        t.lemma_filter_push(s.last(), p);
        t.lemma_filter_push(s.last(), q);
        assert(t.push(s.last()) =~= s);
    }
}

/// A filter that passes nothing keeps nothing.
pub proof fn lemma_filter_none<T>(s: Seq<T>, p: spec_fn(T) -> bool)
    requires
        forall|k: int| 0 <= k < s.len() ==> !p(#[trigger] s[k]),
    ensures
        s.filter(p).len() == 0,
    decreases s.len(),
{
    if s.len() > 0 {
        let t = s.drop_last();
        assert forall|k: int| 0 <= k < t.len() implies !p(#[trigger] t[k]) by {
            assert(t[k] == s[k]);
        }
        lemma_filter_none(t, p);
        t.lemma_filter_push(s.last(), p);
        assert(t.push(s.last()) =~= s);
        assert(!p(s[s.len() - 1]));
    }
}

/// Taking all of `s` gives `s`.
pub proof fn lemma_take_all<T>(s: Seq<T>)
    ensures
        s.take(s.len() as int) == s,
{
    assert(s.take(s.len() as int) =~= s);
}

/// `i` is the first position of `s` whose element satisfies `p`.
pub open spec fn is_first<T>(s: Seq<T>, p: spec_fn(T) -> bool, i: int) -> bool {
    &&& 0 <= i < s.len()
    &&& p(s[i])
    &&& forall|k: int| 0 <= k < i ==> !p(#[trigger] s[k])
}

/// A first position is the only first position.
pub proof fn lemma_first_unique<T>(s: Seq<T>, p: spec_fn(T) -> bool, i: int)
    requires
        is_first(s, p, i),
    ensures
        exists|j: int| is_first(s, p, j),
        (choose|j: int| is_first(s, p, j)) == i,
{
    let j = choose|j: int| is_first(s, p, j);
    if j < i {
        assert(!p(s[j]));
    } else if j > i {
        assert(!p(s[i]));
    }
}

/// No element of `s` satisfies `p`.
pub open spec fn none_satisfy<T>(s: Seq<T>, p: spec_fn(T) -> bool) -> bool {
    forall|k: int| 0 <= k < s.len() ==> !p(#[trigger] s[k])
}

/// The texts of a sequence of strings, as a set.
pub open spec fn text_set(v: Seq<String>) -> Set<Seq<char>> {
    Set::new(|t: Seq<char>| exists|i: int| 0 <= i < v.len() && (#[trigger] v[i])@ == t)
}

/// Whether some string of `v` equals `s`.
pub fn texts_contain(v: &Vec<String>, s: &String) -> (b: bool)
    ensures
        b == text_set(v@).contains(s@),
{
    let mut i: usize = 0;
    while i < v.len()
        invariant
            i <= v@.len(),
            forall|k: int| 0 <= k < i ==> (#[trigger] v@[k])@ != s@,
        decreases v@.len() - i,
    {
        if v[i] == *s {
            assert(text_set(v@).contains(s@)) by {
                assert(v@[i as int]@ == s@);
            }
            return true;
        }
        i = i + 1;
    }
    false
}

/// Adds `s` to the set of texts held by `v`.
pub fn texts_insert(v: &mut Vec<String>, s: String)
    ensures
        text_set(final(v)@) == text_set(old(v)@).insert(s@),
{
    if !texts_contain(v, &s) {
        let ghost before = v@;
        v.push(s);
        assert forall|t: Seq<char>| #[trigger] text_set(v@).contains(t) == text_set(
            before,
        ).insert(s@).contains(t) by {
            if text_set(before).contains(t) {
                let i = choose|i: int| 0 <= i < before.len() && (#[trigger] before[i])@ == t;
                assert(v@[i] == before[i]);
            }
            if text_set(v@).contains(t) {
                let i = choose|i: int| 0 <= i < v@.len() && (#[trigger] v@[i])@ == t;
                if i < before.len() {
                    assert(v@[i] == before[i]);
                }
            }
            if t == s@ {
                assert(v@[before.len() as int]@ == t);
            }
        }
        assert(text_set(v@) =~= text_set(before).insert(s@));
    } else {
        assert(text_set(v@) =~= text_set(v@).insert(s@));
    }
}

/// Removes `s` from the set of texts held by `v`.
pub fn texts_remove(v: &mut Vec<String>, s: &String)
    ensures
        text_set(final(v)@) == text_set(old(v)@).remove(s@),
{
    let mut kept: Vec<String> = Vec::new();
    let mut i: usize = 0;
    while i < v.len()
        invariant
            i <= v@.len(),
            forall|t: Seq<char>|
                #[trigger] text_set(kept@).contains(t) <==> (t != s@ && exists|k: int|
                    0 <= k < i && (#[trigger] v@[k])@ == t),
        decreases v@.len() - i,
    {
        let ghost before = kept@;
        if v[i] != *s {
            kept.push(v[i].clone());
        }
        assert forall|t: Seq<char>|
            #[trigger] text_set(kept@).contains(t) <==> (t != s@ && exists|k: int|
                0 <= k < i + 1 && (#[trigger] v@[k])@ == t) by {
            if text_set(kept@).contains(t) {
                let j = choose|j: int| 0 <= j < kept@.len() && (#[trigger] kept@[j])@ == t;
                if j < before.len() {
                    assert(kept@[j] == before[j]);
                    assert(text_set(before).contains(t));
                } else {
                    assert(v@[i as int]@ == t);
                }
            }
            if t != s@ && exists|k: int| 0 <= k < i + 1 && (#[trigger] v@[k])@ == t {
                let k = choose|k: int| 0 <= k < i + 1 && (#[trigger] v@[k])@ == t;
                if k < i {
                    assert(text_set(before).contains(t));
                    let j = choose|j: int| 0 <= j < before.len() && (#[trigger] before[j])@ == t;
                    assert(kept@[j] == before[j]);
                } else {
                    assert(kept@[kept@.len() - 1]@ == t);
                }
            }
        }
        i = i + 1;
    }
    assert(text_set(kept@) =~= text_set(v@).remove(s@));
    *v = kept;
}

} // verus!
