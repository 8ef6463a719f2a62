//! Facts about filtering sequences.
use vstd::prelude::*;

verus! {

/// Filtering splits at any place.
pub proof fn lemma_filter_split<A>(s: Seq<A>, i: int, p: spec_fn(A) -> bool)
    requires
        0 <= i <= s.len(),
    ensures
        s.filter(p) == s.take(i).filter(p) + s.skip(i).filter(p),
{
    Seq::filter_distributes_over_add(s.take(i), s.skip(i), p);
    assert(s.take(i) + s.skip(i) == s);
}

/// What a predicate keeps of a single element.
pub open spec fn kept<A>(a: A, p: spec_fn(A) -> bool) -> Seq<A> {
    if p(a) {
        seq![a]
    } else {
        Seq::empty()
    }
}

/// Filtering one element keeps it or nothing.
pub proof fn lemma_filter_one<A>(a: A, p: spec_fn(A) -> bool)
    ensures
        seq![a].filter(p) == kept(a, p),
{
    reveal_with_fuel(Seq::filter, 2);
    assert(seq![a].drop_last() == Seq::<A>::empty());
    assert(Seq::<A>::empty().filter(p) == Seq::<A>::empty());
}

/// Filtering after a push.
pub proof fn lemma_filter_push<A>(s: Seq<A>, a: A, p: spec_fn(A) -> bool)
    ensures
        s.push(a).filter(p) == s.filter(p) + kept(a, p),
{
    lemma_filter_one(a, p);
    Seq::filter_distributes_over_add(s, seq![a], p);
    assert(s + seq![a] == s.push(a));
}

/// Filtering after an insertion.
pub proof fn lemma_filter_insert<A>(s: Seq<A>, i: int, a: A, p: spec_fn(A) -> bool)
    requires
        0 <= i <= s.len(),
    ensures
        s.insert(i, a).filter(p) == s.take(i).filter(p) + kept(a, p) + s.skip(i).filter(p),
{
    lemma_filter_push(s.take(i), a, p);
    Seq::filter_distributes_over_add(s.take(i).push(a), s.skip(i), p);
    assert(s.insert(i, a) == s.take(i).push(a) + s.skip(i));
}

/// Filtering around an element.
pub proof fn lemma_filter_around<A>(s: Seq<A>, i: int, p: spec_fn(A) -> bool)
    requires
        0 <= i < s.len(),
    ensures
        s.filter(p) == s.take(i).filter(p) + kept(s[i], p) + s.skip(i + 1).filter(p),
{
    lemma_filter_push(s.take(i), s[i], p);
    Seq::filter_distributes_over_add(s.take(i).push(s[i]), s.skip(i + 1), p);
    assert(s == s.take(i).push(s[i]) + s.skip(i + 1));
}

/// Filtering after a removal.
pub proof fn lemma_filter_remove<A>(s: Seq<A>, i: int, p: spec_fn(A) -> bool)
    requires
        0 <= i < s.len(),
    ensures
        s.remove(i).filter(p) == s.take(i).filter(p) + s.skip(i + 1).filter(p),
{
    Seq::filter_distributes_over_add(s.take(i), s.skip(i + 1), p);
    assert(s.remove(i) == s.take(i) + s.skip(i + 1));
}

/// Filtering after an update.
pub proof fn lemma_filter_update<A>(s: Seq<A>, i: int, a: A, p: spec_fn(A) -> bool)
    requires
        0 <= i < s.len(),
    ensures
        s.update(i, a).filter(p) == s.take(i).filter(p) + kept(a, p) + s.skip(i + 1).filter(p),
{
    lemma_filter_around(s.update(i, a), i, p);
    assert(s.update(i, a).take(i) == s.take(i));
    assert(s.update(i, a).skip(i + 1) == s.skip(i + 1));
}

/// Filtering keeps nothing where nothing passes.
pub proof fn lemma_filter_none<A>(s: Seq<A>, p: spec_fn(A) -> bool)
    requires
        forall|i: int| 0 <= i < s.len() ==> !p(#[trigger] s[i]),
    ensures
        s.filter(p) == Seq::<A>::empty(),
    decreases s.len(),
{
    reveal(Seq::filter);
    if s.len() > 0 {
        assert(!p(s[s.len() - 1]));
        lemma_filter_none(s.drop_last(), p);
    }
}

/// Filtering keeps everything where everything passes.
pub proof fn lemma_filter_all<A>(s: Seq<A>, p: spec_fn(A) -> bool)
    requires
        forall|i: int| 0 <= i < s.len() ==> p(#[trigger] s[i]),
    ensures
        s.filter(p) == s,
    decreases s.len(),
{
    reveal(Seq::filter);
    if s.len() > 0 {
        assert(p(s[s.len() - 1]));
        lemma_filter_all(s.drop_last(), p);
        assert(s.drop_last().push(s.last()) == s);
    }
}

/// Two predicates that agree on every element keep the same.
pub proof fn lemma_filter_agree<A>(s: Seq<A>, p: spec_fn(A) -> bool, q: spec_fn(A) -> bool)
    requires
        forall|i: int| 0 <= i < s.len() ==> p(#[trigger] s[i]) == q(s[i]),
    ensures
        s.filter(p) == s.filter(q),
    decreases s.len(),
{
    reveal(Seq::filter);
    if s.len() > 0 {
        assert(p(s[s.len() - 1]) == q(s[s.len() - 1]));
        lemma_filter_agree(s.drop_last(), p, q);
    }
}

/// Elements that a filter keeps stood in the same order before.
pub proof fn lemma_filter_places<A>(s: Seq<A>, p: spec_fn(A) -> bool, a: int, b: int)
    requires
        0 <= a < b < s.filter(p).len(),
    ensures
        exists|i: int, j: int|
            0 <= i < j < s.len() && s.filter(p)[a] == #[trigger] s[i] && s.filter(p)[b]
                == #[trigger] s[j] && p(s[i]) && p(s[j]),
    decreases s.len(),
{
    reveal(Seq::filter);
    if s.len() > 0 {
        let t = s.drop_last();
        if p(s.last()) && b == t.filter(p).len() {
            t.lemma_filter_pred(p, a);
            t.lemma_filter_contains_rev(p, t.filter(p)[a]);
            let i = choose|i: int| 0 <= i < t.len() && t[i] == t.filter(p)[a];
            let j = s.len() - 1;
            assert(s[i] == s.filter(p)[a] && s[j] == s.filter(p)[b]);
        } else {
            lemma_filter_places(t, p, a, b);
            let (i, j) = choose|i: int, j: int|
                0 <= i < j < t.len() && t.filter(p)[a] == #[trigger] t[i] && t.filter(p)[b]
                    == #[trigger] t[j] && p(t[i]) && p(t[j]);
            assert(s[i] == t[i] && s[j] == t[j]);
        }
    }
}

/// Where the kept elements stand in the filtered sequence follows the order in
/// which they stood before.
pub proof fn lemma_filter_keeps_order<A>(s: Seq<A>, p: spec_fn(A) -> bool, i: int, j: int)
    requires
        0 <= i < j < s.len(),
        p(s[i]),
        p(s[j]),
    ensures
        exists|a: int, b: int|
            0 <= a < b < s.filter(p).len() && #[trigger] s.filter(p)[a] == s[i]
                && #[trigger] s.filter(p)[b] == s[j],
    decreases s.len(),
{
    reveal(Seq::filter);
    let t = s.drop_last();
    if j == s.len() - 1 {
        t.lemma_filter_contains(p, i);
        assert(t[i] == s[i]);
        let a = choose|a: int| 0 <= a < t.filter(p).len() && t.filter(p)[a] == s[i];
        let b = t.filter(p).len() as int;
        assert(s.filter(p)[a] == s[i] && s.filter(p)[b] == s[j]);
    } else {
        assert(t[i] == s[i] && t[j] == s[j]);
        lemma_filter_keeps_order(t, p, i, j);
        let (a, b) = choose|a: int, b: int|
            0 <= a < b < t.filter(p).len() && #[trigger] t.filter(p)[a] == t[i]
                && #[trigger] t.filter(p)[b] == t[j];
        assert(s.filter(p)[a] == s[i] && s.filter(p)[b] == s[j]);
    }
}

} // verus!
