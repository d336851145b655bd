use vstd::prelude::*;

verus! {

/// Filtering keeps a sequence whole when every item passes.
pub proof fn lemma_filter_keeps_all<A>(s: Seq<A>, pred: spec_fn(A) -> bool)
    requires
        forall|i: int| 0 <= i < s.len() ==> pred(#[trigger] s[i]),
    ensures
        s.filter(pred) == s,
    decreases s.len(),
{
    reveal(Seq::filter);
    if s.len() > 0 {
        lemma_filter_keeps_all(s.drop_last(), pred);
        assert(s.drop_last().push(s.last()) =~= s);
    }
}

/// Filtering drops a sequence of one failing item entirely.
pub proof fn lemma_filter_drops_single<A>(x: A, pred: spec_fn(A) -> bool)
    requires
        !pred(x),
    ensures
        seq![x].filter(pred) == Seq::<A>::empty(),
{
    reveal(Seq::filter);
    let e = Seq::<A>::empty();
    assert(e.filter(pred) =~= e);
    e.lemma_filter_push(x, pred);
    assert(e.push(x) =~= seq![x]);
}

/// When only the item at `i` fails, filtering removes exactly that item.
pub proof fn lemma_filter_removes_only<A>(s: Seq<A>, pred: spec_fn(A) -> bool, i: int)
    requires
        0 <= i < s.len(),
        !pred(s[i]),
        forall|j: int| 0 <= j < s.len() && j != i ==> pred(#[trigger] s[j]),
    ensures
        s.filter(pred) == s.remove(i),
{
    let a = s.take(i);
    let b = s.skip(i + 1);
    assert(s =~= a + seq![s[i]] + b);
    Seq::filter_distributes_over_add(a + seq![s[i]], b, pred);
    Seq::filter_distributes_over_add(a, seq![s[i]], pred);
    assert forall|j: int| 0 <= j < a.len() implies pred(#[trigger] a[j]) by {
        assert(a[j] == s[j]);
    }
    assert forall|j: int| 0 <= j < b.len() implies pred(#[trigger] b[j]) by {
        assert(b[j] == s[j + i + 1]);
    }
    lemma_filter_keeps_all(a, pred);
    lemma_filter_keeps_all(b, pred);
    lemma_filter_drops_single(s[i], pred);
    assert(s.remove(i) =~= a + b);
    assert(a + Seq::<A>::empty() =~= a);
}

} // verus!
