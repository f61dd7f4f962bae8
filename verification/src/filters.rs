//! Facts about filtering a sequence that the proofs on contacts share.

use vstd::prelude::*;

verus! {

/// Filtering after one more item keeps that item or drops it.
pub proof fn lemma_filter_push<A>(s: Seq<A>, x: A, keep: spec_fn(A) -> bool)
    ensures
        s.push(x).filter(keep) == if keep(x) {
            s.filter(keep).push(x)
        } else {
            s.filter(keep)
        },
{
    reveal(Seq::filter);
    assert(s.push(x).drop_last() =~= s);
}

/// A filter that every item passes changes nothing.
pub proof fn lemma_filter_all<A>(s: Seq<A>, keep: spec_fn(A) -> bool)
    requires
        forall|j: int| 0 <= j < s.len() ==> keep(s[j]),
    ensures
        s.filter(keep) == s,
    decreases s.len(),
{
    reveal(Seq::filter);
    if s.len() > 0 {
        lemma_filter_all(s.drop_last(), keep);
        assert(s.drop_last().push(s.last()) =~= s);
    }
}

/// A filter that no item passes leaves nothing.
pub proof fn lemma_filter_none<A>(s: Seq<A>, keep: spec_fn(A) -> bool)
    requires
        forall|j: int| 0 <= j < s.len() ==> !keep(s[j]),
    ensures
        s.filter(keep) == Seq::<A>::empty(),
    decreases s.len(),
{
    reveal(Seq::filter);
    if s.len() > 0 {
        lemma_filter_none(s.drop_last(), keep);
    }
}

/// Moving the item at `from` forward to `to` leaves a filter's result as it
/// was, where the filter keeps the item or the items it passes, not both.
pub proof fn lemma_filter_move<A>(s: Seq<A>, to: int, from: int, keep: spec_fn(A) -> bool)
    requires
        0 <= to <= from < s.len(),
        keep(s[from]) ==> forall|j: int| to <= j < from ==> !keep(s[j]),
    ensures
        s.remove(from).insert(to, s[from]).filter(keep) == s.filter(keep),
{
    let head = s.take(to);
    let passed = s.subrange(to, from);
    let item = seq![s[from]];
    let tail = s.skip(from + 1);
    assert(s =~= ((head + passed) + item) + tail);
    assert(s.remove(from).insert(to, s[from]) =~= ((head + item) + passed) + tail);
    Seq::filter_distributes_over_add(head + passed, item, keep);
    Seq::filter_distributes_over_add((head + passed) + item, tail, keep);
    Seq::filter_distributes_over_add(head, passed, keep);
    Seq::filter_distributes_over_add(head, item, keep);
    Seq::filter_distributes_over_add(head + item, passed, keep);
    Seq::filter_distributes_over_add((head + item) + passed, tail, keep);
    if keep(s[from]) {
        lemma_filter_none(passed, keep);
    } else {
        lemma_filter_none(item, keep);
    }
    assert((head.filter(keep) + passed.filter(keep)) + item.filter(keep) =~= (head.filter(keep)
        + item.filter(keep)) + passed.filter(keep));
}

/// What a filter keeps is an item of the sequence, and one that passes.
pub proof fn lemma_filter_within<A>(s: Seq<A>, keep: spec_fn(A) -> bool, i: int)
    requires
        0 <= i < s.filter(keep).len(),
    ensures
        s.contains(s.filter(keep)[i]),
        keep(s.filter(keep)[i]),
    decreases s.len(),
{
    reveal(Seq::filter);
    if s.len() > 0 {
        let rest = s.drop_last();
        if i < rest.filter(keep).len() {
            lemma_filter_within(rest, keep, i);
            let j = choose|j: int| 0 <= j < rest.len() && rest[j] == rest.filter(keep)[i];
            assert(s[j] == s.filter(keep)[i]);
        } else {
            assert(s[s.len() - 1] == s.filter(keep)[i]);
        }
    }
}

} // verus!
