//! The order in which contacts are listed: by their keys, those with the same
//! key in the order they had.

use vstd::prelude::*;
use crate::contact::{name_key, Contact};
use crate::filters::{
    lemma_filter_move, lemma_filter_none, lemma_filter_push, lemma_filter_within,
};
use crate::order::{
    comes_before, lemma_precedes_irreflexive, lemma_precedes_total, lemma_precedes_transitive,
    precedes,
};

verus! {

/// The contacts whose key is `key`.
pub open spec fn keyed(key: Seq<char>) -> spec_fn(Contact) -> bool {
    |c: Contact| name_key(c) == key
}

/// No contact of `s` stands behind one whose key comes after its own.
pub open spec fn ordered_by_name(s: Seq<Contact>) -> bool {
    forall|i: int, j: int|
        0 <= i < j < s.len() ==> !precedes(#[trigger] name_key(s[j]), #[trigger] name_key(s[i]))
}

/// `after` holds the contacts of `before` in the order of their keys, those
/// with the same key in the order they had.
pub open spec fn name_ordering_of(after: Seq<Contact>, before: Seq<Contact>) -> bool {
    &&& ordered_by_name(after)
    &&& after.len() == before.len()
    &&& after.to_multiset() == before.to_multiset()
    &&& forall|key: Seq<char>| #[trigger] after.filter(keyed(key)) == before.filter(keyed(key))
}

/// Two arrangements in the order of the keys that agree on the contacts of
/// every key, and on their order, are the same.
proof fn lemma_ordered_alike(a: Seq<Contact>, b: Seq<Contact>)
    requires
        ordered_by_name(a),
        ordered_by_name(b),
        a.len() == b.len(),
        forall|key: Seq<char>| #[trigger] a.filter(keyed(key)) == b.filter(keyed(key)),
    ensures
        a == b,
    decreases a.len(),
{
    reveal(Seq::filter);
    if a.len() == 0 {
        assert(a =~= b);
    } else {
        let x = a.last();
        let y = b.last();
        let kx = name_key(x);
        let ky = name_key(y);
        let short_a = a.drop_last();
        let short_b = b.drop_last();
        assert(a.filter(keyed(kx)) == short_a.filter(keyed(kx)).push(x));
        assert(b.filter(keyed(ky)) == short_b.filter(keyed(ky)).push(y));
        assert(kx == ky) by {
            let in_b = a.filter(keyed(kx)).len() - 1;
            assert(a.filter(keyed(kx)) == b.filter(keyed(kx)));
            lemma_filter_within(b, keyed(kx), in_b);
            let j = choose|j: int| 0 <= j < b.len() && b[j] == b.filter(keyed(kx))[in_b];
            assert(name_key(b[j]) == kx);
            let in_a = b.filter(keyed(ky)).len() - 1;
            assert(a.filter(keyed(ky)) == b.filter(keyed(ky)));
            lemma_filter_within(a, keyed(ky), in_a);
            let i = choose|i: int| 0 <= i < a.len() && a[i] == a.filter(keyed(ky))[in_a];
            assert(name_key(a[i]) == ky);
            lemma_precedes_total(kx, ky);
        }
        assert(x == y) by {
            assert(a.filter(keyed(kx)).last() == x);
            assert(b.filter(keyed(kx)).last() == y);
        }
        assert forall|key: Seq<char>| #[trigger]
            short_a.filter(keyed(key)) == short_b.filter(keyed(key)) by {
            assert(a.filter(keyed(key)) == b.filter(keyed(key)));
            if key == kx {
                assert(short_a.filter(keyed(key)) =~= a.filter(keyed(key)).drop_last());
                assert(short_b.filter(keyed(key)) =~= b.filter(keyed(key)).drop_last());
            }
        }
        assert(ordered_by_name(short_a)) by {
            assert forall|i: int, j: int| 0 <= i < j < short_a.len() implies !precedes(
                #[trigger] name_key(short_a[j]),
                #[trigger] name_key(short_a[i]),
            ) by {
                assert(short_a[i] == a[i] && short_a[j] == a[j]);
            }
        }
        assert(ordered_by_name(short_b)) by {
            assert forall|i: int, j: int| 0 <= i < j < short_b.len() implies !precedes(
                #[trigger] name_key(short_b[j]),
                #[trigger] name_key(short_b[i]),
            ) by {
                assert(short_b[i] == b[i] && short_b[j] == b[j]);
            }
        }
        lemma_ordered_alike(short_a, short_b);
        assert(a =~= short_a.push(x));
        assert(b =~= short_b.push(y));
    }
}

/// There is one way only to put contacts in the order of their keys while
/// those with the same key keep the order they had.
pub proof fn lemma_name_ordering_unique(a: Seq<Contact>, b: Seq<Contact>, before: Seq<Contact>)
    requires
        name_ordering_of(a, before),
        name_ordering_of(b, before),
    ensures
        a == b,
{
    assert forall|key: Seq<char>| #[trigger] a.filter(keyed(key)) == b.filter(keyed(key)) by {
        assert(a.filter(keyed(key)) == before.filter(keyed(key)));
        assert(b.filter(keyed(key)) == before.filter(keyed(key)));
    }
    lemma_ordered_alike(a, b);
}

/// Contacts that stand in the order of their keys already are left as they
/// are.
pub proof fn lemma_name_ordering_of_ordered(s: Seq<Contact>)
    requires
        ordered_by_name(s),
    ensures
        forall|after: Seq<Contact>| name_ordering_of(after, s) ==> after == s,
{
    assert forall|after: Seq<Contact>| name_ordering_of(after, s) implies after == s by {
        assert(name_ordering_of(s, s));
        lemma_name_ordering_unique(after, s, s);
    }
}

/// Of two contacts the second is put first exactly where its key comes
/// before the key of the first.
pub proof fn lemma_ordering_of_two(a: Contact, b: Contact, after: Seq<Contact>)
    requires
        name_ordering_of(after, seq![a, b]),
    ensures
        after == if precedes(name_key(b), name_key(a)) {
            seq![b, a]
        } else {
            seq![a, b]
        },
{
    let before = seq![a, b];
    if precedes(name_key(b), name_key(a)) {
        let swapped = seq![b, a];
        lemma_precedes_total(name_key(a), name_key(b));
        lemma_precedes_irreflexive(name_key(a));
        assert(ordered_by_name(swapped));
        assert(swapped.to_multiset() == before.to_multiset()) by {
            assert(before =~= seq![a] + seq![b]);
            assert(swapped =~= seq![b] + seq![a]);
            vstd::seq_lib::lemma_multiset_commutative(seq![a], seq![b]);
            vstd::seq_lib::lemma_multiset_commutative(seq![b], seq![a]);
        }
        assert forall|key: Seq<char>| #[trigger]
            swapped.filter(keyed(key)) == before.filter(keyed(key)) by {
            let none = Seq::<Contact>::empty();
            assert(before =~= none.push(a).push(b));
            assert(swapped =~= none.push(b).push(a));
            lemma_filter_none(none, keyed(key));
            lemma_filter_push(none, a, keyed(key));
            lemma_filter_push(none.push(a), b, keyed(key));
            lemma_filter_push(none, b, keyed(key));
            lemma_filter_push(none.push(b), a, keyed(key));
        }
        lemma_name_ordering_unique(after, swapped, before);
    } else {
        assert(ordered_by_name(before));
        lemma_name_ordering_unique(after, before, before);
    }
}

/// Puts the contacts in the order of their keys, those with the same key in
/// the order they had.
pub fn sort_by_name(contacts: &mut Vec<Contact>)
    ensures
        name_ordering_of(final(contacts)@, old(contacts)@),
{
    let ghost before = contacts@;
    let mut i: usize = 0;
    while i < contacts.len()
        invariant
            0 <= i <= contacts.len(),
            contacts.len() == before.len(),
            ordered_by_name(contacts@.take(i as int)),
            contacts@.to_multiset() == before.to_multiset(),
            forall|key: Seq<char>| #[trigger]
                contacts@.filter(keyed(key)) == before.filter(keyed(key)),
        decreases contacts.len() - i,
    {
        let ghost current = contacts@;
        let key = contacts[i].key();
        let mut to: usize = 0;
        while to < i && !comes_before(key.as_str(), contacts[to].key().as_str())
            invariant
                contacts@ == current,
                i < current.len(),
                key@ == name_key(current[i as int]),
                0 <= to <= i,
                forall|j: int| 0 <= j < to ==> !precedes(key@, #[trigger] name_key(current[j])),
            decreases i - to,
        {
            to += 1;
        }
        if to < i {
            let moved = contacts.remove(i);
            contacts.insert(to, moved);
        }
        proof {
            let item = current[i as int];
            let next = contacts@;
            if to < i {
                assert(next == current.remove(i as int).insert(to as int, item));
                assert forall|j: int| to <= j < i implies precedes(
                    name_key(item),
                    #[trigger] name_key(current[j]),
                ) by {
                    assert(current.take(i as int)[to as int] == current[to as int]);
                    assert(current.take(i as int)[j] == current[j]);
                    lemma_precedes_total(name_key(current[to as int]), name_key(current[j]));
                    if name_key(current[to as int]) != name_key(current[j]) {
                        lemma_precedes_transitive(
                            name_key(item),
                            name_key(current[to as int]),
                            name_key(current[j]),
                        );
                    }
                }
                assert forall|j: int| to <= j < i implies name_key(item) != #[trigger] name_key(
                    current[j],
                ) by {
                    lemma_precedes_irreflexive(name_key(item));
                }
                vstd::seq_lib::to_multiset_remove(current, i as int);
                vstd::seq_lib::to_multiset_insert(current.remove(i as int), to as int, item);
                assert(next.to_multiset() =~= current.to_multiset()) by {
                    vstd::seq_lib::to_multiset_contains(current, item);
                    assert(current.contains(item));
                }
                assert forall|key: Seq<char>| #[trigger]
                    next.filter(keyed(key)) == before.filter(keyed(key)) by {
                    lemma_filter_move(current, to as int, i as int, keyed(key));
                }
            } else {
                assert(next == current);
            }
            let sorted = next.take(i + 1);
            assert forall|a: int, b: int| 0 <= a < b < sorted.len() implies !precedes(
                #[trigger] name_key(sorted[b]),
                #[trigger] name_key(sorted[a]),
            ) by {
                let old_a = if a < to { a } else { a - 1 };
                let old_b = if b < to { b } else { b - 1 };
                if a == to {
                    assert(sorted[a] == item);
                    assert(sorted[b] == current[old_b]);
                    lemma_precedes_total(name_key(item), name_key(current[old_b]));
                } else if b == to {
                    assert(sorted[b] == item);
                    assert(sorted[a] == current[a]);
                } else {
                    assert(sorted[a] == current.take(i as int)[old_a]);
                    assert(sorted[b] == current.take(i as int)[old_b]);
                }
            }
        }
        i += 1;
    }
    proof {
        assert(contacts@.take(i as int) =~= contacts@);
    }
}

} // verus!
