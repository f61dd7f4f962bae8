//! The dictionary order on texts: character by character, a proper prefix
//! first.

use vstd::prelude::*;
use crate::text::chars_of;

verus! {

/// The first position from `i` on at which `a` and `b` differ or one of them
/// ends.
pub open spec fn agree_until(a: Seq<char>, b: Seq<char>, i: int) -> int
    decreases a.len() - i,
{
    if 0 <= i < a.len() && i < b.len() && a[i] == b[i] {
        agree_until(a, b, i + 1)
    } else {
        i
    }
}

/// The length of the longest prefix that `a` and `b` share.
pub open spec fn common_prefix(a: Seq<char>, b: Seq<char>) -> int {
    agree_until(a, b, 0)
}

/// `a` comes strictly before `b`: where they first part, `a` has ended or
/// holds the smaller character.
pub open spec fn precedes(a: Seq<char>, b: Seq<char>) -> bool {
    let k = common_prefix(a, b);
    k < b.len() && (k == a.len() || a[k] < b[k])
}

/// `k` is where `a` and `b` first part.
pub open spec fn parts_at(a: Seq<char>, b: Seq<char>, k: int) -> bool {
    &&& 0 <= k <= a.len()
    &&& k <= b.len()
    &&& forall|j: int| 0 <= j < k ==> a[j] == b[j]
    &&& (k == a.len() || k == b.len() || a[k] != b[k])
}

proof fn lemma_agree_until(a: Seq<char>, b: Seq<char>, i: int, k: int)
    requires
        0 <= i <= k,
        parts_at(a, b, k),
    ensures
        agree_until(a, b, i) == k,
    decreases k - i,
{
    if i < k {
        lemma_agree_until(a, b, i + 1, k);
    }
}

/// Two texts part at exactly one place, their common prefix's end.
pub proof fn lemma_parts_at(a: Seq<char>, b: Seq<char>, k: int)
    requires
        parts_at(a, b, k),
    ensures
        common_prefix(a, b) == k,
{
    lemma_agree_until(a, b, 0, k);
}

proof fn lemma_agree_until_parts(a: Seq<char>, b: Seq<char>, i: int)
    requires
        0 <= i <= a.len(),
        i <= b.len(),
        forall|j: int| 0 <= j < i ==> a[j] == b[j],
    ensures
        parts_at(a, b, agree_until(a, b, i)),
    decreases a.len() - i,
{
    if i < a.len() && i < b.len() && a[i] == b[i] {
        lemma_agree_until_parts(a, b, i + 1);
    }
}

/// The common prefix's end is a place where the two texts part.
pub proof fn lemma_common_prefix(a: Seq<char>, b: Seq<char>)
    ensures
        parts_at(a, b, common_prefix(a, b)),
{
    lemma_agree_until_parts(a, b, 0);
}

/// No text comes before itself.
pub proof fn lemma_precedes_irreflexive(a: Seq<char>)
    ensures
        !precedes(a, a),
{
    lemma_parts_at(a, a, a.len() as int);
}

/// Of two different texts, exactly one comes before the other.
pub proof fn lemma_precedes_total(a: Seq<char>, b: Seq<char>)
    ensures
        a != b ==> (precedes(a, b) != precedes(b, a)),
        a == b ==> !precedes(a, b) && !precedes(b, a),
{
    lemma_common_prefix(a, b);
    let k = common_prefix(a, b);
    assert(parts_at(b, a, k));
    lemma_parts_at(b, a, k);
    if k == a.len() && k == b.len() {
        assert(a =~= b);
    }
    if a == b {
        lemma_precedes_irreflexive(a);
    }
}

/// The order is transitive.
pub proof fn lemma_precedes_transitive(a: Seq<char>, b: Seq<char>, c: Seq<char>)
    requires
        precedes(a, b),
        precedes(b, c),
    ensures
        precedes(a, c),
{
    lemma_common_prefix(a, b);
    lemma_common_prefix(b, c);
    let k1 = common_prefix(a, b);
    let k2 = common_prefix(b, c);
    let k = if k1 <= k2 { k1 } else { k2 };
    assert(parts_at(a, c, k));
    lemma_parts_at(a, c, k);
}

/// Whether `a` comes strictly before `b` in dictionary order.
pub fn comes_before(a: &str, b: &str) -> (before: bool)
    ensures
        before == precedes(a@, b@),
{
    let x = chars_of(a);
    let y = chars_of(b);
    let mut i: usize = 0;
    while i < x.len() && i < y.len() && x[i] == y[i]
        invariant
            x@ == a@,
            y@ == b@,
            i <= x.len(),
            i <= y.len(),
            forall|j: int| 0 <= j < i ==> a@[j] == b@[j],
        decreases x.len() - i,
    {
        i += 1;
    }
    proof {
        lemma_parts_at(a@, b@, i as int);
    }
    i < y.len() && (i == x.len() || x[i] < y[i])
}

} // verus!
