//! The order of byte strings: the first byte that differs decides.

use std::cmp::Ordering;
use vstd::prelude::*;

verus! {

/// The first offset from `from` on at which `a` and `b` differ, or at which
/// one of them ends.
pub open spec fn first_difference(a: Seq<u8>, b: Seq<u8>, from: int) -> int
    decreases a.len() - from,
{
    if 0 <= from < a.len() && from < b.len() && a[from] == b[from] {
        first_difference(a, b, from + 1)
    } else {
        from
    }
}

/// How `a` stands to `b` in the order of the dictionary: the bytes at the
/// first offset where they differ decide, and a string comes before those
/// that it begins.
pub open spec fn byte_order(a: Seq<u8>, b: Seq<u8>) -> Ordering {
    let k = first_difference(a, b, 0);
    if k >= a.len() && k >= b.len() {
        Ordering::Equal
    } else if k >= a.len() {
        Ordering::Less
    } else if k >= b.len() {
        Ordering::Greater
    } else if a[k] < b[k] {
        Ordering::Less
    } else {
        Ordering::Greater
    }
}

/// Up to the first difference the strings agree; there they differ, unless
/// one of them has ended.
pub proof fn lemma_first_difference(a: Seq<u8>, b: Seq<u8>, from: int)
    requires
        0 <= from,
    ensures
        from <= first_difference(a, b, from),
        from <= a.len() && from <= b.len() ==> first_difference(a, b, from) <= a.len()
            && first_difference(a, b, from) <= b.len(),
        forall|j: int| from <= j < first_difference(a, b, from) ==> a[j] == b[j],
        first_difference(a, b, from) < a.len() && first_difference(a, b, from) < b.len()
            ==> a[first_difference(a, b, from)] != b[first_difference(a, b, from)],
    decreases a.len() - from,
{
    if from < a.len() && from < b.len() && a[from] == b[from] {
        lemma_first_difference(a, b, from + 1);
    }
}

/// Strings of one length are equal exactly where nothing differs before
/// their end.
pub proof fn lemma_no_difference(a: Seq<u8>, b: Seq<u8>)
    requires
        a.len() == b.len(),
    ensures
        first_difference(a, b, 0) == a.len() <==> a == b,
{
    lemma_first_difference(a, b, 0);
    if first_difference(a, b, 0) == a.len() {
        assert(a =~= b);
    }
}

/// Strings of one length stand equal in the order exactly where they are
/// equal.
pub proof fn lemma_equal_in_order(a: Seq<u8>, b: Seq<u8>)
    requires
        a.len() == b.len(),
    ensures
        byte_order(a, b) == Ordering::Equal <==> a == b,
{
    lemma_first_difference(a, b, 0);
    lemma_no_difference(a, b);
}

/// The first offset at which `a` and `b` differ, or at which one of them
/// ends.
pub fn mismatch(a: &[u8], b: &[u8]) -> (r: usize)
    ensures
        r == first_difference(a@, b@, 0),
        r <= a@.len(),
        r <= b@.len(),
        a@.len() == b@.len() ==> (r == a@.len() <==> a@ == b@),
{
    let mut i: usize = 0;
    while i < a.len() && i < b.len()
        invariant
            i <= a@.len(),
            i <= b@.len(),
            first_difference(a@, b@, 0) == first_difference(a@, b@, i as int),
        decreases a@.len() - i,
    {
        if a[i] != b[i] {
            proof {
                if a@.len() == b@.len() {
                    lemma_no_difference(a@, b@);
                }
            }
            return i;
        }
        i += 1;
    }
    proof {
        if a@.len() == b@.len() {
            lemma_no_difference(a@, b@);
        }
    }
    i
}

} // verus!
