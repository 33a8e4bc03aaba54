use vstd::prelude::*;

use vstd::seq_lib::seq_to_set_is_finite;
use vstd::set_lib::lemma_len_subset;

verus! {

/// Whether every element of `a` also appears in `b`.
pub open spec fn seq_subset(a: Seq<u64>, b: Seq<u64>) -> bool {
    forall|i: int| 0 <= i < a.len() ==> b.contains(#[trigger] a[i])
}

/// Whether `id` appears in the roster.
pub fn roster_contains(v: &Vec<u64>, id: u64) -> (r: bool)
    ensures
        r == v@.contains(id),
{
    let mut i: usize = 0;
    while i < v.len()
        invariant
            0 <= i <= v@.len(),
            forall|j: int| 0 <= j < i ==> v@[j] != id,
        decreases v@.len() - i,
    {
        if v[i] == id {
            return true;
        }
        i = i + 1;
    }
    false
}

/// Whether no identity appears twice in the roster.
pub fn roster_nodup(v: &Vec<u64>) -> (r: bool)
    ensures
        r == v@.no_duplicates(),
{
    let n = v.len();
    let mut i: usize = 0;
    while i < n
        invariant
            0 <= i <= n == v@.len(),
            forall|p: int, q: int| 0 <= p < q < n && p < i ==> v@[p] != v@[q],
        decreases n - i,
    {
        let mut j: usize = i + 1;
        while j < n
            invariant
                0 <= i < j <= n == v@.len(),
                forall|q: int| i < q < j ==> v@[i as int] != v@[q],
            decreases n - j,
        {
            if v[i] == v[j] {
                return false;
            }
            j = j + 1;
        }
        i = i + 1;
    }
    true
}

/// Removes the first occurrence of `id` from the roster, preserving the
/// relative order of the remaining entries. Returns whether `id` was present.
pub fn roster_remove(v: &mut Vec<u64>, id: u64) -> (found: bool)
    ensures
        found == old(v)@.contains(id),
        found ==> exists|i: int|
            0 <= i < old(v)@.len() && old(v)@[i] == id && final(v)@ == old(v)@.remove(i),
        !found ==> final(v)@ == old(v)@,
{
    let mut i: usize = 0;
    while i < v.len()
        invariant
            0 <= i <= v@.len(),
            v@ == old(v)@,
            forall|j: int| 0 <= j < i ==> v@[j] != id,
        decreases v@.len() - i,
    {
        if v[i] == id {
            v.remove(i);
            return true;
        }
        i = i + 1;
    }
    false
}

/// Removing an entry from a duplicate-free sequence keeps it duplicate-free,
/// drops that entry, and keeps every other entry.
pub proof fn lemma_remove_keeps_others(s: Seq<u64>, i: int)
    requires
        s.no_duplicates(),
        0 <= i < s.len(),
    ensures
        s.remove(i).no_duplicates(),
        !s.remove(i).contains(s[i]),
        forall|x: u64| x != s[i] ==> s.remove(i).contains(x) == s.contains(x),
{
    let t = s.remove(i);
    assert forall|x: u64| x != s[i] implies t.contains(x) == s.contains(x) by {
        if s.contains(x) {
            let k = choose|k: int| 0 <= k < s.len() && s[k] == x;
            if k < i {
                assert(t[k] == x);
            } else {
                assert(t[k - 1] == x);
            }
        }
        if t.contains(x) {
            let k = choose|k: int| 0 <= k < t.len() && t[k] == x;
            if k < i {
                assert(s[k] == x);
            } else {
                assert(s[k + 1] == x);
            }
        }
    }
    assert(!t.contains(s[i])) by {
        if t.contains(s[i]) {
            let k = choose|k: int| 0 <= k < t.len() && t[k] == s[i];
            if k < i {
                assert(s[k] == s[i]);
            } else {
                assert(s[k + 1] == s[i]);
            }
        }
    }
}

/// A duplicate-free sequence whose entries all appear in `b` is no longer
/// than `b`.
pub proof fn lemma_nodup_subset_len(a: Seq<u64>, b: Seq<u64>)
    requires
        a.no_duplicates(),
        seq_subset(a, b),
    ensures
        a.len() <= b.len(),
{
    a.unique_seq_to_set();
    b.lemma_cardinality_of_set();
    seq_to_set_is_finite(b);
    assert(a.to_set().subset_of(b.to_set())) by {
        assert forall|x: u64| a.to_set().contains(x) implies b.to_set().contains(x) by {
            assert(a.contains(x));
            let k = choose|k: int| 0 <= k < a.len() && a[k] == x;
            assert(b.contains(a[k]));
        }
    }
    lemma_len_subset(a.to_set(), b.to_set());
}

/// A duplicate-free sequence whose entries all appear in `b`, while some
/// entry of `b` appears in it nowhere, is strictly shorter than `b`.
pub proof fn lemma_nodup_strict_subset_len(a: Seq<u64>, b: Seq<u64>, missing: u64)
    requires
        a.no_duplicates(),
        b.no_duplicates(),
        seq_subset(a, b),
        b.contains(missing),
        !a.contains(missing),
    ensures
        a.len() < b.len(),
{
    let j = choose|j: int| 0 <= j < b.len() && b[j] == missing;
    lemma_remove_keeps_others(b, j);
    assert(seq_subset(a, b.remove(j))) by {
        assert forall|i: int| 0 <= i < a.len() implies b.remove(j).contains(#[trigger] a[i]) by {
            assert(b.contains(a[i]));
            assert(a[i] != missing);
        }
    }
    lemma_nodup_subset_len(a, b.remove(j));
}

} // verus!
