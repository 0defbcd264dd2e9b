//! Arrays of slot references with a sentinel for "no slot": how many entries
//! are in use, and which entry is the first to hold a given value.
use vstd::prelude::*;

verus! {

/// How many entries of `s` differ from the sentinel `free`.
pub open spec fn count_used(s: Seq<usize>, free: usize) -> nat
    decreases s.len(),
{
    if s.len() == 0 {
        0
    } else {
        count_used(s.drop_last(), free) + if s.last() != free {
            1nat
        } else {
            0nat
        }
    }
}

/// The first index at or after `from` at which `s` holds `v`; the length of
/// `s` where there is none.
pub open spec fn first_index_of(s: Seq<usize>, v: usize, from: int) -> int
    decreases s.len() - from,
{
    if from >= s.len() {
        s.len() as int
    } else if s[from] == v {
        from
    } else {
        first_index_of(s, v, from + 1)
    }
}

/// No more entries are in use than there are entries.
pub proof fn lemma_count_used_bound(s: Seq<usize>, free: usize)
    ensures
        count_used(s, free) <= s.len(),
    decreases s.len(),
{
    if s.len() > 0 {
        lemma_count_used_bound(s.drop_last(), free);
    }
}

/// Overwriting one entry changes the count by what the entry was and what it becomes.
pub proof fn lemma_count_used_update(s: Seq<usize>, free: usize, i: int, v: usize)
    requires
        0 <= i < s.len(),
    ensures
        count_used(s.update(i, v), free) + (if s[i] != free {
            1nat
        } else {
            0nat
        }) == count_used(s, free) + (if v != free {
            1nat
        } else {
            0nat
        }),
    decreases s.len(),
{
    let t = s.update(i, v);
    if i == s.len() - 1 {
        assert(t.drop_last() =~= s.drop_last());
    } else {
        lemma_count_used_update(s.drop_last(), free, i, v);
        assert(t.drop_last() =~= s.drop_last().update(i, v));
    }
}

/// No entry is in use exactly when the count is zero.
pub proof fn lemma_count_used_zero(s: Seq<usize>, free: usize)
    ensures
        count_used(s, free) == 0 <==> (forall|i: int| 0 <= i < s.len() ==> s[i] == free),
    decreases s.len(),
{
    if s.len() > 0 {
        let r = s.drop_last();
        lemma_count_used_zero(r, free);
        if count_used(s, free) == 0 {
            assert forall|i: int| 0 <= i < s.len() implies s[i] == free by {
                if i < r.len() {
                    assert(r[i] == s[i]);
                }
            }
        }
        if forall|i: int| 0 <= i < s.len() ==> s[i] == free {
            assert forall|i: int| 0 <= i < r.len() implies r[i] == free by {
                assert(r[i] == s[i]);
            }
        }
    }
}

/// A sequence of sentinels has no entry in use.
pub proof fn lemma_count_used_none(s: Seq<usize>, free: usize)
    requires
        forall|i: int| 0 <= i < s.len() ==> s[i] == free,
    ensures
        count_used(s, free) == 0,
{
    lemma_count_used_zero(s, free);
}

/// Where the first index of `v` lies: within the searched range, at an entry
/// that holds `v`, with no such entry before it.
pub proof fn lemma_first_index_of(s: Seq<usize>, v: usize, from: int)
    requires
        0 <= from <= s.len(),
    ensures
        from <= first_index_of(s, v, from) <= s.len(),
        first_index_of(s, v, from) < s.len() ==> s[first_index_of(s, v, from)] == v,
        forall|k: int| from <= k < first_index_of(s, v, from) ==> s[k] != v,
    decreases s.len() - from,
{
    if from < s.len() && s[from] != v {
        lemma_first_index_of(s, v, from + 1);
    }
}

/// An index that holds `v`, with no such entry between `from` and it, is the first.
pub proof fn lemma_first_index_of_is(s: Seq<usize>, v: usize, from: int, r: int)
    requires
        0 <= from <= r <= s.len(),
        r < s.len() ==> s[r] == v,
        forall|k: int| from <= k < r ==> s[k] != v,
    ensures
        first_index_of(s, v, from) == r,
    decreases r - from,
{
    if from < r {
        lemma_first_index_of_is(s, v, from + 1, r);
    }
}

} // verus!
