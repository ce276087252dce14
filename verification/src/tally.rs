//! Counting occurrences of string keys (the `BTreeMap<String, usize>`
//! tallies that the reports print).

use vstd::prelude::*;

verus! {

/// Number of times `k` occurs in `s`.
pub open spec fn occurrences(s: Seq<Seq<char>>, k: Seq<char>) -> nat
    decreases s.len(),
{
    if s.len() == 0 {
        0
    } else {
        occurrences(s.drop_last(), k) + if s.last() == k { 1nat } else { 0nat }
    }
}

/// One key of a tally with its count.
pub struct KeyCount {
    pub key: String,
    pub count: usize,
}

/// `out` is the tally of `keys`: distinct keys, each with its number of
/// occurrences, covering exactly the keys that occur.
pub open spec fn is_tally_of(keys: Seq<Seq<char>>, out: Seq<KeyCount>) -> bool {
    &&& forall|i: int, j: int| 0 <= i < j < out.len() ==> out[i].key@ != out[j].key@
    &&& forall|i: int| 0 <= i < out.len() ==> out[i].count == occurrences(keys, #[trigger] out[i].key@)
    &&& forall|i: int| 0 <= i < out.len() ==> keys.contains(#[trigger] out[i].key@)
    &&& forall|k: Seq<char>| keys.contains(k) ==> exists|i: int| 0 <= i < out.len() && #[trigger] out[i].key@ == k
}

pub proof fn lemma_occurrences_bound(s: Seq<Seq<char>>, k: Seq<char>)
    ensures
        occurrences(s, k) <= s.len(),
        !s.contains(k) ==> occurrences(s, k) == 0,
        s.contains(k) ==> occurrences(s, k) > 0,
    decreases s.len(),
{
    if s.len() > 0 {
        lemma_occurrences_bound(s.drop_last(), k);
        if s.contains(k) && s.last() != k {
            let i = choose|i: int| 0 <= i < s.len() && s[i] == k;
            assert(s.drop_last()[i] == k);
        }
        if !s.contains(k) {
            assert forall|i: int| 0 <= i < s.drop_last().len() implies s.drop_last()[i] != k by {
                assert(s[i] == s.drop_last()[i]);
            }
        }
    }
}

/// Tallies the keys: one entry per distinct key, in order of first
/// appearance, with its number of occurrences.
pub fn tally(keys: &Vec<String>) -> (out: Vec<KeyCount>)
    ensures
        is_tally_of(keys.deep_view(), out@),
{
    let ghost all = keys.deep_view();
    let mut out: Vec<KeyCount> = Vec::new();
    let mut n: usize = 0;
    while n < keys.len()
        invariant
            n <= keys.len(),
            all == keys.deep_view(),
            is_tally_of(all.subrange(0, n as int), out@),
            forall|i: int| 0 <= i < out.len() ==> out@[i].count <= n,
        decreases keys.len() - n,
    {
        let ghost prev = all.subrange(0, n as int);
        let ghost next = all.subrange(0, n + 1);
        assert(next.drop_last() == prev);
        assert(next.last() == keys[n as int]@);
        let key = &keys[n];
        let mut pos: usize = 0;
        while pos < out.len()
            invariant
                pos <= out.len(),
                forall|i: int| 0 <= i < pos ==> out@[i].key@ != key@,
            ensures
                pos <= out.len(),
                forall|i: int| 0 <= i < pos ==> out@[i].key@ != key@,
                pos < out.len() ==> out@[pos as int].key@ == key@,
            decreases out.len() - pos,
        {
            if out[pos].key == *key {
                break;
            }
            pos += 1;
        }
        let ghost old_out = out@;
        if pos < out.len() {
            assert(out@[pos as int].key@ == key@);
            let c = out[pos].count + 1;
            let k = out[pos].key.clone();
            out.set(pos, KeyCount { key: k, count: c });
            assert forall|i: int| 0 <= i < out.len() implies out@[i].count == occurrences(next, #[trigger] out@[i].key@) by {
                assert(out@[i].key@ == old_out[i].key@);
            }
            assert forall|i: int| 0 <= i < out.len() implies next.contains(#[trigger] out@[i].key@) by {
                assert(out@[i].key@ == old_out[i].key@);
                let j = choose|j: int| 0 <= j < prev.len() && prev[j] == old_out[i].key@;
                assert(next[j] == prev[j]);
            }
            assert forall|k: Seq<char>| next.contains(k) implies exists|i: int| 0 <= i < out.len() && #[trigger] out@[i].key@ == k by {
                let j = choose|j: int| 0 <= j < next.len() && next[j] == k;
                if j < n {
                    assert(prev[j] == k);
                    assert(prev.contains(k));
                    let i = choose|i: int| 0 <= i < old_out.len() && old_out[i].key@ == k;
                    assert(out@[i].key@ == k);
                } else {
                    assert(out@[pos as int].key@ == k);
                }
            }
        } else {
            proof {
                assert(!prev.contains(key@)) by {
                    if prev.contains(key@) {
                        let i = choose|i: int| 0 <= i < old_out.len() && old_out[i].key@ == key@;
                        assert(false);
                    }
                }
                lemma_occurrences_bound(prev, key@);
            }
            out.push(KeyCount { key: key.clone(), count: 1 });
            assert forall|i: int| 0 <= i < out.len() implies out@[i].count == occurrences(next, #[trigger] out@[i].key@) by {
                if i < old_out.len() {
                    assert(out@[i] == old_out[i]);
                }
            }
            assert forall|i: int| 0 <= i < out.len() implies next.contains(#[trigger] out@[i].key@) by {
                if i < old_out.len() {
                    assert(out@[i] == old_out[i]);
                    let j = choose|j: int| 0 <= j < prev.len() && prev[j] == old_out[i].key@;
                    assert(next[j] == prev[j]);
                } else {
                    assert(next[n as int] == key@);
                }
            }
            assert forall|k: Seq<char>| next.contains(k) implies exists|i: int| 0 <= i < out.len() && #[trigger] out@[i].key@ == k by {
                let j = choose|j: int| 0 <= j < next.len() && next[j] == k;
                if j < n {
                    assert(prev[j] == k);
                    assert(prev.contains(k));
                    let i = choose|i: int| 0 <= i < old_out.len() && old_out[i].key@ == k;
                    assert(out@[i] == old_out[i]);
                    assert(out@[i].key@ == k);
                } else {
                    assert(out@[old_out.len() as int].key@ == k);
                }
            }
            assert forall|i: int, j: int| 0 <= i < j < out.len() implies out@[i].key@ != out@[j].key@ by {
                if j < old_out.len() {
                    assert(out@[i] == old_out[i]);
                    assert(out@[j] == old_out[j]);
                } else {
                    assert(out@[i] == old_out[i]);
                }
            }
        }
        n += 1;
    }
    assert(all.subrange(0, keys.len() as int) == all);
    out
}

} // verus!
