//! The order of strings (`String`'s `Ord`: lexicographic by character, as
//! UTF-8 bytes order them), and sorted, duplicate-free string lists.

use vstd::prelude::*;
use crate::text::{owned, str_chars};

verus! {

/// `a` sorts strictly before `b`.
pub open spec fn lex_lt(a: Seq<char>, b: Seq<char>) -> bool
    decreases a.len(),
{
    if a.len() == 0 {
        b.len() > 0
    } else if b.len() == 0 {
        false
    } else if a[0] < b[0] {
        true
    } else if a[0] > b[0] {
        false
    } else {
        lex_lt(a.drop_first(), b.drop_first())
    }
}

/// Strict order is irreflexive, and any two different strings are ordered.
pub proof fn lemma_lex_total(a: Seq<char>, b: Seq<char>)
    ensures
        !lex_lt(a, a),
        a != b ==> (lex_lt(a, b) || lex_lt(b, a)),
        !(lex_lt(a, b) && lex_lt(b, a)),
    decreases a.len(),
{
    if a.len() > 0 && b.len() > 0 {
        lemma_lex_total(a.drop_first(), b.drop_first());
        lemma_lex_total(a.drop_first(), a.drop_first());
        if a != b && a[0] == b[0] {
            assert(a.drop_first() != b.drop_first()) by {
                if a.drop_first() == b.drop_first() {
                    assert(a =~= seq![a[0]] + a.drop_first());
                    assert(b =~= seq![b[0]] + b.drop_first());
                }
            }
        }
    } else if a.len() > 0 {
        lemma_lex_total(a.drop_first(), a.drop_first());
    } else if b.len() == 0 {
        assert(a =~= b);
    }
}

/// Strict order is transitive.
pub proof fn lemma_lex_trans(a: Seq<char>, b: Seq<char>, c: Seq<char>)
    requires
        lex_lt(a, b),
        lex_lt(b, c),
    ensures
        lex_lt(a, c),
    decreases a.len(),
{
    if a.len() > 0 && b.len() > 0 && c.len() > 0 {
        if a[0] == b[0] && b[0] == c[0] {
            lemma_lex_trans(a.drop_first(), b.drop_first(), c.drop_first());
        }
    }
}

/// Whether `a` sorts strictly before `b`.
pub fn chars_lt(a: &Vec<char>, b: &Vec<char>) -> (r: bool)
    ensures
        r == lex_lt(a@, b@),
{
    let mut i: usize = 0;
    proof {
        assert(a@.subrange(0, a@.len() as int) =~= a@);
        assert(b@.subrange(0, b@.len() as int) =~= b@);
    }
    while i < a.len() && i < b.len() && a[i] == b[i]
        invariant
            i <= a.len(),
            i <= b.len(),
            lex_lt(a@, b@) == lex_lt(a@.subrange(i as int, a@.len() as int), b@.subrange(i as int, b@.len() as int)),
        decreases a.len() - i,
    {
        proof {
            let sa = a@.subrange(i as int, a@.len() as int);
            let sb = b@.subrange(i as int, b@.len() as int);
            assert(sa.drop_first() =~= a@.subrange(i + 1, a@.len() as int));
            assert(sb.drop_first() =~= b@.subrange(i + 1, b@.len() as int));
        }
        i += 1;
    }
    proof {
        let sa = a@.subrange(i as int, a@.len() as int);
        let sb = b@.subrange(i as int, b@.len() as int);
        if i < a.len() {
            assert(sa[0] == a@[i as int]);
        }
        if i < b.len() {
            assert(sb[0] == b@[i as int]);
        }
    }
    if i == a.len() {
        i < b.len()
    } else if i == b.len() {
        false
    } else {
        a[i] < b[i]
    }
}

/// Whether string `a` sorts strictly before string `b`.
pub fn str_lt(a: &str, b: &str) -> (r: bool)
    ensures
        r == lex_lt(a@, b@),
{
    chars_lt(&str_chars(a), &str_chars(b))
}

/// The list is in strictly increasing order (sorted, no duplicates).
pub open spec fn strictly_sorted(s: Seq<Seq<char>>) -> bool {
    forall|i: int, j: int| 0 <= i < j < s.len() ==> lex_lt(#[trigger] s[i], #[trigger] s[j])
}

proof fn lemma_sorted_insert(s: Seq<Seq<char>>, k: int, x: Seq<char>)
    requires
        strictly_sorted(s),
        0 <= k <= s.len(),
        forall|i: int| 0 <= i < k ==> lex_lt(#[trigger] s[i], x),
        forall|i: int| k <= i < s.len() ==> lex_lt(x, #[trigger] s[i]),
    ensures
        strictly_sorted(s.insert(k, x)),
{
    let t = s.insert(k, x);
    assert forall|i: int, j: int| 0 <= i < j < t.len() implies lex_lt(#[trigger] t[i], #[trigger] t[j]) by {
        if i < k && j < k {
        } else if i < k && j == k {
        } else if i < k && j > k {
            assert(t[j] == s[j - 1]);
        } else if i == k {
            assert(t[j] == s[j - 1]);
        } else {
            assert(t[i] == s[i - 1]);
            assert(t[j] == s[j - 1]);
        }
    }
}

/// Inserts `x` into a strictly sorted list unless it is already there.
pub fn insert_sorted_unique(v: &mut Vec<String>, x: &str)
    requires
        strictly_sorted(old(v).deep_view()),
    ensures
        strictly_sorted(final(v).deep_view()),
        final(v).deep_view().to_set() == old(v).deep_view().to_set().insert(x@),
{
    let ghost s0 = v.deep_view();
    let mut k: usize = 0;
    while k < v.len() && str_lt(v[k].as_str(), x)
        invariant
            k <= v.len(),
            v.deep_view() == s0,
            strictly_sorted(s0),
            forall|i: int| 0 <= i < k ==> lex_lt(#[trigger] s0[i], x@),
        decreases v.len() - k,
    {
        proof {
            assert(s0[k as int] == v@[k as int]@);
        }
        k += 1;
    }
    if k < v.len() && !str_lt(x, v[k].as_str()) {
        proof {
            assert(s0[k as int] == v@[k as int]@);
            lemma_lex_total(s0[k as int], x@);
            assert(s0[k as int] == x@);
            assert(s0.to_set().insert(x@) =~= s0.to_set());
        }
        return;
    }
    proof {
        assert forall|i: int| k <= i < s0.len() implies lex_lt(x@, #[trigger] s0[i]) by {
            assert(s0[k as int] == v@[k as int]@);
            lemma_lex_total(x@, s0[k as int]);
            if i > k {
                lemma_lex_trans(x@, s0[k as int], s0[i]);
            }
        }
        lemma_sorted_insert(s0, k as int, x@);
    }
    let item = owned(x);
    v.insert(k, item);
    proof {
        assert(v.deep_view() =~= s0.insert(k as int, x@));
        assert(s0.insert(k as int, x@).to_set() =~= s0.to_set().insert(x@)) by {
            let t = s0.insert(k as int, x@);
            assert forall|y: Seq<char>| t.to_set().contains(y) <==> s0.to_set().insert(x@).contains(y) by {
                if t.contains(y) {
                    let j = choose|j: int| 0 <= j < t.len() && t[j] == y;
                    if j < k {
                        assert(s0[j] == y);
                    } else if j > k {
                        assert(s0[j - 1] == y);
                    }
                }
                if s0.contains(y) {
                    let j = choose|j: int| 0 <= j < s0.len() && s0[j] == y;
                    if j < k {
                        assert(t[j] == y);
                    } else {
                        assert(t[j + 1] == y);
                    }
                }
                if y == x@ {
                    assert(t[k as int] == y);
                }
            }
        }
    }
}

/// The distinct strings of a list, in increasing order.
pub fn sorted_distinct(items: &Vec<String>) -> (out: Vec<String>)
    ensures
        strictly_sorted(out.deep_view()),
        out.deep_view().to_set() == items.deep_view().to_set(),
{
    let mut out: Vec<String> = Vec::new();
    proof {
        assert(out.deep_view() =~= Seq::<Seq<char>>::empty());
    }
    let mut i: usize = 0;
    while i < items.len()
        invariant
            i <= items.len(),
            strictly_sorted(out.deep_view()),
            out.deep_view().to_set() == items.deep_view().subrange(0, i as int).to_set(),
        decreases items.len() - i,
    {
        insert_sorted_unique(&mut out, items[i].as_str());
        proof {
            let sub = items.deep_view().subrange(0, i + 1);
            assert(sub =~= items.deep_view().subrange(0, i as int).push(items@[i as int]@));
            assert(sub.to_set() =~= items.deep_view().subrange(0, i as int).to_set().insert(items@[i as int]@)) by {
                let p = items.deep_view().subrange(0, i as int);
                assert forall|y: Seq<char>| sub.to_set().contains(y) <==> p.to_set().insert(items@[i as int]@).contains(y) by {
                    if sub.contains(y) {
                        let j = choose|j: int| 0 <= j < sub.len() && sub[j] == y;
                        if j < i {
                            assert(p[j] == y);
                        }
                    }
                    if p.contains(y) {
                        let j = choose|j: int| 0 <= j < p.len() && p[j] == y;
                        assert(sub[j] == y);
                    }
                    if y == items@[i as int]@ {
                        assert(sub[i as int] == y);
                    }
                }
            }
        }
        i += 1;
    }
    proof {
        assert(items.deep_view().subrange(0, items.deep_view().len() as int) =~= items.deep_view());
    }
    out
}

/// Law: a strictly sorted list is determined by its elements: two strictly
/// sorted lists with the same elements are equal.
pub proof fn law_sorted_list_is_unique(a: Seq<Seq<char>>, b: Seq<Seq<char>>)
    requires
        strictly_sorted(a),
        strictly_sorted(b),
        a.to_set() == b.to_set(),
    ensures
        a == b,
    decreases a.len() + b.len(),
{
    if a.len() == 0 {
        if b.len() > 0 {
            assert(b.to_set().contains(b[0]));
            assert(!a.to_set().contains(b[0]));
        }
        assert(a =~= b);
    } else if b.len() == 0 {
        assert(a.to_set().contains(a[0]));
    } else {
        let x = a.last();
        let y = b.last();
        assert(a.to_set().contains(x));
        assert(b.to_set().contains(y));
        assert(b.contains(x));
        assert(a.contains(y));
        let ix = choose|i: int| 0 <= i < b.len() && b[i] == x;
        let iy = choose|i: int| 0 <= i < a.len() && a[i] == y;
        if x != y {
            lemma_lex_total(x, y);
            if lex_lt(x, y) {
                if iy < a.len() - 1 {
                    assert(lex_lt(a[iy], a[a.len() - 1]));
                    lemma_lex_total(x, y);
                } else {
                    assert(a[iy] == x);
                }
            } else {
                if ix < b.len() - 1 {
                    assert(lex_lt(b[ix], b[b.len() - 1]));
                    lemma_lex_total(x, y);
                } else {
                    assert(b[ix] == y);
                }
            }
        }
        assert(x == y);
        let a2 = a.drop_last();
        let b2 = b.drop_last();
        assert forall|i: int, j: int| 0 <= i < j < a2.len() implies lex_lt(#[trigger] a2[i], #[trigger] a2[j]) by {
            assert(a2[i] == a[i] && a2[j] == a[j]);
        }
        assert forall|i: int, j: int| 0 <= i < j < b2.len() implies lex_lt(#[trigger] b2[i], #[trigger] b2[j]) by {
            assert(b2[i] == b[i] && b2[j] == b[j]);
        }
        assert(a2.to_set() =~= b2.to_set()) by {
            assert forall|z: Seq<char>| a2.to_set().contains(z) <==> b2.to_set().contains(z) by {
                if a2.contains(z) {
                    let i = choose|i: int| 0 <= i < a2.len() && a2[i] == z;
                    assert(a[i] == z);
                    assert(lex_lt(a[i], a[a.len() - 1]));
                    lemma_lex_total(z, x);
                    assert(a.to_set().contains(z));
                    assert(b.contains(z));
                    let k = choose|k: int| 0 <= k < b.len() && b[k] == z;
                    if k == b.len() - 1 {
                        assert(z == y);
                    }
                    assert(b2[k] == z);
                }
                if b2.contains(z) {
                    let i = choose|i: int| 0 <= i < b2.len() && b2[i] == z;
                    assert(b[i] == z);
                    assert(lex_lt(b[i], b[b.len() - 1]));
                    lemma_lex_total(z, y);
                    assert(b.to_set().contains(z));
                    assert(a.contains(z));
                    let k = choose|k: int| 0 <= k < a.len() && a[k] == z;
                    if k == a.len() - 1 {
                        assert(z == x);
                    }
                    assert(a2[k] == z);
                }
            }
        }
        law_sorted_list_is_unique(a2, b2);
        assert(a =~= a2.push(x));
        assert(b =~= b2.push(y));
    }
}

} // verus!
