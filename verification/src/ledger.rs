//! Append-only JSONL ledgers keyed by a record id: which pending records
//! are new, and what a ledger looks like after an idempotent append.

use vstd::prelude::*;

verus! {

/// Every id that occurs (as `Some`) among the first `n` pending records.
pub open spec fn pending_ids_before(pending: Seq<Option<Seq<char>>>, n: int) -> Set<Seq<char>> {
    Set::new(|id: Seq<char>| exists|j: int| 0 <= j < n && j < pending.len() && pending[j] == Some(id))
}

/// Whether pending record `i` is appended: it carries an id that is neither
/// in the ledger already nor carried by an earlier pending record.
pub open spec fn is_fresh_at(
    existing: Seq<Seq<char>>,
    pending: Seq<Option<Seq<char>>>,
    i: int,
) -> bool {
    &&& 0 <= i < pending.len()
    &&& pending[i] is Some
    &&& !existing.contains(pending[i]->0)
    &&& !pending_ids_before(pending, i).contains(pending[i]->0)
}

/// Indices (in order) of the pending records that an append writes.
pub open spec fn fresh_indices(
    existing: Seq<Seq<char>>,
    pending: Seq<Option<Seq<char>>>,
) -> Seq<int>
    decreases pending.len(),
{
    if pending.len() == 0 {
        Seq::empty()
    } else {
        let prev = fresh_indices(existing, pending.drop_last());
        let i = pending.len() - 1;
        if is_fresh_at(existing, pending, i) {
            prev.push(i)
        } else {
            prev
        }
    }
}

/// The ids of a ledger after the append: old ids, then the appended ones.
pub open spec fn ledger_after(
    existing: Seq<Seq<char>>,
    pending: Seq<Option<Seq<char>>>,
) -> Seq<Seq<char>> {
    existing + fresh_indices(existing, pending).map_values(|i: int| pending[i]->0)
}

proof fn lemma_is_fresh_prefix(
    existing: Seq<Seq<char>>,
    pending: Seq<Option<Seq<char>>>,
    k: int,
    i: int,
)
    requires
        0 <= i < k <= pending.len(),
    ensures
        is_fresh_at(existing, pending.subrange(0, k), i) == is_fresh_at(existing, pending, i),
{
    let p = pending.subrange(0, k);
    assert(pending_ids_before(p, i) =~= pending_ids_before(pending, i)) by {
        assert forall|id: Seq<char>| pending_ids_before(p, i).contains(id)
            implies pending_ids_before(pending, i).contains(id) by {
            let j = choose|j: int| 0 <= j < i && j < p.len() && p[j] == Some(id);
            assert(pending[j] == Some(id));
        }
        assert forall|id: Seq<char>| pending_ids_before(pending, i).contains(id)
            implies pending_ids_before(p, i).contains(id) by {
            let j = choose|j: int| 0 <= j < i && j < pending.len() && pending[j] == Some(id);
            assert(p[j] == Some(id));
        }
    }
}

/// `fresh_indices` lists, in increasing order, exactly the fresh positions.
pub proof fn lemma_fresh_indices(existing: Seq<Seq<char>>, pending: Seq<Option<Seq<char>>>)
    ensures
        forall|a: int, b: int|
            0 <= a < b < fresh_indices(existing, pending).len() ==> fresh_indices(existing, pending)[a]
                < fresh_indices(existing, pending)[b],
        forall|a: int|
            0 <= a < fresh_indices(existing, pending).len() ==> is_fresh_at(
                existing,
                pending,
                #[trigger] fresh_indices(existing, pending)[a],
            ),
        forall|i: int|
            is_fresh_at(existing, pending, i) ==> fresh_indices(existing, pending).contains(i),
    decreases pending.len(),
{
    if pending.len() > 0 {
        let prev = pending.drop_last();
        lemma_fresh_indices(existing, prev);
        let n = pending.len() - 1;
        assert(prev == pending.subrange(0, n));
        assert forall|i: int| 0 <= i < n implies is_fresh_at(existing, prev, i) == is_fresh_at(existing, pending, i) by {
            lemma_is_fresh_prefix(existing, pending, n, i);
        }
        let fi = fresh_indices(existing, pending);
        let fp = fresh_indices(existing, prev);
        assert forall|a: int| 0 <= a < fp.len() implies fp[a] < n by {
            assert(is_fresh_at(existing, prev, fp[a]));
        }
        assert forall|i: int| is_fresh_at(existing, pending, i) implies fi.contains(i) by {
            if i < n {
                assert(is_fresh_at(existing, prev, i));
                assert(fp.contains(i));
                let a = choose|a: int| 0 <= a < fp.len() && fp[a] == i;
                assert(fi[a] == i);
            } else {
                assert(fi[fi.len() - 1] == i);
            }
        }
        assert forall|a: int| 0 <= a < fi.len() implies is_fresh_at(existing, pending, #[trigger] fi[a]) by {
            if a < fp.len() {
                assert(fi[a] == fp[a]);
                assert(is_fresh_at(existing, prev, fp[a]));
            }
        }
    }
}

/// Every id carried by a pending record, or already in the ledger, is in
/// the ledger after the append.
proof fn lemma_ledger_after_covers(
    existing: Seq<Seq<char>>,
    pending: Seq<Option<Seq<char>>>,
)
    ensures
        forall|id: Seq<char>| existing.contains(id) ==> ledger_after(existing, pending).contains(id),
        forall|i: int|
            0 <= i < pending.len() && (#[trigger] pending[i]) is Some ==> ledger_after(
                existing,
                pending,
            ).contains(pending[i]->0),
    decreases pending.len(),
{
    let after = ledger_after(existing, pending);
    let fi = fresh_indices(existing, pending);
    lemma_fresh_indices(existing, pending);
    assert forall|id: Seq<char>| existing.contains(id) implies after.contains(id) by {
        let k = choose|k: int| 0 <= k < existing.len() && existing[k] == id;
        assert(after[k] == id);
    }
    assert forall|i: int| 0 <= i < pending.len() && (#[trigger] pending[i]) is Some
        implies after.contains(pending[i]->0) by {
        lemma_first_occurrence(existing, pending, i);
    }
}

/// For a pending record with an id, that id is either in the ledger or is
/// carried by some fresh record at or before it.
proof fn lemma_first_occurrence(
    existing: Seq<Seq<char>>,
    pending: Seq<Option<Seq<char>>>,
    i: int,
)
    requires
        0 <= i < pending.len(),
        pending[i] is Some,
    ensures
        ledger_after(existing, pending).contains(pending[i]->0),
    decreases i,
{
    let id = pending[i]->0;
    let after = ledger_after(existing, pending);
    let fi = fresh_indices(existing, pending);
    lemma_fresh_indices(existing, pending);
    if existing.contains(id) {
        let k = choose|k: int| 0 <= k < existing.len() && existing[k] == id;
        assert(after[k] == id);
    } else if pending_ids_before(pending, i).contains(id) {
        let j = choose|j: int| 0 <= j < i && j < pending.len() && pending[j] == Some(id);
        lemma_first_occurrence(existing, pending, j);
    } else {
        assert(is_fresh_at(existing, pending, i));
        assert(fi.contains(i));
        let a = choose|a: int| 0 <= a < fi.len() && fi[a] == i;
        assert(after[existing.len() + a] == id);
    }
}

/// Law (idempotent append): appending the same pending records to the
/// ledger that the first append produced writes nothing.
pub proof fn law_append_is_idempotent(
    existing: Seq<Seq<char>>,
    pending: Seq<Option<Seq<char>>>,
)
    ensures
        fresh_indices(ledger_after(existing, pending), pending).len() == 0,
        ledger_after(ledger_after(existing, pending), pending) == ledger_after(existing, pending),
{
    let after = ledger_after(existing, pending);
    lemma_ledger_after_covers(existing, pending);
    lemma_fresh_indices(after, pending);
    let fi2 = fresh_indices(after, pending);
    if fi2.len() > 0 {
        let i = fi2[0];
        assert(is_fresh_at(after, pending, i));
        assert(false);
    }
    assert(ledger_after(after, pending) =~= after);
}

/// Law (no duplicates): appending to a ledger whose ids are distinct leaves
/// them distinct.
pub proof fn law_append_keeps_ids_distinct(
    existing: Seq<Seq<char>>,
    pending: Seq<Option<Seq<char>>>,
)
    requires
        existing.no_duplicates(),
    ensures
        ledger_after(existing, pending).no_duplicates(),
{
    let after = ledger_after(existing, pending);
    let fi = fresh_indices(existing, pending);
    lemma_fresh_indices(existing, pending);
    assert forall|a: int, b: int| 0 <= a < after.len() && 0 <= b < after.len() && a != b
        implies after[a] != after[b] by {
        if a < existing.len() && b < existing.len() {
        } else if a < existing.len() {
            let ib = fi[b - existing.len()];
            assert(is_fresh_at(existing, pending, ib));
            assert(existing[a] == existing[a]);
            assert(existing.contains(existing[a]));
        } else if b < existing.len() {
            let ia = fi[a - existing.len()];
            assert(is_fresh_at(existing, pending, ia));
            assert(existing.contains(existing[b]));
        } else {
            let (x, y) = if a < b { (a, b) } else { (b, a) };
            let ix = fi[x - existing.len()];
            let iy = fi[y - existing.len()];
            assert(ix < iy);
            assert(is_fresh_at(existing, pending, iy));
            assert(pending_ids_before(pending, iy).contains(pending[ix]->0));
        }
    }
}

fn contains_id(ids: &Vec<String>, id: &String) -> (found: bool)
    ensures
        found == ids.deep_view().contains(id@),
{
    let mut i: usize = 0;
    while i < ids.len()
        invariant
            i <= ids.len(),
            forall|j: int| 0 <= j < i ==> ids.deep_view()[j] != id@,
        decreases ids.len() - i,
    {
        if ids[i] == *id {
            assert(ids.deep_view()[i as int] == id@);
            return true;
        }
        i += 1;
    }
    false
}

/// Selects which pending records an idempotent append writes: those with an
/// id that is not in the ledger yet and not repeated from an earlier pending
/// record. Records without an id are skipped. Returns their indices, in order.
pub fn select_new_records_by_id(existing_ids: &Vec<String>, pending_ids: &Vec<Option<String>>) -> (chosen: Vec<usize>)
    ensures
        chosen@.map_values(|i: usize| i as int) == fresh_indices(
            existing_ids.deep_view(),
            pending_ids.deep_view(),
        ),
{
    let ghost existing = existing_ids.deep_view();
    let ghost pending = pending_ids.deep_view();
    let mut seen: Vec<String> = existing_ids.clone();
    let mut chosen: Vec<usize> = Vec::new();
    let mut i: usize = 0;
    assert(seen.deep_view() == existing);
    while i < pending_ids.len()
        invariant
            i <= pending_ids.len(),
            pending == pending_ids.deep_view(),
            existing == existing_ids.deep_view(),
            pending.len() == pending_ids.len(),
            chosen@.map_values(|k: usize| k as int) == fresh_indices(existing, pending.subrange(0, i as int)),
            forall|id: Seq<char>| seen.deep_view().contains(id) <==> (existing.contains(id)
                || pending_ids_before(pending, i as int).contains(id)),
        decreases pending_ids.len() - i,
    {
        let ghost prefix = pending.subrange(0, i as int);
        let ghost next = pending.subrange(0, i + 1);
        assert(next.drop_last() == prefix);
        proof {
            lemma_is_fresh_prefix(existing, pending, i + 1, i as int);
        }
        let ghost old_seen = seen.deep_view();
        proof {
            assert forall|x: Seq<char>| #[trigger] pending_ids_before(pending, i + 1).contains(x)
                <==> (pending_ids_before(pending, i as int).contains(x) || pending[i as int] == Some(x)) by {
                if pending_ids_before(pending, i + 1).contains(x) {
                    let j = choose|j: int| 0 <= j < i + 1 && j < pending.len() && pending[j] == Some(x);
                    if j < i {
                        assert(pending_ids_before(pending, i as int).contains(x));
                    }
                }
                if pending_ids_before(pending, i as int).contains(x) {
                    let j = choose|j: int| 0 <= j < i && j < pending.len() && pending[j] == Some(x);
                    assert(0 <= j < i + 1 && j < pending.len() && pending[j] == Some(x));
                }
                if pending[i as int] == Some(x) {
                    assert(0 <= i < i + 1 && i < pending.len() && pending[i as int] == Some(x));
                }
            }
        }
        match &pending_ids[i] {
            Some(id) => {
                assert(pending[i as int] == Some(id@));
                let known = contains_id(&seen, id);
                if !known {
                    assert(is_fresh_at(existing, pending, i as int));
                    chosen.push(i);
                    seen.push(id.clone());
                    assert(seen.deep_view() == old_seen.push(id@));
                    assert(chosen@.map_values(|k: usize| k as int) =~= fresh_indices(existing, next));
                    assert forall|x: Seq<char>| seen.deep_view().contains(x) <==> (old_seen.contains(x) || x == id@) by {
                        if seen.deep_view().contains(x) {
                            let k = choose|k: int| 0 <= k < seen.deep_view().len() && seen.deep_view()[k] == x;
                            if k < old_seen.len() {
                                assert(old_seen[k] == x);
                            }
                        }
                        if old_seen.contains(x) {
                            let k = choose|k: int| 0 <= k < old_seen.len() && old_seen[k] == x;
                            assert(seen.deep_view()[k] == x);
                        }
                        if x == id@ {
                            assert(seen.deep_view()[old_seen.len() as int] == x);
                        }
                    }
                } else {
                    assert(!is_fresh_at(existing, pending, i as int));
                    assert(old_seen.contains(id@));
                }
            },
            None => {
                assert(!is_fresh_at(existing, pending, i as int));
                assert(seen.deep_view() == old_seen);
            },
        }
        let ghost target = pending_ids_before(pending, i + 1);
        assert forall|x: Seq<char>| seen.deep_view().contains(x) <==> (existing.contains(x)
            || target.contains(x)) by {
            assert(old_seen.contains(x) <==> (existing.contains(x) || pending_ids_before(pending, i as int).contains(x)));
            assert(pending_ids_before(pending, i + 1).contains(x)
                <==> (pending_ids_before(pending, i as int).contains(x) || pending[i as int] == Some(x)));
        }
        i += 1;
        assert(target == pending_ids_before(pending, i as int));
        assert(chosen@.map_values(|k: usize| k as int) == fresh_indices(existing, pending.subrange(0, i as int)));
    }
    assert(pending.subrange(0, pending.len() as int) == pending);
    chosen
}

} // verus!
