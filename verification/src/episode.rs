//! The Arandur episode ledger: every appended episode takes the next
//! sequence number, above every number already recorded.

use vstd::prelude::*;
use crate::text::{chars_to_string, decimal, push_decimal, push_str};

verus! {

/// The largest recorded sequence number (zero when none is recorded).
pub open spec fn max_sequence(seqs: Seq<Option<u64>>) -> nat
    decreases seqs.len(),
{
    if seqs.len() == 0 {
        0
    } else {
        let prev = max_sequence(seqs.drop_last());
        match seqs.last() {
            Some(s) => if s > prev { s as nat } else { prev },
            None => prev,
        }
    }
}

/// The sequence number of the next episode: one past the larger of the
/// largest recorded number and the number of records, saturating at the
/// largest `u64`.
pub open spec fn next_sequence(seqs: Seq<Option<u64>>) -> nat {
    let base = if max_sequence(seqs) >= seqs.len() { max_sequence(seqs) } else { seqs.len() };
    if base >= u64::MAX { u64::MAX as nat } else { base + 1 }
}

proof fn lemma_max_sequence_bounds(seqs: Seq<Option<u64>>)
    ensures
        max_sequence(seqs) <= u64::MAX,
        forall|i: int| 0 <= i < seqs.len() && (#[trigger] seqs[i]) is Some ==> seqs[i]->0 <= max_sequence(seqs),
    decreases seqs.len(),
{
    if seqs.len() > 0 {
        lemma_max_sequence_bounds(seqs.drop_last());
        assert forall|i: int| 0 <= i < seqs.len() && (#[trigger] seqs[i]) is Some implies seqs[i]->0 <= max_sequence(seqs) by {
            if i < seqs.len() - 1 {
                assert(seqs[i] == seqs.drop_last()[i]);
            }
        }
    }
}

/// Computes the next episode sequence number from the sequence numbers the
/// ledger's records carry (`None` for a record without one).
pub fn next_episode_sequence(seqs: &Vec<Option<u64>>) -> (n: u64)
    ensures
        n == next_sequence(seqs@),
{
    let mut m: u64 = 0;
    let mut i: usize = 0;
    while i < seqs.len()
        invariant
            i <= seqs.len(),
            m == max_sequence(seqs@.subrange(0, i as int)),
        decreases seqs.len() - i,
    {
        match seqs[i] {
            Some(s) => {
                if s > m {
                    m = s;
                }
            },
            None => {},
        }
        proof {
            assert(seqs@.subrange(0, i + 1).drop_last() =~= seqs@.subrange(0, i as int));
        }
        i += 1;
    }
    proof {
        assert(seqs@.subrange(0, seqs@.len() as int) =~= seqs@);
    }
    let count: u64 = seqs.len() as u64;
    let base = if m >= count { m } else { count };
    if base == u64::MAX { u64::MAX } else { base + 1 }
}

/// Law: while no recorded number has reached the largest `u64`, the next
/// sequence number is above every recorded number and above the number of
/// records, so appending it keeps sequence numbers distinct.
pub proof fn law_next_sequence_exceeds_all(seqs: Seq<Option<u64>>)
    requires
        seqs.len() < u64::MAX,
        forall|i: int| 0 <= i < seqs.len() && (#[trigger] seqs[i]) is Some ==> seqs[i]->0 < u64::MAX,
    ensures
        forall|i: int| 0 <= i < seqs.len() && (#[trigger] seqs[i]) is Some ==> seqs[i]->0 < next_sequence(seqs),
        next_sequence(seqs) > seqs.len(),
{
    lemma_max_sequence_bounds(seqs);
    lemma_max_is_recorded(seqs);
}

proof fn lemma_max_is_recorded(seqs: Seq<Option<u64>>)
    ensures
        max_sequence(seqs) == 0 || exists|i: int| 0 <= i < seqs.len() && (#[trigger] seqs[i]) == Some(max_sequence(seqs) as u64),
    decreases seqs.len(),
{
    if seqs.len() > 0 {
        lemma_max_is_recorded(seqs.drop_last());
        let prev = max_sequence(seqs.drop_last());
        if max_sequence(seqs) != 0 && max_sequence(seqs) == prev {
            let i = choose|i: int| 0 <= i < seqs.drop_last().len() && (#[trigger] seqs.drop_last()[i]) == Some(prev as u64);
            assert(seqs[i] == seqs.drop_last()[i]);
        }
        if max_sequence(seqs) != prev {
            assert(seqs[seqs.len() - 1] == Some(max_sequence(seqs) as u64));
        }
    }
}

/// The episode id: `arandur_episode_<time>_<sequence>`.
pub open spec fn episode_id_text(time: Seq<char>, sequence: nat) -> Seq<char> {
    "arandur_episode_"@ + time + "_"@ + decimal(sequence)
}

/// Builds the id of an episode recorded at `time` (the clock's
/// nanoseconds, or microseconds, as text) with the given sequence number.
pub fn episode_id(time: &str, sequence: u64) -> (s: String)
    ensures
        s@ == episode_id_text(time@, sequence as nat),
{
    let mut out: Vec<char> = Vec::new();
    push_str(&mut out, "arandur_episode_");
    push_str(&mut out, time);
    push_str(&mut out, "_");
    push_decimal(&mut out, sequence);
    chars_to_string(out.as_slice())
}

} // verus!
