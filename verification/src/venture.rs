//! Venture operating guidance: the next actions each evaluation
//! recommendation calls for, and the display limit of operating reports.

use vstd::prelude::*;
use crate::text::str_eq;

verus! {

/// The next actions for an evaluation recommendation.
pub open spec fn next_actions_of(recommendation: Seq<char>) -> Seq<Seq<char>> {
    if recommendation == "promote_to_review_gated_opportunity_brief"@ {
        seq![
            "create opportunity brief with cited evidence paths"@,
            "ask ORACLE to challenge assumptions"@,
            "queue bounded prototype or outreach task only after review"@,
        ]
    } else if recommendation == "continue_research_before_commitment"@ {
        seq![
            "ingest competitor/customer/problem evidence"@,
            "run venture evaluate again with a narrower query"@,
            "avoid spend or launch commitment until review gate passes"@,
        ]
    } else {
        seq![
            "ingest more source material through ATHENA"@,
            "capture operator assumptions as Mnemosyne memory seeds"@,
            "rerun evaluation after evidence coverage improves"@,
        ]
    }
}

/// The next actions an evaluation recommendation calls for: a promotion
/// drafts a challenged brief, continued research gathers evidence first,
/// and anything else asks for more source material.
pub fn venture_next_actions(recommendation: &str) -> (v: Vec<&'static str>)
    ensures
        v@.map_values(|s: &str| s@) == next_actions_of(recommendation@),
{
    let v = if str_eq(recommendation, "promote_to_review_gated_opportunity_brief") {
        vec![
            "create opportunity brief with cited evidence paths",
            "ask ORACLE to challenge assumptions",
            "queue bounded prototype or outreach task only after review",
        ]
    } else if str_eq(recommendation, "continue_research_before_commitment") {
        vec![
            "ingest competitor/customer/problem evidence",
            "run venture evaluate again with a narrower query",
            "avoid spend or launch commitment until review gate passes",
        ]
    } else {
        vec![
            "ingest more source material through ATHENA",
            "capture operator assumptions as Mnemosyne memory seeds",
            "rerun evaluation after evidence coverage improves",
        ]
    };
    proof {
        assert(v@.map_values(|s: &str| s@) =~= next_actions_of(recommendation@));
    }
    v
}

/// The number of items a report shows: the limit, but at least one.
pub open spec fn display_limit(limit: nat) -> nat {
    if limit < 1 { 1 } else { limit }
}

/// Cuts a report list to its display limit (at least one item is kept
/// when there is one).
pub fn truncate_to_display_limit<T>(items: &mut Vec<T>, limit: usize)
    ensures
        final(items)@ == if old(items)@.len() <= display_limit(limit as nat) {
            old(items)@
        } else {
            old(items)@.subrange(0, display_limit(limit as nat) as int)
        },
{
    let keep: usize = if limit < 1 { 1 } else { limit };
    items.truncate(keep);
}

/// Law (venture guidance and display): every recommendation calls for
/// three next actions, a promotion first of all for an opportunity brief
/// with cited evidence; a report shows at least one item, and exactly the
/// limit when the limit is positive.
pub proof fn law_venture_guidance(recommendation: Seq<char>, limit: nat)
    ensures
        next_actions_of(recommendation).len() == 3,
        recommendation == "promote_to_review_gated_opportunity_brief"@
            ==> next_actions_of(recommendation)[0] == "create opportunity brief with cited evidence paths"@,
        display_limit(limit) >= 1,
        limit > 0 ==> display_limit(limit) == limit,
{
}

} // verus!
