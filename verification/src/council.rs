//! The CEO council runtime: memory-write intents of a recorded session,
//! session summaries, and human-augmentation approvals.

use vstd::prelude::*;
use crate::hermes_projection::{count_text, count_text_equal};
use crate::tally::{KeyCount, is_tally_of, tally};
use crate::text::{chars_to_string, decimal, owned, push_decimal, push_str, str_chars, str_eq};

verus! {

/// A memory lane whose writes expire.
pub open spec fn is_expiring_lane(lane: Seq<char>) -> bool {
    lane == "ceo_private_working"@ || lane == "episodic"@
}

/// A memory lane whose writes need promotion.
pub open spec fn needs_promotion(lane: Seq<char>) -> bool {
    lane == "ceo_private_working"@ || lane == "institutional"@
}

/// One memory-write intent of a council session.
pub struct MemoryWriteIntent {
    pub intent_id: String,
    pub lane: String,
    pub content: String,
    /// The write expires (it is durable otherwise).
    pub expiring: bool,
    pub promotion_required: bool,
    pub approved: bool,
}

/// The intent owed for write `idx` of a session.
pub open spec fn intent_of(
    session_id: Seq<char>,
    lanes: Seq<Seq<char>>,
    writes: Seq<Seq<char>>,
    promoted: bool,
    idx: int,
    m: MemoryWriteIntent,
) -> bool {
    let lane = if idx < lanes.len() { lanes[idx] } else { "episodic"@ };
    &&& m.intent_id@ == session_id + "_mw_"@ + decimal((idx + 1) as nat)
    &&& m.lane@ == lane
    &&& m.content@ == writes[idx]
    &&& m.expiring == is_expiring_lane(lane)
    &&& m.promotion_required == needs_promotion(lane)
    &&& m.approved == (!needs_promotion(lane) || promoted)
}

/// Plans the memory-write intents of a session: write `i` goes to lane `i`
/// (episodic when fewer lanes are named); private working and institutional
/// lanes need promotion, and a write that needs it is approved only when
/// the session promoted private memory.
pub fn plan_memory_write_intents(
    session_id: &str,
    memory_lanes: &Vec<String>,
    memory_writes: &Vec<String>,
    promoted_private_memory: bool,
) -> (out: Vec<MemoryWriteIntent>)
    requires
        memory_writes@.len() < u64::MAX,
    ensures
        out@.len() == memory_writes@.len(),
        forall|i: int| 0 <= i < out@.len() ==> intent_of(
            session_id@,
            memory_lanes.deep_view(),
            memory_writes.deep_view(),
            promoted_private_memory,
            i,
            #[trigger] out@[i],
        ),
{
    let mut out: Vec<MemoryWriteIntent> = Vec::new();
    let mut i: usize = 0;
    while i < memory_writes.len()
        invariant
            i <= memory_writes.len(),
            memory_writes@.len() < u64::MAX,
            out@.len() == i,
            forall|k: int| 0 <= k < i ==> intent_of(
                session_id@,
                memory_lanes.deep_view(),
                memory_writes.deep_view(),
                promoted_private_memory,
                k,
                #[trigger] out@[k],
            ),
        decreases memory_writes.len() - i,
    {
        let lane = if i < memory_lanes.len() { owned(memory_lanes[i].as_str()) } else { owned("episodic") };
        let l = lane.as_str();
        let expiring = str_eq(l, "ceo_private_working") || str_eq(l, "episodic");
        let promo = str_eq(l, "ceo_private_working") || str_eq(l, "institutional");
        let mut id: Vec<char> = Vec::new();
        push_str(&mut id, session_id);
        push_str(&mut id, "_mw_");
        push_decimal(&mut id, (i + 1) as u64);
        proof {
            if i < memory_lanes.len() {
                assert(memory_lanes.deep_view()[i as int] == memory_lanes@[i as int]@);
            }
            assert(memory_writes.deep_view()[i as int] == memory_writes@[i as int]@);
        }
        let m = MemoryWriteIntent {
            intent_id: chars_to_string(id.as_slice()),
            lane,
            content: owned(memory_writes[i].as_str()),
            expiring,
            promotion_required: promo,
            approved: !promo || promoted_private_memory,
        };
        out.push(m);
        i += 1;
    }
    out
}

/// Law: no write that needs promotion is approved unless the session
/// promoted private memory, and every write that needs none is approved.
pub proof fn law_unpromoted_private_writes_stay_unapproved(
    session_id: Seq<char>,
    lanes: Seq<Seq<char>>,
    writes: Seq<Seq<char>>,
    promoted: bool,
    intents: Seq<MemoryWriteIntent>,
)
    requires
        intents.len() == writes.len(),
        forall|i: int| 0 <= i < intents.len() ==> intent_of(session_id, lanes, writes, promoted, i, #[trigger] intents[i]),
    ensures
        forall|i: int| 0 <= i < intents.len() && (#[trigger] intents[i]).promotion_required && !promoted ==> !intents[i].approved,
        forall|i: int| 0 <= i < intents.len() && !(#[trigger] intents[i]).promotion_required ==> intents[i].approved,
{
}

/// What the council summary reads of one session.
pub struct CouncilSessionFacts {
    pub triad_required: Option<bool>,
    pub loop_class: Option<String>,
    pub human_escalated: Option<bool>,
    pub promoted_private_memory: Option<bool>,
}

/// How many sessions satisfy a predicate.
pub open spec fn count_sessions(s: Seq<CouncilSessionFacts>, p: spec_fn(CouncilSessionFacts) -> bool) -> nat
    decreases s.len(),
{
    if s.len() == 0 { 0 } else { count_sessions(s.drop_last(), p) + if p(s.last()) { 1nat } else { 0nat } }
}

/// The council runtime summary.
pub struct CouncilSummary {
    pub total_sessions: usize,
    pub triad_sessions: usize,
    pub lightweight_sessions: usize,
    pub human_escalations: usize,
    pub promoted_private_memory_total: usize,
    /// The dashboard highlights escalations.
    pub highlight_escalations: bool,
}

/// Summarizes the recorded council sessions.
pub fn summarize_council_sessions(sessions: &Vec<CouncilSessionFacts>) -> (s: CouncilSummary)
    ensures
        s.total_sessions == sessions@.len(),
        s.triad_sessions == count_sessions(sessions@, |x: CouncilSessionFacts| x.triad_required == Some(true)),
        s.lightweight_sessions == count_sessions(sessions@, |x: CouncilSessionFacts| match x.loop_class {
            Some(c) => c@ == "lightweight"@,
            None => false,
        }),
        s.human_escalations == count_sessions(sessions@, |x: CouncilSessionFacts| x.human_escalated == Some(true)),
        s.promoted_private_memory_total == count_sessions(sessions@, |x: CouncilSessionFacts| x.promoted_private_memory == Some(true)),
        s.highlight_escalations == (s.human_escalations > 0),
{
    let mut t: usize = 0;
    let mut l: usize = 0;
    let mut h: usize = 0;
    let mut p: usize = 0;
    let mut i: usize = 0;
    while i < sessions.len()
        invariant
            i <= sessions.len(),
            t <= i && l <= i && h <= i && p <= i,
            t == count_sessions(sessions@.subrange(0, i as int), |x: CouncilSessionFacts| x.triad_required == Some(true)),
            l == count_sessions(sessions@.subrange(0, i as int), |x: CouncilSessionFacts| match x.loop_class {
                Some(c) => c@ == "lightweight"@,
                None => false,
            }),
            h == count_sessions(sessions@.subrange(0, i as int), |x: CouncilSessionFacts| x.human_escalated == Some(true)),
            p == count_sessions(sessions@.subrange(0, i as int), |x: CouncilSessionFacts| x.promoted_private_memory == Some(true)),
        decreases sessions.len() - i,
    {
        let s = &sessions[i];
        if s.triad_required == Some(true) {
            t += 1;
        }
        let light = match &s.loop_class {
            Some(c) => str_eq(c.as_str(), "lightweight"),
            None => false,
        };
        if light {
            l += 1;
        }
        if s.human_escalated == Some(true) {
            h += 1;
        }
        if s.promoted_private_memory == Some(true) {
            p += 1;
        }
        proof {
            assert(sessions@.subrange(0, i + 1).drop_last() =~= sessions@.subrange(0, i as int));
            assert(sessions@.subrange(0, i + 1).last() == sessions@[i as int]);
        }
        i += 1;
    }
    proof {
        assert(sessions@.subrange(0, sessions@.len() as int) =~= sessions@);
    }
    CouncilSummary {
        total_sessions: sessions.len(),
        triad_sessions: t,
        lightweight_sessions: l,
        human_escalations: h,
        promoted_private_memory_total: p,
        highlight_escalations: h > 0,
    }
}

/// Tallies names across sessions (validators invoked, memory lanes used,
/// or memory-write lanes), one list per session.
pub fn tally_across_sessions(per_session: &Vec<Vec<String>>) -> (out: Vec<KeyCount>)
    ensures
        is_tally_of(flatten_names(per_session@.map_values(|v: Vec<String>| v.deep_view())), out@),
{
    let mut all: Vec<String> = Vec::new();
    let mut i: usize = 0;
    while i < per_session.len()
        invariant
            i <= per_session.len(),
            all.deep_view() == flatten_names(per_session@.map_values(|v: Vec<String>| v.deep_view()).subrange(0, i as int)),
        decreases per_session.len() - i,
    {
        let ghost before = all.deep_view();
        let row = &per_session[i];
        let mut k: usize = 0;
        while k < row.len()
            invariant
                k <= row.len(),
                all.deep_view() == before + row.deep_view().subrange(0, k as int),
            decreases row.len() - k,
        {
            let s = owned(row[k].as_str());
            let ghost b2 = all.deep_view();
            all.push(s);
            proof {
                assert(all.deep_view() =~= b2.push(s@));
                assert(row.deep_view().subrange(0, k + 1) =~= row.deep_view().subrange(0, k as int).push(row@[k as int]@));
            }
            k += 1;
        }
        proof {
            let m = per_session@.map_values(|v: Vec<String>| v.deep_view());
            assert(row.deep_view().subrange(0, row.deep_view().len() as int) =~= row.deep_view());
            assert(m.subrange(0, i + 1).drop_last() =~= m.subrange(0, i as int));
            assert(m.subrange(0, i + 1).last() == row.deep_view());
        }
        i += 1;
    }
    proof {
        let m = per_session@.map_values(|v: Vec<String>| v.deep_view());
        assert(m.subrange(0, m.len() as int) =~= m);
    }
    tally(&all)
}

/// All names of all sessions, in order.
pub open spec fn flatten_names(rows: Seq<Seq<Seq<char>>>) -> Seq<Seq<char>>
    decreases rows.len(),
{
    if rows.len() == 0 { Seq::empty() } else { flatten_names(rows.drop_last()) + rows.last() }
}

/// The approval id of a human-augmentation approval: `ha_`, the decision
/// class with `/` and spaces made `_`, `_`, and the approval time in
/// seconds.
pub open spec fn approval_id_text(decision_class: Seq<char>, timestamp: int) -> Seq<char> {
    "ha_"@ + decision_class.map_values(|c: char| if c == '/' || c == ' ' { '_' } else { c }) + "_"@
        + crate::text::int_text(timestamp)
}

/// Builds a human-augmentation approval id.
pub fn human_augmentation_approval_id(decision_class: &str, timestamp: i64) -> (s: String)
    ensures
        s@ == approval_id_text(decision_class@, timestamp as int),
{
    let v = str_chars(decision_class);
    let mut out: Vec<char> = Vec::new();
    push_str(&mut out, "ha_");
    let ghost head = out@;
    let mut i: usize = 0;
    while i < v.len()
        invariant
            i <= v.len(),
            v@ == decision_class@,
            out@ == head + v@.subrange(0, i as int).map_values(|c: char| if c == '/' || c == ' ' { '_' } else { c }),
        decreases v.len() - i,
    {
        let c = v[i];
        out.push(if c == '/' || c == ' ' { '_' } else { c });
        proof {
            assert(v@.subrange(0, i + 1).map_values(|c: char| if c == '/' || c == ' ' { '_' } else { c }) =~= v@.subrange(
                0,
                i as int,
            ).map_values(|c: char| if c == '/' || c == ' ' { '_' } else { c }).push(if c == '/' || c == ' ' { '_' } else { c }));
        }
        i += 1;
    }
    proof {
        assert(v@.subrange(0, v@.len() as int) =~= v@);
    }
    push_str(&mut out, "_");
    crate::text::push_int(&mut out, timestamp);
    chars_to_string(out.as_slice())
}

/// The approvals summary.
pub struct ApprovalSummary {
    pub pending_total: usize,
    pub approved_total: usize,
    pub highlight_pending_approvals: bool,
}

/// Counts pending and approved human-augmentation approvals by status.
pub fn summarize_approvals(statuses: &Vec<Option<String>>) -> (s: ApprovalSummary)
    ensures
        s.pending_total == count_text(statuses@, "pending"@),
        s.approved_total == count_text(statuses@, "approved"@),
        s.highlight_pending_approvals == (s.pending_total > 0),
{
    let p = count_text_equal(statuses, "pending");
    let a = count_text_equal(statuses, "approved");
    ApprovalSummary { pending_total: p, approved_total: a, highlight_pending_approvals: p > 0 }
}

/// Law (memory lanes): writes to "ceo_private_working" expire and need
/// promotion, "episodic" writes expire without it, "institutional" writes
/// need promotion and are durable, and writes to any other lane are
/// durable without promotion.
pub proof fn law_memory_lanes(lane: Seq<char>)
    ensures
        lane == "ceo_private_working"@ ==> is_expiring_lane(lane) && needs_promotion(lane),
        lane == "episodic"@ ==> is_expiring_lane(lane) && !needs_promotion(lane),
        lane == "institutional"@ ==> !is_expiring_lane(lane) && needs_promotion(lane),
        lane != "ceo_private_working"@ && lane != "episodic"@ && lane != "institutional"@
            ==> !is_expiring_lane(lane) && !needs_promotion(lane),
{
    reveal_strlit("ceo_private_working");
    reveal_strlit("episodic");
    reveal_strlit("institutional");
    assert("ceo_private_working"@.len() == 19 && "episodic"@.len() == 8 && "institutional"@.len() == 13);
}

/// Law (unnamed lanes): a write beyond the named lanes goes to the
/// "episodic" lane, expires, needs no promotion and is approved.
pub proof fn law_writes_beyond_lanes_are_episodic(
    session_id: Seq<char>,
    lanes: Seq<Seq<char>>,
    writes: Seq<Seq<char>>,
    promoted: bool,
    idx: int,
    m: MemoryWriteIntent,
)
    requires
        intent_of(session_id, lanes, writes, promoted, idx, m),
        idx >= lanes.len(),
    ensures
        m.lane@ == "episodic"@,
        m.expiring,
        !m.promotion_required,
        m.approved,
{
    law_memory_lanes("episodic"@);
    reveal_strlit("episodic");
    reveal_strlit("ceo_private_working");
    reveal_strlit("institutional");
}

} // verus!
