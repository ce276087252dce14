//! The review-gated mission pipeline of Arandur phases 6E to 6J: approved
//! patterns become mission candidates, candidates become review packets,
//! reviews become approval requests, approved requests become queue
//! proposals and queue write requests, and approved write requests become
//! canonical queue entries. Each stage only reads records that are
//! agent-generated and review-gated.

use vstd::prelude::*;
use crate::digest_ids::{short_digest_id, short_id, two_lines, phase6f_mission_review_id,
    phase6g_mission_approval_request_id, phase6g_approval_decision_id, phase6h_mission_queue_proposal_id,
    phase6i_mission_queue_write_request_id, phase6j_canonical_queue_entry_id};
use crate::ordering::{sorted_distinct, strictly_sorted};
use crate::readiness::ReviewMark;
use crate::scout::{read_text_field, text_field};
use crate::text::{chars_to_string, owned, push_str, str_eq, str_trim, trim_seq};

verus! {

/// The record is agent-generated and review-gated.
pub open spec fn agent_gated(m: ReviewMark) -> bool {
    m.review_required == Some(true) && match m.authority {
        Some(a) => a@ == "agent_generated"@,
        None => false,
    }
}

/// Whether the record is agent-generated and review-gated.
pub fn is_agent_gated(m: &ReviewMark) -> (b: bool)
    ensures
        b == agent_gated(*m),
{
    m.review_required == Some(true) && match &m.authority {
        Some(a) => str_eq(a.as_str(), "agent_generated"),
        None => false,
    }
}

/// A record passes the candidate filter: there is none, or the record's
/// candidate id (trimmed) is the filter.
pub open spec fn passes_filter(field: Option<String>, filter: Option<Seq<char>>) -> bool {
    match filter {
        Some(f) => text_field(field) == Some(f),
        None => true,
    }
}

fn filter_passes(field: &Option<String>, filter: &Option<String>) -> (b: bool)
    ensures
        b == passes_filter(*field, match filter {
            Some(f) => Some(f@),
            None => None,
        }),
{
    match filter {
        Some(f) => match read_text_field(field) {
            Some(t) => str_eq(t.as_str(), f.as_str()),
            None => false,
        },
        None => true,
    }
}

/// The optional text as a view.
pub open spec fn view_opt(o: Option<String>) -> Option<Seq<char>> {
    match o {
        Some(s) => Some(s@),
        None => None,
    }
}

/// The text field, or the default when it is absent or blank.
pub open spec fn text_or(v: Option<String>, d: Seq<char>) -> Seq<char> {
    match text_field(v) {
        Some(t) => t,
        None => d,
    }
}

fn read_text_or(v: &Option<String>, d: &str) -> (s: String)
    ensures
        s@ == text_or(*v, d@),
{
    match read_text_field(v) {
        Some(t) => t,
        None => owned(d),
    }
}

/// The stages that append to a review-gated ledger.
#[derive(Debug, Clone, Copy, PartialEq, Eq, Structural)]
pub enum Stage {
    MissionCandidates,
    MissionReviews,
    ApprovalRequests,
    QueueProposals,
    QueueWriteRequests,
    CanonicalQueue,
}

/// The outcome of a stage run.
#[derive(Debug, Clone, Copy, PartialEq, Eq, Structural)]
pub enum StageStatus {
    /// No write was requested.
    DryRun,
    /// New records were appended.
    Recorded,
    /// Nothing was eligible.
    NothingEligible,
    /// Every eligible record was already in the ledger.
    AlreadyRecorded,
}

/// The status of a stage run: a dry run without a write; otherwise new
/// records appended, nothing eligible, or an idempotent no-op.
pub fn stage_status(write: bool, eligible: usize, appended: usize) -> (s: StageStatus)
    ensures
        s == if !write {
            StageStatus::DryRun
        } else if appended > 0 {
            StageStatus::Recorded
        } else if eligible == 0 {
            StageStatus::NothingEligible
        } else {
            StageStatus::AlreadyRecorded
        },
{
    if !write {
        StageStatus::DryRun
    } else if appended > 0 {
        StageStatus::Recorded
    } else if eligible == 0 {
        StageStatus::NothingEligible
    } else {
        StageStatus::AlreadyRecorded
    }
}

/// The status text of a stage's run.
pub open spec fn stage_status_text(stage: Stage, s: StageStatus) -> Seq<char> {
    match s {
        StageStatus::DryRun => "dry_run_no_mutation"@,
        StageStatus::AlreadyRecorded => "already_recorded_idempotent_noop"@,
        StageStatus::Recorded => match stage {
            Stage::MissionCandidates => "mission_candidates_recorded"@,
            Stage::MissionReviews => "mission_reviews_recorded"@,
            Stage::ApprovalRequests => "mission_approval_requests_recorded"@,
            Stage::QueueProposals => "mission_queue_proposals_recorded"@,
            Stage::QueueWriteRequests => "mission_queue_write_requests_recorded"@,
            Stage::CanonicalQueue => "canonical_queue_entries_appended"@,
        },
        StageStatus::NothingEligible => match stage {
            Stage::MissionCandidates => "no_approved_patterns_available"@,
            Stage::MissionReviews => "no_eligible_mission_candidates_available"@,
            Stage::ApprovalRequests => "no_eligible_mission_reviews_available"@,
            Stage::QueueProposals => "no_eligible_mission_approval_requests_available"@,
            Stage::QueueWriteRequests => "no_eligible_mission_queue_proposals_available"@,
            Stage::CanonicalQueue => "no_eligible_approved_queue_write_requests_available"@,
        },
    }
}

/// The status as the stage's report writes it.
pub fn stage_status_label(stage: Stage, s: StageStatus) -> (t: &'static str)
    ensures
        t@ == stage_status_text(stage, s),
{
    match s {
        StageStatus::DryRun => "dry_run_no_mutation",
        StageStatus::AlreadyRecorded => "already_recorded_idempotent_noop",
        StageStatus::Recorded => match stage {
            Stage::MissionCandidates => "mission_candidates_recorded",
            Stage::MissionReviews => "mission_reviews_recorded",
            Stage::ApprovalRequests => "mission_approval_requests_recorded",
            Stage::QueueProposals => "mission_queue_proposals_recorded",
            Stage::QueueWriteRequests => "mission_queue_write_requests_recorded",
            Stage::CanonicalQueue => "canonical_queue_entries_appended",
        },
        StageStatus::NothingEligible => match stage {
            Stage::MissionCandidates => "no_approved_patterns_available",
            Stage::MissionReviews => "no_eligible_mission_candidates_available",
            Stage::ApprovalRequests => "no_eligible_mission_reviews_available",
            Stage::QueueProposals => "no_eligible_mission_approval_requests_available",
            Stage::QueueWriteRequests => "no_eligible_mission_queue_proposals_available",
            Stage::CanonicalQueue => "no_eligible_approved_queue_write_requests_available",
        },
    }
}

/// The trimmed candidate-id filter; blank counts as none.
pub fn candidate_filter(candidate_id: &Option<String>) -> (f: Option<String>)
    ensures
        view_opt(f) == text_field(*candidate_id),
{
    read_text_field(candidate_id)
}


/// A recommendation record, as mission promotion reads it.
pub struct RecommendationRef {
    pub mark: ReviewMark,
    pub recommendation_id: Option<String>,
    pub recommended_candidate_id: Option<String>,
}

/// A scout finding record, as mission promotion reads it.
pub struct ScoutRef {
    pub mark: ReviewMark,
    pub finding_id: Option<String>,
    pub scope: Option<String>,
}

/// One pattern of a synthesis record.
pub struct MissionPattern {
    pub mark: ReviewMark,
    pub pattern_id: Option<String>,
    pub kind: Option<String>,
    pub summary: Option<String>,
    pub scope: Option<String>,
}

/// A pattern synthesis record; `patterns` is `None` when the record has
/// no pattern list.
pub struct PatternRecordRef {
    pub mark: ReviewMark,
    pub synthesis_id: Option<String>,
    pub patterns: Option<Vec<MissionPattern>>,
}

/// The id a recommendation contributes.
pub open spec fn recommendation_ref_id(r: RecommendationRef) -> Option<Seq<char>> {
    match text_field(r.recommendation_id) {
        Some(t) => Some(t),
        None => text_field(r.recommended_candidate_id),
    }
}

/// Ids of the approved recommendations, in ledger order.
pub open spec fn approved_recommendation_ids(recs: Seq<RecommendationRef>) -> Seq<Seq<char>>
    decreases recs.len(),
{
    if recs.len() == 0 {
        Seq::empty()
    } else {
        let prev = approved_recommendation_ids(recs.drop_last());
        let r = recs.last();
        if agent_gated(r.mark) && recommendation_ref_id(r) is Some {
            prev.push(recommendation_ref_id(r).unwrap())
        } else {
            prev
        }
    }
}

/// Finding ids of the approved scout findings, in ledger order.
pub open spec fn approved_scout_ids(scouts: Seq<ScoutRef>) -> Seq<Seq<char>>
    decreases scouts.len(),
{
    if scouts.len() == 0 {
        Seq::empty()
    } else {
        let prev = approved_scout_ids(scouts.drop_last());
        let r = scouts.last();
        if agent_gated(r.mark) && text_field(r.finding_id) is Some {
            prev.push(text_field(r.finding_id).unwrap())
        } else {
            prev
        }
    }
}

/// The scope of the first approved scout finding that has one.
pub open spec fn first_scout_scope(scouts: Seq<ScoutRef>) -> Option<Seq<char>>
    decreases scouts.len(),
{
    if scouts.len() == 0 {
        None
    } else if agent_gated(scouts[0].mark) && text_field(scouts[0].scope) is Some {
        text_field(scouts[0].scope)
    } else {
        first_scout_scope(scouts.drop_first())
    }
}

/// Underscores shown as spaces.
pub open spec fn spaced(s: Seq<char>) -> Seq<char> {
    s.map_values(|c: char| if c == '_' { ' ' } else { c })
}

/// A mission candidate drafted from an approved pattern.
pub struct MissionCandidate {
    /// Where the pattern stands: its synthesis record and its place there.
    pub record_index: usize,
    pub pattern_index: usize,
    pub source_pattern_synthesis_id: String,
    pub source_pattern_id: String,
    pub source_pattern_kind: String,
    pub title: String,
    pub scope: String,
    pub objective: String,
}

/// A mission candidate as the values it holds.
pub open spec fn candidate_view(c: MissionCandidate) -> (
    int, int, Seq<char>, Seq<char>, Seq<char>, Seq<char>, Seq<char>, Seq<char>,
) {
    (c.record_index as int, c.pattern_index as int, c.source_pattern_synthesis_id@, c.source_pattern_id@,
        c.source_pattern_kind@, c.title@, c.scope@, c.objective@)
}

/// The candidate drafted from pattern `j` of record `i`, if any.
pub open spec fn candidate_of(
    r: PatternRecordRef,
    i: int,
    p: MissionPattern,
    j: int,
    scout_scope: Option<Seq<char>>,
) -> Seq<(int, int, Seq<char>, Seq<char>, Seq<char>, Seq<char>, Seq<char>, Seq<char>)> {
    let pattern_id = text_or(p.pattern_id, "approved_pattern"@);
    if !agent_gated(p.mark) || pattern_id == "insufficient_evidence"@ {
        Seq::empty()
    } else {
        let kind = text_or(p.kind, "approved_pattern"@);
        let summary = text_or(p.summary, "Approved review-gated Phase 6D pattern."@);
        let scope = match text_field(p.scope) {
            Some(s) => s,
            None => match scout_scope {
                Some(s) => s,
                None => "review-gated mission promotion"@,
            },
        };
        seq![(i, j, text_or(r.synthesis_id, "phase6d_patterns_unknown"@), pattern_id, kind,
            "Review approved Arandur pattern: "@ + spaced(kind), scope,
            "Prepare a bounded human-reviewed mission packet for this approved pattern: "@ + summary)]
    }
}

/// Candidates from the first `n` patterns of record `i`.
pub open spec fn record_candidates(
    r: PatternRecordRef,
    i: int,
    pats: Seq<MissionPattern>,
    n: int,
    scout_scope: Option<Seq<char>>,
) -> Seq<(int, int, Seq<char>, Seq<char>, Seq<char>, Seq<char>, Seq<char>, Seq<char>)>
    decreases n,
{
    if n <= 0 {
        Seq::empty()
    } else {
        record_candidates(r, i, pats, n - 1, scout_scope) + candidate_of(r, i, pats[n - 1], n - 1, scout_scope)
    }
}

/// Candidates from the first `n` synthesis records.
pub open spec fn candidates_upto(
    records: Seq<PatternRecordRef>,
    n: int,
    scout_scope: Option<Seq<char>>,
) -> Seq<(int, int, Seq<char>, Seq<char>, Seq<char>, Seq<char>, Seq<char>, Seq<char>)>
    decreases n,
{
    if n <= 0 {
        Seq::empty()
    } else {
        let r = records[n - 1];
        candidates_upto(records, n - 1, scout_scope) + match r.patterns {
            Some(pats) => if agent_gated(r.mark) {
                record_candidates(r, n - 1, pats@, pats@.len() as int, scout_scope)
            } else {
                Seq::empty()
            },
            None => Seq::empty(),
        }
    }
}

/// The drafted candidates and the ids that support them.
pub struct MissionCandidates {
    /// The approved recommendations' ids, sorted and without repeats.
    pub recommendation_ids: Vec<String>,
    /// The approved scout findings' ids, sorted and without repeats.
    pub scout_ids: Vec<String>,
    pub candidates: Vec<MissionCandidate>,
}

fn spaced_text(s: &String) -> (r: String)
    ensures
        r@ == spaced(s@),
{
    let v = crate::text::str_chars(s.as_str());
    let mut out: Vec<char> = Vec::new();
    let mut i: usize = 0;
    while i < v.len()
        invariant
            i <= v.len(),
            v@ == s@,
            out@ == spaced(v@.subrange(0, i as int)),
        decreases v.len() - i,
    {
        out.push(if v[i] == '_' { ' ' } else { v[i] });
        proof {
            assert(spaced(v@.subrange(0, i + 1)) =~= spaced(v@.subrange(0, i as int)).push(
                if v@[i as int] == '_' { ' ' } else { v@[i as int] },
            ));
        }
        i += 1;
    }
    proof {
        assert(v@.subrange(0, v@.len() as int) =~= v@);
    }
    chars_to_string(out.as_slice())
}

fn scout_scope_of(scouts: &Vec<ScoutRef>) -> (r: Option<String>)
    ensures
        view_opt(r) == first_scout_scope(scouts@),
{
    let mut i: usize = 0;
    proof {
        assert(scouts@.subrange(0, scouts@.len() as int) =~= scouts@);
    }
    while i < scouts.len()
        invariant
            i <= scouts.len(),
            first_scout_scope(scouts@) == first_scout_scope(scouts@.subrange(i as int, scouts@.len() as int)),
        decreases scouts.len() - i,
    {
        let ghost sub = scouts@.subrange(i as int, scouts@.len() as int);
        proof {
            assert(sub[0] == scouts@[i as int]);
            assert(sub.drop_first() =~= scouts@.subrange(i + 1, scouts@.len() as int));
        }
        if is_agent_gated(&scouts[i].mark) {
            let t = read_text_field(&scouts[i].scope);
            if t.is_some() {
                return t;
            }
        }
        i += 1;
    }
    proof {
        assert(scouts@.subrange(i as int, scouts@.len() as int) =~= Seq::<ScoutRef>::empty());
    }
    None
}

fn draft_candidate(
    r: &PatternRecordRef,
    i: usize,
    p: &MissionPattern,
    j: usize,
    scout_scope: &Option<String>,
    out: &mut Vec<MissionCandidate>,
)
    ensures
        final(out)@.map_values(|c: MissionCandidate| candidate_view(c))
            == old(out)@.map_values(|c: MissionCandidate| candidate_view(c))
                + candidate_of(*r, i as int, *p, j as int, view_opt(*scout_scope)),
{
    let ghost before = out@.map_values(|c: MissionCandidate| candidate_view(c));
    let pattern_id = read_text_or(&p.pattern_id, "approved_pattern");
    if !is_agent_gated(&p.mark) || str_eq(pattern_id.as_str(), "insufficient_evidence") {
        proof {
            assert(before + candidate_of(*r, i as int, *p, j as int, view_opt(*scout_scope)) =~= before);
        }
        return;
    }
    let kind = read_text_or(&p.kind, "approved_pattern");
    let summary = read_text_or(&p.summary, "Approved review-gated Phase 6D pattern.");
    let scope = match read_text_field(&p.scope) {
        Some(s) => s,
        None => match scout_scope {
            Some(s) => s.clone(),
            None => owned("review-gated mission promotion"),
        },
    };
    let mut title: Vec<char> = Vec::new();
    push_str(&mut title, "Review approved Arandur pattern: ");
    let sp = spaced_text(&kind);
    push_str(&mut title, sp.as_str());
    let mut objective: Vec<char> = Vec::new();
    push_str(&mut objective, "Prepare a bounded human-reviewed mission packet for this approved pattern: ");
    push_str(&mut objective, summary.as_str());
    let c = MissionCandidate {
        record_index: i,
        pattern_index: j,
        source_pattern_synthesis_id: read_text_or(&r.synthesis_id, "phase6d_patterns_unknown"),
        source_pattern_id: pattern_id,
        source_pattern_kind: kind,
        title: chars_to_string(title.as_slice()),
        scope,
        objective: chars_to_string(objective.as_slice()),
    };
    out.push(c);
    proof {
        assert(out@.map_values(|c: MissionCandidate| candidate_view(c))
            =~= before + candidate_of(*r, i as int, *p, j as int, view_opt(*scout_scope)));
    }
}

fn collect_ids(recs: &Vec<RecommendationRef>, scouts: &Vec<ScoutRef>) -> (r: (Vec<String>, Vec<String>))
    ensures
        r.0.deep_view() == approved_recommendation_ids(recs@),
        r.1.deep_view() == approved_scout_ids(scouts@),
{
    let mut a: Vec<String> = Vec::new();
    let mut i: usize = 0;
    while i < recs.len()
        invariant
            i <= recs.len(),
            a.deep_view() == approved_recommendation_ids(recs@.subrange(0, i as int)),
        decreases recs.len() - i,
    {
        let ghost prev = a.deep_view();
        proof {
            assert(recs@.subrange(0, i + 1).drop_last() =~= recs@.subrange(0, i as int));
        }
        if is_agent_gated(&recs[i].mark) {
            let id = match read_text_field(&recs[i].recommendation_id) {
                Some(t) => Some(t),
                None => read_text_field(&recs[i].recommended_candidate_id),
            };
            match id {
                Some(t) => {
                    a.push(t);
                    proof {
                        assert(a.deep_view() =~= prev.push(recommendation_ref_id(recs@[i as int]).unwrap()));
                    }
                },
                None => {},
            }
        }
        i += 1;
    }
    let mut b: Vec<String> = Vec::new();
    let mut k: usize = 0;
    while k < scouts.len()
        invariant
            k <= scouts.len(),
            b.deep_view() == approved_scout_ids(scouts@.subrange(0, k as int)),
        decreases scouts.len() - k,
    {
        let ghost prev = b.deep_view();
        proof {
            assert(scouts@.subrange(0, k + 1).drop_last() =~= scouts@.subrange(0, k as int));
        }
        if is_agent_gated(&scouts[k].mark) {
            match read_text_field(&scouts[k].finding_id) {
                Some(t) => {
                    b.push(t);
                    proof {
                        assert(b.deep_view() =~= prev.push(text_field(scouts@[k as int].finding_id).unwrap()));
                    }
                },
                None => {},
            }
        }
        k += 1;
    }
    proof {
        assert(recs@.subrange(0, recs@.len() as int) =~= recs@);
        assert(scouts@.subrange(0, scouts@.len() as int) =~= scouts@);
    }
    (a, b)
}

/// Drafts mission candidates (phase 6E). Only agent-generated,
/// review-gated synthesis records, patterns, recommendations and scout
/// findings count. Each approved pattern other than the
/// insufficient-evidence one yields a candidate, in ledger order; the
/// candidates cite the approved recommendation and scout ids, sorted and
/// without repeats.
pub fn build_mission_candidates(
    records: &Vec<PatternRecordRef>,
    recs: &Vec<RecommendationRef>,
    scouts: &Vec<ScoutRef>,
) -> (out: MissionCandidates)
    ensures
        strictly_sorted(out.recommendation_ids.deep_view()),
        out.recommendation_ids.deep_view().to_set() == approved_recommendation_ids(recs@).to_set(),
        strictly_sorted(out.scout_ids.deep_view()),
        out.scout_ids.deep_view().to_set() == approved_scout_ids(scouts@).to_set(),
        out.candidates@.map_values(|c: MissionCandidate| candidate_view(c))
            == candidates_upto(records@, records@.len() as int, first_scout_scope(scouts@)),
{
    let (rec_ids, scout_ids) = collect_ids(recs, scouts);
    let recommendation_ids = sorted_distinct(&rec_ids);
    let scout_ids_sorted = sorted_distinct(&scout_ids);
    let scout_scope = scout_scope_of(scouts);
    let ghost fallback = first_scout_scope(scouts@);
    let mut cands: Vec<MissionCandidate> = Vec::new();
    let mut i: usize = 0;
    proof {
        assert(cands@.map_values(|c: MissionCandidate| candidate_view(c)) =~= candidates_upto(records@, 0, fallback));
    }
    while i < records.len()
        invariant
            i <= records.len(),
            view_opt(scout_scope) == fallback,
            cands@.map_values(|c: MissionCandidate| candidate_view(c)) == candidates_upto(records@, i as int, fallback),
        decreases records.len() - i,
    {
        let r = &records[i];
        if is_agent_gated(&r.mark) {
            match &r.patterns {
                Some(pats) => {
                    let ghost base = cands@.map_values(|c: MissionCandidate| candidate_view(c));
                    let mut j: usize = 0;
                    while j < pats.len()
                        invariant
                            j <= pats.len(),
                            view_opt(scout_scope) == fallback,
                            cands@.map_values(|c: MissionCandidate| candidate_view(c))
                                == base + record_candidates(*r, i as int, pats@, j as int, fallback),
                        decreases pats.len() - j,
                    {
                        draft_candidate(r, i, &pats[j], j, &scout_scope, &mut cands);
                        proof {
                            assert(base + record_candidates(*r, i as int, pats@, j + 1, fallback)
                                =~= base + record_candidates(*r, i as int, pats@, j as int, fallback)
                                    + candidate_of(*r, i as int, pats@[j as int], j as int, fallback));
                        }
                        j += 1;
                    }
                },
                None => {},
            }
        }
        i += 1;
    }
    MissionCandidates { recommendation_ids, scout_ids: scout_ids_sorted, candidates: cands }
}

/// The id of a mission candidate: `phase6e_mission_` and the first twelve
/// hex digits of the SHA-1 of its seed's JSON text (synthesis id,
/// pattern id, recommendation ids and scout ids).
pub fn mission_candidate_id(serialized_seed: &str) -> (s: String)
    ensures
        s@ == short_id("phase6e_mission_"@, serialized_seed@),
{
    short_digest_id("phase6e_mission_", serialized_seed)
}


/// A mission candidate record, as the review stage reads it.
pub struct CandidateRecordRef {
    pub mark: ReviewMark,
    pub mission_candidate_id: Option<String>,
    pub title: Option<String>,
    pub scope: Option<String>,
}

/// A review packet for a mission candidate (phase 6F).
pub struct MissionReviewPacket {
    /// The candidate record it reviews.
    pub record_index: usize,
    pub mission_review_id: String,
    pub source_mission_candidate_id: String,
    pub title: String,
    pub scope: String,
}

/// A review packet as the values it holds.
pub open spec fn review_packet_view(p: MissionReviewPacket) -> (int, Seq<char>, Seq<char>, Seq<char>, Seq<char>) {
    (p.record_index as int, p.mission_review_id@, p.source_mission_candidate_id@, p.title@, p.scope@)
}

/// The review packet owed for candidate record `i`.
pub open spec fn review_packet_of(r: CandidateRecordRef, i: int) -> (int, Seq<char>, Seq<char>, Seq<char>, Seq<char>) {
    let src = text_or(r.mission_candidate_id, "unknown_mission_candidate"@);
    (i, short_id("phase6f_review_"@, src), src,
        "Review mission candidate: "@ + text_or(r.title, "Review bounded mission candidate"@),
        text_or(r.scope, "bounded mission candidate review"@))
}

/// The review packets owed for the first `n` candidate records.
pub open spec fn review_packets_upto(
    records: Seq<CandidateRecordRef>,
    n: int,
    filter: Option<Seq<char>>,
) -> Seq<(int, Seq<char>, Seq<char>, Seq<char>, Seq<char>)>
    decreases n,
{
    if n <= 0 {
        Seq::empty()
    } else {
        let prev = review_packets_upto(records, n - 1, filter);
        let r = records[n - 1];
        if agent_gated(r.mark) && passes_filter(r.mission_candidate_id, filter) {
            prev.push(review_packet_of(r, n - 1))
        } else {
            prev
        }
    }
}

/// Drafts review packets (phase 6F): one per agent-generated,
/// review-gated mission candidate that passes the candidate filter, in
/// ledger order.
pub fn build_review_packets(records: &Vec<CandidateRecordRef>, filter: &Option<String>) -> (out: Vec<MissionReviewPacket>)
    ensures
        out@.map_values(|p: MissionReviewPacket| review_packet_view(p))
            == review_packets_upto(records@, records@.len() as int, view_opt(*filter)),
{
    let mut out: Vec<MissionReviewPacket> = Vec::new();
    let mut i: usize = 0;
    proof {
        assert(out@.map_values(|p: MissionReviewPacket| review_packet_view(p)) =~= Seq::<(int, Seq<char>, Seq<char>, Seq<char>, Seq<char>)>::empty());
    }
    while i < records.len()
        invariant
            i <= records.len(),
            out@.map_values(|p: MissionReviewPacket| review_packet_view(p))
                == review_packets_upto(records@, i as int, view_opt(*filter)),
        decreases records.len() - i,
    {
        let r = &records[i];
        if is_agent_gated(&r.mark) && filter_passes(&r.mission_candidate_id, filter) {
            let ghost before = out@.map_values(|p: MissionReviewPacket| review_packet_view(p));
            let src = read_text_or(&r.mission_candidate_id, "unknown_mission_candidate");
            let title_text = read_text_or(&r.title, "Review bounded mission candidate");
            let mut title: Vec<char> = Vec::new();
            push_str(&mut title, "Review mission candidate: ");
            push_str(&mut title, title_text.as_str());
            let packet = MissionReviewPacket {
                record_index: i,
                mission_review_id: phase6f_mission_review_id(src.as_str()),
                source_mission_candidate_id: src,
                title: chars_to_string(title.as_slice()),
                scope: read_text_or(&r.scope, "bounded mission candidate review"),
            };
            out.push(packet);
            proof {
                assert(out@.map_values(|p: MissionReviewPacket| review_packet_view(p))
                    =~= before.push(review_packet_of(records@[i as int], i as int)));
            }
        }
        i += 1;
    }
    out
}

/// A mission review record, as the approval-request stage reads it.
pub struct ReviewRecordRef {
    pub mark: ReviewMark,
    pub mission_review_id: Option<String>,
    pub source_mission_candidate_id: Option<String>,
    pub title: Option<String>,
    pub scope: Option<String>,
    pub decision: Option<String>,
}

/// The first candidate record carrying the id.
pub open spec fn find_candidate(cands: Seq<CandidateRecordRef>, id: Seq<char>) -> Option<int>
    decreases cands.len(),
{
    if cands.len() == 0 {
        None
    } else if text_field(cands[0].mission_candidate_id) == Some(id) {
        Some(0)
    } else {
        match find_candidate(cands.drop_first(), id) {
            Some(k) => Some(k + 1),
            None => None,
        }
    }
}

fn find_candidate_exec(cands: &Vec<CandidateRecordRef>, id: &str) -> (r: Option<usize>)
    ensures
        match r {
            Some(k) => k < cands.len() && find_candidate(cands@, id@) == Some(k as int),
            None => find_candidate(cands@, id@) is None,
        },
{
    let mut k: usize = 0;
    proof {
        assert(cands@.subrange(0, cands@.len() as int) =~= cands@);
    }
    while k < cands.len()
        invariant
            k <= cands.len(),
            find_candidate(cands@, id@) == match find_candidate(cands@.subrange(k as int, cands@.len() as int), id@) {
                Some(x) => Some(x + k),
                None => None,
            },
        decreases cands.len() - k,
    {
        let ghost sub = cands@.subrange(k as int, cands@.len() as int);
        proof {
            assert(sub[0] == cands@[k as int]);
            assert(sub.drop_first() =~= cands@.subrange(k + 1, cands@.len() as int));
        }
        let hit = match read_text_field(&cands[k].mission_candidate_id) {
            Some(t) => str_eq(t.as_str(), id),
            None => false,
        };
        if hit {
            return Some(k);
        }
        k += 1;
    }
    proof {
        assert(cands@.subrange(k as int, cands@.len() as int) =~= Seq::<CandidateRecordRef>::empty());
    }
    None
}

/// An approval request for a reviewed mission (phase 6G).
pub struct ApprovalRequest {
    /// The review record it comes from.
    pub record_index: usize,
    /// The candidate record the review names, if found.
    pub candidate_index: Option<usize>,
    pub approval_request_id: String,
    pub source_mission_review_id: String,
    pub source_mission_candidate_id: String,
    pub title: String,
    pub scope: String,
    pub approval_question: String,
    pub source_decision: Option<String>,
}

/// An approval request as the values it holds.
pub open spec fn approval_request_view(a: ApprovalRequest) -> (
    int, Option<int>, Seq<char>, Seq<char>, Seq<char>, Seq<char>, Seq<char>, Seq<char>, Option<Seq<char>>,
) {
    (a.record_index as int, match a.candidate_index {
        Some(k) => Some(k as int),
        None => None,
    }, a.approval_request_id@, a.source_mission_review_id@, a.source_mission_candidate_id@, a.title@, a.scope@,
        a.approval_question@, view_opt(a.source_decision))
}

/// The review's text field, else the candidate's, else the default.
pub open spec fn review_or_candidate(
    review_field: Option<String>,
    cand: Option<CandidateRecordRef>,
    cand_field: spec_fn(CandidateRecordRef) -> Option<String>,
    d: Seq<char>,
) -> Seq<char> {
    match text_field(review_field) {
        Some(t) => t,
        None => match cand {
            Some(c) => text_or(cand_field(c), d),
            None => d,
        },
    }
}

/// The approval request owed for review record `i`.
pub open spec fn approval_request_of(
    r: ReviewRecordRef,
    i: int,
    cands: Seq<CandidateRecordRef>,
) -> (int, Option<int>, Seq<char>, Seq<char>, Seq<char>, Seq<char>, Seq<char>, Seq<char>, Option<Seq<char>>) {
    let review_id = text_or(r.mission_review_id, "unknown_mission_review"@);
    let cand_id = text_or(r.source_mission_candidate_id, "unknown_mission_candidate"@);
    let k = find_candidate(cands, cand_id);
    let cand = match k {
        Some(x) => Some(cands[x]),
        None => None,
    };
    let title = review_or_candidate(r.title, cand, |c: CandidateRecordRef| c.title,
        "Approve bounded Arandur mission request"@);
    let scope = review_or_candidate(r.scope, cand, |c: CandidateRecordRef| c.scope,
        "bounded mission approval request"@);
    (i, k, short_id("phase6g_approval_"@, two_lines(review_id, cand_id)), review_id, cand_id, title, scope,
        "Should a future explicit operator action promote this reviewed mission into a canonical task queue candidate? "@
            + title, text_field(r.decision))
}

/// The approval requests owed for the first `n` review records.
pub open spec fn approval_requests_upto(
    reviews: Seq<ReviewRecordRef>,
    n: int,
    cands: Seq<CandidateRecordRef>,
    filter: Option<Seq<char>>,
) -> Seq<(int, Option<int>, Seq<char>, Seq<char>, Seq<char>, Seq<char>, Seq<char>, Seq<char>, Option<Seq<char>>)>
    decreases n,
{
    if n <= 0 {
        Seq::empty()
    } else {
        let prev = approval_requests_upto(reviews, n - 1, cands, filter);
        let r = reviews[n - 1];
        if agent_gated(r.mark) && passes_filter(r.source_mission_candidate_id, filter) {
            prev.push(approval_request_of(r, n - 1, cands))
        } else {
            prev
        }
    }
}

fn review_or_candidate_exec(review_field: &Option<String>, cand_field: Option<&Option<String>>, d: &str) -> (s: String)
    ensures
        s@ == match text_field(*review_field) {
            Some(t) => t,
            None => match cand_field {
                Some(f) => text_or(*f, d@),
                None => d@,
            },
        },
{
    match read_text_field(review_field) {
        Some(t) => t,
        None => match cand_field {
            Some(f) => read_text_or(f, d),
            None => owned(d),
        },
    }
}

/// Drafts approval requests (phase 6G): one per agent-generated,
/// review-gated mission review that passes the candidate filter, in
/// ledger order, titled and scoped from the review or else from the
/// candidate it names.
pub fn build_approval_requests(
    reviews: &Vec<ReviewRecordRef>,
    cands: &Vec<CandidateRecordRef>,
    filter: &Option<String>,
) -> (out: Vec<ApprovalRequest>)
    ensures
        out@.map_values(|a: ApprovalRequest| approval_request_view(a))
            == approval_requests_upto(reviews@, reviews@.len() as int, cands@, view_opt(*filter)),
{
    let mut out: Vec<ApprovalRequest> = Vec::new();
    let mut i: usize = 0;
    proof {
        assert(out@.map_values(|a: ApprovalRequest| approval_request_view(a))
            =~= approval_requests_upto(reviews@, 0, cands@, view_opt(*filter)));
    }
    while i < reviews.len()
        invariant
            i <= reviews.len(),
            out@.map_values(|a: ApprovalRequest| approval_request_view(a))
                == approval_requests_upto(reviews@, i as int, cands@, view_opt(*filter)),
        decreases reviews.len() - i,
    {
        let r = &reviews[i];
        if is_agent_gated(&r.mark) && filter_passes(&r.source_mission_candidate_id, filter) {
            let ghost before = out@.map_values(|a: ApprovalRequest| approval_request_view(a));
            let review_id = read_text_or(&r.mission_review_id, "unknown_mission_review");
            let cand_id = read_text_or(&r.source_mission_candidate_id, "unknown_mission_candidate");
            let k = find_candidate_exec(cands, cand_id.as_str());
            let (title, scope) = match k {
                Some(x) => (
                    review_or_candidate_exec(&r.title, Some(&cands[x].title), "Approve bounded Arandur mission request"),
                    review_or_candidate_exec(&r.scope, Some(&cands[x].scope), "bounded mission approval request"),
                ),
                None => (
                    review_or_candidate_exec(&r.title, None, "Approve bounded Arandur mission request"),
                    review_or_candidate_exec(&r.scope, None, "bounded mission approval request"),
                ),
            };
            let mut question: Vec<char> = Vec::new();
            push_str(&mut question, "Should a future explicit operator action promote this reviewed mission into a canonical task queue candidate? ");
            push_str(&mut question, title.as_str());
            let req = ApprovalRequest {
                record_index: i,
                candidate_index: k,
                approval_request_id: phase6g_mission_approval_request_id(review_id.as_str(), cand_id.as_str()),
                source_mission_review_id: review_id,
                source_mission_candidate_id: cand_id,
                title,
                scope,
                approval_question: chars_to_string(question.as_slice()),
                source_decision: read_text_field(&r.decision),
            };
            out.push(req);
            proof {
                assert(out@.map_values(|a: ApprovalRequest| approval_request_view(a))
                    =~= before.push(approval_request_of(reviews@[i as int], i as int, cands@)));
            }
        }
        i += 1;
    }
    out
}


/// A mission approval record, as the decision, proposal and queue-write
/// stages read it.
pub struct ApprovalRecordRef {
    pub mark: ReviewMark,
    pub approval_request_id: Option<String>,
    pub phase: Option<String>,
    pub approval_status: Option<String>,
    pub source_mission_candidate_id: Option<String>,
    pub source_mission_review_id: Option<String>,
    /// `title` of the record's `bounded_recommendation`.
    pub recommendation_title: Option<String>,
    /// `scope` of the record's `bounded_recommendation`.
    pub recommendation_scope: Option<String>,
    pub approval_question: Option<String>,
}

/// Why an operator's approval decision is refused.
#[derive(Debug, Clone, Copy, PartialEq, Eq, Structural)]
pub enum DecisionError {
    MissingApprovalRequestId,
    MissingStatus,
    MissingJustification,
    /// No agent-generated, review-gated phase 6G request carries the id.
    ApprovalRequestNotFound,
}

/// An operator's decision on an approval request, ready to append.
pub struct ApprovalDecision {
    /// The approval request record it decides.
    pub source_index: usize,
    pub approval_decision_id: String,
    pub approval_request_id: String,
    pub approval_status: String,
    pub justification: String,
}

/// Record `a` is the phase 6G request with the id.
pub open spec fn is_request_for(a: ApprovalRecordRef, id: Seq<char>) -> bool {
    text_field(a.approval_request_id) == Some(id) && text_field(a.phase) == Some("6G"@) && agent_gated(a.mark)
}

/// The first approval record that is the phase 6G request with the id.
pub open spec fn find_request(records: Seq<ApprovalRecordRef>, id: Seq<char>) -> Option<int>
    decreases records.len(),
{
    if records.len() == 0 {
        None
    } else if is_request_for(records[0], id) {
        Some(0)
    } else {
        match find_request(records.drop_first(), id) {
            Some(k) => Some(k + 1),
            None => None,
        }
    }
}

fn find_request_exec(records: &Vec<ApprovalRecordRef>, id: &str) -> (r: Option<usize>)
    ensures
        match r {
            Some(k) => k < records.len() && find_request(records@, id@) == Some(k as int),
            None => find_request(records@, id@) is None,
        },
{
    let mut k: usize = 0;
    proof {
        assert(records@.subrange(0, records@.len() as int) =~= records@);
    }
    while k < records.len()
        invariant
            k <= records.len(),
            find_request(records@, id@) == match find_request(records@.subrange(k as int, records@.len() as int), id@) {
                Some(x) => Some(x + k),
                None => None,
            },
        decreases records.len() - k,
    {
        let ghost sub = records@.subrange(k as int, records@.len() as int);
        proof {
            assert(sub[0] == records@[k as int]);
            assert(sub.drop_first() =~= records@.subrange(k + 1, records@.len() as int));
        }
        let a = &records[k];
        let id_ok = match read_text_field(&a.approval_request_id) {
            Some(t) => str_eq(t.as_str(), id),
            None => false,
        };
        let phase_ok = match read_text_field(&a.phase) {
            Some(t) => str_eq(t.as_str(), "6G"),
            None => false,
        };
        if id_ok && phase_ok && is_agent_gated(&a.mark) {
            return Some(k);
        }
        k += 1;
    }
    proof {
        assert(records@.subrange(k as int, records@.len() as int) =~= Seq::<ApprovalRecordRef>::empty());
    }
    None
}

/// Plans an operator's decision on a phase 6G approval request. The id,
/// status and justification are trimmed and must not be blank (checked in
/// that order), and the id must name an agent-generated, review-gated
/// phase 6G request; the decision id is derived from the id and status.
pub fn plan_approval_decision(
    records: &Vec<ApprovalRecordRef>,
    approval_request_id: &str,
    status: &str,
    justification: &str,
) -> (r: Result<ApprovalDecision, DecisionError>)
    ensures
        trim_seq(approval_request_id@).len() == 0 ==> r == Err::<ApprovalDecision, DecisionError>(
            DecisionError::MissingApprovalRequestId),
        trim_seq(approval_request_id@).len() > 0 && trim_seq(status@).len() == 0
            ==> r == Err::<ApprovalDecision, DecisionError>(DecisionError::MissingStatus),
        trim_seq(approval_request_id@).len() > 0 && trim_seq(status@).len() > 0 && trim_seq(justification@).len() == 0
            ==> r == Err::<ApprovalDecision, DecisionError>(DecisionError::MissingJustification),
        trim_seq(approval_request_id@).len() > 0 && trim_seq(status@).len() > 0 && trim_seq(justification@).len() > 0
            ==> match find_request(records@, trim_seq(approval_request_id@)) {
                None => r == Err::<ApprovalDecision, DecisionError>(DecisionError::ApprovalRequestNotFound),
                Some(k) => r matches Ok(d) && d.source_index == k
                    && d.approval_request_id@ == trim_seq(approval_request_id@)
                    && d.approval_status@ == trim_seq(status@)
                    && d.justification@ == trim_seq(justification@)
                    && d.approval_decision_id@ == short_id("phase6g_approval_decision_"@,
                        two_lines(trim_seq(approval_request_id@), trim_seq(status@))),
            },
{
    let id_v = str_trim(approval_request_id);
    let status_v = str_trim(status);
    let just_v = str_trim(justification);
    if id_v.len() == 0 {
        return Err(DecisionError::MissingApprovalRequestId);
    }
    if status_v.len() == 0 {
        return Err(DecisionError::MissingStatus);
    }
    if just_v.len() == 0 {
        return Err(DecisionError::MissingJustification);
    }
    let id = chars_to_string(id_v.as_slice());
    let st = chars_to_string(status_v.as_slice());
    match find_request_exec(records, id.as_str()) {
        None => Err(DecisionError::ApprovalRequestNotFound),
        Some(k) => Ok(ApprovalDecision {
            source_index: k,
            approval_decision_id: phase6g_approval_decision_id(id.as_str(), st.as_str()),
            approval_request_id: id,
            approval_status: st,
            justification: chars_to_string(just_v.as_slice()),
        }),
    }
}

/// A queue proposal for an approved mission (phase 6H).
pub struct QueueProposal {
    /// The approval record it comes from.
    pub record_index: usize,
    pub queue_proposal_id: String,
    pub source_approval_request_id: String,
    pub source_mission_candidate_id: String,
    pub title: String,
    pub scope: String,
}

/// A queue proposal as the values it holds.
pub open spec fn queue_proposal_view(p: QueueProposal) -> (int, Seq<char>, Seq<char>, Seq<char>, Seq<char>, Seq<char>) {
    (p.record_index as int, p.queue_proposal_id@, p.source_approval_request_id@, p.source_mission_candidate_id@,
        p.title@, p.scope@)
}

/// The queue proposal owed for approval record `i`.
pub open spec fn queue_proposal_of(a: ApprovalRecordRef, i: int) -> (int, Seq<char>, Seq<char>, Seq<char>, Seq<char>, Seq<char>) {
    let req = text_or(a.approval_request_id, "unknown_approval_request"@);
    let cand = text_or(a.source_mission_candidate_id, "unknown_mission_candidate"@);
    let title = match text_field(a.recommendation_title) {
        Some(t) => t,
        None => text_or(a.approval_question, "Bounded Arandur mission queue proposal"@),
    };
    (i, short_id("phase6h_queue_proposal_"@, two_lines(req, cand)), req, cand, title,
        text_or(a.recommendation_scope, "bounded mission queue proposal"@))
}

/// The queue proposals owed for the first `n` approval records.
pub open spec fn queue_proposals_upto(
    records: Seq<ApprovalRecordRef>,
    n: int,
    filter: Option<Seq<char>>,
) -> Seq<(int, Seq<char>, Seq<char>, Seq<char>, Seq<char>, Seq<char>)>
    decreases n,
{
    if n <= 0 {
        Seq::empty()
    } else {
        let prev = queue_proposals_upto(records, n - 1, filter);
        let a = records[n - 1];
        if agent_gated(a.mark) && passes_filter(a.source_mission_candidate_id, filter) {
            prev.push(queue_proposal_of(a, n - 1))
        } else {
            prev
        }
    }
}

/// Drafts queue proposals (phase 6H): one per agent-generated,
/// review-gated approval record that passes the candidate filter, in
/// ledger order.
pub fn build_queue_proposals(records: &Vec<ApprovalRecordRef>, filter: &Option<String>) -> (out: Vec<QueueProposal>)
    ensures
        out@.map_values(|p: QueueProposal| queue_proposal_view(p))
            == queue_proposals_upto(records@, records@.len() as int, view_opt(*filter)),
{
    let mut out: Vec<QueueProposal> = Vec::new();
    let mut i: usize = 0;
    proof {
        assert(out@.map_values(|p: QueueProposal| queue_proposal_view(p))
            =~= queue_proposals_upto(records@, 0, view_opt(*filter)));
    }
    while i < records.len()
        invariant
            i <= records.len(),
            out@.map_values(|p: QueueProposal| queue_proposal_view(p))
                == queue_proposals_upto(records@, i as int, view_opt(*filter)),
        decreases records.len() - i,
    {
        let a = &records[i];
        if is_agent_gated(&a.mark) && filter_passes(&a.source_mission_candidate_id, filter) {
            let ghost before = out@.map_values(|p: QueueProposal| queue_proposal_view(p));
            let req = read_text_or(&a.approval_request_id, "unknown_approval_request");
            let cand = read_text_or(&a.source_mission_candidate_id, "unknown_mission_candidate");
            let title = match read_text_field(&a.recommendation_title) {
                Some(t) => t,
                None => read_text_or(&a.approval_question, "Bounded Arandur mission queue proposal"),
            };
            let p = QueueProposal {
                record_index: i,
                queue_proposal_id: phase6h_mission_queue_proposal_id(req.as_str(), cand.as_str()),
                source_approval_request_id: req,
                source_mission_candidate_id: cand,
                title,
                scope: read_text_or(&a.recommendation_scope, "bounded mission queue proposal"),
            };
            out.push(p);
            proof {
                assert(out@.map_values(|p: QueueProposal| queue_proposal_view(p))
                    =~= before.push(queue_proposal_of(records@[i as int], i as int)));
            }
        }
        i += 1;
    }
    out
}

/// A queue proposal record, as the queue-write-request stage reads it.
pub struct ProposalRecordRef {
    pub mark: ReviewMark,
    pub queue_proposal_id: Option<String>,
    pub source_mission_candidate_id: Option<String>,
    pub source_approval_request_id: Option<String>,
    /// `emits_canonical_task_queue_entry` of the record's `bounded_output`.
    pub emits_canonical_entry: Option<bool>,
}

/// A queue write request for a proposal (phase 6I).
pub struct QueueWriteRequest {
    /// The proposal record it comes from.
    pub record_index: usize,
    pub queue_write_request_id: String,
    pub source_queue_proposal_id: String,
    pub source_approval_request_id: String,
    pub source_mission_candidate_id: String,
}

/// A queue write request as the values it holds.
pub open spec fn write_request_view(w: QueueWriteRequest) -> (int, Seq<char>, Seq<char>, Seq<char>, Seq<char>) {
    (w.record_index as int, w.queue_write_request_id@, w.source_queue_proposal_id@, w.source_approval_request_id@,
        w.source_mission_candidate_id@)
}

/// The write request owed for proposal record `i`.
pub open spec fn write_request_of(p: ProposalRecordRef, i: int) -> (int, Seq<char>, Seq<char>, Seq<char>, Seq<char>) {
    let prop = text_or(p.queue_proposal_id, "unknown_queue_proposal"@);
    let cand = text_or(p.source_mission_candidate_id, "unknown_mission_candidate"@);
    let req = text_or(p.source_approval_request_id, "unknown_approval_request"@);
    (i, short_id("phase6i_queue_write_request_"@, two_lines(two_lines(prop, cand), req)), prop, req, cand)
}

/// The write requests owed for the first `n` proposal records: those
/// that are agent-generated, review-gated, pass the filter and say they
/// emit no canonical queue entry.
pub open spec fn write_requests_upto(
    records: Seq<ProposalRecordRef>,
    n: int,
    filter: Option<Seq<char>>,
) -> Seq<(int, Seq<char>, Seq<char>, Seq<char>, Seq<char>)>
    decreases n,
{
    if n <= 0 {
        Seq::empty()
    } else {
        let prev = write_requests_upto(records, n - 1, filter);
        let p = records[n - 1];
        if agent_gated(p.mark) && p.emits_canonical_entry == Some(false)
            && passes_filter(p.source_mission_candidate_id, filter) {
            prev.push(write_request_of(p, n - 1))
        } else {
            prev
        }
    }
}

/// Drafts queue write requests (phase 6I), in ledger order.
pub fn build_queue_write_requests(records: &Vec<ProposalRecordRef>, filter: &Option<String>) -> (out: Vec<QueueWriteRequest>)
    ensures
        out@.map_values(|w: QueueWriteRequest| write_request_view(w))
            == write_requests_upto(records@, records@.len() as int, view_opt(*filter)),
{
    let mut out: Vec<QueueWriteRequest> = Vec::new();
    let mut i: usize = 0;
    proof {
        assert(out@.map_values(|w: QueueWriteRequest| write_request_view(w))
            =~= write_requests_upto(records@, 0, view_opt(*filter)));
    }
    while i < records.len()
        invariant
            i <= records.len(),
            out@.map_values(|w: QueueWriteRequest| write_request_view(w))
                == write_requests_upto(records@, i as int, view_opt(*filter)),
        decreases records.len() - i,
    {
        let p = &records[i];
        if is_agent_gated(&p.mark) && p.emits_canonical_entry == Some(false)
            && filter_passes(&p.source_mission_candidate_id, filter) {
            let ghost before = out@.map_values(|w: QueueWriteRequest| write_request_view(w));
            let prop = read_text_or(&p.queue_proposal_id, "unknown_queue_proposal");
            let cand = read_text_or(&p.source_mission_candidate_id, "unknown_mission_candidate");
            let req = read_text_or(&p.source_approval_request_id, "unknown_approval_request");
            let w = QueueWriteRequest {
                record_index: i,
                queue_write_request_id: phase6i_mission_queue_write_request_id(prop.as_str(), cand.as_str(), req.as_str()),
                source_queue_proposal_id: prop,
                source_approval_request_id: req,
                source_mission_candidate_id: cand,
            };
            out.push(w);
            proof {
                assert(out@.map_values(|w: QueueWriteRequest| write_request_view(w))
                    =~= before.push(write_request_of(records@[i as int], i as int)));
            }
        }
        i += 1;
    }
    out
}


/// A queue write request record, as the canonical queue write reads it.
pub struct WriteRequestRecordRef {
    pub mark: ReviewMark,
    pub write_pending: Option<bool>,
    pub queue_write_request_id: Option<String>,
    pub source_mission_candidate_id: Option<String>,
    pub source_approval_request_id: Option<String>,
    /// `source_approval_request_id` of the record's queue proposal snapshot.
    pub snapshot_approval_request_id: Option<String>,
    /// The record's requested queue entry is a JSON object.
    pub entry_is_object: bool,
    /// The requested entry has an `id`.
    pub entry_has_id: bool,
    /// The requested entry has a `status`.
    pub entry_has_status: bool,
}

/// The write request is eligible: agent-generated, review-gated, still
/// pending, and passing the candidate filter.
pub open spec fn write_eligible(w: WriteRequestRecordRef, filter: Option<Seq<char>>) -> bool {
    agent_gated(w.mark) && w.write_pending == Some(true) && passes_filter(w.source_mission_candidate_id, filter)
}

/// Indices of the eligible write requests among the first `n`, in order.
pub open spec fn eligible_upto(records: Seq<WriteRequestRecordRef>, n: int, filter: Option<Seq<char>>) -> Seq<int>
    decreases n,
{
    if n <= 0 {
        Seq::empty()
    } else {
        let prev = eligible_upto(records, n - 1, filter);
        if write_eligible(records[n - 1], filter) { prev.push(n - 1) } else { prev }
    }
}

/// The approval request a write request names: its own, else its
/// proposal snapshot's.
pub open spec fn approval_source(w: WriteRequestRecordRef) -> Option<Seq<char>> {
    match text_field(w.source_approval_request_id) {
        Some(t) => Some(t),
        None => text_field(w.snapshot_approval_request_id),
    }
}

/// Some review-gated approval record approves the request `id`.
pub open spec fn is_approved(approvals: Seq<ApprovalRecordRef>, id: Seq<char>) -> bool {
    exists|k: int| 0 <= k < approvals.len() && #[trigger] approves(approvals[k], id)
}

/// Record `a` approves the request `id`.
pub open spec fn approves(a: ApprovalRecordRef, id: Seq<char>) -> bool {
    text_field(a.approval_request_id) == Some(id) && text_field(a.approval_status) == Some("approved"@)
        && a.mark.review_required == Some(true)
}

/// The write request names an approval request that is approved.
pub open spec fn write_valid(w: WriteRequestRecordRef, approvals: Seq<ApprovalRecordRef>) -> bool {
    match approval_source(w) {
        Some(id) => is_approved(approvals, id),
        None => false,
    }
}

/// The write request's id, or its placeholder.
pub open spec fn write_request_id_text(w: WriteRequestRecordRef) -> Seq<char> {
    text_or(w.queue_write_request_id, "unknown_queue_write_request"@)
}

/// Why a canonical queue write is refused.
pub enum QueueWriteError {
    /// The write request names no approval request.
    MissingApprovalSource { queue_write_request_id: String },
    /// No review-gated record approves the named approval request.
    NotApproved { queue_write_request_id: String, approval_request_id: String },
    /// The write request carries no queue entry object.
    MissingQueueEntry { queue_write_request_id: String },
}

/// A canonical queue entry to append, built from a write request.
pub struct CanonicalEntryPlan {
    /// The write request record it comes from.
    pub record_index: usize,
    /// The id given to an entry that has none.
    pub assigned_id: Option<String>,
    /// The entry has no status and is marked pending.
    pub default_status: bool,
    pub source_queue_write_request_id: String,
    pub source_approval_request_id: String,
    pub source_mission_candidate_id: String,
}

/// A canonical entry plan as the values it holds.
pub open spec fn entry_plan_view(e: CanonicalEntryPlan) -> (int, Option<Seq<char>>, bool, Seq<char>, Seq<char>, Seq<char>) {
    (e.record_index as int, view_opt(e.assigned_id), e.default_status, e.source_queue_write_request_id@,
        e.source_approval_request_id@, e.source_mission_candidate_id@)
}

/// The entry plan owed for write request record `i`.
pub open spec fn entry_plan_of(w: WriteRequestRecordRef, i: int) -> (int, Option<Seq<char>>, bool, Seq<char>, Seq<char>, Seq<char>) {
    let req = write_request_id_text(w);
    let cand = text_or(w.source_mission_candidate_id, "unknown_mission_candidate"@);
    let approval = match approval_source(w) {
        Some(a) => a,
        None => "unknown_approval_request"@,
    };
    (i, if w.entry_has_id { None } else { Some(short_id("task_phase6j_"@, two_lines(req, cand))) },
        !w.entry_has_status, req, approval, cand)
}

/// The first position in `elig` whose write request is not valid.
pub open spec fn first_invalid(
    records: Seq<WriteRequestRecordRef>,
    elig: Seq<int>,
    approvals: Seq<ApprovalRecordRef>,
) -> Option<int>
    decreases elig.len(),
{
    if elig.len() == 0 {
        None
    } else if !write_valid(records[elig[0]], approvals) {
        Some(0)
    } else {
        match first_invalid(records, elig.drop_first(), approvals) {
            Some(x) => Some(x + 1),
            None => None,
        }
    }
}

/// The first position in `elig` whose write request has no entry object.
pub open spec fn first_without_entry(records: Seq<WriteRequestRecordRef>, elig: Seq<int>) -> Option<int>
    decreases elig.len(),
{
    if elig.len() == 0 {
        None
    } else if !records[elig[0]].entry_is_object {
        Some(0)
    } else {
        match first_without_entry(records, elig.drop_first()) {
            Some(x) => Some(x + 1),
            None => None,
        }
    }
}

/// The plan of a canonical queue write.
pub struct QueueWritePlan {
    /// The eligible write requests, in ledger order.
    pub eligible: Vec<usize>,
    pub entries: Vec<CanonicalEntryPlan>,
}

fn approved_exec(approvals: &Vec<ApprovalRecordRef>, id: &str) -> (b: bool)
    ensures
        b == is_approved(approvals@, id@),
{
    let mut k: usize = 0;
    while k < approvals.len()
        invariant
            k <= approvals.len(),
            forall|j: int| 0 <= j < k ==> !#[trigger] approves(approvals@[j], id@),
        decreases approvals.len() - k,
    {
        let a = &approvals[k];
        let id_ok = match read_text_field(&a.approval_request_id) {
            Some(t) => str_eq(t.as_str(), id),
            None => false,
        };
        let st_ok = match read_text_field(&a.approval_status) {
            Some(t) => str_eq(t.as_str(), "approved"),
            None => false,
        };
        if id_ok && st_ok && a.mark.review_required == Some(true) {
            proof {
                assert(approves(approvals@[k as int], id@));
            }
            return true;
        }
        k += 1;
    }
    false
}

fn approval_source_exec(w: &WriteRequestRecordRef) -> (r: Option<String>)
    ensures
        view_opt(r) == approval_source(*w),
{
    match read_text_field(&w.source_approval_request_id) {
        Some(t) => Some(t),
        None => read_text_field(&w.snapshot_approval_request_id),
    }
}

fn eligible_indices(records: &Vec<WriteRequestRecordRef>, filter: &Option<String>) -> (out: Vec<usize>)
    ensures
        out@.map_values(|i: usize| i as int) == eligible_upto(records@, records@.len() as int, view_opt(*filter)),
        forall|k: int| 0 <= k < out@.len() ==> out@[k] < records.len(),
{
    let mut out: Vec<usize> = Vec::new();
    let mut i: usize = 0;
    proof {
        assert(out@.map_values(|i: usize| i as int) =~= eligible_upto(records@, 0, view_opt(*filter)));
    }
    while i < records.len()
        invariant
            i <= records.len(),
            out@.map_values(|i: usize| i as int) == eligible_upto(records@, i as int, view_opt(*filter)),
            forall|k: int| 0 <= k < out@.len() ==> out@[k] < i,
        decreases records.len() - i,
    {
        let w = &records[i];
        if is_agent_gated(&w.mark) && w.write_pending == Some(true)
            && filter_passes(&w.source_mission_candidate_id, filter) {
            let ghost before = out@;
            out.push(i);
            proof {
                assert(out@.map_values(|i: usize| i as int) =~= before.map_values(|i: usize| i as int).push(i as int));
            }
        }
        i += 1;
    }
    out
}

/// Plans the canonical queue write (phase 6J). The eligible write
/// requests are the agent-generated, review-gated, pending ones that pass
/// the candidate filter. Every one of them must name an approval request
/// that a review-gated record marks approved (the first that does not
/// refuses the write), and then every one must carry a queue entry object
/// (likewise). Each entry keeps its own id and status when it has them;
/// otherwise it gets an id derived from the write request and candidate,
/// and the pending status.
pub fn plan_canonical_queue_write(
    records: &Vec<WriteRequestRecordRef>,
    approvals: &Vec<ApprovalRecordRef>,
    filter: &Option<String>,
) -> (r: Result<QueueWritePlan, QueueWriteError>)
    ensures
        ({
            let elig = eligible_upto(records@, records@.len() as int, view_opt(*filter));
            match first_invalid(records@, elig, approvals@) {
                Some(x) => {
                    let w = records@[elig[x]];
                    match approval_source(w) {
                        None => r matches Err(QueueWriteError::MissingApprovalSource { queue_write_request_id: q })
                            && q@ == write_request_id_text(w),
                        Some(a) => r matches Err(QueueWriteError::NotApproved { queue_write_request_id: q, approval_request_id: aid })
                            && q@ == write_request_id_text(w) && aid@ == a,
                    }
                },
                None => match first_without_entry(records@, elig) {
                    Some(x) => r matches Err(QueueWriteError::MissingQueueEntry { queue_write_request_id: q })
                        && q@ == write_request_id_text(records@[elig[x]]),
                    None => r matches Ok(plan)
                        && plan.eligible@.map_values(|i: usize| i as int) == elig
                        && plan.entries@.map_values(|e: CanonicalEntryPlan| entry_plan_view(e))
                            == elig.map_values(|i: int| entry_plan_of(records@[i], i)),
                },
            }
        }),
{
    let elig = eligible_indices(records, filter);
    let ghost ev = elig@.map_values(|i: usize| i as int);
    let mut x: usize = 0;
    proof {
        assert(ev.subrange(0, ev.len() as int) =~= ev);
    }
    while x < elig.len()
        invariant
            x <= elig.len(),
            ev == elig@.map_values(|i: usize| i as int),
            ev == eligible_upto(records@, records@.len() as int, view_opt(*filter)),
            forall|k: int| 0 <= k < elig@.len() ==> elig@[k] < records.len(),
            first_invalid(records@, ev, approvals@) == match first_invalid(records@, ev.subrange(x as int, ev.len() as int), approvals@) {
                Some(y) => Some(y + x),
                None => None,
            },
        decreases elig.len() - x,
    {
        let ghost sub = ev.subrange(x as int, ev.len() as int);
        proof {
            assert(sub[0] == elig@[x as int] as int);
            assert(sub.drop_first() =~= ev.subrange(x + 1, ev.len() as int));
        }
        let w = &records[elig[x]];
        match approval_source_exec(w) {
            None => {
                proof {
                    assert(!write_valid(records@[sub[0]], approvals@));
                    assert(first_invalid(records@, sub, approvals@) == Some(0int));
                    assert(first_invalid(records@, ev, approvals@) == Some(x as int));
                    assert(ev[x as int] == elig@[x as int] as int);
                }
                return Err(QueueWriteError::MissingApprovalSource {
                    queue_write_request_id: read_text_or(&w.queue_write_request_id, "unknown_queue_write_request"),
                });
            },
            Some(a) => {
                if !approved_exec(approvals, a.as_str()) {
                    proof {
                        assert(!write_valid(records@[sub[0]], approvals@));
                        assert(first_invalid(records@, sub, approvals@) == Some(0int));
                        assert(first_invalid(records@, ev, approvals@) == Some(x as int));
                        assert(ev[x as int] == elig@[x as int] as int);
                    }
                    return Err(QueueWriteError::NotApproved {
                        queue_write_request_id: read_text_or(&w.queue_write_request_id, "unknown_queue_write_request"),
                        approval_request_id: a,
                    });
                }
            },
        }
        proof {
            assert(write_valid(records@[sub[0]], approvals@));
        }
        x += 1;
    }
    proof {
        assert(ev.subrange(x as int, ev.len() as int) =~= Seq::<int>::empty());
        assert(first_invalid(records@, ev, approvals@) is None);
    }
    let mut entries: Vec<CanonicalEntryPlan> = Vec::new();
    let mut y: usize = 0;
    proof {
        assert(entries@.map_values(|e: CanonicalEntryPlan| entry_plan_view(e))
            =~= ev.subrange(0, 0).map_values(|i: int| entry_plan_of(records@[i], i)));
    }
    while y < elig.len()
        invariant
            y <= elig.len(),
            ev == elig@.map_values(|i: usize| i as int),
            forall|k: int| 0 <= k < elig@.len() ==> elig@[k] < records.len(),
            first_invalid(records@, ev, approvals@) is None,
            entries@.len() == y,
            ev == eligible_upto(records@, records@.len() as int, view_opt(*filter)),
            first_without_entry(records@, ev) == match first_without_entry(records@, ev.subrange(y as int, ev.len() as int)) {
                Some(z) => Some(z + y),
                None => None,
            },
            entries@.map_values(|e: CanonicalEntryPlan| entry_plan_view(e))
                == ev.subrange(0, y as int).map_values(|i: int| entry_plan_of(records@[i], i)),
        decreases elig.len() - y,
    {
        let ghost sub = ev.subrange(y as int, ev.len() as int);
        proof {
            assert(sub[0] == elig@[y as int] as int);
            assert(sub.drop_first() =~= ev.subrange(y + 1, ev.len() as int));
        }
        let i = elig[y];
        let w = &records[i];
        if !w.entry_is_object {
            proof {
                assert(first_without_entry(records@, sub) == Some(0int));
                assert(first_without_entry(records@, ev) == Some(y as int));
                assert(ev[y as int] == elig@[y as int] as int);
            }
            return Err(QueueWriteError::MissingQueueEntry {
                queue_write_request_id: read_text_or(&w.queue_write_request_id, "unknown_queue_write_request"),
            });
        }
        let ghost before = entries@.map_values(|e: CanonicalEntryPlan| entry_plan_view(e));
        let req = read_text_or(&w.queue_write_request_id, "unknown_queue_write_request");
        let cand = read_text_or(&w.source_mission_candidate_id, "unknown_mission_candidate");
        let approval = match approval_source_exec(w) {
            Some(a) => a,
            None => owned("unknown_approval_request"),
        };
        let assigned = if w.entry_has_id {
            None
        } else {
            Some(phase6j_canonical_queue_entry_id(req.as_str(), cand.as_str()))
        };
        let e = CanonicalEntryPlan {
            record_index: i,
            assigned_id: assigned,
            default_status: !w.entry_has_status,
            source_queue_write_request_id: req,
            source_approval_request_id: approval,
            source_mission_candidate_id: cand,
        };
        entries.push(e);
        proof {
            let s_old = ev.subrange(0, y as int);
            let s_new = ev.subrange(0, y + 1);
            assert(s_new =~= s_old.push(i as int));
            assert(entry_plan_view(entries@[y as int]) == entry_plan_of(records@[i as int], i as int));
            assert(entries@.map_values(|e: CanonicalEntryPlan| entry_plan_view(e))
                =~= before.push(entry_plan_view(entries@[y as int])));
            assert(s_new.map_values(|i: int| entry_plan_of(records@[i], i))
                =~= s_old.map_values(|i: int| entry_plan_of(records@[i], i)).push(entry_plan_of(records@[i as int], i as int)));
        }
        y += 1;
    }
    proof {
        assert(ev.subrange(y as int, ev.len() as int) =~= Seq::<int>::empty());
        assert(ev.subrange(0, ev.len() as int) =~= ev);
        assert(first_without_entry(records@, ev) is None);
    }
    Ok(QueueWritePlan { eligible: elig, entries })
}


proof fn lemma_all_valid(records: Seq<WriteRequestRecordRef>, elig: Seq<int>, approvals: Seq<ApprovalRecordRef>)
    requires
        first_invalid(records, elig, approvals) is None,
    ensures
        forall|k: int| 0 <= k < elig.len() ==> write_valid(records[#[trigger] elig[k]], approvals),
    decreases elig.len(),
{
    if elig.len() > 0 {
        lemma_all_valid(records, elig.drop_first(), approvals);
        assert forall|k: int| 0 <= k < elig.len() implies write_valid(records[#[trigger] elig[k]], approvals) by {
            if k > 0 {
                assert(elig[k] == elig.drop_first()[k - 1]);
            }
        }
    }
}

/// Law (no canonical entry without approval): whenever the canonical
/// queue write is planned rather than refused, every eligible write
/// request names an approval request that a review-gated record marks
/// approved.
pub proof fn law_queue_write_requires_approval(
    records: Seq<WriteRequestRecordRef>,
    approvals: Seq<ApprovalRecordRef>,
    filter: Option<Seq<char>>,
)
    requires
        first_invalid(records, eligible_upto(records, records.len() as int, filter), approvals) is None,
    ensures
        forall|k: int| 0 <= k < eligible_upto(records, records.len() as int, filter).len() ==> {
            let w = records[#[trigger] eligible_upto(records, records.len() as int, filter)[k]];
            approval_source(w) matches Some(id) && is_approved(approvals, id)
        },
{
    lemma_all_valid(records, eligible_upto(records, records.len() as int, filter), approvals);
}

/// Law (agent-gated records): a record counts as agent-generated and
/// review-gated exactly when it requires review and its authority is
/// "agent_generated"; with no candidate filter every record passes, and
/// with one only those whose trimmed candidate id is the filter.
pub proof fn law_agent_gated_records(m: ReviewMark, field: Option<String>, filter: Seq<char>)
    ensures
        agent_gated(m) <==> (m.review_required == Some(true) && (m.authority matches Some(a) && a@ == "agent_generated"@)),
        passes_filter(field, None),
        passes_filter(field, Some(filter)) <==> text_field(field) == Some(filter),
{
}

/// Law (approvals): an approval record approves a request only when it
/// names the request, says "approved" and requires review; a "denied" or
/// "pending" record never approves; a write request is eligible only
/// while it is pending, agent-generated and review-gated.
pub proof fn law_only_approved_records_approve(a: ApprovalRecordRef, id: Seq<char>, w: WriteRequestRecordRef, filter: Option<Seq<char>>)
    ensures
        approves(a, id) ==> text_field(a.approval_status) == Some("approved"@) && a.mark.review_required == Some(true)
            && text_field(a.approval_request_id) == Some(id),
        text_field(a.approval_status) == Some("denied"@) || text_field(a.approval_status) == Some("pending"@) ==> !approves(a, id),
        write_eligible(w, filter) ==> w.write_pending == Some(true) && w.mark.review_required == Some(true)
            && (w.mark.authority matches Some(x) && x@ == "agent_generated"@),
{
    reveal_strlit("approved");
    reveal_strlit("denied");
    reveal_strlit("pending");
    assert("approved"@.len() == 8 && "denied"@.len() == 6 && "pending"@.len() == 7);
}

} // verus!
