//! Arandur autonomy readiness: the readiness gates that must all be clean before
//! Level 2 (append-only, review-gated candidate surfaces) may be enabled,
//! and the explicit, operator-noted promotion to it.

use vstd::prelude::*;
use crate::text::{str_eq, str_trim, trim_seq};

verus! {

/// The promotion gates reported by a packet review.
pub struct PacketGates {
    pub evidence_present: bool,
    pub raw_inbox_read_only: bool,
    pub research_claims_review_gated: bool,
    pub candidate_artifacts_marked_agent_generated: bool,
    pub json_and_jsonl_validated: bool,
}

/// One recommendation record's review metadata.
pub struct ReviewMark {
    pub review_required: Option<bool>,
    pub authority: Option<String>,
}

/// What readiness is assessed from.
pub struct ReadinessSignals {
    /// `autonomy_level` of the runtime state, if set.
    pub autonomy_level: Option<i64>,
    /// `review_required` of the runtime state; `None` when the state is
    /// missing or does not say.
    pub runtime_review_required: Option<bool>,
    /// `review_required` of each episode record.
    pub episode_review_flags: Vec<Option<bool>>,
    pub recommendations: Vec<ReviewMark>,
    pub recommendation_ledger_valid: bool,
    pub duplicate_recommendations_absent: bool,
    pub recommendation_review_surface_present: bool,
    /// The packet review's gates; `None` when the packet could not be reviewed.
    pub packet_gates: Option<PacketGates>,
}

/// What the readiness report advises.
#[derive(Debug, Clone, Copy, PartialEq, Eq, Structural)]
pub enum ReadinessAdvice {
    RemainLevel2,
    EligibleForLevel2Review,
    RemainLevel1,
}

impl ReadinessAdvice {
    /// The advice as the report writes it.
    pub fn label(&self) -> (s: &'static str)
        ensures
            s@ == match *self {
                ReadinessAdvice::RemainLevel2 => "remain_level_2_append_only_review_gated_candidate_surfaces"@,
                ReadinessAdvice::EligibleForLevel2Review => "eligible_for_explicit_human_review_to_enable_level_2_append_only_candidate_surfaces"@,
                ReadinessAdvice::RemainLevel1 => "remain_level_1_observe_plan_recommend_until_gates_are_clean"@,
            },
    {
        match self {
            ReadinessAdvice::RemainLevel2 => "remain_level_2_append_only_review_gated_candidate_surfaces",
            ReadinessAdvice::EligibleForLevel2Review => "eligible_for_explicit_human_review_to_enable_level_2_append_only_candidate_surfaces",
            ReadinessAdvice::RemainLevel1 => "remain_level_1_observe_plan_recommend_until_gates_are_clean",
        }
    }
}

/// The readiness assessment.
pub struct ReadinessReport {
    pub current_level: i64,
    pub runtime_review_gated: bool,
    pub clean_dry_run_count: usize,
    pub minimum_clean_dry_runs_met: bool,
    pub episodes_review_required: bool,
    pub recommendations_review_required: bool,
    pub packet_promotion_gates_clean: bool,
    pub research_claims_review_gated: bool,
    pub gate_stack_clean: bool,
    pub level_2_active: bool,
    pub level_2_ready: bool,
    pub advice: ReadinessAdvice,
}

/// Every flag is an explicit `true`.
pub open spec fn all_flagged(flags: Seq<Option<bool>>) -> bool {
    forall|i: int| 0 <= i < flags.len() ==> #[trigger] flags[i] == Some(true)
}

/// Every recommendation is review-gated and agent-generated.
pub open spec fn all_agent_review_gated(marks: Seq<ReviewMark>) -> bool {
    forall|i: int| 0 <= i < marks.len() ==> (#[trigger] marks[i]).review_required == Some(true) && match marks[i].authority {
        Some(a) => a@ == "agent_generated"@,
        None => false,
    }
}

/// The packet's gates are all clean (an unreviewable packet counts as clean).
pub open spec fn packet_clean(g: Option<PacketGates>) -> bool {
    match g {
        Some(p) => p.evidence_present && p.raw_inbox_read_only && p.research_claims_review_gated
            && p.candidate_artifacts_marked_agent_generated && p.json_and_jsonl_validated,
        None => true,
    }
}

/// The report owed for the signals.
pub open spec fn readiness_of(s: ReadinessSignals, r: ReadinessReport) -> bool {
    let level = match s.autonomy_level {
        Some(l) => l as int,
        None => 1,
    };
    let runtime_gated = s.runtime_review_required == Some(true);
    let episodes = s.episode_review_flags@;
    let recs = s.recommendations@;
    let recs_gated = recs.len() > 0 && all_agent_review_gated(recs);
    let clean = packet_clean(s.packet_gates);
    let stack = runtime_gated && episodes.len() >= 2 && recs_gated && s.recommendation_ledger_valid
        && s.duplicate_recommendations_absent && s.recommendation_review_surface_present && clean;
    &&& r.current_level == level
    &&& r.runtime_review_gated == runtime_gated
    &&& r.clean_dry_run_count == episodes.len()
    &&& r.minimum_clean_dry_runs_met == (episodes.len() >= 2)
    &&& r.episodes_review_required == (episodes.len() > 0 && all_flagged(episodes))
    &&& r.recommendations_review_required == recs_gated
    &&& r.packet_promotion_gates_clean == clean
    &&& r.research_claims_review_gated == match s.packet_gates {
        Some(p) => p.research_claims_review_gated,
        None => true,
    }
    &&& r.gate_stack_clean == stack
    &&& r.level_2_active == (level >= 2)
    &&& r.level_2_ready == (level == 1 && stack)
    &&& r.advice == if level >= 2 {
        ReadinessAdvice::RemainLevel2
    } else if level == 1 && stack {
        ReadinessAdvice::EligibleForLevel2Review
    } else {
        ReadinessAdvice::RemainLevel1
    }
}

fn all_flags_true(flags: &Vec<Option<bool>>) -> (r: bool)
    ensures
        r == all_flagged(flags@),
{
    let mut i: usize = 0;
    while i < flags.len()
        invariant
            i <= flags.len(),
            forall|j: int| 0 <= j < i ==> #[trigger] flags@[j] == Some(true),
        decreases flags.len() - i,
    {
        if flags[i] != Some(true) {
            return false;
        }
        i += 1;
    }
    true
}

fn all_marks_gated(marks: &Vec<ReviewMark>) -> (r: bool)
    ensures
        r == all_agent_review_gated(marks@),
{
    let mut i: usize = 0;
    while i < marks.len()
        invariant
            i <= marks.len(),
            forall|j: int| 0 <= j < i ==> (#[trigger] marks@[j]).review_required == Some(true) && match marks@[j].authority {
                Some(a) => a@ == "agent_generated"@,
                None => false,
            },
        decreases marks.len() - i,
    {
        let ok = marks[i].review_required == Some(true) && match &marks[i].authority {
            Some(a) => str_eq(a.as_str(), "agent_generated"),
            None => false,
        };
        if !ok {
            return false;
        }
        i += 1;
    }
    true
}

/// Assesses readiness for Level 2: the readiness gates are clean when the
/// runtime state is review-gated, at least two clean dry-run episodes are
/// recorded, every recommendation is agent-generated and review-gated, the
/// recommendation ledger is valid and duplicate-free with a review surface,
/// and the packet gates are clean. Level 2 is ready only from Level 1.
pub fn assess_readiness(s: &ReadinessSignals) -> (r: ReadinessReport)
    ensures
        readiness_of(*s, r),
{
    let level: i64 = match s.autonomy_level {
        Some(l) => l,
        None => 1,
    };
    let runtime_gated = s.runtime_review_required == Some(true);
    let n = s.episode_review_flags.len();
    let episodes_gated = n > 0 && all_flags_true(&s.episode_review_flags);
    let recs_gated = s.recommendations.len() > 0 && all_marks_gated(&s.recommendations);
    let clean = match &s.packet_gates {
        Some(p) => p.evidence_present && p.raw_inbox_read_only && p.research_claims_review_gated
            && p.candidate_artifacts_marked_agent_generated && p.json_and_jsonl_validated,
        None => true,
    };
    let claims = match &s.packet_gates {
        Some(p) => p.research_claims_review_gated,
        None => true,
    };
    let stack = runtime_gated && n >= 2 && recs_gated && s.recommendation_ledger_valid
        && s.duplicate_recommendations_absent && s.recommendation_review_surface_present && clean;
    let advice = if level >= 2 {
        ReadinessAdvice::RemainLevel2
    } else if level == 1 && stack {
        ReadinessAdvice::EligibleForLevel2Review
    } else {
        ReadinessAdvice::RemainLevel1
    };
    ReadinessReport {
        current_level: level,
        runtime_review_gated: runtime_gated,
        clean_dry_run_count: n,
        minimum_clean_dry_runs_met: n >= 2,
        episodes_review_required: episodes_gated,
        recommendations_review_required: recs_gated,
        packet_promotion_gates_clean: clean,
        research_claims_review_gated: claims,
        gate_stack_clean: stack,
        level_2_active: level >= 2,
        level_2_ready: level == 1 && stack,
        advice,
    }
}

/// The outcome of a Level 2 promotion request.
#[derive(Debug, Clone, Copy, PartialEq, Eq, Structural)]
pub enum PromotionStatus {
    AlreadyAtOrAboveTargetLevel,
    PromotedToLevel2,
    DryRunReadyForExplicitWrite,
    BlockedByReadinessGates,
}

impl PromotionStatus {
    /// The status as the report writes it.
    pub fn label(&self) -> (s: &'static str)
        ensures
            s@ == match *self {
                PromotionStatus::AlreadyAtOrAboveTargetLevel => "already_at_or_above_target_level"@,
                PromotionStatus::PromotedToLevel2 => "promoted_to_level_2"@,
                PromotionStatus::DryRunReadyForExplicitWrite => "dry_run_ready_for_explicit_write"@,
                PromotionStatus::BlockedByReadinessGates => "blocked_by_readiness_gates"@,
            },
    {
        match self {
            PromotionStatus::AlreadyAtOrAboveTargetLevel => "already_at_or_above_target_level",
            PromotionStatus::PromotedToLevel2 => "promoted_to_level_2",
            PromotionStatus::DryRunReadyForExplicitWrite => "dry_run_ready_for_explicit_write",
            PromotionStatus::BlockedByReadinessGates => "blocked_by_readiness_gates",
        }
    }
}

/// Why a promotion request was refused.
#[derive(Debug, Clone, Copy, PartialEq, Eq, Structural)]
pub enum PromotionError {
    /// Only Level 2 can be promoted to.
    UnsupportedTargetLevel,
    /// Writing requires a non-blank approval note.
    ApprovalNoteRequired,
}

/// What a promotion request does.
pub struct PromotionPlan {
    pub status: PromotionStatus,
    /// The runtime state is rewritten to Level 2.
    pub runtime_mutated: bool,
}

/// The note is present and not blank.
pub open spec fn note_present(note: Option<Seq<char>>) -> bool {
    match note {
        Some(n) => trim_seq(n).len() > 0,
        None => false,
    }
}

/// The promotion owed for a request.
pub open spec fn promotion_of(
    target_level: u8,
    current_level: i64,
    level_2_ready: bool,
    write: bool,
    note: Option<Seq<char>>,
    r: Result<PromotionPlan, PromotionError>,
) -> bool {
    let already = current_level >= target_level;
    if target_level != 2 {
        r == Err::<PromotionPlan, PromotionError>(PromotionError::UnsupportedTargetLevel)
    } else if write && !already && level_2_ready && !note_present(note) {
        r == Err::<PromotionPlan, PromotionError>(PromotionError::ApprovalNoteRequired)
    } else {
        match r {
            Ok(p) => {
                &&& p.status == if already {
                    PromotionStatus::AlreadyAtOrAboveTargetLevel
                } else if level_2_ready {
                    if write { PromotionStatus::PromotedToLevel2 } else { PromotionStatus::DryRunReadyForExplicitWrite }
                } else {
                    PromotionStatus::BlockedByReadinessGates
                }
                &&& p.runtime_mutated == (write && !already && level_2_ready)
            },
            Err(_) => false,
        }
    }
}

/// Decides a Level 2 promotion: only Level 2 may be targeted; nothing
/// changes when already there or when readiness gates are not clean; a
/// ready promotion is a dry run unless written, and writing needs a
/// non-blank approval note.
pub fn plan_promotion(
    target_level: u8,
    current_level: i64,
    level_2_ready: bool,
    write: bool,
    approval_note: Option<&str>,
) -> (r: Result<PromotionPlan, PromotionError>)
    ensures
        promotion_of(target_level, current_level, level_2_ready, write, match approval_note {
            Some(n) => Some(n@),
            None => None,
        }, r),
{
    if target_level != 2 {
        return Err(PromotionError::UnsupportedTargetLevel);
    }
    let already = current_level >= 2;
    let status = if already {
        PromotionStatus::AlreadyAtOrAboveTargetLevel
    } else if level_2_ready {
        if write { PromotionStatus::PromotedToLevel2 } else { PromotionStatus::DryRunReadyForExplicitWrite }
    } else {
        PromotionStatus::BlockedByReadinessGates
    };
    if write && !already && level_2_ready {
        let has_note = match approval_note {
            Some(n) => str_trim(n).len() > 0,
            None => false,
        };
        if !has_note {
            return Err(PromotionError::ApprovalNoteRequired);
        }
        return Ok(PromotionPlan { status, runtime_mutated: true });
    }
    Ok(PromotionPlan { status, runtime_mutated: false })
}

/// Law: readiness and promotion agree. Level 2 is never both ready and
/// active; a promotion rewrites the runtime state only when the readiness
/// gates are clean at Level 1, the request writes, and an approval note is
/// given.
pub proof fn law_promotion_requires_clean_gates(
    s: ReadinessSignals,
    r: ReadinessReport,
    write: bool,
    note: Option<Seq<char>>,
    p: Result<PromotionPlan, PromotionError>,
)
    requires
        readiness_of(s, r),
        promotion_of(2, r.current_level, r.level_2_ready, write, note, p),
    ensures
        !(r.level_2_ready && r.level_2_active),
        (p matches Ok(plan) && plan.runtime_mutated) ==> r.gate_stack_clean && r.current_level == 1 && write && note_present(note),
        r.level_2_active ==> (p matches Ok(plan) && plan.status == PromotionStatus::AlreadyAtOrAboveTargetLevel && !plan.runtime_mutated),
{
}

/// Law (Level 2 readiness): the runtime is ready for Level 2 review only
/// at Level 1 (the level when none is set), with a review-gated runtime
/// state, at least two dry-run episodes, and a non-empty recommendation
/// ledger whose every record is review-gated and "agent_generated"; one
/// episode is never enough, and a runtime at Level 2 or above is told to
/// remain there.
pub proof fn law_level_2_readiness(s: ReadinessSignals, r: ReadinessReport)
    requires
        readiness_of(s, r),
    ensures
        r.level_2_ready ==> {
            &&& (s.autonomy_level is None || s.autonomy_level == Some(1i64))
            &&& s.runtime_review_required == Some(true)
            &&& s.episode_review_flags@.len() >= 2
            &&& s.recommendations@.len() > 0
            &&& forall|i: int| 0 <= i < s.recommendations@.len() ==> (#[trigger] s.recommendations@[i]).review_required == Some(true)
                && (s.recommendations@[i].authority matches Some(a) && a@ == "agent_generated"@)
        },
        s.episode_review_flags@.len() < 2 ==> !r.level_2_ready && !r.minimum_clean_dry_runs_met,
        s.autonomy_level is None ==> r.current_level == 1,
        (r.advice == ReadinessAdvice::RemainLevel2) <==> (s.autonomy_level matches Some(l) && l >= 2),
{
    if r.level_2_ready {
        assert forall|i: int| 0 <= i < s.recommendations@.len() implies (#[trigger] s.recommendations@[i]).review_required == Some(true)
            && (s.recommendations@[i].authority matches Some(a) && a@ == "agent_generated"@) by {
            assert(all_agent_review_gated(s.recommendations@));
        }
    }
}

} // verus!
