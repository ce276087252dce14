//! The Arandur system map and the improvement scan that reads it: which
//! governance layers are present, whether the packet gates are clean, and
//! which review-gated improvement candidates follow from the readiness gates.

use vstd::prelude::*;
use crate::readiness::{PacketGates, ReadinessReport};

verus! {

/// The number of leading entries of the authority order that make up the
/// sovereign governance layer.
pub const SOVEREIGN_LAYER_LEN: usize = 5;

/// The authority order, from the sovereign root to the canonical queue.
pub fn authority_order() -> (r: Vec<&'static str>)
    ensures
        r@.len() == 12,
        r@[0]@ == "ARDA_ROOT_PROTOCOL.md"@,
        r@[1]@ == "core/realm/arda.toml"@,
        r@[2]@ == "core/realm/agents.toml"@,
        r@[3]@ == "docs/governance/SOUL.md"@,
        r@[4]@ == "docs/governance/AGENTS.md"@,
        r@[5]@ == "core/state/governance_runtime.json"@,
        r@[6]@ == "docs/operations/ARANDUR_PROTOCOL.md"@,
        r@[7]@ == "core/state/arandur/runtime.json"@,
        r@[8]@ == "data/arandur/episodes.jsonl"@,
        r@[9]@ == "data/arandur/recommendations.jsonl"@,
        r@[10]@ == "audit/HUMAN_INBOX_PHASE2F_2026-05-17"@,
        r@[11]@ == "core/projects/tasks/queue.jsonl"@,
{
    vec![
        "ARDA_ROOT_PROTOCOL.md",
        "core/realm/arda.toml",
        "core/realm/agents.toml",
        "docs/governance/SOUL.md",
        "docs/governance/AGENTS.md",
        "core/state/governance_runtime.json",
        "docs/operations/ARANDUR_PROTOCOL.md",
        "core/state/arandur/runtime.json",
        "data/arandur/episodes.jsonl",
        "data/arandur/recommendations.jsonl",
        "audit/HUMAN_INBOX_PHASE2F_2026-05-17",
        "core/projects/tasks/queue.jsonl",
    ]
}

/// The sovereign layer is present when each of its paths is.
pub open spec fn sovereign_present(present: Seq<bool>) -> bool {
    present.len() >= SOVEREIGN_LAYER_LEN && forall|i: int| 0 <= i < SOVEREIGN_LAYER_LEN ==> #[trigger] present[i]
}

/// The packet gates the system map requires; an unreviewable packet is not clean.
pub open spec fn map_packet_clean(g: Option<PacketGates>) -> bool {
    match g {
        Some(p) => p.evidence_present && p.raw_inbox_read_only && p.research_claims_review_gated
            && p.json_and_jsonl_validated,
        None => false,
    }
}

/// What the system map is drawn from.
pub struct SystemFacts {
    /// Whether each path of `authority_order()` exists, in that order.
    pub authority_present: Vec<bool>,
    pub runtime_governance_present: bool,
    /// The packet review's gates; `None` when the packet could not be reviewed.
    pub packet_gates: Option<PacketGates>,
}

/// The governance layering the system map reports.
pub struct SystemLayers {
    pub sovereign_governance_present: bool,
    pub runtime_governance_present: bool,
    pub packet_promotion_gates_clean: bool,
}

/// Derives the governance layering of the system map.
pub fn map_layers(f: &SystemFacts) -> (r: SystemLayers)
    ensures
        r.sovereign_governance_present == sovereign_present(f.authority_present@),
        r.runtime_governance_present == f.runtime_governance_present,
        r.packet_promotion_gates_clean == map_packet_clean(f.packet_gates),
{
    let mut sovereign = f.authority_present.len() >= SOVEREIGN_LAYER_LEN;
    let mut i: usize = 0;
    while i < SOVEREIGN_LAYER_LEN
        invariant
            i <= SOVEREIGN_LAYER_LEN,
            sovereign == (f.authority_present@.len() >= SOVEREIGN_LAYER_LEN
                && forall|j: int| 0 <= j < i ==> #[trigger] f.authority_present@[j]),
        decreases SOVEREIGN_LAYER_LEN - i,
    {
        if sovereign && !f.authority_present[i] {
            sovereign = false;
        }
        i += 1;
    }
    let clean = match &f.packet_gates {
        Some(p) => p.evidence_present && p.raw_inbox_read_only && p.research_claims_review_gated
            && p.json_and_jsonl_validated,
        None => false,
    };
    SystemLayers {
        sovereign_governance_present: sovereign,
        runtime_governance_present: f.runtime_governance_present,
        packet_promotion_gates_clean: clean,
    }
}

/// A review-gated improvement candidate of the scan.
#[derive(Debug, Clone, Copy, PartialEq, Eq, Structural)]
pub enum Improvement {
    RuntimeReviewGate,
    CleanDryRunEvidence,
    RecommendationSurface,
    PacketGateCleanup,
    GovernanceRuntimePolicySurface,
    FirstRecommendationBatch,
}

impl Improvement {
    /// The candidate's id.
    pub fn candidate_id(&self) -> (s: &'static str)
        ensures
            s@ == match *self {
                Improvement::RuntimeReviewGate => "arandur_runtime_review_gate"@,
                Improvement::CleanDryRunEvidence => "arandur_clean_dry_run_evidence"@,
                Improvement::RecommendationSurface => "arandur_recommendation_surface"@,
                Improvement::PacketGateCleanup => "athena_packet_gate_cleanup"@,
                Improvement::GovernanceRuntimePolicySurface => "governance_runtime_policy_surface"@,
                Improvement::FirstRecommendationBatch => "arandur_first_recommendation_batch"@,
            },
    {
        match self {
            Improvement::RuntimeReviewGate => "arandur_runtime_review_gate",
            Improvement::CleanDryRunEvidence => "arandur_clean_dry_run_evidence",
            Improvement::RecommendationSurface => "arandur_recommendation_surface",
            Improvement::PacketGateCleanup => "athena_packet_gate_cleanup",
            Improvement::GovernanceRuntimePolicySurface => "governance_runtime_policy_surface",
            Improvement::FirstRecommendationBatch => "arandur_first_recommendation_batch",
        }
    }

    /// The candidate's domain.
    pub fn domain(&self) -> (s: &'static str)
        ensures
            s@ == match *self {
                Improvement::RuntimeReviewGate => "governance"@,
                Improvement::CleanDryRunEvidence => "benchmark"@,
                Improvement::RecommendationSurface => "athena_bridge"@,
                Improvement::PacketGateCleanup => "athena_bridge"@,
                Improvement::GovernanceRuntimePolicySurface => "governance"@,
                Improvement::FirstRecommendationBatch => "prometheus"@,
            },
    {
        match self {
            Improvement::RuntimeReviewGate => "governance",
            Improvement::CleanDryRunEvidence => "benchmark",
            Improvement::RecommendationSurface => "athena_bridge",
            Improvement::PacketGateCleanup => "athena_bridge",
            Improvement::GovernanceRuntimePolicySurface => "governance",
            Improvement::FirstRecommendationBatch => "prometheus",
        }
    }

    /// The path whose state is the candidate's evidence.
    pub fn evidence_path(&self) -> (s: &'static str)
        ensures
            s@ == match *self {
                Improvement::RuntimeReviewGate => "core/state/arandur/runtime.json"@,
                Improvement::CleanDryRunEvidence => "data/arandur/episodes.jsonl"@,
                Improvement::RecommendationSurface => "data/arandur/recommendations.jsonl"@,
                Improvement::PacketGateCleanup => "audit/HUMAN_INBOX_PHASE2F_2026-05-17"@,
                Improvement::GovernanceRuntimePolicySurface => "core/state/governance_runtime.json"@,
                Improvement::FirstRecommendationBatch => "data/arandur/recommendations.jsonl"@,
            },
    {
        match self {
            Improvement::RuntimeReviewGate => "core/state/arandur/runtime.json",
            Improvement::CleanDryRunEvidence => "data/arandur/episodes.jsonl",
            Improvement::RecommendationSurface => "data/arandur/recommendations.jsonl",
            Improvement::PacketGateCleanup => "audit/HUMAN_INBOX_PHASE2F_2026-05-17",
            Improvement::GovernanceRuntimePolicySurface => "core/state/governance_runtime.json",
            Improvement::FirstRecommendationBatch => "data/arandur/recommendations.jsonl",
        }
    }

    /// The command that acts on the candidate.
    pub fn recommended_command(&self) -> (s: &'static str)
        ensures
            s@ == match *self {
                Improvement::RuntimeReviewGate => "prometheus arandur initialize"@,
                Improvement::CleanDryRunEvidence => "prometheus arandur benchmark --packet-dir audit/HUMAN_INBOX_PHASE2F_2026-05-17"@,
                Improvement::RecommendationSurface => "prometheus arandur recommend-next --dry-run"@,
                Improvement::PacketGateCleanup => "prometheus arandur review-packet --packet-dir audit/HUMAN_INBOX_PHASE2F_2026-05-17"@,
                Improvement::GovernanceRuntimePolicySurface => "review governance_runtime policy requirements"@,
                Improvement::FirstRecommendationBatch => "prometheus arandur recommend-next"@,
            },
    {
        match self {
            Improvement::RuntimeReviewGate => "prometheus arandur initialize",
            Improvement::CleanDryRunEvidence => "prometheus arandur benchmark --packet-dir audit/HUMAN_INBOX_PHASE2F_2026-05-17",
            Improvement::RecommendationSurface => "prometheus arandur recommend-next --dry-run",
            Improvement::PacketGateCleanup => "prometheus arandur review-packet --packet-dir audit/HUMAN_INBOX_PHASE2F_2026-05-17",
            Improvement::GovernanceRuntimePolicySurface => "review governance_runtime policy requirements",
            Improvement::FirstRecommendationBatch => "prometheus arandur recommend-next",
        }
    }

    /// The candidate's summary.
    pub fn summary(&self) -> (s: &'static str)
        ensures
            s@ == match *self {
                Improvement::RuntimeReviewGate => "Initialize or repair Arandur runtime state so authority and review_required metadata are explicit."@,
                Improvement::CleanDryRunEvidence => "Record additional clean supervised dry-run episodes before expanding autonomy."@,
                Improvement::RecommendationSurface => "Create an append-only review-gated recommendation surface from ATHENA packet candidates."@,
                Improvement::PacketGateCleanup => "Clean packet metadata/evidence gates before any canonical promotion review."@,
                Improvement::GovernanceRuntimePolicySurface => "Provide machine-readable governance_runtime policy before broader autonomous enforcement."@,
                Improvement::FirstRecommendationBatch => "Generate a first review-required recommendation batch without mutating the canonical queue."@,
            },
    {
        match self {
            Improvement::RuntimeReviewGate => "Initialize or repair Arandur runtime state so authority and review_required metadata are explicit.",
            Improvement::CleanDryRunEvidence => "Record additional clean supervised dry-run episodes before expanding autonomy.",
            Improvement::RecommendationSurface => "Create an append-only review-gated recommendation surface from ATHENA packet candidates.",
            Improvement::PacketGateCleanup => "Clean packet metadata/evidence gates before any canonical promotion review.",
            Improvement::GovernanceRuntimePolicySurface => "Provide machine-readable governance_runtime policy before broader autonomous enforcement.",
            Improvement::FirstRecommendationBatch => "Generate a first review-required recommendation batch without mutating the canonical queue.",
        }
    }
}

/// The scan's result.
pub struct ImprovementScan {
    /// The candidates, in the order of the readiness checks that raise them.
    pub improvements: Vec<Improvement>,
    /// The readiness gates are not all clean.
    pub blocked_by_review_gate: bool,
}

/// The candidates raised by the readiness checks, in order.
pub open spec fn improvements_of(
    r: ReadinessReport,
    surface_present: bool,
    runtime_governance_present: bool,
    recommendation_records: u64,
) -> Seq<Improvement> {
    let s0: Seq<Improvement> = Seq::empty();
    let s1 = if !r.runtime_review_gated { s0.push(Improvement::RuntimeReviewGate) } else { s0 };
    let s2 = if !r.minimum_clean_dry_runs_met { s1.push(Improvement::CleanDryRunEvidence) } else { s1 };
    let s3 = if !surface_present { s2.push(Improvement::RecommendationSurface) } else { s2 };
    let s4 = if !r.packet_promotion_gates_clean { s3.push(Improvement::PacketGateCleanup) } else { s3 };
    let s5 = if !runtime_governance_present {
        s4.push(Improvement::GovernanceRuntimePolicySurface)
    } else {
        s4
    };
    if recommendation_records == 0 { s5.push(Improvement::FirstRecommendationBatch) } else { s5 }
}

/// The command the scan recommends next.
pub fn next_scan_command(blocked_by_review_gate: bool) -> (s: &'static str)
    ensures
        s@ == if blocked_by_review_gate {
            "prometheus arandur benchmark --packet-dir audit/HUMAN_INBOX_PHASE2F_2026-05-17"@
        } else {
            "prometheus arandur readiness"@
        },
{
    if blocked_by_review_gate {
        "prometheus arandur benchmark --packet-dir audit/HUMAN_INBOX_PHASE2F_2026-05-17"
    } else {
        "prometheus arandur readiness"
    }
}

/// Scans for improvements: each readiness gate that is not clean raises its
/// candidate, as do a missing governance runtime policy and an empty
/// recommendation ledger; nothing is mutated.
pub fn scan_improvements(
    r: &ReadinessReport,
    recommendation_review_surface_present: bool,
    runtime_governance_present: bool,
    recommendation_records: u64,
) -> (s: ImprovementScan)
    ensures
        s.improvements@ == improvements_of(
            *r,
            recommendation_review_surface_present,
            runtime_governance_present,
            recommendation_records,
        ),
        s.blocked_by_review_gate == !r.gate_stack_clean,
{
    let mut v: Vec<Improvement> = Vec::new();
    if !r.runtime_review_gated {
        v.push(Improvement::RuntimeReviewGate);
    }
    if !r.minimum_clean_dry_runs_met {
        v.push(Improvement::CleanDryRunEvidence);
    }
    if !recommendation_review_surface_present {
        v.push(Improvement::RecommendationSurface);
    }
    if !r.packet_promotion_gates_clean {
        v.push(Improvement::PacketGateCleanup);
    }
    if !runtime_governance_present {
        v.push(Improvement::GovernanceRuntimePolicySurface);
    }
    if recommendation_records == 0 {
        v.push(Improvement::FirstRecommendationBatch);
    }
    ImprovementScan { improvements: v, blocked_by_review_gate: !r.gate_stack_clean }
}

/// A clean readiness stack with a present governance policy and a
/// non-empty recommendation ledger raises no improvement candidate.
pub proof fn law_clean_stack_raises_no_candidate(
    s: crate::readiness::ReadinessSignals,
    r: ReadinessReport,
    runtime_governance_present: bool,
    recommendation_records: u64,
)
    requires
        crate::readiness::readiness_of(s, r),
        r.gate_stack_clean,
        runtime_governance_present,
        recommendation_records > 0,
    ensures
        improvements_of(r, s.recommendation_review_surface_present, runtime_governance_present, recommendation_records)
            =~= Seq::<Improvement>::empty(),
{
}

proof fn lemma_push_if_contains(s: Seq<Improvement>, cond: bool, x: Improvement, y: Improvement)
    ensures
        (if cond { s.push(x) } else { s }).contains(y) <==> (s.contains(y) || (cond && y == x)),
{
    if cond {
        let t = s.push(x);
        if s.contains(y) {
            let k = choose|k: int| 0 <= k < s.len() && s[k] == y;
            assert(t[k] == y);
        }
        if y == x {
            assert(t[s.len() as int] == x);
        }
        if t.contains(y) {
            let k = choose|k: int| 0 <= k < t.len() && t[k] == y;
            if k < s.len() {
                assert(s[k] == y);
            }
        }
    }
}

/// Law (improvement candidates): each check that fails raises its own
/// candidate and no other: a runtime that is not review-gated, fewer than
/// the minimum clean dry runs, a missing review surface, unclean packet
/// gates, a missing governance runtime policy, and an empty
/// recommendation ledger.
pub proof fn law_each_failed_check_raises_its_candidate(
    r: ReadinessReport,
    surface_present: bool,
    runtime_governance_present: bool,
    recommendation_records: u64,
)
    ensures
        improvements_of(r, surface_present, runtime_governance_present, recommendation_records)
            .contains(Improvement::RuntimeReviewGate) <==> !r.runtime_review_gated,
        improvements_of(r, surface_present, runtime_governance_present, recommendation_records)
            .contains(Improvement::CleanDryRunEvidence) <==> !r.minimum_clean_dry_runs_met,
        improvements_of(r, surface_present, runtime_governance_present, recommendation_records)
            .contains(Improvement::RecommendationSurface) <==> !surface_present,
        improvements_of(r, surface_present, runtime_governance_present, recommendation_records)
            .contains(Improvement::PacketGateCleanup) <==> !r.packet_promotion_gates_clean,
        improvements_of(r, surface_present, runtime_governance_present, recommendation_records)
            .contains(Improvement::GovernanceRuntimePolicySurface) <==> !runtime_governance_present,
        improvements_of(r, surface_present, runtime_governance_present, recommendation_records)
            .contains(Improvement::FirstRecommendationBatch) <==> recommendation_records == 0,
{
    let s0: Seq<Improvement> = Seq::empty();
    let s1 = if !r.runtime_review_gated { s0.push(Improvement::RuntimeReviewGate) } else { s0 };
    let s2 = if !r.minimum_clean_dry_runs_met { s1.push(Improvement::CleanDryRunEvidence) } else { s1 };
    let s3 = if !surface_present { s2.push(Improvement::RecommendationSurface) } else { s2 };
    let s4 = if !r.packet_promotion_gates_clean { s3.push(Improvement::PacketGateCleanup) } else { s3 };
    let s5 = if !runtime_governance_present { s4.push(Improvement::GovernanceRuntimePolicySurface) } else { s4 };
    let all = if recommendation_records == 0 { s5.push(Improvement::FirstRecommendationBatch) } else { s5 };
    assert(improvements_of(r, surface_present, runtime_governance_present, recommendation_records) == all);
    let ys = seq![Improvement::RuntimeReviewGate, Improvement::CleanDryRunEvidence, Improvement::RecommendationSurface,
        Improvement::PacketGateCleanup, Improvement::GovernanceRuntimePolicySurface, Improvement::FirstRecommendationBatch];
    assert forall|j: int| 0 <= j < 6 implies (#[trigger] all.contains(ys[j])) == (
        (!r.runtime_review_gated && ys[j] == Improvement::RuntimeReviewGate)
        || (!r.minimum_clean_dry_runs_met && ys[j] == Improvement::CleanDryRunEvidence)
        || (!surface_present && ys[j] == Improvement::RecommendationSurface)
        || (!r.packet_promotion_gates_clean && ys[j] == Improvement::PacketGateCleanup)
        || (!runtime_governance_present && ys[j] == Improvement::GovernanceRuntimePolicySurface)
        || (recommendation_records == 0 && ys[j] == Improvement::FirstRecommendationBatch)) by {
        let y = ys[j];
        lemma_push_if_contains(s0, !r.runtime_review_gated, Improvement::RuntimeReviewGate, y);
        lemma_push_if_contains(s1, !r.minimum_clean_dry_runs_met, Improvement::CleanDryRunEvidence, y);
        lemma_push_if_contains(s2, !surface_present, Improvement::RecommendationSurface, y);
        lemma_push_if_contains(s3, !r.packet_promotion_gates_clean, Improvement::PacketGateCleanup, y);
        lemma_push_if_contains(s4, !runtime_governance_present, Improvement::GovernanceRuntimePolicySurface, y);
        lemma_push_if_contains(s5, recommendation_records == 0, Improvement::FirstRecommendationBatch, y);
    }
    assert(all.contains(ys[0]) == all.contains(Improvement::RuntimeReviewGate));
    assert(all.contains(ys[1]) == all.contains(Improvement::CleanDryRunEvidence));
    assert(all.contains(ys[2]) == all.contains(Improvement::RecommendationSurface));
    assert(all.contains(ys[3]) == all.contains(Improvement::PacketGateCleanup));
    assert(all.contains(ys[4]) == all.contains(Improvement::GovernanceRuntimePolicySurface));
    assert(all.contains(ys[5]) == all.contains(Improvement::FirstRecommendationBatch));
}

} // verus!
