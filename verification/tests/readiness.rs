use arda_aule::digest_ids::sha1_hex;
use arda_aule::mutations::{
    check_mutation, mutation_class, mutation_classes, normalize_target, verification_status,
    FileSnapshot, MutationClass,
};
use arda_aule::queue::{report_mission_backlog, QueueRecord};
use arda_aule::readiness::{
    assess_readiness, plan_promotion, PacketGates, PromotionError, PromotionStatus,
    ReadinessAdvice, ReadinessSignals, ReviewMark,
};
use arda_aule::system_map::{
    authority_order, map_layers, next_scan_command, scan_improvements, Improvement, SystemFacts,
};

fn clean_gates() -> PacketGates {
    PacketGates {
        evidence_present: true,
        raw_inbox_read_only: true,
        research_claims_review_gated: true,
        candidate_artifacts_marked_agent_generated: true,
        json_and_jsonl_validated: true,
    }
}

fn gated_mark() -> ReviewMark {
    ReviewMark { review_required: Some(true), authority: Some("agent_generated".to_string()) }
}

fn signals(level: i64, episodes: usize) -> ReadinessSignals {
    ReadinessSignals {
        autonomy_level: Some(level),
        runtime_review_required: Some(true),
        episode_review_flags: vec![Some(true); episodes],
        recommendations: vec![gated_mark()],
        recommendation_ledger_valid: true,
        duplicate_recommendations_absent: true,
        recommendation_review_surface_present: true,
        packet_gates: Some(clean_gates()),
    }
}

#[test]
fn readiness_reports_recommendation_ledger_quality_gates() {
    let s = signals(1, 2);
    let r = assess_readiness(&s);
    assert!(s.recommendation_ledger_valid);
    assert!(s.duplicate_recommendations_absent);
    assert!(s.recommendation_review_surface_present);
    assert!(r.gate_stack_clean);
    let mut dup = signals(1, 2);
    dup.duplicate_recommendations_absent = false;
    assert!(!assess_readiness(&dup).gate_stack_clean);
}

#[test]
fn readiness_requires_clean_level_two_gates() {
    let r = assess_readiness(&signals(1, 2));
    assert_eq!(r.current_level, 1);
    assert!(r.level_2_ready);
    assert!(r.recommendations_review_required);
    assert_eq!(r.advice, ReadinessAdvice::EligibleForLevel2Review);
    let r1 = assess_readiness(&signals(1, 1));
    assert!(!r1.minimum_clean_dry_runs_met);
    assert!(!r1.level_2_ready);
    assert_eq!(
        r1.advice.label(),
        "remain_level_1_observe_plan_recommend_until_gates_are_clean"
    );
}

#[test]
fn readiness_reports_active_level_two_without_regression_recommendation() {
    let r = assess_readiness(&signals(2, 2));
    assert_eq!(r.current_level, 2);
    assert!(r.level_2_active);
    assert!(r.gate_stack_clean);
    assert!(!r.level_2_ready);
    assert_eq!(r.advice.label(), "remain_level_2_append_only_review_gated_candidate_surfaces");
}

#[test]
fn readiness_surfaces_effective_mission_backlog_for_next_gate_selection() {
    let rec = |status: &str, source: &str| QueueRecord {
        id: Some("task-phase6j".to_string()),
        status: Some(status.to_string()),
        title: Some("Review mission candidate: stale".to_string()),
        source: Some(source.to_string()),
        phase: Some("6J".to_string()),
    };
    let queue = vec![
        rec("pending", "arandur_phase6j_canonical_queue_write"),
        rec("completed", "arandur_canonical_queue_task_execution"),
    ];
    let backlog = report_mission_backlog(&queue);
    assert_eq!(backlog.open_tasks.len(), 0);
    assert_eq!(backlog.next_action.label(), "generate_or_select_next_review_gated_arandur_gate");
    assert_eq!(authority_order()[11], "core/projects/tasks/queue.jsonl");
}

#[test]
fn readiness_defaults_to_level_one_without_runtime_state() {
    let mut s = signals(1, 2);
    s.autonomy_level = None;
    s.runtime_review_required = None;
    s.packet_gates = None;
    let r = assess_readiness(&s);
    assert_eq!(r.current_level, 1);
    assert!(!r.runtime_review_gated);
    assert!(r.packet_promotion_gates_clean);
    assert!(!r.gate_stack_clean);
}

#[test]
fn system_map_reports_governance_crate_layers_and_athena_surfaces() {
    let order = authority_order();
    assert_eq!(order.len(), 12);
    assert_eq!(order[0], "ARDA_ROOT_PROTOCOL.md");
    let layers = map_layers(&SystemFacts {
        authority_present: vec![true; 12],
        runtime_governance_present: true,
        packet_gates: Some(clean_gates()),
    });
    assert!(layers.sovereign_governance_present);
    assert!(layers.runtime_governance_present);
    assert!(layers.packet_promotion_gates_clean);
    let partial = map_layers(&SystemFacts {
        authority_present: vec![true, true, true, false, true],
        runtime_governance_present: false,
        packet_gates: None,
    });
    assert!(!partial.sovereign_governance_present);
    assert!(!partial.packet_promotion_gates_clean);
}

#[test]
fn improvement_scan_emits_review_gated_governance_candidates_without_mutation() {
    let mut s = signals(1, 2);
    s.recommendations = vec![];
    let r = assess_readiness(&s);
    let scan = scan_improvements(&r, true, false, 0);
    assert!(scan.improvements.contains(&Improvement::GovernanceRuntimePolicySurface));
    let gov = Improvement::GovernanceRuntimePolicySurface;
    assert_eq!(gov.candidate_id(), "governance_runtime_policy_surface");
    assert_eq!(gov.domain(), "governance");
    assert!(scan.blocked_by_review_gate);
    assert_eq!(
        scan.improvements,
        vec![Improvement::GovernanceRuntimePolicySurface, Improvement::FirstRecommendationBatch]
    );
    assert_eq!(
        next_scan_command(scan.blocked_by_review_gate),
        "prometheus arandur benchmark --packet-dir audit/HUMAN_INBOX_PHASE2F_2026-05-17"
    );
}

#[test]
fn clean_stack_scan_raises_no_candidate() {
    let r = assess_readiness(&signals(1, 2));
    let scan = scan_improvements(&r, true, true, 3);
    assert!(scan.improvements.is_empty());
    assert!(!scan.blocked_by_review_gate);
    assert_eq!(next_scan_command(false), "prometheus arandur readiness");
}

#[test]
fn promote_level_write_is_no_op_when_already_level_two() {
    let plan = plan_promotion(2, 2, false, true, Some("operator re-ran promotion after Level 2 was active"))
        .unwrap();
    assert_eq!(plan.status, PromotionStatus::AlreadyAtOrAboveTargetLevel);
    assert_eq!(plan.status.label(), "already_at_or_above_target_level");
    assert!(!plan.runtime_mutated);
}

#[test]
fn promote_level_dry_run_reports_approval_without_mutating_runtime() {
    let ready = assess_readiness(&signals(1, 2)).level_2_ready;
    let plan = plan_promotion(2, 1, ready, false, Some("operator approved next-step dry-run")).unwrap();
    assert_eq!(plan.status.label(), "dry_run_ready_for_explicit_write");
    assert!(!plan.runtime_mutated);
}

#[test]
fn promote_level_write_updates_runtime_only_when_gates_are_ready() {
    let ready = assess_readiness(&signals(1, 2)).level_2_ready;
    let plan = plan_promotion(2, 1, ready, true, Some("operator approved Level 2 append-only surfaces"))
        .unwrap();
    assert_eq!(plan.status.label(), "promoted_to_level_2");
    assert!(plan.runtime_mutated);
    let blocked = plan_promotion(2, 1, false, true, Some("note")).unwrap();
    assert_eq!(blocked.status, PromotionStatus::BlockedByReadinessGates);
    assert!(!blocked.runtime_mutated);
}

#[test]
fn promotion_refuses_other_levels_and_blank_notes() {
    assert_eq!(
        plan_promotion(3, 1, true, false, None).err(),
        Some(PromotionError::UnsupportedTargetLevel)
    );
    assert_eq!(
        plan_promotion(2, 1, true, true, Some("   ")).err(),
        Some(PromotionError::ApprovalNoteRequired)
    );
    assert_eq!(
        plan_promotion(2, 1, true, true, None).err(),
        Some(PromotionError::ApprovalNoteRequired)
    );
}

#[test]
fn bounded_mutation_classes_report_level_two_contract() {
    let classes = mutation_classes();
    assert!(classes.iter().any(|c| c.class_id() == "recommendation_ledger_append"));
    assert_eq!(classes.len(), 4);
    assert_eq!(mutation_class("episode_ledger_append"), Some(MutationClass::EpisodeLedgerAppend));
    assert_eq!(mutation_class("nope"), None);
    assert_eq!(
        MutationClass::RecommendationLedgerAppend.path(),
        "data/arandur/recommendations.jsonl"
    );
}

#[test]
fn verify_mutation_reports_pre_post_evidence_without_default_append() {
    let before = "{\"recommendation_id\":\"rec1\",\"authority\":\"agent_generated\",\"review_required\":true}\n";
    let after = "{\"recommendation_id\":\"rec1\",\"authority\":\"agent_generated\",\"review_required\":true}\n{\"recommendation_id\":\"rec2\",\"authority\":\"agent_generated\",\"review_required\":true}\n";
    let pre_sha1 = Some(sha1_hex(before));
    let post = FileSnapshot { sha1: Some(sha1_hex(after)), bytes: Some(after.len() as u64) };
    let target = normalize_target("./data/arandur/recommendations.jsonl");
    let checks = check_mutation(
        MutationClass::RecommendationLedgerAppend,
        &target,
        &pre_sha1,
        Some(before.len() as u64),
        &post,
        true,
    );
    assert!(checks.target_matches_class);
    assert!(checks.passed);
    assert_eq!(verification_status(checks.passed), "passed");
}

#[test]
fn mutation_check_fails_when_same_size_content_changes_or_file_shrinks() {
    let pre = Some(sha1_hex("abc"));
    let same_size = FileSnapshot { sha1: Some(sha1_hex("abd")), bytes: Some(3) };
    let c = check_mutation(MutationClass::EpisodeLedgerAppend, "data/arandur/episodes.jsonl", &pre, Some(3), &same_size, true);
    assert!(!c.unchanged_or_append_growth);
    assert!(!c.passed);
    let shrunk = FileSnapshot { sha1: Some(sha1_hex("a")), bytes: Some(1) };
    let c2 = check_mutation(MutationClass::EpisodeLedgerAppend, "data/arandur/episodes.jsonl", &pre, Some(3), &shrunk, true);
    assert!(!c2.append_only_size_check);
    assert_eq!(verification_status(false), "failed_requires_rollback_report");
    assert_eq!(normalize_target("././x"), "x");
}

#[test]
fn rollback_report_appends_review_gated_evidence_when_requested() {
    let class = mutation_class("recommendation_ledger_append").unwrap();
    assert_eq!(class, MutationClass::RecommendationLedgerAppend);
    assert_eq!(normalize_target(class.path()), "data/arandur/recommendations.jsonl");
    assert!(mutation_classes().contains(&MutationClass::MutationEvidenceAppend));
}
