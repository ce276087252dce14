use arda_aule::digest_ids::gate_decision_id;
use arda_aule::gates::{
    count_blocked_reason, count_governance_class, effective_queue_status, gate_candidates,
    gate_decision_exists, gate_next_status, plan_gate_decision, select_next_gate_candidate,
    BlockedReason, DecisionRecord, GateDecision, GateDecisionError, GateDecisionOutcome,
    GateRecord, GovernanceClass,
};
use arda_aule::queue::QueueRecord;

fn some(v: &str) -> Option<String> {
    Some(v.to_string())
}

fn rec(objective: &str, action: &str) -> GateRecord {
    GateRecord {
        objective_id: some(objective),
        action_class: some(action),
        approval_status: None,
        approval_packet_id: None,
    }
}

fn stale_queue() -> Vec<QueueRecord> {
    let q = |status: &str| QueueRecord {
        id: some("stale-objective"),
        status: some(status),
        title: None,
        source: None,
        phase: None,
    };
    vec![q("pending"), q("completed")]
}

#[test]
fn gate_next_selects_review_gated_recommendation_without_queue_mutation() {
    let records = vec![
        rec("stale-objective", "recommendation_ledger_append"),
        rec("next-objective", "recommendation_ledger_append"),
    ];
    let candidates = gate_candidates(&records, &stale_queue());
    let selected = select_next_gate_candidate(&candidates);
    assert_eq!(gate_next_status(selected.is_some()), "next_review_gated_candidate_selected");
    let c = &candidates[selected.unwrap()];
    assert_eq!(c.objective_id, "next-objective");
    assert_eq!(c.blocked_reason.unwrap().label(), "operator_approval_packet_missing");
    assert_eq!(c.governance_class.label(), "review_gated_recommendation");
    assert_eq!(candidates[0].governance_class, GovernanceClass::StaleSupersededRawQueueRecord);
    assert_eq!(candidates[0].queue_effective_status.as_deref(), Some("completed"));
}

#[test]
fn gate_blocked_groups_candidates_by_reason_and_class() {
    let mut approved = rec("approved-objective", "recommendation_ledger_append");
    approved.approval_status = some("approved");
    approved.approval_packet_id = some("APPR-approved");
    let records = vec![
        rec("valid-objective", "recommendation_ledger_append"),
        rec("stale-objective", "recommendation_ledger_append"),
        rec("unknown-objective", "mystery_mutation"),
        rec("unsafe-objective", "canonical_queue_write"),
        approved,
    ];
    let cs = gate_candidates(&records, &stale_queue());
    assert_eq!(count_blocked_reason(&cs, BlockedReason::OperatorApprovalPacketMissing), 1);
    assert_eq!(count_blocked_reason(&cs, BlockedReason::StaleOrSupersededQueueRecord), 1);
    assert_eq!(count_blocked_reason(&cs, BlockedReason::UnknownActionClass), 1);
    assert_eq!(count_blocked_reason(&cs, BlockedReason::UnsafeActionClass), 1);
    assert_eq!(count_governance_class(&cs, GovernanceClass::ReviewGatedRecommendation), 1);
    assert_eq!(count_governance_class(&cs, GovernanceClass::StaleSupersededRawQueueRecord), 1);
    assert_eq!(count_governance_class(&cs, GovernanceClass::UnknownActionClass), 1);
    assert_eq!(count_governance_class(&cs, GovernanceClass::UnsafeBlocked), 1);
    assert_eq!(count_governance_class(&cs, GovernanceClass::OperatorApproved), 1);
    assert_eq!(cs[4].approval_packet_id.as_deref(), Some("APPR-approved"));
    assert_eq!(cs[4].blocked_reason, None);
}

#[test]
fn gate_approve_appends_status_approved_packet_and_is_idempotent() {
    let records = vec![rec("next-objective", "recommendation_ledger_append")];
    let cs = gate_candidates(&records, &vec![]);
    let just = "operator approved next review-gated automation lane";
    let first = plan_gate_decision("next-objective", just, GateDecision::Approved, &cs, &vec![]);
    let id = match first {
        Ok(GateDecisionOutcome::Record { approval_id, governance_class }) => {
            assert_eq!(governance_class, GovernanceClass::OperatorApproved);
            approval_id
        }
        _ => panic!("first approval must be recorded"),
    };
    assert_eq!(id, gate_decision_id("approved", "next-objective"));
    assert!(id.starts_with("arandur_gate_approved_"));
    let ledger = vec![DecisionRecord { objective_id: some("next-objective"), packet_status: some("approved") }];
    assert!(gate_decision_exists(&ledger, "next-objective", "approved"));
    let second = plan_gate_decision("next-objective", just, GateDecision::Approved, &cs, &ledger);
    assert!(matches!(second, Ok(GateDecisionOutcome::AlreadyRecorded)));
    assert_eq!(GateDecision::Approved.label(), "approved");
}

#[test]
fn gate_deny_appends_blocking_decision_without_approving_candidate() {
    let records = vec![rec("unsafe-objective", "canonical_queue_write")];
    let cs = gate_candidates(&records, &vec![]);
    let outcome = plan_gate_decision(
        "unsafe-objective",
        "unsafe action class remains blocked at Level 2",
        GateDecision::Denied,
        &cs,
        &vec![],
    );
    assert!(matches!(
        outcome,
        Ok(GateDecisionOutcome::Record { governance_class: GovernanceClass::OperatorDenied, .. })
    ));
    assert_eq!(cs[0].blocked_reason.unwrap().label(), "unsafe_action_class");
    let mut denial = rec("unsafe-objective", "canonical_queue_write");
    denial.approval_status = some("denied");
    let after = gate_candidates(&vec![rec("unsafe-objective", "canonical_queue_write"), denial], &vec![]);
    assert_eq!(after[1].blocked_reason, Some(BlockedReason::OperatorDenied));
    assert_eq!(
        gate_next_status(select_next_gate_candidate(&after).is_some()),
        "no_review_gated_candidate_available"
    );
}

#[test]
fn gate_decision_refuses_blank_and_unknown_objectives() {
    let cs = gate_candidates(&vec![rec("a", "recommendation_ledger_append")], &vec![]);
    let err = |r: Result<GateDecisionOutcome, GateDecisionError>| match r {
        Err(e) => Some(e),
        Ok(_) => None,
    };
    assert_eq!(
        err(plan_gate_decision(" ", "why", GateDecision::Approved, &cs, &vec![])),
        Some(GateDecisionError::ObjectiveRequired)
    );
    assert_eq!(
        err(plan_gate_decision("a", "  ", GateDecision::Approved, &cs, &vec![])),
        Some(GateDecisionError::JustificationRequired)
    );
    assert_eq!(
        err(plan_gate_decision("b", "why", GateDecision::Approved, &cs, &vec![])),
        Some(GateDecisionError::UnknownObjective)
    );
}

#[test]
fn effective_queue_status_takes_the_latest_record() {
    assert_eq!(effective_queue_status(&stale_queue(), "stale-objective").as_deref(), Some("completed"));
    assert_eq!(effective_queue_status(&stale_queue(), "other"), None);
    let nameless = GateRecord { objective_id: None, action_class: None, approval_status: None, approval_packet_id: None };
    assert!(gate_candidates(&vec![nameless], &vec![]).is_empty());
}
