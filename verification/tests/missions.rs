use arda_aule::digest_ids::{phase6f_mission_review_id, short_digest_id};
use arda_aule::ledger::select_new_records_by_id;
use arda_aule::missions::{
    build_approval_requests, build_mission_candidates, build_queue_proposals,
    build_queue_write_requests, build_review_packets, candidate_filter, is_agent_gated,
    mission_candidate_id, plan_approval_decision, plan_canonical_queue_write, stage_status,
    stage_status_label, ApprovalRecordRef, CandidateRecordRef, DecisionError, MissionPattern,
    PatternRecordRef, ProposalRecordRef, QueueWriteError, RecommendationRef, ReviewRecordRef,
    ScoutRef, Stage, StageStatus, WriteRequestRecordRef,
};
use arda_aule::readiness::ReviewMark;
use arda_aule::telemetry::write_allowed;

fn some(v: &str) -> Option<String> {
    Some(v.to_string())
}

fn gated() -> ReviewMark {
    ReviewMark { review_required: Some(true), authority: some("agent_generated") }
}

/// Runs one idempotent append: the ids not yet in the ledger are
/// appended; returns the status label and the ledger afterwards.
fn append_once(stage: Stage, ledger: &Vec<String>, ids: &Vec<String>) -> (&'static str, Vec<String>) {
    let pending: Vec<Option<String>> = ids.iter().map(|i| Some(i.clone())).collect();
    let chosen = select_new_records_by_id(ledger, &pending);
    let mut after = ledger.clone();
    for &i in &chosen {
        after.push(ids[i].clone());
    }
    let status = stage_status(true, ids.len(), chosen.len());
    (stage_status_label(stage, status), after)
}

fn candidate_record() -> CandidateRecordRef {
    CandidateRecordRef {
        mark: gated(),
        mission_candidate_id: some("phase6e_candidate_business"),
        title: some("Business opportunity scout mission"),
        scope: some("public internet opportunity scouting"),
    }
}

fn approval_record(status: Option<&str>) -> ApprovalRecordRef {
    ApprovalRecordRef {
        mark: gated(),
        approval_request_id: some("phase6g_approval_business"),
        phase: some("6G"),
        approval_status: status.map(|s| s.to_string()),
        source_mission_candidate_id: some("phase6e_candidate_business"),
        source_mission_review_id: some("phase6f_review_business"),
        recommendation_title: some("Business opportunity scout mission"),
        recommendation_scope: some("public internet opportunity scouting"),
        approval_question: None,
    }
}

fn write_request(has_id: bool) -> WriteRequestRecordRef {
    WriteRequestRecordRef {
        mark: gated(),
        write_pending: Some(true),
        queue_write_request_id: some("phase6i_write_business"),
        source_mission_candidate_id: some("phase6e_candidate_business"),
        source_approval_request_id: some("phase6g_approval_business"),
        snapshot_approval_request_id: None,
        entry_is_object: true,
        entry_has_id: has_id,
        entry_has_status: false,
    }
}

fn pattern_records() -> (Vec<PatternRecordRef>, Vec<RecommendationRef>, Vec<ScoutRef>) {
    let records = vec![PatternRecordRef {
        mark: gated(),
        synthesis_id: some("phase6d_patterns_abc"),
        patterns: Some(vec![MissionPattern {
            mark: gated(),
            pattern_id: some("scout_scope_public_internet_opportunity_scouting"),
            kind: some("scout_scope_focus"),
            summary: some("Scout findings repeatedly target public internet opportunity scouting."),
            scope: None,
        }]),
    }];
    let recs = vec![RecommendationRef {
        mark: gated(),
        recommendation_id: some("rec1"),
        recommended_candidate_id: some("candidate_business_opportunities"),
    }];
    let scouts = vec![ScoutRef {
        mark: gated(),
        finding_id: some("find1"),
        scope: some("public internet opportunity scouting"),
    }];
    (records, recs, scouts)
}

#[test]
fn phase6e_mission_promotion_is_dry_run_and_review_gated_by_default() {
    let (records, recs, scouts) = pattern_records();
    let built = build_mission_candidates(&records, &recs, &scouts);
    assert_eq!(built.candidates.len(), 1);
    let c = &built.candidates[0];
    assert_eq!(c.title, "Review approved Arandur pattern: scout scope focus");
    assert_eq!(c.scope, "public internet opportunity scouting");
    assert_eq!(c.source_pattern_synthesis_id, "phase6d_patterns_abc");
    assert_eq!(built.recommendation_ids, vec!["rec1".to_string()]);
    assert_eq!(built.scout_ids, vec!["find1".to_string()]);
    let status = stage_status(false, built.candidates.len(), 0);
    assert_eq!(stage_status_label(Stage::MissionCandidates, status), "dry_run_no_mutation");
}

#[test]
fn phase6e_mission_promotion_write_requires_justification_and_is_idempotent() {
    assert!(!write_allowed(true, None));
    assert!(write_allowed(true, Some("operator approved bounded 6E mission candidate append")));
    let (records, recs, scouts) = pattern_records();
    let built = build_mission_candidates(&records, &recs, &scouts);
    let seed = format!("{}|{}", built.candidates[0].source_pattern_id, built.candidates[0].scope);
    let id = mission_candidate_id(&seed);
    assert_eq!(id, mission_candidate_id(&seed));
    assert!(id.starts_with("phase6e_mission_"));
    let ids = vec![id];
    let (first, ledger) = append_once(Stage::MissionCandidates, &vec![], &ids);
    let (second, ledger2) = append_once(Stage::MissionCandidates, &ledger, &ids);
    assert_eq!(first, "mission_candidates_recorded");
    assert_eq!(second, "already_recorded_idempotent_noop");
    assert_eq!(ledger2.len(), 1);
}

#[test]
fn phase6f_mission_candidate_review_is_dry_run_and_review_gated_by_default() {
    let packets = build_review_packets(&vec![candidate_record()], &None);
    assert_eq!(packets.len(), 1);
    assert_eq!(packets[0].source_mission_candidate_id, "phase6e_candidate_business");
    assert_eq!(packets[0].title, "Review mission candidate: Business opportunity scout mission");
    assert_eq!(packets[0].mission_review_id, phase6f_mission_review_id("phase6e_candidate_business"));
    assert_eq!(
        stage_status_label(Stage::MissionReviews, stage_status(false, 1, 0)),
        "dry_run_no_mutation"
    );
}

#[test]
fn phase6f_mission_candidate_review_write_requires_justification_and_is_idempotent() {
    assert!(!write_allowed(true, None));
    let filter = candidate_filter(&some("phase6e_candidate_business"));
    let packets = build_review_packets(&vec![candidate_record()], &filter);
    let ids: Vec<String> = packets.iter().map(|p| p.mission_review_id.clone()).collect();
    let (first, ledger) = append_once(Stage::MissionReviews, &vec![], &ids);
    let (second, ledger2) = append_once(Stage::MissionReviews, &ledger, &ids);
    assert_eq!(first, "mission_reviews_recorded");
    assert_eq!(second, "already_recorded_idempotent_noop");
    assert_eq!(ledger2.len(), 1);
    assert_eq!(packets[0].source_mission_candidate_id, "phase6e_candidate_business");
    let other = build_review_packets(&vec![candidate_record()], &some("other"));
    assert!(other.is_empty());
}

fn review_record() -> ReviewRecordRef {
    ReviewRecordRef {
        mark: gated(),
        mission_review_id: some("phase6f_review_business"),
        source_mission_candidate_id: some("phase6e_candidate_business"),
        title: some("Business opportunity scout mission"),
        scope: some("public internet opportunity scouting"),
        decision: some("approved_for_bounded_mission_packet_drafting"),
    }
}

#[test]
fn phase6g_mission_approval_request_is_dry_run_and_review_gated_by_default() {
    let requests = build_approval_requests(&vec![review_record()], &vec![candidate_record()], &None);
    assert_eq!(requests.len(), 1);
    assert_eq!(requests[0].candidate_index, Some(0));
    assert_eq!(requests[0].source_mission_review_id, "phase6f_review_business");
    assert_eq!(
        requests[0].approval_request_id,
        short_digest_id("phase6g_approval_", "phase6f_review_business\nphase6e_candidate_business")
    );
    assert!(requests[0].approval_question.ends_with("Business opportunity scout mission"));
    assert_eq!(
        stage_status_label(Stage::ApprovalRequests, stage_status(false, 1, 0)),
        "dry_run_no_mutation"
    );
}

#[test]
fn phase6g_mission_approval_request_write_requires_justification_and_is_idempotent() {
    assert!(!write_allowed(true, Some("  ")));
    let requests = build_approval_requests(
        &vec![review_record()],
        &vec![candidate_record()],
        &some("phase6e_candidate_business"),
    );
    let ids: Vec<String> = requests.iter().map(|r| r.approval_request_id.clone()).collect();
    let (first, ledger) = append_once(Stage::ApprovalRequests, &vec![], &ids);
    let (second, ledger2) = append_once(Stage::ApprovalRequests, &ledger, &ids);
    assert_eq!(first, "mission_approval_requests_recorded");
    assert_eq!(second, "already_recorded_idempotent_noop");
    assert_eq!(ledger2.len(), 1);
    assert_eq!(requests[0].source_mission_candidate_id, "phase6e_candidate_business");
}

#[test]
fn phase6g_mission_approval_decision_is_append_only_and_idempotent() {
    let records = vec![approval_record(None)];
    assert_eq!(
        plan_approval_decision(&records, "phase6g_approval_business", "approved", "").err(),
        Some(DecisionError::MissingJustification)
    );
    let just = "operator approved Phase 6G request for bounded queue staging";
    let first = plan_approval_decision(&records, "phase6g_approval_business", "approved", just).unwrap();
    let second = plan_approval_decision(&records, "phase6g_approval_business", "approved", just).unwrap();
    assert_eq!(first.approval_decision_id, second.approval_decision_id);
    assert_eq!(first.approval_request_id, "phase6g_approval_business");
    assert_eq!(first.approval_status, "approved");
    assert_eq!(first.source_index, 0);
    let ids = vec![first.approval_decision_id.clone()];
    let existing = vec!["phase6g_approval_business".to_string()];
    let (one, ledger) = append_once(Stage::ApprovalRequests, &existing, &ids);
    let (two, ledger2) = append_once(Stage::ApprovalRequests, &ledger, &ids);
    assert_eq!(one, "mission_approval_requests_recorded");
    assert_eq!(two, "already_recorded_idempotent_noop");
    assert_eq!(ledger2.len(), 2);
}

#[test]
fn approval_decision_errors_come_in_order() {
    let records = vec![approval_record(None)];
    assert_eq!(plan_approval_decision(&records, " ", "", "").err(), Some(DecisionError::MissingApprovalRequestId));
    assert_eq!(plan_approval_decision(&records, "x", " ", "").err(), Some(DecisionError::MissingStatus));
    assert_eq!(
        plan_approval_decision(&records, "missing", "approved", "why").err(),
        Some(DecisionError::ApprovalRequestNotFound)
    );
}

#[test]
fn phase6h_mission_queue_proposal_is_dry_run_and_review_gated_by_default() {
    let proposals = build_queue_proposals(&vec![approval_record(None)], &None);
    assert_eq!(proposals.len(), 1);
    assert_eq!(proposals[0].title, "Business opportunity scout mission");
    assert_eq!(proposals[0].scope, "public internet opportunity scouting");
    assert_eq!(
        proposals[0].queue_proposal_id,
        short_digest_id("phase6h_queue_proposal_", "phase6g_approval_business\nphase6e_candidate_business")
    );
    assert_eq!(
        stage_status_label(Stage::QueueProposals, stage_status(false, 1, 0)),
        "dry_run_no_mutation"
    );
}

#[test]
fn phase6h_mission_queue_proposal_write_requires_justification_and_is_idempotent() {
    assert!(!write_allowed(true, None));
    let proposals = build_queue_proposals(&vec![approval_record(None)], &some("phase6e_candidate_business"));
    let ids: Vec<String> = proposals.iter().map(|p| p.queue_proposal_id.clone()).collect();
    let (first, ledger) = append_once(Stage::QueueProposals, &vec![], &ids);
    let (second, ledger2) = append_once(Stage::QueueProposals, &ledger, &ids);
    assert_eq!(first, "mission_queue_proposals_recorded");
    assert_eq!(second, "already_recorded_idempotent_noop");
    assert_eq!(ledger2.len(), 1);
    assert_eq!(proposals[0].source_mission_candidate_id, "phase6e_candidate_business");
}

fn proposal_record() -> ProposalRecordRef {
    ProposalRecordRef {
        mark: gated(),
        queue_proposal_id: some("phase6h_queue_business"),
        source_mission_candidate_id: some("phase6e_candidate_business"),
        source_approval_request_id: some("phase6g_approval_business"),
        emits_canonical_entry: Some(false),
    }
}

#[test]
fn phase6i_mission_queue_write_request_is_dry_run_and_review_gated_by_default() {
    let requests = build_queue_write_requests(&vec![proposal_record()], &None);
    assert_eq!(requests.len(), 1);
    assert_eq!(requests[0].source_queue_proposal_id, "phase6h_queue_business");
    assert_eq!(requests[0].source_approval_request_id, "phase6g_approval_business");
    assert_eq!(
        stage_status_label(Stage::QueueWriteRequests, stage_status(false, 1, 0)),
        "dry_run_no_mutation"
    );
}

#[test]
fn phase6i_mission_queue_write_request_write_requires_justification_and_is_idempotent() {
    assert!(!write_allowed(true, None));
    let requests = build_queue_write_requests(&vec![proposal_record()], &some("phase6e_candidate_business"));
    let ids: Vec<String> = requests.iter().map(|r| r.queue_write_request_id.clone()).collect();
    let (first, ledger) = append_once(Stage::QueueWriteRequests, &vec![], &ids);
    let (second, ledger2) = append_once(Stage::QueueWriteRequests, &ledger, &ids);
    assert_eq!(first, "mission_queue_write_requests_recorded");
    assert_eq!(second, "already_recorded_idempotent_noop");
    assert_eq!(ledger2.len(), 1);
    assert_eq!(requests[0].source_mission_candidate_id, "phase6e_candidate_business");
    let mut emitting = proposal_record();
    emitting.emits_canonical_entry = Some(true);
    assert!(build_queue_write_requests(&vec![emitting], &None).is_empty());
}

#[test]
fn phase6j_queue_write_is_dry_run_and_requires_approved_requests() {
    let plan = plan_canonical_queue_write(
        &vec![write_request(false)],
        &vec![approval_record(Some("approved"))],
        &None,
    );
    let plan = match plan {
        Ok(p) => p,
        Err(_) => panic!("approved write request refused"),
    };
    assert_eq!(plan.eligible, vec![0]);
    assert_eq!(plan.entries.len(), 1);
    assert_eq!(plan.entries[0].source_queue_write_request_id, "phase6i_write_business");
    assert!(plan.entries[0].default_status);
    assert_eq!(
        plan.entries[0].assigned_id,
        Some(short_digest_id("task_phase6j_", "phase6i_write_business\nphase6e_candidate_business"))
    );
    assert_eq!(
        stage_status_label(Stage::CanonicalQueue, stage_status(false, 1, 0)),
        "dry_run_no_mutation"
    );
}

#[test]
fn phase6j_queue_write_fails_fast_without_matching_approved_approval() {
    let result = plan_canonical_queue_write(
        &vec![write_request(false)],
        &vec![approval_record(Some("needs_changes"))],
        &some("phase6e_candidate_business"),
    );
    match result {
        Err(QueueWriteError::NotApproved { queue_write_request_id, approval_request_id }) => {
            assert_eq!(queue_write_request_id, "phase6i_write_business");
            assert_eq!(approval_request_id, "phase6g_approval_business");
        }
        _ => panic!("expected the missing approval to refuse the write"),
    }
    let mut no_source = write_request(false);
    no_source.source_approval_request_id = None;
    assert!(matches!(
        plan_canonical_queue_write(&vec![no_source], &vec![], &None),
        Err(QueueWriteError::MissingApprovalSource { .. })
    ));
    let mut no_entry = write_request(false);
    no_entry.entry_is_object = false;
    assert!(matches!(
        plan_canonical_queue_write(&vec![no_entry], &vec![approval_record(Some("approved"))], &None),
        Err(QueueWriteError::MissingQueueEntry { .. })
    ));
}

#[test]
fn phase6j_queue_write_appends_canonical_queue_once_with_integrity_report() {
    assert!(!write_allowed(true, None));
    let plan = match plan_canonical_queue_write(
        &vec![write_request(true)],
        &vec![approval_record(Some("approved"))],
        &some("phase6e_candidate_business"),
    ) {
        Ok(p) => p,
        Err(_) => panic!("approved write request refused"),
    };
    assert_eq!(plan.entries[0].assigned_id, None);
    assert_eq!(plan.entries[0].source_approval_request_id, "phase6g_approval_business");
    let ids = vec!["task_phase6j_business".to_string()];
    let (first, queue) = append_once(Stage::CanonicalQueue, &vec![], &ids);
    let (second, queue2) = append_once(Stage::CanonicalQueue, &queue, &ids);
    assert_eq!(first, "canonical_queue_entries_appended");
    assert_eq!(second, "already_recorded_idempotent_noop");
    assert_eq!(queue2, vec!["task_phase6j_business".to_string()]);
}

#[test]
fn stage_status_reports_nothing_eligible() {
    assert_eq!(stage_status(true, 0, 0), StageStatus::NothingEligible);
    assert_eq!(
        stage_status_label(Stage::CanonicalQueue, StageStatus::NothingEligible),
        "no_eligible_approved_queue_write_requests_available"
    );
    assert!(is_agent_gated(&gated()));
    assert!(!is_agent_gated(&ReviewMark { review_required: Some(true), authority: None }));
}
