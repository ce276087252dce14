use arda_aule::ledger::select_new_records_by_id;
use arda_aule::packet_review::{
    benchmark_texts, benchmark_verdict, contains_review_metadata, cycle_status,
    recommendation_candidates, recommendation_id, review_packet, skipped_count,
    summarize_recommendations, BenchmarkSnapshots, CycleStatus, PacketAssessment, PacketFacts,
    RecommendationMark,
};

const FRONT_MATTER: &str = "authority: agent_generated\nreview_required: true\n";
const MATRIX: &str =
    "research claims remain review-gated\nauthority: agent_generated\nreview_required: true\n";

fn some(v: &str) -> Option<String> {
    Some(v.to_string())
}

fn packet(recommended_ids: Vec<Option<String>>, queue_ids: Vec<String>) -> PacketFacts {
    PacketFacts {
        required_present: vec![true, true, true, true],
        readme: some(FRONT_MATTER),
        synthesis: some(FRONT_MATTER),
        matrix: some(MATRIX),
        recommended_valid_jsonl: true,
        recommended_ids,
        queue_ids,
        sources_present: vec![],
    }
}

fn mark(candidate: &str) -> RecommendationMark {
    RecommendationMark {
        review_required: Some(true),
        authority: some("agent_generated"),
        recommended_candidate_id: some(candidate),
    }
}

#[test]
fn review_packet_detects_existing_queue_ids_and_review_gates() {
    let facts = packet(
        vec![some("candidate_a"), some("candidate_b")],
        vec!["candidate_a".to_string()],
    );
    let review = review_packet(&facts);
    assert_eq!(facts.recommended_ids.len(), 2);
    assert_eq!(review.already_in_queue, 1);
    assert_eq!(review.not_in_queue, 1);
    assert!(review.gates.raw_inbox_read_only);
    assert!(review.gates.research_claims_review_gated);
    assert!(review.gates.candidate_artifacts_marked_agent_generated);
    assert_eq!(review.assessment, PacketAssessment::ReviewReady);
    assert_eq!(review.assessment.label(), "review_ready_candidate_packet");
}

#[test]
fn review_packet_blocks_when_evidence_or_marks_are_missing() {
    let mut facts = packet(vec![some("x")], vec![]);
    facts.required_present = vec![true, false, true, true];
    facts.readme = some("no front matter");
    facts.sources_present = vec![true, false, false];
    let review = review_packet(&facts);
    assert!(!review.gates.evidence_present);
    assert!(!review.gates.candidate_artifacts_marked_agent_generated);
    assert_eq!(review.missing_source_paths, 2);
    assert!(!review.source_provenance_preserved);
    assert_eq!(review.assessment.label(), "blocked_pending_packet_cleanup");
    assert!(!contains_review_metadata(&None));
}

#[test]
fn recommend_next_appends_review_required_records() {
    let ids = vec![some("candidate_a"), some("candidate_b")];
    let queue = vec!["candidate_a".to_string()];
    let candidates = recommendation_candidates(&ids, &queue);
    assert_eq!(candidates, vec![1]);
    let pending: Vec<Option<String>> = candidates.iter().map(|&i| ids[i].clone()).collect();
    let appended = select_new_records_by_id(&vec![], &pending);
    assert_eq!(appended.len(), 1);
    let record_id = recommendation_id("20260517T120000Z", pending[appended[0]].as_deref().unwrap());
    assert_eq!(record_id, "arandur_rec_20260517T120000Z_candidate_b");
    assert!(!record_id.contains("candidate_a"));
}

#[test]
fn recommend_next_dry_run_does_not_append_and_reports_candidates() {
    let ids = vec![some("candidate_a"), some("candidate_b")];
    let queue = vec!["candidate_a".to_string()];
    let candidates = recommendation_candidates(&ids, &queue);
    let appended = 0;
    assert_eq!(candidates.len(), 1);
    assert_eq!(skipped_count(ids.len(), appended, candidates.len()), 1);
}

#[test]
fn recommend_next_is_idempotent_for_existing_candidate_recommendations() {
    let ids = vec![some("candidate_b")];
    let queue: Vec<String> = vec![];
    let candidates = recommendation_candidates(&ids, &queue);
    let pending: Vec<Option<String>> = candidates.iter().map(|&i| ids[i].clone()).collect();
    let first = select_new_records_by_id(&vec![], &pending);
    assert_eq!(first.len(), 1);
    let ledger: Vec<String> = first.iter().map(|&i| pending[i].clone().unwrap()).collect();
    let second = select_new_records_by_id(&ledger, &pending);
    assert_eq!(second.len(), 0);
    assert_eq!(skipped_count(ids.len(), second.len(), 0), 1);
    assert_eq!(ledger, vec!["candidate_b".to_string()]);
}

#[test]
fn recommendation_summary_detects_duplicate_ids_and_review_gates() {
    let records = vec![mark("candidate_a"), mark("candidate_a")];
    let summary = summarize_recommendations(&records);
    assert_eq!(summary.total_records, 2);
    assert_eq!(summary.duplicate_recommended_candidate_ids, vec!["candidate_a".to_string()]);
    assert!(!summary.duplicate_recommendations_absent);
    assert!(summary.recommendations_review_required);
    assert_eq!(summary.unique_recommended_candidate_count, 1);
    assert_eq!(summary.pending_review_count, 2);
    assert!(!summary.append_only_review_required_records);
}

#[test]
fn recommendation_summary_pending_count_stops_at_first_ungated_record() {
    let mut bad = mark("b");
    bad.authority = some("human");
    let records = vec![mark("a"), bad, mark("c")];
    let summary = summarize_recommendations(&records);
    assert_eq!(summary.pending_review_count, 2);
    assert!(!summary.recommendations_review_required);
    assert!(summary.duplicate_recommendations_absent);
    assert_eq!(summarize_recommendations(&vec![]).recommendations_review_required, false);
}

#[test]
fn cycle_dry_run_does_not_mutate_ledgers_or_queue() {
    let queue = "{\"id\":\"existing\",\"status\":\"pending\"}\n";
    let status = cycle_status(queue, queue);
    assert_eq!(status, CycleStatus::CompletedReviewGated);
    assert_eq!(status.label(), "completed_review_gated");
}

#[test]
fn cycle_can_append_review_gated_surfaces_without_queue_mutation() {
    let ids = vec![some("candidate_cycle")];
    let candidates = recommendation_candidates(&ids, &vec![]);
    let appended = select_new_records_by_id(&vec![], &vec![ids[candidates[0]].clone()]);
    assert_eq!(appended.len(), 1);
    assert_eq!(cycle_status("", "").label(), "completed_review_gated");
    assert_eq!(
        cycle_status("", "{\"id\":\"x\"}\n"),
        CycleStatus::BlockedCanonicalQueueChanged
    );
}

#[test]
fn benchmark_reports_read_only_safety_without_mutating_ledgers_or_queue() {
    let queue = some("{\"id\":\"existing\",\"status\":\"pending\"}\n");
    let episodes = some("{\"episode_id\":\"ep1\",\"review_required\":true}\n");
    let recs = some("{\"recommendation_id\":\"rec1\",\"recommended_candidate_id\":\"candidate_a\",\"authority\":\"agent_generated\",\"review_required\":true}\n");
    let verdict = benchmark_verdict(&BenchmarkSnapshots {
        queue_before: queue.clone(),
        queue_after: queue,
        episodes_before: episodes.clone(),
        episodes_after: episodes,
        recommendations_before: recs.clone(),
        recommendations_after: recs,
        raw_inbox_read_only: true,
    });
    assert!(verdict.canonical_queue_unchanged);
    assert!(verdict.episode_ledger_unchanged);
    assert!(verdict.recommendation_ledger_unchanged);
    assert!(verdict.passed);
    assert_eq!(benchmark_texts(verdict.passed).0, "passed_read_only_safety");
}

#[test]
fn benchmark_fails_when_a_ledger_appears() {
    let verdict = benchmark_verdict(&BenchmarkSnapshots {
        queue_before: None,
        queue_after: None,
        episodes_before: None,
        episodes_after: some("{}\n"),
        recommendations_before: None,
        recommendations_after: None,
        raw_inbox_read_only: true,
    });
    assert!(verdict.canonical_queue_unchanged);
    assert!(!verdict.episode_ledger_unchanged);
    assert!(!verdict.passed);
    assert_eq!(
        benchmark_texts(false),
        ("failed_read_only_safety", "benchmark_failed_hold_autonomy_and_review_mutation_checks")
    );
}
