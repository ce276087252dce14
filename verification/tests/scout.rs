use arda_aule::digest_ids::{phase6c_finding_id, sha1_hex};
use arda_aule::patterns::{
    build_patterns, count_text_field, max_count, pattern_fingerprint, pattern_synthesis_id,
    PatternKind,
};
use arda_aule::scout::{
    check_scout_execution, evidence_preview, finding_write_outcome, normalize_source_urls,
    plan_scout_missions, sanitize_identifier, MissionSource, ScoutExecError, ScoutRecommendation,
    ScoutTask,
};
use arda_aule::tally::KeyCount;

fn some(v: &str) -> Option<String> {
    Some(v.to_string())
}

#[test]
fn phase6b_scout_plan_is_review_gated_and_read_only() {
    let recs = vec![ScoutRecommendation {
        review_required: Some(true),
        recommended_candidate_id: some("pricing_watch"),
        recommendation_id: some("rec-1"),
        summary: some("Scout pricing signals without promotion"),
        title: None,
    }];
    let tasks = vec![ScoutTask {
        id: some("market_watch"),
        status: some("pending"),
        title: some("Scout public model launch signals"),
        summary: None,
    }];
    let plan = plan_scout_missions(&recs, &tasks, "public internet opportunity scouting", 2);
    assert_eq!(plan.len(), 2);
    assert_eq!(plan[0].mission_id, "phase6b_scout_pricing_watch");
    assert_eq!(plan[0].summary, "Scout pricing signals without promotion");
    assert_eq!(plan[0].source, MissionSource::RecommendationLedger);
    assert_eq!(plan[1].mission_id, "phase6b_scout_market_watch");
    assert_eq!(plan[1].summary, "Scout public model launch signals");
    assert_eq!(plan[1].source, MissionSource::CanonicalQueueReadOnly);
}

#[test]
fn scout_plan_fills_with_default_missions_and_clamps_the_limit() {
    let plan = plan_scout_missions(&vec![], &vec![], "public internet", 0);
    assert_eq!(plan.len(), 1);
    assert_eq!(plan[0].mission_id, "phase6b_scout_phase6b_scout_1");
    assert_eq!(plan[0].summary, "Plan a bounded read-only scout mission for public internet");
    assert_eq!(plan[0].source, MissionSource::ProtocolDefault);
    let done = vec![ScoutTask { id: some("x"), status: some("completed"), title: None, summary: None }];
    let big = plan_scout_missions(&vec![], &done, "s", 50);
    assert_eq!(big.len(), 10);
    assert_eq!(big[9].mission_id, "phase6b_scout_phase6b_scout_10");
    assert_eq!(sanitize_identifier("  Hello, World!  "), "hello__world");
    assert_eq!(sanitize_identifier("___"), "mission");
}

#[test]
fn phase6c_scout_execute_is_dry_run_and_review_gated_by_default() {
    let mission = check_scout_execution("mission_public_pricing_watch", false, &None).unwrap();
    assert_eq!(mission, "mission_public_pricing_watch");
    let (append, status) = finding_write_outcome(false, false);
    assert!(!append);
    assert_eq!(status, "dry_run_no_mutation");
    let notes = "Observed three vendor pricing changes.\nCitations checked manually.\n";
    assert_eq!(evidence_preview(&some(notes)), notes);
}

#[test]
fn phase6c_scout_execute_appends_only_with_justification_and_is_idempotent() {
    assert_eq!(
        check_scout_execution("mission_sovereign_agents", true, &None),
        Err(ScoutExecError::MissingJustification)
    );
    assert_eq!(check_scout_execution("  ", false, &None), Err(ScoutExecError::MissingMissionId));
    let justification = some("operator reviewed cited scout notes");
    let mission = check_scout_execution("mission_sovereign_agents", true, &justification).unwrap();
    let urls = normalize_source_urls(&vec!["https://example.com/agents".to_string()]);
    let evidence = Some(sha1_hex("Finding: demand for local sovereign agents.\n"));
    let first_id = phase6c_finding_id(&mission, "public internet opportunity scouting", &urls, &evidence);
    let second_id = phase6c_finding_id(&mission, "public internet opportunity scouting", &urls, &evidence);
    assert_eq!(first_id, second_id);
    assert_eq!(finding_write_outcome(true, false), (true, "scout_finding_recorded"));
    assert_eq!(finding_write_outcome(true, true), (false, "already_recorded_idempotent_noop"));
}

#[test]
fn source_urls_are_trimmed_sorted_and_deduplicated() {
    let urls = vec![
        " https://b.example ".to_string(),
        "https://a.example".to_string(),
        "".to_string(),
        "https://b.example".to_string(),
    ];
    assert_eq!(
        normalize_source_urls(&urls),
        vec!["https://a.example".to_string(), "https://b.example".to_string()]
    );
}

#[test]
fn evidence_preview_cuts_long_text_with_an_ellipsis() {
    let long = "x".repeat(300);
    let preview = evidence_preview(&Some(long));
    assert_eq!(preview.chars().count(), 241);
    assert!(preview.ends_with('…'));
    assert_eq!(
        evidence_preview(&None),
        "no evidence file supplied; finding remains review-only"
    );
}

#[test]
fn phase6d_pattern_synthesis_aggregates_ledgers_without_default_mutation() {
    let owners = count_text_field(&vec![some("athena"), some("athena")]);
    let domains = count_text_field(&vec![some("knowledge")]);
    let scopes = count_text_field(&vec![some("public internet opportunity scouting")]);
    let episodes: Vec<KeyCount> = vec![];
    let patterns = build_patterns(&owners, &domains, &scopes, &episodes);
    assert!(!patterns.is_empty());
    assert_eq!(patterns.len(), 3);
    assert_eq!(patterns[0].kind, PatternKind::QueueOwnerFocus);
    assert_eq!(patterns[0].pattern_id(), "queue_owner_focus_athena");
    assert_eq!(patterns[0].evidence_count, 2);
    assert_eq!(
        patterns[0].summary(),
        "Task queue currently concentrates around owner `athena` (2 records)."
    );
    assert_eq!(patterns[1].pattern_id(), "recommendation_domain_knowledge");
    assert_eq!(patterns[2].pattern_id(), "scout_scope_public_internet_opportunity_scouting");
}

#[test]
fn phase6d_pattern_synthesis_write_is_append_only_and_idempotent() {
    let domains = count_text_field(&vec![some("governance")]);
    let scopes = count_text_field(&vec![some("governance scouting")]);
    let patterns = build_patterns(&vec![], &domains, &scopes, &vec![]);
    let serialized = format!("{}|{}", patterns[0].pattern_id(), patterns[1].pattern_id());
    let first = pattern_synthesis_id(&pattern_fingerprint(&serialized));
    let second = pattern_synthesis_id(&pattern_fingerprint(&serialized));
    assert_eq!(first, second);
    assert!(first.starts_with("phase6d_patterns_"));
    assert_eq!(first.len(), "phase6d_patterns_".len() + 12);
    assert_eq!(finding_write_outcome(true, true).1, "already_recorded_idempotent_noop");
}

#[test]
fn patterns_report_insufficient_evidence_when_ledgers_are_empty() {
    let patterns = build_patterns(&vec![], &vec![], &vec![], &vec![]);
    assert_eq!(patterns.len(), 1);
    assert_eq!(patterns[0].kind.label(), "insufficient_evidence");
    assert_eq!(patterns[0].pattern_id(), "insufficient_evidence");
    assert_eq!(count_text_field(&vec![None, some("  "), some(" a ")]).len(), 1);
}

#[test]
fn max_count_prefers_the_first_key_on_a_tie() {
    let counts = vec![
        KeyCount { key: "b".to_string(), count: 2 },
        KeyCount { key: "a".to_string(), count: 2 },
        KeyCount { key: "c".to_string(), count: 1 },
    ];
    assert_eq!(max_count(&counts), Some(1));
    assert_eq!(max_count(&vec![]), None);
}

#[test]
fn identifiers_are_lower_case_trimmed_and_stable() {
    let id = sanitize_identifier("__Hello, World 42!__");
    assert_eq!(id, "hello__world_42");
    assert_eq!(sanitize_identifier(&id), id);
    assert_eq!(sanitize_identifier("!!!"), "mission");
    assert_eq!(sanitize_identifier("mission"), "mission");
}
