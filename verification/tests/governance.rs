use arda_aule::bootstrap::{is_legacy_socket_path, parse_env_line, socket_needs_default};
use arda_aule::council::{
    human_augmentation_approval_id, plan_memory_write_intents, summarize_approvals,
    summarize_council_sessions, tally_across_sessions, CouncilSessionFacts,
};
use arda_aule::episode::{episode_id, next_episode_sequence};
use arda_aule::escalations::{
    dedupe_key, escalation_still_active, pressure_reason_active, reconcile_escalations,
    EscalationRow, PressureReport, ResolutionNote,
};
use arda_aule::ledger::select_new_records_by_id;
use arda_aule::ordering::{insert_sorted_unique, sorted_distinct, str_lt};
use arda_aule::warden::{
    collect_warden_findings, judge_findings, EnforcementStatus, GovernanceRuntimeState,
    GuardhouseState, PermissionProfilesState, PolicyAuthorityState, ProfileState, ScopeState,
    Severity, StateFile, WardenFinding, WardenSource,
};

fn s(v: &str) -> String {
    v.to_string()
}

#[test]
fn memory_writes_need_promotion_on_private_and_institutional_lanes() {
    let lanes = vec![s("ceo_private_working"), s("institutional")];
    let writes = vec![s("w1"), s("w2"), s("w3")];
    let held = plan_memory_write_intents("sess", &lanes, &writes, false);
    assert_eq!(held.len(), 3);
    assert_eq!(held[0].intent_id, "sess_mw_1");
    assert!(held[0].expiring && held[0].promotion_required && !held[0].approved);
    assert!(!held[1].expiring && held[1].promotion_required && !held[1].approved);
    assert_eq!(held[2].lane, "episodic");
    assert!(held[2].expiring && !held[2].promotion_required && held[2].approved);
    let promoted = plan_memory_write_intents("sess", &lanes, &writes, true);
    assert!(promoted.iter().all(|m| m.approved));
}

#[test]
fn council_summaries_count_sessions_and_approvals() {
    let facts = vec![
        CouncilSessionFacts {
            triad_required: Some(true),
            loop_class: Some(s("lightweight")),
            human_escalated: Some(true),
            promoted_private_memory: None,
        },
        CouncilSessionFacts { triad_required: None, loop_class: None, human_escalated: Some(false), promoted_private_memory: Some(true) },
    ];
    let summary = summarize_council_sessions(&facts);
    assert_eq!(summary.total_sessions, 2);
    assert_eq!(summary.triad_sessions, 1);
    assert_eq!(summary.lightweight_sessions, 1);
    assert_eq!(summary.human_escalations, 1);
    assert_eq!(summary.promoted_private_memory_total, 1);
    assert!(summary.highlight_escalations);
    let approvals = summarize_approvals(&vec![Some(s("pending")), Some(s("approved")), None, Some(s("pending"))]);
    assert_eq!((approvals.pending_total, approvals.approved_total), (2, 1));
    assert!(approvals.highlight_pending_approvals);
    let counts = tally_across_sessions(&vec![vec![s("athena"), s("manwe")], vec![s("athena")]]);
    let athena = counts.iter().find(|c| c.key == "athena").map(|c| c.count);
    assert_eq!(athena, Some(2));
    assert_eq!(counts.len(), 2);
    assert_eq!(human_augmentation_approval_id("provider/re route", -3), "ha_provider_re_route_-3");
}

#[test]
fn legacy_sockets_and_env_lines() {
    assert!(is_legacy_socket_path("/srv/arda", "data/hermes.sock"));
    assert!(is_legacy_socket_path("/srv/arda", "/srv/arda/data/hermes.sock"));
    assert!(!is_legacy_socket_path("/srv/arda", "/run/hermes.sock"));
    assert!(socket_needs_default("/srv/arda", None));
    assert!(!socket_needs_default("/srv/arda", Some("/run/x.sock")));
    let a = parse_env_line("  export KEY = \"va=lue\" ").unwrap();
    assert_eq!((a.key.as_str(), a.value.as_str()), ("KEY", "va=lue"));
    let b = parse_env_line("X='y'").unwrap();
    assert_eq!(b.value, "y");
    assert!(parse_env_line("# comment").is_none());
    assert!(parse_env_line("   ").is_none());
    assert!(parse_env_line("novalue").is_none());
    assert!(parse_env_line(" = x").is_none());
}

#[test]
fn next_episode_sequence_exceeds_every_recorded_one() {
    assert_eq!(next_episode_sequence(&vec![]), 1);
    assert_eq!(next_episode_sequence(&vec![Some(3), None, Some(7)]), 8);
    assert_eq!(next_episode_sequence(&vec![None, None, Some(1)]), 4);
    assert_eq!(next_episode_sequence(&vec![Some(u64::MAX)]), u64::MAX);
    assert_eq!(episode_id("1700000000", 8), "arandur_episode_1700000000_8");
}

#[test]
fn idempotent_appends_keep_ids_distinct() {
    let existing = vec![s("a")];
    let pending = vec![Some(s("a")), Some(s("b")), None, Some(s("b")), Some(s("c"))];
    let chosen = select_new_records_by_id(&existing, &pending);
    assert_eq!(chosen, vec![1, 4]);
    let mut ledger = existing.clone();
    for &i in &chosen {
        ledger.push(pending[i].clone().unwrap());
    }
    assert!(select_new_records_by_id(&ledger, &pending).is_empty());
}

#[test]
fn sorted_lists_are_strictly_increasing_and_unique() {
    let v = vec![s("b"), s("a"), s("b"), s("ab")];
    assert_eq!(sorted_distinct(&v), vec![s("a"), s("ab"), s("b")]);
    let mut w = vec![s("a"), s("c")];
    insert_sorted_unique(&mut w, "b");
    insert_sorted_unique(&mut w, "c");
    assert_eq!(w, vec![s("a"), s("b"), s("c")]);
    assert!(str_lt("a", "ab"));
    assert!(!str_lt("b", "ab"));
}

fn row(id: &str, status: &str, reason: &str, ts: &str) -> EscalationRow {
    EscalationRow {
        escalation_id: Some(s(id)),
        status: Some(s(status)),
        reason: Some(s(reason)),
        command: Some(s("deploy")),
        ts: Some(s(ts)),
    }
}

fn calm_pressure() -> PressureReport {
    PressureReport {
        total_known_work_items: Some(10),
        max_total_known_work: Some(120),
        projects_queue_queued: None,
        max_projects_queue_queued: None,
        oversize_files_gte_100mb: None,
        max_oversize_count: None,
        disk_used_pct: Some(95),
        max_disk_used_pct: Some(92),
        invalid_json_artifacts: None,
        max_invalid_json: None,
    }
}

#[test]
fn escalation_conditions_follow_the_runtime() {
    let p = calm_pressure();
    assert!(!pressure_reason_active("core_pressure_guard.total_known_work", &p));
    assert!(pressure_reason_active("core_pressure_guard.disk_used_pct", &p));
    assert!(pressure_reason_active("core_pressure_guard.unknown", &p));
    let denied = row("e1", "pending", "policy_guard.denied", "t1");
    assert_eq!(dedupe_key(&denied).as_deref(), Some("policy_guard.denied|deploy"));
    assert!(escalation_still_active(&denied, &Some(s("DEGRADED")), &p));
    assert!(!escalation_still_active(&denied, &None, &p));
    assert_eq!(dedupe_key(&row("e2", "pending", "other", "t")), None);
}

#[test]
fn reconciliation_resolves_cleared_and_duplicate_escalations() {
    let p = calm_pressure();
    let rows = vec![
        row("e1", "pending", "core_pressure_guard.disk_used_pct", "2026-01-01"),
        row("e2", "pending", "core_pressure_guard.disk_used_pct", "2026-01-02"),
        row("e3", "pending", "core_pressure_guard.total_known_work", "2026-01-03"),
        row("e4", "resolved", "core_pressure_guard.total_known_work", "2026-01-04"),
    ];
    let out = reconcile_escalations(&rows, &None, &p);
    let resolved: Vec<(usize, ResolutionNote)> = out.resolved.iter().map(|r| (r.row, r.note)).collect();
    assert_eq!(
        resolved,
        vec![(0, ResolutionNote::DuplicateOfActive), (2, ResolutionNote::ConditionCleared)]
    );
    assert_eq!(
        out.resolved[0].note_text(),
        "duplicate escalation reconciled by key core_pressure_guard.disk_used_pct"
    );
    assert_eq!(
        out.resolved[1].note_text(),
        "escalation condition cleared by current runtime for key core_pressure_guard.total_known_work"
    );
    assert_eq!(out.dedupe_groups.len(), 1);
    assert_eq!(out.dedupe_groups[0].key, "core_pressure_guard.disk_used_pct");
    assert_eq!(out.dedupe_groups[0].count, 2);

    let mut longer = rows;
    longer.push(row("e1", "resolved", "core_pressure_guard.disk_used_pct", "2026-01-05"));
    longer.push(row("e3", "resolved", "core_pressure_guard.total_known_work", "2026-01-05"));
    let again = reconcile_escalations(&longer, &None, &p);
    assert!(again.resolved.is_empty());
}

fn healthy_states() -> (
    StateFile<GuardhouseState>,
    StateFile<PolicyAuthorityState>,
    StateFile<PermissionProfilesState>,
    StateFile<GovernanceRuntimeState>,
) {
    (
        StateFile::Loaded(GuardhouseState {
            duties: Some(vec![s("drift_watch"), s("quarantine_authority")]),
            generated_at_present: true,
            stale_offline_total: None,
        }),
        StateFile::Loaded(PolicyAuthorityState { quorum_enabled: Some(true), required_approvers: Some(2) }),
        StateFile::Loaded(PermissionProfilesState {
            active_profile: Some(s("operator")),
            profiles: Some(vec![ProfileState {
                name: s("operator"),
                command_allowlist: Some(vec![s("*")]),
                network: Some(ScopeState { allowed: Some(true), expiry_present: true }),
                destructive: Some(ScopeState { allowed: Some(false), expiry_present: false }),
            }]),
        }),
        StateFile::Loaded(GovernanceRuntimeState {
            human_required_classes: Some(vec![s("destructive_delete")]),
            triad_quorum_classes: Some(vec![s("provider_reroute")]),
        }),
    )
}

#[test]
fn warden_enforce_dry_run_reports_critical_without_writing_halt() {
    let (g, p, pp, gr) = healthy_states();
    let findings = collect_warden_findings(&g, &p, &pp, &gr);
    assert_eq!(findings, vec![WardenFinding::OverbroadCommandAllowlist(0, 0)]);
    let dry = judge_findings(&findings, false);
    assert_eq!(dry.status, EnforcementStatus::Blocked);
    assert_eq!(dry.status.label(), "blocked");
    assert_eq!(dry.critical_total, 1);
    assert!(dry.halt_planned);
    assert!(!dry.halt_applied);
    let applied = judge_findings(&findings, true);
    assert!(applied.halt_applied);
}

#[test]
fn warden_reports_missing_and_weak_states() {
    let findings = collect_warden_findings(
        &StateFile::Missing,
        &StateFile::Loaded(PolicyAuthorityState { quorum_enabled: Some(false), required_approvers: Some(1) }),
        &StateFile::Malformed,
        &StateFile::Loaded(GovernanceRuntimeState { human_required_classes: None, triad_quorum_classes: None }),
    );
    assert_eq!(
        findings,
        vec![
            WardenFinding::MissingSecurityState(WardenSource::Guardhouse),
            WardenFinding::MalformedSecurityState(WardenSource::PermissionProfiles),
            WardenFinding::DestructiveQuorumDisabled,
            WardenFinding::DestructiveQuorumTooWeak(1),
            WardenFinding::MissingDestructiveDeleteHumanGate,
            WardenFinding::MissingProviderRerouteTriadGate,
        ]
    );
    assert_eq!(WardenFinding::StaleFleetNodes(3).severity(), Severity::Warning);
    assert_eq!(WardenFinding::UnboundedPermissionScope(0, true).severity(), Severity::Critical);
    let warn_only = judge_findings(&vec![WardenFinding::MissingProjectionTimestamp], true);
    assert_eq!(warn_only.status, EnforcementStatus::Review);
    assert!(!warn_only.halt_applied);
    assert_eq!(judge_findings(&vec![], false).status.label(), "pass");
}
