use arda_aule::hermes_projection::{
    communications_tool_indices, count_false_flags, count_text_equal, summarize_hermes_command,
    BoardroomSection, HermesSignals,
};
use arda_aule::package_enablement::{
    assess_tool, repo_url, summarize_enablement, IntegrationState, ToolFacts, ToolObservation,
};
use arda_aule::profile::{
    build_runtime_entries, env_copy_decision, render_runtime_env, render_secret_template, EnvCopy,
    EnvEntry, OperatorProfile,
};

fn s(v: &str) -> String {
    v.to_string()
}

fn empty_profile() -> OperatorProfile {
    OperatorProfile {
        task_queue: None,
        project_task_queue: None,
        daily_queue: None,
        warden_queue: None,
        hades_watch_paths: None,
        privacy_default: None,
        cost_default: None,
        quality_default: None,
        origin_default: None,
        latency_sla_ms: None,
        hades_queue_days: None,
        hades_log_days: None,
        hades_joulework_days: None,
        hermes_messages_days: None,
        hermes_queue_days: None,
        mnemosyne_compact_days: None,
        max_total_known_work: None,
        max_projects_queue_queued: None,
        max_oversize_count: None,
        max_disk_used_pct: None,
        max_invalid_json: None,
        require_coverage_ok: None,
        lookback_hours: None,
        handoff_max_p95_ms: None,
        min_success_rate: None,
        max_defer_rate: None,
        max_duplicate_rate: None,
        max_stuck_intents: None,
        stuck_minutes: None,
        min_ack_success_rate: None,
        autonomy_max_p95_latency_ms: None,
        max_queue_stale_minutes: None,
        min_safety_score: None,
        require_athena_lookup_before_action: None,
        max_athena_lookup_age_minutes: None,
        required_live_sockets: vec![],
        max_missing_required_sockets: None,
    }
}

fn value_of<'a>(entries: &'a [EnvEntry], key: &str) -> Option<&'a str> {
    entries.iter().find(|e| e.key == key).map(|e| e.value.as_str())
}

#[test]
fn runtime_entries_apply_every_default() {
    let entries = build_runtime_entries(&empty_profile(), "/run/arda");
    assert_eq!(entries.len(), 36);
    assert_eq!(entries[0].key, "ARDA_TASK_QUEUE_PATH");
    assert_eq!(value_of(&entries, "ARDA_HADES_WATCH_PATHS"), Some("core:docs:config"));
    assert_eq!(value_of(&entries, "ARDA_PRESSURE_MAX_DISK_USED_PCT"), Some("92"));
    assert_eq!(value_of(&entries, "ARDA_PRESSURE_REQUIRE_COVERAGE_OK"), Some("true"));
    assert_eq!(value_of(&entries, "ARDA_AUTONOMY_REQUIRED_LIVE_SOCKETS"), Some(""));
    assert_eq!(value_of(&entries, "ARDA_ROUTE_LATENCY_SLA_MS"), None);
}

#[test]
fn runtime_entries_take_the_profile_values() {
    let mut p = empty_profile();
    p.hades_watch_paths = Some(vec![s("a"), s("b")]);
    p.max_disk_used_pct = Some(-5);
    p.latency_sla_ms = Some(1500);
    p.required_live_sockets = vec![s("{runtime_dir}/hermes.sock"), s("/x.sock")];
    let entries = build_runtime_entries(&p, "/run/arda");
    assert_eq!(value_of(&entries, "ARDA_HADES_WATCH_PATHS"), Some("a:b"));
    assert_eq!(value_of(&entries, "ARDA_PRESSURE_MAX_DISK_USED_PCT"), Some("-5"));
    assert_eq!(
        value_of(&entries, "ARDA_AUTONOMY_REQUIRED_LIVE_SOCKETS"),
        Some("/run/arda/hermes.sock:/x.sock")
    );
    assert_eq!(entries.last().unwrap().key, "ARDA_ROUTE_LATENCY_SLA_MS");
    assert_eq!(entries.last().unwrap().value, "1500");
}

#[test]
fn env_files_render_one_line_per_entry() {
    let entries = vec![EnvEntry { key: s("A"), value: s("1") }, EnvEntry { key: s("B"), value: s("x y") }];
    assert_eq!(render_runtime_env("dev", &entries), "# Generated from dev\nA=1\nB=x y\n");
    assert_eq!(render_runtime_env("dev", &vec![]), "# Generated from dev\n");
    assert_eq!(
        render_secret_template("dev", &vec![s("KEY_ONE"), s("KEY_TWO")]),
        "# Generated template from dev\nKEY_ONE=\nKEY_TWO=\n"
    );
    assert_eq!(env_copy_decision(false, true, false), EnvCopy::NotRequested);
    assert_eq!(env_copy_decision(true, false, true), EnvCopy::KeepExisting);
    assert_eq!(env_copy_decision(true, true, true), EnvCopy::Write);
    assert_eq!(env_copy_decision(true, false, false), EnvCopy::Write);
}

#[test]
fn hermes_projection_counts_and_alerts() {
    let signals = HermesSignals {
        reroute_events: vec![Some(s("deferred")), Some(s("sent")), None, Some(s("deferred"))],
        interrupt_authorized: vec![Some(false), Some(true), None],
        council_statuses: vec![Some(s("open")), Some(s("closed"))],
        default_provider: Some(s("matrix")),
        federated_rooms_ready: Some(false),
        restart_failed_total: Some(0),
    };
    let r = summarize_hermes_command(&signals);
    assert_eq!(r.deferred_reroutes, 2);
    assert_eq!(r.denied_interrupts, 1);
    assert_eq!(r.open_councils, 1);
    assert!(r.matrix_enabled);
    assert_eq!(r.boardroom_section, BoardroomSection::MatrixBoardrooms);
    assert_eq!(r.boardroom_section.label(), "matrix_boardrooms");
    assert!(r.alert_on_matrix_activation_gap);
    assert!(r.alert_on_interrupt_denials);
    assert!(r.alert_on_reroute_backpressure);
    assert!(!r.alert_on_fleet_recovery_failure);
    assert_eq!(count_text_equal(&vec![Some(s("a")), Some(s("a ")), Some(s("a"))], "a"), 2);
    assert_eq!(count_false_flags(&vec![Some(false), None, Some(false)]), 2);
    assert_eq!(
        communications_tool_indices(&vec![Some(s("communications")), None, Some(s("via charon")), Some(s("ops"))]),
        vec![0, 2]
    );
}

fn facts(readiness: Option<&str>, provider: Option<&str>, binary: Option<&str>) -> ToolFacts {
    ToolFacts {
        policy_readiness: readiness.map(s),
        required_shared_keys: vec![s("SHARED")],
        required_runtime_keys: vec![],
        provider_id: provider.map(s),
        observation: Some(ToolObservation {
            binary_path: binary.map(s),
            version_hint: None,
            observation_status: Some(s("observed")),
        }),
    }
}

#[test]
fn package_enablement_states_and_summary() {
    let providers = vec![s("charon_a")];
    let shared = vec![s("SHARED")];
    let ready = assess_tool(&facts(Some("policy_ready"), Some("charon_a"), None), &providers, &shared, &vec![]);
    assert_eq!(ready.integration_state, IntegrationState::ReadyForActivation);
    let config = assess_tool(&facts(Some("policy_ready"), None, Some("/bin/x")), &providers, &vec![], &vec![]);
    assert_eq!(config.integration_state.label(), "configuration_ready");
    let evidence = assess_tool(&facts(Some("policy_ready"), Some("other"), None), &providers, &shared, &vec![]);
    assert_eq!(evidence.integration_state, IntegrationState::EvidenceReady);
    let observed = assess_tool(&facts(None, None, None), &providers, &shared, &vec![]);
    assert_eq!(observed.policy_readiness, "untracked");
    assert_eq!(observed.integration_state, IntegrationState::ObservedOnly);
    let summary = summarize_enablement(&vec![ready, config, evidence, observed]);
    assert_eq!(summary.tools_total, 4);
    assert_eq!(summary.policy_ready_total, 3);
    assert_eq!(summary.ready_for_activation_total, 1);
    assert_eq!(summary.configuration_ready_total, 1);
    assert_eq!(summary.evidence_ready_total, 1);
    assert_eq!(summary.observed_only_total, 1);
    assert!(summary.alert_on_activation_gap);
    assert_eq!(repo_url("owner/tool").as_deref(), Some("https://github.com/owner/tool"));
    assert_eq!(repo_url(""), None);
}
