use arda_aule::preflight::{
    decide_launch, degraded_agents_or_default, managed_agents_or_default, LaunchLane,
    PreflightReason, PreflightSignals, PreflightStatus,
};
use arda_aule::recovery::{
    choose_runtime_recovery_origin, decide_origin, desired_origin, plan_recovery, pressure_clear,
    recovery_totals, route_shift_followup_commands, route_shift_status, run_status,
    GovernorStatus, ProviderPressure, RecoveryAction, RecoveryCommand, RunStatus,
};

fn s(v: &str) -> String {
    v.to_string()
}

fn calm() -> PreflightSignals {
    PreflightSignals {
        pressure_status: s("ok"),
        violation_severities: vec![],
        enforce_swap: false,
        swap_entry_count: 0,
        autonomy_ready: true,
        triad_below_threshold: false,
        love_equation_below_threshold: false,
        joulework_below_threshold: false,
        local_joule_pressure: false,
        local_joule_usage_at_limit: false,
    }
}

#[test]
fn preflight_permits_an_unobstructed_launch() {
    let full = managed_agents_or_default(None);
    let degraded = degraded_agents_or_default("");
    assert_eq!(full, vec![s("prometheus"), s("manwe"), s("hermes"), s("hades"), s("athena"), s("mnemosyne")]);
    assert_eq!(degraded, vec![s("prometheus"), s("manwe"), s("hermes")]);
    let d = decide_launch(&calm(), &full, &degraded);
    assert_eq!(d.status, PreflightStatus::Permitted);
    assert_eq!(d.status.label(), "ok");
    assert_eq!(d.lane.label(), "full_local_control_plane");
    assert_eq!(d.allowed_agents, full);
    assert!(d.reasons.is_empty());
}

#[test]
fn preflight_blocks_on_any_blocking_reason() {
    let mut sig = calm();
    sig.pressure_status = s("error");
    sig.violation_severities = vec![Some(s("warn")), Some(s("CRITICAL")), None];
    sig.enforce_swap = true;
    sig.autonomy_ready = false;
    let d = decide_launch(&sig, &vec![s("a")], &vec![s("b")]);
    assert_eq!(d.status, PreflightStatus::Blocked);
    assert_eq!(d.lane, LaunchLane::Blocked);
    assert!(d.allowed_agents.is_empty());
    assert_eq!(
        d.reasons,
        vec![
            PreflightReason::PressureGuardUnavailable,
            PreflightReason::CriticalPressure(1),
            PreflightReason::SwapMissing,
            PreflightReason::AutonomyNotReady
        ]
    );
    assert_eq!(d.status.summary_message(), "launch blocked by sovereign preflight");
}

#[test]
fn preflight_degrades_under_pressure() {
    let mut sig = calm();
    sig.pressure_status = s("alert");
    sig.violation_severities = vec![Some(s("Warn"))];
    let d = decide_launch(&sig, &vec![s("a"), s("b")], &vec![s("b")]);
    assert_eq!(d.status.label(), "degraded");
    assert_eq!(d.lane, LaunchLane::ControlPlaneOnly);
    assert_eq!(d.allowed_agents, vec![s("b")]);
    assert_eq!(d.reasons, vec![PreflightReason::PressureWarning(0)]);
    let mut joule = calm();
    joule.local_joule_usage_at_limit = true;
    assert_eq!(decide_launch(&joule, &vec![], &vec![]).reasons, vec![PreflightReason::LocalJoulePressure]);
    assert_eq!(managed_agents_or_default(Some(vec![s("x")])), vec![s("x")]);
    assert_eq!(degraded_agents_or_default("x, y x"), vec![s("x"), s("y")]);
}

fn action(kind: &str, label: Option<&str>) -> RecoveryAction {
    RecoveryAction { kind: Some(s(kind)), label: label.map(s), title: None }
}

#[test]
fn recovery_plans_reroute_and_deferred_retries() {
    let actions = vec![
        action("reroute_retry", Some("hermes_dlq")),
        action("deferred_retry", Some("athena_queue")),
        action("route_shift", None),
        action("deferred_retry", Some("hades_cleanup")),
        action("something_else", None),
    ];
    let plan = plan_recovery(&actions, true);
    assert!(plan.route_shift_present);
    assert_eq!(plan.runs.len(), 3);
    assert_eq!(plan.runs[0].commands, vec![RecoveryCommand::RetryOutbound, RecoveryCommand::RetryRerouteDlq]);
    assert_eq!(plan.runs[1].commands, vec![RecoveryCommand::AthenaDeepProcess]);
    assert_eq!(plan.runs[1].title, "athena_queue");
    assert_eq!(plan.runs[2].action_index, 3);
    assert_eq!(plan.runs[2].commands, vec![RecoveryCommand::HadesSweep]);
    let held = plan_recovery(&actions, false);
    assert!(held.runs[1].skipped);
    assert!(held.runs[1].commands.is_empty());
    assert!(!held.runs[0].skipped);
    assert_eq!(
        RecoveryCommand::HadesSweep.argv(),
        vec!["cargo", "run", "--quiet", "--", "hades", "sweep", "--sweep-type", "manual"]
    );
}

#[test]
fn recovery_statuses_and_totals() {
    assert!(pressure_clear(&Some(s("ok")), None));
    assert!(!pressure_clear(&Some(s("ok")), Some(true)));
    assert!(!pressure_clear(&None, Some(false)));
    assert_eq!(run_status(true, &vec![false]), RunStatus::Skipped);
    assert_eq!(run_status(false, &vec![true, true]), RunStatus::Executed);
    assert_eq!(run_status(false, &vec![true, false]), RunStatus::Failed);
    assert_eq!(route_shift_status(true, &vec![true, true, true]), RunStatus::Executed);
    assert_eq!(route_shift_status(true, &vec![true, true]), RunStatus::Failed);
    assert_eq!(route_shift_followup_commands(false), vec![]);
    assert_eq!(route_shift_followup_commands(true).len(), 3);
    let t = recovery_totals(&vec![RunStatus::Executed, RunStatus::Failed, RunStatus::Executed, RunStatus::Skipped]);
    assert_eq!((t.executed_total, t.skipped_total, t.failed_total), (2, 1, 1));
}

fn row(id: &str, enabled: bool, healthy: bool) -> ProviderPressure {
    ProviderPressure { id: Some(s(id)), enabled: Some(enabled), healthy: Some(healthy) }
}

#[test]
fn recovery_origin_prefers_a_ready_edge_then_the_cloud() {
    assert_eq!(choose_runtime_recovery_origin(&vec![row("edge_backbone", true, true)]), "edge");
    assert_eq!(
        choose_runtime_recovery_origin(&vec![row("edge_backbone", true, false), row("openrouter", true, true)]),
        "cloud"
    );
    assert_eq!(choose_runtime_recovery_origin(&vec![]), "edge");
    assert_eq!(
        choose_runtime_recovery_origin(&vec![row("edge_backbone", true, true), row("edge_backbone", false, true)]),
        "edge"
    );
    assert_eq!(desired_origin(false, &vec![]), "auto");
    assert_eq!(desired_origin(true, &vec![row("litellm_gateway", true, true)]), "cloud");
}

#[test]
fn governor_respects_manual_override() {
    let manual = decide_origin("cloud", "lan", "cloud");
    assert_eq!(manual.status, GovernorStatus::Unchanged);
    let kept = decide_origin("lan", "cloud", "edge");
    assert_eq!(kept.status.label(), "manual_override_respected");
    assert_eq!(kept.current_origin, "lan");
    assert_eq!(kept.applied_origin, "cloud");
    assert!(!kept.governor_controlled);
    let applied = decide_origin("auto", "", "edge");
    assert_eq!(applied.status, GovernorStatus::Applied);
    assert_eq!(applied.current_origin, "edge");
    let again = decide_origin("edge", "edge", "cloud");
    assert_eq!(again.status, GovernorStatus::Applied);
    assert_eq!(again.current_origin, "cloud");
}
