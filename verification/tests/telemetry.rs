use arda_aule::dashboard::{build_alerts, AlertSeverity, DashboardSignals};
use arda_aule::telemetry::{
    admit_event_line, build_recommendations, combine_fingerprint, event_before_window, event_instant,
    LineAdmission, event_kind, parse_since, source_digest,
    telemetry_summary_id, top_map, write_allowed, Counter, EventKind, SinceWindow,
    TelemetryAdvice, TelemetryEvent, TelemetrySource, TelemetrySummary,
};

fn some(v: &str) -> Option<String> {
    Some(v.to_string())
}

fn event(name: &str, ts: &str, provider: Option<&str>, model: Option<&str>, reason: Option<&str>) -> TelemetryEvent {
    TelemetryEvent {
        ts: some(ts),
        event: some(name),
        task_type: some("code"),
        provider_id: provider.map(|p| p.to_string()),
        model_id: model.map(|m| m.to_string()),
        reason: reason.map(|r| r.to_string()),
        error: None,
        ok: None,
        action: None,
    }
}

/// The sample logs: two state events (a malformed third line is counted
/// by the reader) and two governance events.
fn sample_summary() -> TelemetrySummary {
    let mut s = TelemetrySummary::new();
    s.observe_event(
        &event("route_selected", "2026-05-18T00:00:00Z", Some("cerebras"), Some("qwen"), None),
        TelemetrySource::State,
    );
    s.observe_event(
        &event("route_failed", "2026-05-18T00:01:00Z", Some("openrouter"), None, Some("rate_limited")),
        TelemetrySource::State,
    );
    let mut gate = event("echo_gate", "2026-05-18T00:02:00Z", None, None, None);
    gate.action = some("Proceed");
    s.observe_event(&gate, TelemetrySource::Governance);
    s.observe_event(
        &event("route_selected", "2026-05-18T00:03:00Z", Some("mistral"), Some("devstral"), None),
        TelemetrySource::Governance,
    );
    s
}

#[test]
fn manwe_telemetry_report_dry_run_is_review_gated_without_writing() {
    let s = sample_summary();
    assert_eq!(s.route_success_count, 2);
    assert_eq!(s.route_failure_count, 1);
    assert_eq!(s.state_events_used, 2);
    assert_eq!(s.governance_events_used, 2);
    assert_eq!(s.first_ts.as_deref(), Some("2026-05-18T00:00:00Z"));
    assert_eq!(s.last_ts.as_deref(), Some("2026-05-18T00:03:00Z"));
    assert_eq!(
        s.observed_providers,
        vec!["cerebras".to_string(), "mistral".to_string(), "openrouter".to_string()]
    );
    let malformed_state = 1;
    let advice = build_recommendations(&s, malformed_state, 0);
    assert_eq!(
        advice,
        vec![
            TelemetryAdvice::ReviewFailures,
            TelemetryAdvice::RepairMalformedLines,
            TelemetryAdvice::KeepReviewGated
        ]
    );
    assert!(write_allowed(false, None));
}

#[test]
fn manwe_telemetry_write_requires_justification() {
    assert!(!write_allowed(true, Some("  ")));
    assert!(!write_allowed(true, None));
    assert!(write_allowed(true, Some("operator reviewed dManwe telemetry summary")));
}

#[test]
fn manwe_telemetry_write_is_append_only_and_idempotent() {
    let canonical = "{\"route_success_count\":2,\"route_failure_count\":1}";
    let first = telemetry_summary_id(canonical);
    let second = telemetry_summary_id(canonical);
    assert_eq!(first, second);
    assert!(first.starts_with("manwe_telemetry_"));
    assert_eq!(first.len(), "manwe_telemetry_".len() + 40);
}

#[test]
fn telemetry_counters_rank_busiest_first() {
    let s = sample_summary();
    let top = top_map(&s.event_counts, 2);
    assert_eq!(top, vec![("route_selected".to_string(), 2), ("echo_gate".to_string(), 1)]);
    let providers = top_map(&s.provider_failure_counts, 10);
    assert_eq!(providers, vec![("openrouter".to_string(), 1)]);
    let reasons = top_map(&s.failure_reason_counts, 10);
    assert_eq!(reasons, vec![("rate_limited".to_string(), 1)]);
    let mut c = Counter::new();
    c.inc("b");
    c.inc("a");
    c.inc("b");
    assert_eq!(top_map(&c, 5), vec![("b".to_string(), 2), ("a".to_string(), 1)]);
}

#[test]
fn empty_window_advises_widening_it() {
    let s = TelemetrySummary::new();
    assert_eq!(
        build_recommendations(&s, 0, 0),
        vec![TelemetryAdvice::WidenWindow, TelemetryAdvice::KeepReviewGated]
    );
    assert_eq!(event_kind("provider_cooldown"), EventKind::Cooldown);
    assert_eq!(event_kind("whatever"), EventKind::Other);
}

#[test]
fn since_windows_parse_days_hours_all_and_instants() {
    assert!(matches!(parse_since(None), SinceWindow::All));
    assert!(matches!(parse_since(Some(" ALL ")), SinceWindow::All));
    assert!(matches!(parse_since(Some("7d")), SinceWindow::Days(7)));
    assert!(matches!(parse_since(Some("12h")), SinceWindow::Hours(12)));
    match parse_since(Some("2026-05-18T00:00:00Z")) {
        SinceWindow::Instant(t) => assert_eq!(t, "2026-05-18T00:00:00Z"),
        _ => panic!("expected an instant"),
    }
}

#[test]
fn source_digests_chain_into_a_fingerprint() {
    let lines = vec!["a".to_string(), "b".to_string()];
    let d = source_digest(&lines);
    assert_eq!(d, arda_aule::digest_ids::sha1_hex("a\nb\n"));
    assert_eq!(combine_fingerprint("", &d), d);
    assert_eq!(
        combine_fingerprint("x", "y"),
        arda_aule::digest_ids::sha1_hex("xy")
    );
}

fn signals(failed: usize) -> DashboardSignals {
    DashboardSignals {
        services_failed: failed,
        aging_oldest_pending_secs: None,
        recent_completions_24h: 0,
        recent_failures_24h: 0,
        completion_rate_low: false,
        completion_rate_percent: "0.0".to_string(),
    }
}

#[test]
fn raises_failed_service_alert() {
    let alerts = build_alerts(&signals(1));
    assert!(matches!(alerts.first().map(|a| &a.severity), Some(AlertSeverity::Critical)));
    assert_eq!(alerts[0].message, "1 annunimas service(s) failed");
    assert_eq!(alerts[0].source, "systemd");
}

#[test]
fn dashboard_warns_on_aging_and_low_completion_rate() {
    let mut s = signals(0);
    s.aging_oldest_pending_secs = Some(90000);
    s.recent_completions_24h = 1;
    s.recent_failures_24h = 2;
    s.completion_rate_low = true;
    s.completion_rate_percent = "33.3".to_string();
    let alerts = build_alerts(&s);
    assert_eq!(alerts.len(), 2);
    assert_eq!(alerts[0].message, "oldest pending task is over 24h old");
    assert_eq!(alerts[1].message, "low 24h completion rate: 33.3% (1/3)");
    assert!(matches!(alerts[1].severity, AlertSeverity::Warning));
    assert!(build_alerts(&signals(0)).is_empty());
}

#[test]
fn event_lines_are_skipped_before_the_window_and_stop_at_the_limit() {
    assert_eq!(admit_event_line(true, 1, 5), LineAdmission::Skip);
    assert_eq!(admit_event_line(false, 2, 2), LineAdmission::Stop);
    assert_eq!(admit_event_line(false, 2, 1), LineAdmission::Use);
    assert_eq!(admit_event_line(false, 0, 100), LineAdmission::Use);
}

#[test]
fn events_before_the_cutoff_fall_outside_the_window() {
    let cutoff = event_instant("2026-05-18T00:01:00Z");
    assert_eq!(cutoff, Some((1779062460, 0)));
    assert!(event_before_window(&Some("2026-05-18T00:00:59.5+00:00".to_string()), cutoff));
    assert!(event_before_window(&Some("2026-05-18T02:01:00+02:00".to_string()), Some((1779062460, 1))));
    assert!(!event_before_window(&Some("2026-05-18T00:01:00Z".to_string()), cutoff));
    assert!(!event_before_window(&Some("not a time".to_string()), cutoff));
    assert!(!event_before_window(&None, cutoff));
    assert!(!event_before_window(&Some("2026-05-18T00:00:00Z".to_string()), None));
    assert_eq!(event_instant("yesterday"), None);
}
