use arda_aule::loop_cmd::{
    format_dispatch_summary, format_triad_summary, format_goals_summary, format_market_summary, format_planner_summary,
    format_reflect_summary, format_seed_summary, halt_body, is_plan_for_day, seed_action,
    DispatchCounts, SeedAction,
};

#[test]
fn triad_summary_discloses_recorded_vetoes_policy_blocks_and_unconsulted() {
    assert_eq!(
        format_triad_summary(2, 1, 3, 4, 5),
        "triad:     2 pass, 1 conditional, 3 VETO recorded, 4 blocked by policy, 5 unconsulted"
    );
}

#[test]
fn triad_summary_renders_zero_and_multi_digit_counts() {
    assert_eq!(
        format_triad_summary(0, 10, 0, 123, 7),
        "triad:     0 pass, 10 conditional, 0 VETO recorded, 123 blocked by policy, 7 unconsulted"
    );
}

#[test]
fn loop_summary_lines_render_their_counts() {
    assert_eq!(
        format_planner_summary(3, 1, 1, 0, 1, 4, "core/projects/tasks/queue.jsonl"),
        "planner:   3 goals considered, 1 plans written, 1 skipped (already exist), 0 inactive, 1 without recipe, 4 tasks emitted -> core/projects/tasks/queue.jsonl"
    );
    assert_eq!(format_market_summary(2, 0), "market:    2 bids ledgered, 0 market collapses");
    assert_eq!(
        format_reflect_summary(5, 2, 2, 1),
        "reflect:   5 terminal tasks seen, 2 reflections written, 2 already reflected, 1 no plan link"
    );
    assert_eq!(format_goals_summary(7, 3), "goals:      7 total, 3 active, 4 other");
    assert_eq!(format_seed_summary(2, 1), "seed-goals: 2 written, 1 skipped");
}

#[test]
fn dispatch_summary_reports_halt_and_cap() {
    let mut d = DispatchCounts {
        halted: false,
        tasks_seen: 9,
        dispatched: 4,
        no_route: 1,
        already_terminal: 3,
        budget_blocked: 1,
        capped_at: Some(4),
    };
    assert_eq!(
        format_dispatch_summary(&d),
        "dispatch:  9 tasks seen, 4 dispatched, 1 no-route, 3 already terminal, 1 budget-blocked (CAPPED at 4/tick)"
    );
    d.capped_at = None;
    assert!(format_dispatch_summary(&d).ends_with("budget-blocked"));
    d.halted = true;
    assert_eq!(
        format_dispatch_summary(&d),
        "dispatch:  HALTED (core/state/HALT present); refused to dispatch new work"
    );
}

#[test]
fn plans_seeds_and_halts() {
    assert!(is_plan_for_day("plan_goal_a_20260517", "20260517"));
    assert!(!is_plan_for_day("plan_goal_a_20260517", "20260518"));
    assert!(!is_plan_for_day("goal_20260517", "20260517"));
    assert_eq!(seed_action(true, false), SeedAction::Skip);
    assert_eq!(seed_action(true, true), SeedAction::Overwrite);
    assert_eq!(seed_action(false, false), SeedAction::Write);
    assert_eq!(halt_body("2026-05-17T00:00:00Z", &None), "HALT engaged at 2026-05-17T00:00:00Z\nreason: (none)\n");
    assert_eq!(
        halt_body("t", &Some("operator".to_string())),
        "HALT engaged at t\nreason: operator\n"
    );
}
