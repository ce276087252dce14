use arda_aule::queue::{
    effective_record_indices, is_arandur_mission_review_task, report_mission_backlog,
    summarize_queue, BacklogAction, QueueRecord,
};
use arda_aule::tally::KeyCount;

fn s(v: &str) -> Option<String> {
    Some(v.to_string())
}

fn task(id: &str, status: &str) -> QueueRecord {
    QueueRecord { id: s(id), status: s(status), title: None, source: None, phase: None }
}

fn mission(id: &str, status: &str, title: &str, source: &str) -> QueueRecord {
    QueueRecord { id: s(id), status: s(status), title: s(title), source: s(source), phase: s("6J") }
}

fn count_of(counts: &Vec<KeyCount>, key: &str) -> usize {
    counts.iter().find(|c| c.key == key).map(|c| c.count).unwrap_or(0)
}

#[test]
fn queue_summary_reports_latest_effective_status_by_id() {
    let records = vec![
        task("task-a", "pending"),
        task("task-b", "queued"),
        task("task-a", "completed"),
        task("task-c", "pending"),
    ];
    let summary = summarize_queue(&records);
    assert_eq!(summary.total_records, 4);
    assert_eq!(count_of(&summary.status_counts, "pending"), 2);
    assert_eq!(summary.effective_total_records, 3);
    assert_eq!(count_of(&summary.effective_status_counts, "completed"), 1);
    assert_eq!(count_of(&summary.effective_status_counts, "queued"), 1);
    assert_eq!(count_of(&summary.effective_status_counts, "pending"), 1);
    assert_eq!(summary.superseded_record_count, 1);
}

#[test]
fn mission_backlog_reports_no_open_tasks_when_raw_pending_records_are_superseded() {
    let records = vec![
        mission(
            "task-phase6j",
            "pending",
            "Review mission candidate: stale",
            "arandur_phase6j_canonical_queue_write",
        ),
        mission(
            "task-phase6j",
            "completed",
            "Review mission candidate: stale",
            "arandur_canonical_queue_task_execution",
        ),
    ];
    let report = report_mission_backlog(&records);
    assert!(!report.open_tasks_present);
    assert_eq!(report.open_tasks.len(), 0);
    assert_eq!(report.mission_review_tasks.len(), 0);
    assert_eq!(report.next_action, BacklogAction::GenerateOrSelectNextReviewGatedArandurGate);
    assert_eq!(report.next_action.label(), "generate_or_select_next_review_gated_arandur_gate");
    let summary = summarize_queue(&records);
    assert_eq!(count_of(&summary.status_counts, "pending"), 1);
    assert_eq!(count_of(&summary.effective_status_counts, "completed"), 1);
}

#[test]
fn mission_backlog_selects_next_effective_mission_review_task() {
    let records = vec![mission(
        "task-open",
        "pending",
        "Review mission candidate: live",
        "arandur_phase6j_canonical_queue_write",
    )];
    let report = report_mission_backlog(&records);
    assert!(report.open_tasks_present);
    assert_eq!(report.open_tasks.len(), 1);
    assert_eq!(report.mission_review_tasks.len(), 1);
    let next = report.mission_review_tasks[0];
    assert_eq!(records[next].id.as_deref(), Some("task-open"));
    assert_eq!(report.next_action.label(), "execute_next_effective_mission_review_task");
}

#[test]
fn effective_records_keep_the_latest_record_per_id_and_every_id_less_record() {
    let records = vec![
        task("a", "pending"),
        QueueRecord { id: None, status: s("pending"), title: None, source: None, phase: None },
        task("a", "completed"),
        task("b", "queued"),
        QueueRecord { id: None, status: None, title: None, source: None, phase: None },
    ];
    assert_eq!(effective_record_indices(&records), vec![1, 2, 3, 4]);
    let summary = summarize_queue(&records);
    assert_eq!(summary.superseded_record_count, 1);
    assert_eq!(count_of(&summary.effective_status_counts, "unknown"), 1);
}

#[test]
fn mission_backlog_falls_back_to_plain_open_task() {
    let records = vec![task("plain", "queued"), task("done", "completed")];
    let report = report_mission_backlog(&records);
    assert_eq!(report.open_tasks, vec![0]);
    assert!(report.mission_review_tasks.is_empty());
    assert_eq!(report.next_action, BacklogAction::ExecuteNextEffectiveOpenTask);
    assert!(!is_arandur_mission_review_task(&records[0]));
    assert!(is_arandur_mission_review_task(&mission(
        "m",
        "pending",
        "Review mission candidate: x",
        "arandur_phase6j_canonical_queue_write",
    )));
}

#[test]
fn empty_queue_summary_is_all_zero() {
    let summary = summarize_queue(&vec![]);
    assert_eq!(summary.total_records, 0);
    assert_eq!(summary.effective_total_records, 0);
    assert_eq!(summary.superseded_record_count, 0);
    assert!(summary.status_counts.is_empty());
}

/// The ledger counts that `arandur observe` reports; reading the files,
/// and leaving the queue untouched, are the command's own.
#[test]
fn observation_counts_queue_and_episode_records() {
    let queue = vec![task("task-one", "pending")];
    let episodes = vec![QueueRecord { id: None, status: None, title: None, source: None, phase: None }];
    let queue_summary = summarize_queue(&queue);
    assert_eq!(queue_summary.total_records, 1);
    assert_eq!(count_of(&queue_summary.status_counts, "pending"), 1);
    let episode_summary = summarize_queue(&episodes);
    assert_eq!(episode_summary.total_records, 1);
    assert_eq!(count_of(&episode_summary.status_counts, "unknown"), 1);
    assert_eq!(queue.len(), 1);
    assert_eq!(queue[0].status.as_deref(), Some("pending"));
}
