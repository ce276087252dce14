//! The append-only task queue read as its effective state: for every task
//! id the latest record wins, and records without an id stand alone.

use vstd::prelude::*;
use crate::tally::{KeyCount, is_tally_of, tally};
use crate::text::{contains_seq, str_contains, str_eq};

verus! {

/// The fields of one queue record (one JSONL line) that the reports read.
/// A field is `None` when the line has no string value under that name.
pub struct QueueRecord {
    pub id: Option<String>,
    pub status: Option<String>,
    pub title: Option<String>,
    pub source: Option<String>,
    pub phase: Option<String>,
}

/// The record's id, if it has one.
pub open spec fn rec_id(r: QueueRecord) -> Option<Seq<char>> {
    match r.id {
        Some(s) => Some(s@),
        None => None,
    }
}

/// The record's status, `"unknown"` when absent.
pub open spec fn status_or_unknown(r: QueueRecord) -> Seq<char> {
    match r.status {
        Some(s) => s@,
        None => "unknown"@,
    }
}

/// Record `k` is effective: it has no id, or no later record has its id.
pub open spec fn is_effective(records: Seq<QueueRecord>, k: int) -> bool {
    &&& 0 <= k < records.len()
    &&& (rec_id(records[k]) is None || forall|j: int|
        k < j < records.len() ==> rec_id(#[trigger] records[j]) != rec_id(records[k]))
}

/// Effective record indices below `n`, in order.
pub open spec fn effective_upto(records: Seq<QueueRecord>, n: int) -> Seq<int>
    decreases n,
{
    if n <= 0 {
        Seq::empty()
    } else {
        let prev = effective_upto(records, n - 1);
        if is_effective(records, n - 1) { prev.push(n - 1) } else { prev }
    }
}

/// All effective record indices, in queue order.
pub open spec fn effective_indices(records: Seq<QueueRecord>) -> Seq<int> {
    effective_upto(records, records.len() as int)
}

proof fn lemma_effective_upto_members(records: Seq<QueueRecord>, n: int)
    requires
        0 <= n <= records.len(),
    ensures
        forall|i: int| #[trigger] effective_upto(records, n).contains(i) <==> (0 <= i < n && is_effective(records, i)),
    decreases n,
{
    if n > 0 {
        lemma_effective_upto_members(records, n - 1);
        let prev = effective_upto(records, n - 1);
        let cur = effective_upto(records, n);
        assert(cur == if is_effective(records, n - 1) { prev.push(n - 1) } else { prev });
        assert forall|i: int| cur.contains(i) <==> (0 <= i < n && is_effective(records, i)) by {
            if cur.contains(i) {
                let a = choose|a: int| 0 <= a < cur.len() && cur[a] == i;
                if a < prev.len() {
                    assert(prev[a] == i);
                    assert(prev.contains(i));
                    assert(0 <= i < n - 1 && is_effective(records, i));
                } else {
                    assert(is_effective(records, n - 1));
                    assert(i == n - 1);
                }
                assert(0 <= i < n && is_effective(records, i));
            }
            if 0 <= i < n && is_effective(records, i) {
                if i < n - 1 {
                    assert(prev.contains(i));
                    let a = choose|a: int| 0 <= a < prev.len() && prev[a] == i;
                    assert(cur[a] == i);
                } else {
                    assert(cur[cur.len() - 1] == i);
                }
            }
        }
        lemma_effective_upto_bounds(records, n - 1);
    }
}

proof fn lemma_latest_is_effective(records: Seq<QueueRecord>, k: int)
    requires
        0 <= k < records.len(),
    ensures
        exists|e: int| k <= e < records.len() && is_effective(records, e) && rec_id(records[e]) == rec_id(records[k]),
    decreases records.len() - k,
{
    if !is_effective(records, k) {
        let j = choose|j: int| k < j < records.len() && rec_id(#[trigger] records[j]) == rec_id(records[k]);
        lemma_latest_is_effective(records, j);
    }
}

/// Law (latest record wins): every record's id is carried by exactly one
/// effective record, and that record is at or after it in the queue.
pub proof fn law_effective_record_is_latest_per_id(records: Seq<QueueRecord>, k: int)
    requires
        0 <= k < records.len(),
        rec_id(records[k]) is Some,
    ensures
        exists|e: int| #![trigger effective_indices(records).contains(e)]
            effective_indices(records).contains(e) && k <= e && rec_id(records[e]) == rec_id(records[k]),
        forall|e1: int, e2: int|
            effective_indices(records).contains(e1) && effective_indices(records).contains(e2)
                && rec_id(records[e1]) == rec_id(records[k]) && rec_id(records[e2]) == rec_id(records[k])
                ==> e1 == e2,
{
    lemma_effective_upto_members(records, records.len() as int);
    lemma_latest_is_effective(records, k);
    let e = choose|e: int| k <= e < records.len() && is_effective(records, e) && rec_id(records[e]) == rec_id(records[k]);
    assert(effective_indices(records).contains(e));
    assert forall|e1: int, e2: int|
        effective_indices(records).contains(e1) && effective_indices(records).contains(e2)
            && rec_id(records[e1]) == rec_id(records[k]) && rec_id(records[e2]) == rec_id(records[k])
            implies e1 == e2 by {
        assert(is_effective(records, e1));
        assert(is_effective(records, e2));
        if e1 < e2 {
            assert(rec_id(records[e2]) != rec_id(records[e1]));
        } else if e2 < e1 {
            assert(rec_id(records[e1]) != rec_id(records[e2]));
        }
    }
}

fn opt_eq(a: &Option<String>, b: &Option<String>) -> (r: bool)
    ensures
        r == (match (a, b) {
            (Some(x), Some(y)) => x@ == y@,
            (None, None) => true,
            _ => false,
        }),
{
    match (a, b) {
        (Some(x), Some(y)) => *x == *y,
        (None, None) => true,
        _ => false,
    }
}

fn effective_at(records: &Vec<QueueRecord>, k: usize) -> (r: bool)
    requires
        k < records.len(),
    ensures
        r == is_effective(records@, k as int),
{
    if records[k].id.is_none() {
        return true;
    }
    let mut j: usize = k + 1;
    while j < records.len()
        invariant
            k < j <= records.len(),
            records@[k as int].id is Some,
            forall|m: int| k < m < j ==> rec_id(#[trigger] records@[m]) != rec_id(records@[k as int]),
        decreases records.len() - j,
    {
        if opt_eq(&records[j].id, &records[k].id) {
            return false;
        }
        j += 1;
    }
    true
}

/// Indices of the effective records, in queue order: a record is dropped
/// when a later record carries the same id.
pub fn effective_record_indices(records: &Vec<QueueRecord>) -> (out: Vec<usize>)
    ensures
        out@.map_values(|i: usize| i as int) == effective_indices(records@),
{
    let mut out: Vec<usize> = Vec::new();
    let mut k: usize = 0;
    while k < records.len()
        invariant
            k <= records.len(),
            out@.map_values(|i: usize| i as int) == effective_upto(records@, k as int),
        decreases records.len() - k,
    {
        if effective_at(records, k) {
            out.push(k);
            assert(out@.map_values(|i: usize| i as int) =~= effective_upto(records@, k + 1));
        }
        k += 1;
    }
    out
}

/// Statuses of all records, `"unknown"` where absent.
pub open spec fn all_statuses(records: Seq<QueueRecord>) -> Seq<Seq<char>> {
    records.map_values(|r: QueueRecord| status_or_unknown(r))
}

/// Statuses of the effective records.
pub open spec fn effective_statuses(records: Seq<QueueRecord>) -> Seq<Seq<char>> {
    effective_indices(records).map_values(|i: int| status_or_unknown(records[i]))
}

/// The counts that the JSONL summary reports.
pub struct QueueSummary {
    pub total_records: usize,
    pub status_counts: Vec<KeyCount>,
    pub effective_total_records: usize,
    pub effective_status_counts: Vec<KeyCount>,
    pub superseded_record_count: usize,
}

proof fn lemma_effective_upto_bounds(records: Seq<QueueRecord>, n: int)
    requires
        0 <= n <= records.len(),
    ensures
        effective_upto(records, n).len() <= n,
        forall|a: int| 0 <= a < effective_upto(records, n).len() ==> 0 <= #[trigger] effective_upto(records, n)[a] < n,
    decreases n,
{
    if n > 0 {
        lemma_effective_upto_bounds(records, n - 1);
    }
}

fn status_text(r: &QueueRecord) -> (s: String)
    ensures
        s@ == status_or_unknown(*r),
{
    match &r.status {
        Some(s) => s.clone(),
        None => {
            let u = String::from_str("unknown");
            u
        },
    }
}

/// Summarizes a queue ledger: raw counts by status, the effective records
/// (latest per id) and their counts by status, and how many raw records
/// a later record superseded.
pub fn summarize_queue(records: &Vec<QueueRecord>) -> (s: QueueSummary)
    ensures
        s.total_records == records.len(),
        is_tally_of(all_statuses(records@), s.status_counts@),
        s.effective_total_records == effective_indices(records@).len(),
        is_tally_of(effective_statuses(records@), s.effective_status_counts@),
        s.superseded_record_count == records.len() - effective_indices(records@).len(),
{
    let mut statuses: Vec<String> = Vec::new();
    let mut k: usize = 0;
    while k < records.len()
        invariant
            k <= records.len(),
            statuses.deep_view() == all_statuses(records@).subrange(0, k as int),
        decreases records.len() - k,
    {
        let st = status_text(&records[k]);
        let ghost old_dv = statuses.deep_view();
        statuses.push(st);
        assert(statuses.deep_view() == old_dv.push(st@));
        assert(statuses.deep_view() =~= all_statuses(records@).subrange(0, k + 1));
        k += 1;
    }
    assert(all_statuses(records@).subrange(0, records.len() as int) =~= all_statuses(records@));
    let status_counts = tally(&statuses);
    let eff = effective_record_indices(records);
    proof {
        lemma_effective_upto_bounds(records@, records.len() as int);
        assert forall|a: int| 0 <= a < eff@.len() implies (#[trigger] eff@[a]) < records.len() by {
            assert(eff@.map_values(|i: usize| i as int)[a] == eff@[a] as int);
        }
    }
    let mut eff_statuses: Vec<String> = Vec::new();
    let mut e: usize = 0;
    while e < eff.len()
        invariant
            e <= eff.len(),
            eff@.map_values(|i: usize| i as int) == effective_indices(records@),
            forall|a: int| 0 <= a < eff@.len() ==> (#[trigger] eff@[a]) < records.len(),
            eff_statuses.deep_view() == effective_statuses(records@).subrange(0, e as int),
        decreases eff.len() - e,
    {
        assert(eff@.map_values(|i: usize| i as int)[e as int] == eff@[e as int] as int);
        let st = status_text(&records[eff[e]]);
        let ghost old_dv = eff_statuses.deep_view();
        eff_statuses.push(st);
        assert(eff_statuses.deep_view() == old_dv.push(st@));
        assert(eff_statuses.deep_view() =~= effective_statuses(records@).subrange(0, e + 1));
        e += 1;
    }
    assert(effective_statuses(records@).subrange(0, eff.len() as int) =~= effective_statuses(records@));
    let effective_status_counts = tally(&eff_statuses);
    QueueSummary {
        total_records: records.len(),
        status_counts,
        effective_total_records: eff.len(),
        effective_status_counts,
        superseded_record_count: records.len() - eff.len(),
    }
}

/// Open task statuses: pending, queued, in progress.
pub open spec fn is_open_status(s: Seq<char>) -> bool {
    s == "pending"@ || s == "queued"@ || s == "in_progress"@
}

/// The record's status when it has one of the open statuses.
pub open spec fn is_open_record(r: QueueRecord) -> bool {
    r.status matches Some(s) && is_open_status(s@)
}

/// A mission-review task emitted by the canonical queue write: its title
/// names a mission-candidate review, its source is Arandur, and its
/// phase is 6J.
pub open spec fn is_mission_review_record(r: QueueRecord) -> bool {
    &&& r.title matches Some(t) && contains_seq(t@, "Review mission candidate"@)
    &&& r.source matches Some(s) && contains_seq(s@, "arandur"@)
    &&& r.phase matches Some(p) && p@ == "6J"@
}

fn is_open(r: &QueueRecord) -> (b: bool)
    ensures
        b == is_open_record(*r),
{
    match &r.status {
        Some(s) => str_eq(s.as_str(), "pending") || str_eq(s.as_str(), "queued") || str_eq(s.as_str(), "in_progress"),
        None => false,
    }
}

/// Whether the record is a mission-review task.
pub fn is_arandur_mission_review_task(r: &QueueRecord) -> (b: bool)
    ensures
        b == is_mission_review_record(*r),
{
    let title_matches = match &r.title {
        Some(t) => str_contains(t.as_str(), "Review mission candidate"),
        None => false,
    };
    let source_matches = match &r.source {
        Some(s) => str_contains(s.as_str(), "arandur"),
        None => false,
    };
    let phase_matches = match &r.phase {
        Some(p) => str_eq(p.as_str(), "6J"),
        None => false,
    };
    title_matches && source_matches && phase_matches
}

/// Effective open tasks, in queue order.
pub open spec fn open_indices(records: Seq<QueueRecord>) -> Seq<int> {
    effective_indices(records).filter(|i: int| is_open_record(records[i]))
}

/// Effective open mission-review tasks, in queue order.
pub open spec fn mission_review_indices(records: Seq<QueueRecord>) -> Seq<int> {
    open_indices(records).filter(|i: int| is_mission_review_record(records[i]))
}

/// What the mission backlog recommends doing next.
#[derive(PartialEq, Eq, Structural, Clone, Copy, Debug)]
pub enum BacklogAction {
    ExecuteNextEffectiveMissionReviewTask,
    ExecuteNextEffectiveOpenTask,
    GenerateOrSelectNextReviewGatedArandurGate,
}

impl BacklogAction {
    /// The action's name in the report.
    pub fn label(&self) -> (s: &'static str)
        ensures
            s@ == backlog_action_label(*self),
    {
        match self {
            BacklogAction::ExecuteNextEffectiveMissionReviewTask => "execute_next_effective_mission_review_task",
            BacklogAction::ExecuteNextEffectiveOpenTask => "execute_next_effective_open_task",
            BacklogAction::GenerateOrSelectNextReviewGatedArandurGate => "generate_or_select_next_review_gated_arandur_gate",
        }
    }
}

pub open spec fn backlog_action_label(a: BacklogAction) -> Seq<char> {
    match a {
        BacklogAction::ExecuteNextEffectiveMissionReviewTask => "execute_next_effective_mission_review_task"@,
        BacklogAction::ExecuteNextEffectiveOpenTask => "execute_next_effective_open_task"@,
        BacklogAction::GenerateOrSelectNextReviewGatedArandurGate => "generate_or_select_next_review_gated_arandur_gate"@,
    }
}

/// The next recommended action: a mission review first, then any open
/// task, else selecting a new review-gated gate.
pub open spec fn next_backlog_action(records: Seq<QueueRecord>) -> BacklogAction {
    if mission_review_indices(records).len() > 0 {
        BacklogAction::ExecuteNextEffectiveMissionReviewTask
    } else if open_indices(records).len() > 0 {
        BacklogAction::ExecuteNextEffectiveOpenTask
    } else {
        BacklogAction::GenerateOrSelectNextReviewGatedArandurGate
    }
}

/// The mission backlog read from the effective queue.
pub struct MissionBacklog {
    /// Indices of the effective open tasks, in queue order.
    pub open_tasks: Vec<usize>,
    /// Indices of the effective open mission-review tasks, in queue order.
    pub mission_review_tasks: Vec<usize>,
    /// Whether any effective open task exists.
    pub open_tasks_present: bool,
    pub next_action: BacklogAction,
}

/// Reports the mission backlog: the effective open tasks, those that are
/// mission reviews, and the next recommended action (a mission review
/// first, then any open task, else selecting a new review-gated gate).
pub fn report_mission_backlog(records: &Vec<QueueRecord>) -> (b: MissionBacklog)
    ensures
        b.open_tasks@.map_values(|i: usize| i as int) == open_indices(records@),
        b.mission_review_tasks@.map_values(|i: usize| i as int) == mission_review_indices(records@),
        b.open_tasks_present == (open_indices(records@).len() > 0),
        b.next_action == next_backlog_action(records@),
{
    let eff = effective_record_indices(records);
    proof {
        lemma_effective_upto_bounds(records@, records.len() as int);
        assert forall|a: int| 0 <= a < eff@.len() implies (#[trigger] eff@[a]) < records.len() by {
            assert(eff@.map_values(|i: usize| i as int)[a] == eff@[a] as int);
        }
    }
    let ghost effs = effective_indices(records@);
    let mut open: Vec<usize> = Vec::new();
    let mut review: Vec<usize> = Vec::new();
    let mut e: usize = 0;
    while e < eff.len()
        invariant
            e <= eff.len(),
            eff@.map_values(|i: usize| i as int) == effs,
            effs == effective_indices(records@),
            forall|a: int| 0 <= a < eff@.len() ==> (#[trigger] eff@[a]) < records.len(),
            open@.map_values(|i: usize| i as int) == effs.subrange(0, e as int).filter(|i: int| is_open_record(records@[i])),
            review@.map_values(|i: usize| i as int) == effs.subrange(0, e as int).filter(|i: int| is_open_record(records@[i])).filter(|i: int| is_mission_review_record(records@[i])),
        decreases eff.len() - e,
    {
        let ghost pre = effs.subrange(0, e as int);
        let ghost post = effs.subrange(0, e + 1);
        assert(post == pre.push(effs[e as int]));
        assert(effs[e as int] == eff@[e as int] as int);
        let idx = eff[e];
        reveal_with_fuel(Seq::filter, 1);
        assert(post.drop_last() == pre);
        if is_open(&records[idx]) {
            open.push(idx);
            assert(open@.map_values(|i: usize| i as int) =~= post.filter(|i: int| is_open_record(records@[i])));
            let ghost of_pre = pre.filter(|i: int| is_open_record(records@[i]));
            let ghost of_post = post.filter(|i: int| is_open_record(records@[i]));
            assert(of_post == of_pre.push(idx as int));
            assert(of_post.drop_last() == of_pre);
            if is_arandur_mission_review_task(&records[idx]) {
                review.push(idx);
                assert(review@.map_values(|i: usize| i as int) =~= of_post.filter(|i: int| is_mission_review_record(records@[i])));
            } else {
                assert(review@.map_values(|i: usize| i as int) =~= of_post.filter(|i: int| is_mission_review_record(records@[i])));
            }
        } else {
            assert(open@.map_values(|i: usize| i as int) =~= post.filter(|i: int| is_open_record(records@[i])));
        }
        e += 1;
    }
    assert(effs.subrange(0, eff.len() as int) == effs);
    let present = open.len() > 0;
    let next_action = if review.len() > 0 {
        BacklogAction::ExecuteNextEffectiveMissionReviewTask
    } else if open.len() > 0 {
        BacklogAction::ExecuteNextEffectiveOpenTask
    } else {
        BacklogAction::GenerateOrSelectNextReviewGatedArandurGate
    };
    MissionBacklog { open_tasks: open, mission_review_tasks: review, open_tasks_present: present, next_action }
}

/// Law (open tasks): an effective record is an open task exactly when its
/// status is "pending", "queued" or "in_progress"; so while an
/// "in_progress" record is effective the backlog holds an open task and
/// selecting a new gate is not recommended.
pub proof fn law_open_tasks_are_pending_queued_or_in_progress(records: Seq<QueueRecord>, k: int)
    requires
        0 <= k < records.len(),
    ensures
        open_indices(records).contains(k) <==> (is_effective(records, k) && (records[k].status matches Some(s)
            && (s@ == "pending"@ || s@ == "queued"@ || s@ == "in_progress"@))),
        is_effective(records, k) ==> ((records[k].status matches Some(s) && s@ == "in_progress"@)
            ==> open_indices(records).len() > 0
                && next_backlog_action(records) != BacklogAction::GenerateOrSelectNextReviewGatedArandurGate),
{
    lemma_effective_upto_members(records, records.len() as int);
    let effs = effective_indices(records);
    let pred = |i: int| is_open_record(records[i]);
    if open_indices(records).contains(k) {
        effs.lemma_filter_contains_rev(pred, k);
        let a = choose|a: int| 0 <= a < open_indices(records).len() && open_indices(records)[a] == k;
        effs.lemma_filter_pred(pred, a);
        assert(is_open_record(records[k]));
    }
    if is_effective(records, k) && is_open_record(records[k]) {
        assert(effs.contains(k));
        let a = choose|a: int| 0 <= a < effs.len() && effs[a] == k;
        effs.lemma_filter_contains(pred, a);
        assert(open_indices(records).contains(k));
    }
}

/// Law (mission reviews): an effective open task is a mission review
/// exactly when its title mentions "Review mission candidate", its source
/// mentions "arandur" and its phase is "6J"; every mission review is an
/// open task.
pub proof fn law_mission_reviews_are_open_arandur_6j_reviews(records: Seq<QueueRecord>, k: int)
    requires
        0 <= k < records.len(),
    ensures
        mission_review_indices(records).contains(k) <==> (open_indices(records).contains(k)
            && (records[k].title matches Some(t) && contains_seq(t@, "Review mission candidate"@))
            && (records[k].source matches Some(src) && contains_seq(src@, "arandur"@))
            && (records[k].phase matches Some(ph) && ph@ == "6J"@)),
        mission_review_indices(records).len() > 0 ==> open_indices(records).len() > 0,
{
    let opens = open_indices(records);
    let pred = |i: int| is_mission_review_record(records[i]);
    if mission_review_indices(records).contains(k) {
        opens.lemma_filter_contains_rev(pred, k);
        let a = choose|a: int| 0 <= a < mission_review_indices(records).len() && mission_review_indices(records)[a] == k;
        opens.lemma_filter_pred(pred, a);
    }
    if opens.contains(k) && is_mission_review_record(records[k]) {
        let a = choose|a: int| 0 <= a < opens.len() && opens[a] == k;
        opens.lemma_filter_contains(pred, a);
    }
    if mission_review_indices(records).len() > 0 {
        opens.lemma_filter_len(pred);
    }
}

proof fn lemma_effective_count(records: Seq<QueueRecord>, n: int)
    requires
        0 <= n <= records.len(),
    ensures
        effective_upto(records, n).len() <= n,
        effective_upto(records, n).len() == n <==> forall|i: int| 0 <= i < n ==> #[trigger] is_effective(records, i),
    decreases n,
{
    if n > 0 {
        lemma_effective_count(records, n - 1);
        if effective_upto(records, n).len() == n {
            assert forall|i: int| 0 <= i < n implies #[trigger] is_effective(records, i) by {
                if i < n - 1 {
                    assert(effective_upto(records, n - 1).len() == n - 1);
                }
            }
        }
    }
}

/// Law (superseded records): no more records are effective than there are
/// records; none is superseded exactly when every record is effective,
/// and a record whose id a later record carries is superseded.
pub proof fn law_superseded_records(records: Seq<QueueRecord>, k: int, j: int)
    ensures
        effective_indices(records).len() <= records.len(),
        effective_indices(records).len() == records.len()
            <==> forall|i: int| 0 <= i < records.len() ==> #[trigger] is_effective(records, i),
        0 <= k < j < records.len() && rec_id(records[k]) is Some && rec_id(records[j]) == rec_id(records[k])
            ==> effective_indices(records).len() < records.len(),
{
    lemma_effective_count(records, records.len() as int);
    if 0 <= k < j < records.len() && rec_id(records[k]) is Some && rec_id(records[j]) == rec_id(records[k]) {
        assert(!is_effective(records, k));
    }
}

} // verus!
