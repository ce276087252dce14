//! The Prometheus autopilot dashboard's alerts and the service status
//! helpers: context-engineering policy, council fan-out texts and the
//! triad philosopher evidence.

use vstd::prelude::*;
use crate::text::{chars_to_string, decimal, owned, push_decimal, push_str, starts_with_seq, str_chars, str_starts_with};

verus! {

/// How urgent an alert is.
#[derive(Debug, Clone, Copy, PartialEq, Eq, Structural)]
pub enum AlertSeverity {
    Info,
    Warning,
    Critical,
}

/// A dashboard alert.
pub struct Alert {
    pub severity: AlertSeverity,
    pub message: String,
    pub source: String,
}

/// An alert as severity, message and source.
pub open spec fn alert_view(a: Alert) -> (AlertSeverity, Seq<char>, Seq<char>) {
    (a.severity, a.message@, a.source@)
}

/// What the alerts are raised from. The completion-rate comparison and its
/// rendering as a percentage arrive already evaluated.
pub struct DashboardSignals {
    pub services_failed: usize,
    pub aging_oldest_pending_secs: Option<u64>,
    pub recent_completions_24h: usize,
    pub recent_failures_24h: usize,
    /// The 24h completion rate is below one half.
    pub completion_rate_low: bool,
    /// The 24h completion rate as a percentage with one decimal (`41.7`).
    pub completion_rate_percent: String,
}

/// The alerts owed: failed services (critical), a pending task older than
/// a day, and a low completion rate over at least three finished tasks.
pub open spec fn dashboard_alerts(s: DashboardSignals) -> Seq<(AlertSeverity, Seq<char>, Seq<char>)> {
    let aging = match s.aging_oldest_pending_secs {
        Some(a) => a as int,
        None => 0,
    };
    let denom = s.recent_completions_24h + s.recent_failures_24h;
    (if s.services_failed > 0 {
        seq![(AlertSeverity::Critical, decimal(s.services_failed as nat) + " annunimas service(s) failed"@, "systemd"@)]
    } else {
        Seq::empty()
    }) + (if aging > 86400 {
        seq![(AlertSeverity::Warning, "oldest pending task is over 24h old"@, "queue"@)]
    } else {
        Seq::empty()
    }) + (if denom >= 3 && s.completion_rate_low {
        seq![(AlertSeverity::Warning, "low 24h completion rate: "@ + s.completion_rate_percent@ + "% ("@
            + decimal(s.recent_completions_24h as nat) + "/"@ + decimal(denom as nat) + ")"@, "queue"@)]
    } else {
        Seq::empty()
    })
}

/// Raises the dashboard alerts.
pub fn build_alerts(s: &DashboardSignals) -> (out: Vec<Alert>)
    requires
        s.recent_completions_24h + s.recent_failures_24h <= usize::MAX,
    ensures
        out@.map_values(|a: Alert| alert_view(a)) == dashboard_alerts(*s),
{
    let mut out: Vec<Alert> = Vec::new();
    if s.services_failed > 0 {
        let mut m: Vec<char> = Vec::new();
        push_decimal(&mut m, s.services_failed as u64);
        push_str(&mut m, " annunimas service(s) failed");
        out.push(Alert { severity: AlertSeverity::Critical, message: chars_to_string(m.as_slice()), source: owned("systemd") });
    }
    let ghost a = out@.map_values(|a: Alert| alert_view(a));
    let aging: u64 = match s.aging_oldest_pending_secs {
        Some(x) => x,
        None => 0,
    };
    if aging > 86400 {
        out.push(Alert {
            severity: AlertSeverity::Warning,
            message: owned("oldest pending task is over 24h old"),
            source: owned("queue"),
        });
    }
    let ghost b = out@.map_values(|a: Alert| alert_view(a));
    let denom = s.recent_completions_24h + s.recent_failures_24h;
    if denom >= 3 && s.completion_rate_low {
        let mut m: Vec<char> = Vec::new();
        push_str(&mut m, "low 24h completion rate: ");
        push_str(&mut m, s.completion_rate_percent.as_str());
        push_str(&mut m, "% (");
        push_decimal(&mut m, s.recent_completions_24h as u64);
        push_str(&mut m, "/");
        push_decimal(&mut m, denom as u64);
        push_str(&mut m, ")");
        out.push(Alert { severity: AlertSeverity::Warning, message: chars_to_string(m.as_slice()), source: owned("queue") });
    }
    proof {
        assert(out@.map_values(|a: Alert| alert_view(a)) =~= dashboard_alerts(*s));
    }
    out
}

/// How hard the context is compacted.
#[derive(Debug, Clone, Copy, PartialEq, Eq, Structural)]
pub enum CompactionTarget {
    /// Compact to 42 percent of the budget.
    Tight,
    /// Compact to 58 percent of the budget.
    Relaxed,
}

/// The context-engineering policy of the Prometheus service.
pub struct ContextPolicy {
    pub context_budget_chars: u64,
    pub compaction_target: CompactionTarget,
    pub reminder_interval_messages: u64,
    pub required_sections: Vec<&'static str>,
}

/// The workload pressure: active orders, pending escalations and a third
/// of the recent continuity events.
pub open spec fn workload_pressure(orders: nat, escalations: nat, events: nat) -> nat {
    orders + escalations + events / 3
}

/// The context budget: 24000 characters on a heartbeat of at most half a
/// second, else 18000; a workload of 6 caps it at 18000, one of 12 at
/// 14000.
pub open spec fn context_budget(heartbeat_interval_ms: u64, w: nat) -> u64 {
    let base: u64 = if heartbeat_interval_ms <= 500 { 24000 } else { 18000 };
    if w >= 12 {
        if base < 14000 { base } else { 14000 }
    } else if w >= 6 {
        if base < 18000 { base } else { 18000 }
    } else {
        base
    }
}

/// A workload of 10 or more tightens compaction and reminders.
pub open spec fn under_pressure(w: nat) -> bool {
    w >= 10
}

/// Sets the context policy from the heartbeat and the workload: a fast
/// heartbeat allows a larger budget; pressure shrinks it and tightens
/// compaction and reminders.
pub fn context_engineering_policy(
    heartbeat_interval_ms: u64,
    active_orders: usize,
    pending_escalations: usize,
    continuity_events_48h: usize,
) -> (p: ContextPolicy)
    requires
        active_orders + pending_escalations + continuity_events_48h / 3 <= usize::MAX,
    ensures
        ({
            let w = workload_pressure(active_orders as nat, pending_escalations as nat, continuity_events_48h as nat);
            &&& p.context_budget_chars == context_budget(heartbeat_interval_ms, w)
            &&& p.compaction_target == if under_pressure(w) { CompactionTarget::Tight } else { CompactionTarget::Relaxed }
            &&& p.reminder_interval_messages == if under_pressure(w) { 4u64 } else { 7u64 }
        }),
        p.required_sections@.map_values(|s: &str| s@) == seq!["mission"@, "active_constraints"@, "recent_decisions"@, "open_work"@, "verification_targets"@],
{
    let mut budget: u64 = if heartbeat_interval_ms <= 500 { 24000 } else { 18000 };
    let w = active_orders + pending_escalations + continuity_events_48h / 3;
    if w >= 12 {
        if budget > 14000 {
            budget = 14000;
        }
    } else if w >= 6 {
        if budget > 18000 {
            budget = 18000;
        }
    }
    let sections = vec!["mission", "active_constraints", "recent_decisions", "open_work", "verification_targets"];
    proof {
        assert(sections@.map_values(|s: &str| s@) =~= seq!["mission"@, "active_constraints"@, "recent_decisions"@, "open_work"@, "verification_targets"@]);
    }
    ContextPolicy {
        context_budget_chars: budget,
        compaction_target: if w >= 10 { CompactionTarget::Tight } else { CompactionTarget::Relaxed },
        reminder_interval_messages: if w >= 10 { 4 } else { 7 },
        required_sections: sections,
    }
}

/// The default council participants.
pub open spec fn default_council() -> Seq<Seq<char>> {
    seq!["athena"@, "hades"@, "charon"@, "mnemosyne"@]
}

/// The council participants: those given, or the default four.
pub fn council_participants(given: Vec<String>) -> (r: Vec<String>)
    ensures
        r.deep_view() == if given@.len() > 0 { given.deep_view() } else { default_council() },
{
    if given.len() > 0 {
        return given;
    }
    let r = vec![owned("athena"), owned("hades"), owned("charon"), owned("mnemosyne")];
    proof {
        assert(r.deep_view() =~= default_council());
    }
    r
}

/// A participant's council input: `[<participant>] council input for topic
/// '<topic>'. context=<context>`.
pub fn council_report_body(participant: &str, topic: &str, context_json: &str) -> (s: String)
    ensures
        s@ == "["@ + participant@ + "] council input for topic '"@ + topic@ + "'. context="@ + context_json@,
{
    let mut out: Vec<char> = Vec::new();
    push_str(&mut out, "[");
    push_str(&mut out, participant);
    push_str(&mut out, "] council input for topic '");
    push_str(&mut out, topic);
    push_str(&mut out, "'. context=");
    push_str(&mut out, context_json);
    chars_to_string(out.as_slice())
}

/// The council's closing outcome.
pub fn council_outcome(participants: usize) -> (s: String)
    ensures
        s@ == "Council fanout complete with "@ + decimal(participants as nat) + " participants."@,
{
    let mut out: Vec<char> = Vec::new();
    push_str(&mut out, "Council fanout complete with ");
    push_decimal(&mut out, participants as u64);
    push_str(&mut out, " participants.");
    chars_to_string(out.as_slice())
}

/// Keeps the evidence entries that belong to the triad philosopher
/// (`triad_philosopher:` prefix), in order.
pub fn triad_philosopher_evidence(entries: &Vec<String>) -> (out: Vec<String>)
    ensures
        out.deep_view() == entries.deep_view().filter(|e: Seq<char>| starts_with_seq(e, "triad_philosopher:"@)),
{
    let mut out: Vec<String> = Vec::new();
    let mut i: usize = 0;
    while i < entries.len()
        invariant
            i <= entries.len(),
            out.deep_view() == entries.deep_view().subrange(0, i as int).filter(|e: Seq<char>| starts_with_seq(e, "triad_philosopher:"@)),
        decreases entries.len() - i,
    {
        let ghost before = out.deep_view();
        if str_starts_with(entries[i].as_str(), "triad_philosopher:") {
            let s = owned(entries[i].as_str());
            out.push(s);
            proof {
                assert(out.deep_view() =~= before.push(s@));
            }
        }
        proof {
            let sub = entries.deep_view().subrange(0, i + 1);
            assert(sub.drop_last() =~= entries.deep_view().subrange(0, i as int));
            assert(sub.last() == entries@[i as int]@);
            reveal(Seq::filter);
            assert(out.deep_view() =~= sub.filter(|e: Seq<char>| starts_with_seq(e, "triad_philosopher:"@)));
        }
        i += 1;
    }
    proof {
        assert(entries.deep_view().subrange(0, entries.deep_view().len() as int) =~= entries.deep_view());
    }
    out
}

/// Law (aging alert): the warning "oldest pending task is over 24h old"
/// from the queue is raised exactly when the oldest pending task is more
/// than a day (24 * 60 * 60 seconds) old.
pub proof fn law_aging_alert_after_one_day(s: DashboardSignals)
    ensures
        dashboard_alerts(s).contains((AlertSeverity::Warning, "oldest pending task is over 24h old"@, "queue"@))
            <==> (s.aging_oldest_pending_secs matches Some(a) && a > 24 * 60 * 60),
{
    reveal_strlit("oldest pending task is over 24h old");
    reveal_strlit("low 24h completion rate: ");
    let target = (AlertSeverity::Warning, "oldest pending task is over 24h old"@, "queue"@);
    let aging = match s.aging_oldest_pending_secs {
        Some(a) => a as int,
        None => 0,
    };
    let denom = s.recent_completions_24h + s.recent_failures_24h;
    let first: Seq<(AlertSeverity, Seq<char>, Seq<char>)> = if s.services_failed > 0 {
        seq![(AlertSeverity::Critical, decimal(s.services_failed as nat) + " annunimas service(s) failed"@, "systemd"@)]
    } else {
        Seq::empty()
    };
    let second: Seq<(AlertSeverity, Seq<char>, Seq<char>)> = if aging > 86400 {
        seq![target]
    } else {
        Seq::empty()
    };
    let low_msg = "low 24h completion rate: "@ + s.completion_rate_percent@ + "% ("@
        + decimal(s.recent_completions_24h as nat) + "/"@ + decimal(denom as nat) + ")"@;
    let third: Seq<(AlertSeverity, Seq<char>, Seq<char>)> = if denom >= 3 && s.completion_rate_low {
        seq![(AlertSeverity::Warning, low_msg, "queue"@)]
    } else {
        Seq::empty()
    };
    let all = dashboard_alerts(s);
    assert(all == first + second + third);
    assert(low_msg[0] == 'l');
    assert(target.1[0] == 'o');
    if aging > 86400 {
        assert(all[first.len() as int] == target);
        assert(all.contains(target));
    }
    if all.contains(target) {
        let i = choose|i: int| 0 <= i < all.len() && all[i] == target;
        if i < first.len() {
            assert(all[i] == first[i]);
        } else if i < first.len() + second.len() {
            assert(all[i] == second[i - first.len()]);
        } else {
            assert(all[i] == third[i - first.len() - second.len()]);
            assert(third[i - first.len() - second.len()].1 == low_msg);
        }
        assert(aging > 86400);
    }
}

/// Law (service and completion alerts): a critical "systemd" alert naming
/// the count of failed services is raised exactly when a service failed;
/// the low completion rate warning is raised exactly when at least three
/// tasks finished in the last day and the rate is low; and there is no
/// other critical alert.
pub proof fn law_service_and_completion_alerts(s: DashboardSignals)
    ensures
        dashboard_alerts(s).contains((AlertSeverity::Critical,
            decimal(s.services_failed as nat) + " annunimas service(s) failed"@, "systemd"@)) <==> s.services_failed > 0,
        dashboard_alerts(s).contains((AlertSeverity::Warning, "low 24h completion rate: "@ + s.completion_rate_percent@ + "% ("@
            + decimal(s.recent_completions_24h as nat) + "/"@
            + decimal((s.recent_completions_24h + s.recent_failures_24h) as nat) + ")"@, "queue"@))
            <==> (s.recent_completions_24h + s.recent_failures_24h >= 3 && s.completion_rate_low),
        forall|i: int| 0 <= i < dashboard_alerts(s).len() && (#[trigger] dashboard_alerts(s)[i]).0 == AlertSeverity::Critical
            ==> i == 0 && s.services_failed > 0,
{
    reveal_strlit("oldest pending task is over 24h old");
    reveal_strlit("low 24h completion rate: ");
    let aging = match s.aging_oldest_pending_secs {
        Some(a) => a as int,
        None => 0,
    };
    let denom = s.recent_completions_24h + s.recent_failures_24h;
    let crit = (AlertSeverity::Critical, decimal(s.services_failed as nat) + " annunimas service(s) failed"@, "systemd"@);
    let aged = (AlertSeverity::Warning, "oldest pending task is over 24h old"@, "queue"@);
    let low_msg = "low 24h completion rate: "@ + s.completion_rate_percent@ + "% ("@
        + decimal(s.recent_completions_24h as nat) + "/"@ + decimal(denom as nat) + ")"@;
    let low = (AlertSeverity::Warning, low_msg, "queue"@);
    let first: Seq<(AlertSeverity, Seq<char>, Seq<char>)> = if s.services_failed > 0 { seq![crit] } else { Seq::empty() };
    let second: Seq<(AlertSeverity, Seq<char>, Seq<char>)> = if aging > 86400 { seq![aged] } else { Seq::empty() };
    let third: Seq<(AlertSeverity, Seq<char>, Seq<char>)> = if denom >= 3 && s.completion_rate_low { seq![low] } else { Seq::empty() };
    let all = dashboard_alerts(s);
    assert(all == first + second + third);
    assert(low_msg[0] == 'l');
    assert(aged.1[0] == 'o');
    assert forall|i: int| 0 <= i < all.len() implies
        (all[i] == if i < first.len() { first[i] } else if i < first.len() + second.len() { second[i - first.len()] }
            else { third[i - first.len() - second.len()] }) by {}
    if s.services_failed > 0 {
        assert(all[0] == crit);
    }
    if denom >= 3 && s.completion_rate_low {
        assert(all[(first.len() + second.len()) as int] == low);
    }
    if all.contains(crit) {
        let i = choose|i: int| 0 <= i < all.len() && all[i] == crit;
        assert(i < first.len());
    }
    if all.contains(low) {
        let i = choose|i: int| 0 <= i < all.len() && all[i] == low;
        if i < first.len() {
        } else if i < first.len() + second.len() {
            assert(second[i - first.len()] == aged);
        }
    }
}

/// Law (context budget): a fast heartbeat (at most 500 ms) allows 24000
/// characters and a slower one 18000 while the workload is under 6; from
/// 6 the budget is at most 18000 and from 12 it is 14000; more workload
/// never raises the budget and a faster heartbeat never lowers it;
/// compaction and reminders tighten from a workload of 10.
pub proof fn law_context_budget(fast: u64, slow: u64, w: nat, more: nat)
    requires
        fast <= slow,
        w <= more,
    ensures
        w < 6 ==> context_budget(fast, w) == (if fast <= 500 { 24000u64 } else { 18000u64 }),
        6 <= w < 12 ==> context_budget(fast, w) == 18000,
        w >= 12 ==> context_budget(fast, w) == 14000,
        context_budget(fast, more) <= context_budget(fast, w),
        context_budget(slow, w) <= context_budget(fast, w),
        under_pressure(w) <==> w >= 10,
{
}

} // verus!
