//! Runtime admission recovery: which bounded commands the recovery
//! executor runs for each recovery action, how their outcomes are judged,
//! and where the recovery route governor points the default route origin.

use vstd::prelude::*;
use crate::text::{owned, starts_with_seq, str_eq, str_starts_with};

verus! {

/// The bounded commands the recovery executor may run.
#[derive(Debug, Clone, Copy, PartialEq, Eq, Structural)]
pub enum RecoveryCommand {
    RetryOutbound,
    RetryRerouteDlq,
    AthenaDeepProcess,
    HadesSweep,
    /// A deferred retry with no matching lane: nothing to run, counts as done.
    NoOp,
    RouteGovernor,
    SyncModelControl,
    OpencodeGovernor,
    RemoteContractExport,
}

/// The argument vector of a recovery command (empty for the no-op).
pub open spec fn command_argv(c: RecoveryCommand) -> Seq<Seq<char>> {
    match c {
        RecoveryCommand::RetryOutbound => seq!["cargo"@, "run"@, "--quiet"@, "--"@, "hermes"@, "retry-outbound"@, "--limit"@, "100"@],
        RecoveryCommand::RetryRerouteDlq => seq!["cargo"@, "run"@, "--quiet"@, "--"@, "hermes"@, "retry-reroute-dlq"@, "--limit"@, "100"@],
        RecoveryCommand::AthenaDeepProcess => seq!["cargo"@, "run"@, "--quiet"@, "--"@, "athena"@, "deep-process"@, "--limit"@, "25"@, "--retry-failed"@],
        RecoveryCommand::HadesSweep => seq!["cargo"@, "run"@, "--quiet"@, "--"@, "hades"@, "sweep"@, "--sweep-type"@, "manual"@],
        RecoveryCommand::NoOp => Seq::empty(),
        RecoveryCommand::RouteGovernor => seq!["cargo"@, "run"@, "--quiet"@, "--"@, "control"@, "apply-runtime-recovery-route-governor"@],
        RecoveryCommand::SyncModelControl => seq!["bash"@, "scripts/control/sync_model_control_surface.sh"@],
        RecoveryCommand::OpencodeGovernor => seq!["cargo"@, "run"@, "--quiet"@, "--"@, "control"@, "apply-opencode-route-governor"@],
        RecoveryCommand::RemoteContractExport => seq!["cargo"@, "run"@, "--quiet"@, "--"@, "export"@, "remote-operator-contract"@],
    }
}

fn strs_view(v: &Vec<&'static str>) -> (r: Ghost<Seq<Seq<char>>>)
    ensures
        r@ == v@.map_values(|s: &str| s@),
{
    Ghost(v@.map_values(|s: &str| s@))
}

impl RecoveryCommand {
    /// The command's argument vector, program first.
    pub fn argv(&self) -> (v: Vec<&'static str>)
        ensures
            v@.map_values(|s: &str| s@) == command_argv(*self),
    {
        let v = match self {
            RecoveryCommand::RetryOutbound => vec!["cargo", "run", "--quiet", "--", "hermes", "retry-outbound", "--limit", "100"],
            RecoveryCommand::RetryRerouteDlq => vec!["cargo", "run", "--quiet", "--", "hermes", "retry-reroute-dlq", "--limit", "100"],
            RecoveryCommand::AthenaDeepProcess => vec!["cargo", "run", "--quiet", "--", "athena", "deep-process", "--limit", "25", "--retry-failed"],
            RecoveryCommand::HadesSweep => vec!["cargo", "run", "--quiet", "--", "hades", "sweep", "--sweep-type", "manual"],
            RecoveryCommand::NoOp => Vec::new(),
            RecoveryCommand::RouteGovernor => vec!["cargo", "run", "--quiet", "--", "control", "apply-runtime-recovery-route-governor"],
            RecoveryCommand::SyncModelControl => vec!["bash", "scripts/control/sync_model_control_surface.sh"],
            RecoveryCommand::OpencodeGovernor => vec!["cargo", "run", "--quiet", "--", "control", "apply-opencode-route-governor"],
            RecoveryCommand::RemoteContractExport => vec!["cargo", "run", "--quiet", "--", "export", "remote-operator-contract"],
        };
        proof {
            assert(v@.map_values(|s: &str| s@) =~= command_argv(*self));
        }
        v
    }
}

/// One entry of `recovery_actions`.
pub struct RecoveryAction {
    pub kind: Option<String>,
    pub label: Option<String>,
    pub title: Option<String>,
}

/// What the executor does for one action.
pub struct PlannedRun {
    pub action_index: usize,
    pub label: String,
    pub title: String,
    pub kind: String,
    /// The run is recorded as skipped: pressure is not clear for a deferred retry.
    pub skipped: bool,
    /// The commands to run, in order; the run is executed iff all succeed.
    pub commands: Vec<RecoveryCommand>,
}

/// The executor's plan for the recovery actions.
pub struct RecoveryPlan {
    pub runs: Vec<PlannedRun>,
    /// Some action asks for a route shift, handled after all other runs.
    pub route_shift_present: bool,
}

/// The text of an optional field, or the default.
pub open spec fn or_text(v: Option<String>, d: Seq<char>) -> Seq<char> {
    match v {
        Some(s) => s@,
        None => d,
    }
}

/// The action's kind, `""` when absent.
pub open spec fn kind_of(a: RecoveryAction) -> Seq<char> {
    or_text(a.kind, ""@)
}

/// The action's label, `"unknown"` when absent.
pub open spec fn label_of(a: RecoveryAction) -> Seq<char> {
    or_text(a.label, "unknown"@)
}

/// The action's title, its label when absent.
pub open spec fn title_of(a: RecoveryAction) -> Seq<char> {
    or_text(a.title, label_of(a))
}

/// Pressure is clear for deferred retries: the guard reports `ok` and
/// there is no local joule pressure.
pub open spec fn pressure_is_clear(status: Option<String>, joule_pressure: Option<bool>) -> bool {
    (match status {
        Some(s) => s@ == "ok"@,
        None => false,
    }) && joule_pressure != Some(true)
}

/// Decides whether pressure is clear for deferred retries.
pub fn pressure_clear(status: &Option<String>, joule_pressure: Option<bool>) -> (r: bool)
    ensures
        r == pressure_is_clear(*status, joule_pressure),
{
    let ok = match status {
        Some(s) => str_eq(s.as_str(), "ok"),
        None => false,
    };
    ok && joule_pressure != Some(true)
}

/// The commands of a deferred retry, chosen by the label's lane.
pub open spec fn deferred_commands(label: Seq<char>) -> Seq<RecoveryCommand> {
    if starts_with_seq(label, "athena_"@) {
        seq![RecoveryCommand::AthenaDeepProcess]
    } else if starts_with_seq(label, "hades_"@) {
        seq![RecoveryCommand::HadesSweep]
    } else {
        seq![RecoveryCommand::NoOp]
    }
}

/// The run planned for an action, if the executor handles its kind.
pub open spec fn run_matches(a: RecoveryAction, index: int, pressure_clear: bool, r: PlannedRun) -> bool {
    &&& r.action_index == index
    &&& r.label@ == label_of(a)
    &&& r.title@ == title_of(a)
    &&& r.kind@ == kind_of(a)
    &&& if kind_of(a) == "reroute_retry"@ {
        !r.skipped && r.commands@ == seq![RecoveryCommand::RetryOutbound, RecoveryCommand::RetryRerouteDlq]
    } else if !pressure_clear {
        r.skipped && r.commands@.len() == 0
    } else {
        !r.skipped && r.commands@ == deferred_commands(label_of(a))
    }
}

/// The executor handles this kind with a run of its own.
pub open spec fn handled_kind(a: RecoveryAction) -> bool {
    kind_of(a) == "reroute_retry"@ || kind_of(a) == "deferred_retry"@
}

/// The indices of the handled actions among the first `n`, in order.
pub open spec fn handled_indices(actions: Seq<RecoveryAction>, n: int) -> Seq<int>
    decreases n,
{
    if n <= 0 {
        Seq::empty()
    } else {
        let prev = handled_indices(actions, n - 1);
        if handled_kind(actions[n - 1]) { prev.push(n - 1) } else { prev }
    }
}

/// Some action among the first `n` is a route shift.
pub open spec fn has_route_shift(actions: Seq<RecoveryAction>, n: int) -> bool {
    exists|i: int| 0 <= i < n && kind_of(#[trigger] actions[i]) == "route_shift"@
}

/// The plan owed for the actions: one run per reroute or deferred retry,
/// in action order, and the route-shift flag.
pub open spec fn plan_matches(actions: Seq<RecoveryAction>, pressure_clear: bool, p: RecoveryPlan) -> bool {
    let idx = handled_indices(actions, actions.len() as int);
    &&& p.runs@.len() == idx.len()
    &&& forall|k: int| 0 <= k < idx.len() ==> run_matches(actions[idx[k]], idx[k], pressure_clear, #[trigger] p.runs@[k])
    &&& p.route_shift_present == has_route_shift(actions, actions.len() as int)
}

fn text_or_default(v: &Option<String>, d: &str) -> (r: String)
    ensures
        r@ == or_text(*v, d@),
{
    match v {
        Some(s) => owned(s.as_str()),
        None => owned(d),
    }
}

proof fn lemma_handled_indices_bounds(actions: Seq<RecoveryAction>, n: int)
    requires
        0 <= n <= actions.len(),
    ensures
        forall|k: int| 0 <= k < handled_indices(actions, n).len() ==> 0 <= #[trigger] handled_indices(actions, n)[k] < n,
    decreases n,
{
    if n > 0 {
        lemma_handled_indices_bounds(actions, n - 1);
        let prev = handled_indices(actions, n - 1);
        assert forall|k: int| 0 <= k < handled_indices(actions, n).len() implies 0 <= #[trigger] handled_indices(actions, n)[k] < n by {
            if k < prev.len() {
                assert(handled_indices(actions, n)[k] == prev[k]);
            }
        }
    }
}

/// Plans the recovery runs: a reroute retry re-sends outbound messages and
/// drains the reroute dead-letter queue; a deferred retry runs the ATHENA
/// or Hades lane named by its label, unless pressure is not clear, when it
/// is skipped; a route shift is remembered for the route-shift stage; other
/// kinds are ignored.
pub fn plan_recovery(actions: &Vec<RecoveryAction>, pressure_clear: bool) -> (p: RecoveryPlan)
    ensures
        plan_matches(actions@, pressure_clear, p),
{
    let mut runs: Vec<PlannedRun> = Vec::new();
    let mut shift = false;
    let mut i: usize = 0;
    while i < actions.len()
        invariant
            i <= actions.len(),
            runs@.len() == handled_indices(actions@, i as int).len(),
            forall|k: int| 0 <= k < runs@.len() ==> run_matches(
                actions@[handled_indices(actions@, i as int)[k]],
                handled_indices(actions@, i as int)[k],
                pressure_clear,
                #[trigger] runs@[k],
            ),
            shift == has_route_shift(actions@, i as int),
        decreases actions.len() - i,
    {
        let a = &actions[i];
        let kind = text_or_default(&a.kind, "");
        let label = text_or_default(&a.label, "unknown");
        let title = match &a.title {
            Some(t) => owned(t.as_str()),
            None => owned(label.as_str()),
        };
        let ghost prev_idx = handled_indices(actions@, i as int);
        proof {
            lemma_handled_indices_bounds(actions@, i + 1);
            reveal_strlit("route_shift");
            reveal_strlit("reroute_retry");
            reveal_strlit("deferred_retry");
            assert("route_shift"@[1] != "reroute_retry"@[1]);
            assert("route_shift"@.len() != "deferred_retry"@.len());
            assert("reroute_retry"@[0] != "deferred_retry"@[0]);
        }
        let is_shift = str_eq(kind.as_str(), "route_shift");
        if is_shift {
            shift = true;
        } else if str_eq(kind.as_str(), "reroute_retry") {
            let run = PlannedRun {
                action_index: i,
                label,
                title,
                kind,
                skipped: false,
                commands: vec![RecoveryCommand::RetryOutbound, RecoveryCommand::RetryRerouteDlq],
            };
            proof {
                assert(run.commands@ =~= seq![RecoveryCommand::RetryOutbound, RecoveryCommand::RetryRerouteDlq]);
            }
            runs.push(run);
        } else if str_eq(kind.as_str(), "deferred_retry") {
            if !pressure_clear {
                runs.push(PlannedRun { action_index: i, label, title, kind, skipped: true, commands: Vec::new() });
            } else {
                let cmd = if str_starts_with(label.as_str(), "athena_") {
                    RecoveryCommand::AthenaDeepProcess
                } else if str_starts_with(label.as_str(), "hades_") {
                    RecoveryCommand::HadesSweep
                } else {
                    RecoveryCommand::NoOp
                };
                let commands = vec![cmd];
                proof {
                    assert(commands@ =~= deferred_commands(label@));
                }
                runs.push(PlannedRun { action_index: i, label, title, kind, skipped: false, commands });
            }
        }
        proof {
            let idx = handled_indices(actions@, i + 1);
            assert forall|k: int| 0 <= k < runs@.len() implies run_matches(
                actions@[idx[k]],
                idx[k],
                pressure_clear,
                #[trigger] runs@[k],
            ) by {
                if k < prev_idx.len() {
                    assert(idx[k] == prev_idx[k]);
                }
            }
            if is_shift {
                assert(kind_of(actions@[i as int]) == "route_shift"@);
            }
            if has_route_shift(actions@, i + 1) && !is_shift {
                let j = choose|j: int| 0 <= j < i + 1 && kind_of(#[trigger] actions@[j]) == "route_shift"@;
                assert(j < i);
            }
        }
        i += 1;
    }
    RecoveryPlan { runs, route_shift_present: shift }
}

/// The commands of the route-shift stage: the route governor first; then,
/// only if it succeeded, the model-control sync, the OpenCode governor and
/// the remote contract export.
pub open spec fn route_shift_followups() -> Seq<RecoveryCommand> {
    seq![RecoveryCommand::SyncModelControl, RecoveryCommand::OpencodeGovernor, RecoveryCommand::RemoteContractExport]
}

/// The follow-up commands once the route governor has run.
pub fn route_shift_followup_commands(route_governor_ok: bool) -> (v: Vec<RecoveryCommand>)
    ensures
        v@ == if route_governor_ok { route_shift_followups() } else { Seq::empty() },
{
    if route_governor_ok {
        let v = vec![RecoveryCommand::SyncModelControl, RecoveryCommand::OpencodeGovernor, RecoveryCommand::RemoteContractExport];
        proof {
            assert(v@ =~= route_shift_followups());
        }
        v
    } else {
        Vec::new()
    }
}

/// How a run ended.
#[derive(Debug, Clone, Copy, PartialEq, Eq, Structural)]
pub enum RunStatus {
    Executed,
    Skipped,
    Failed,
}

impl RunStatus {
    /// The status as the executor report writes it.
    pub fn label(&self) -> (s: &'static str)
        ensures
            s@ == match *self {
                RunStatus::Executed => "executed"@,
                RunStatus::Skipped => "skipped"@,
                RunStatus::Failed => "failed"@,
            },
    {
        match self {
            RunStatus::Executed => "executed",
            RunStatus::Skipped => "skipped",
            RunStatus::Failed => "failed",
        }
    }
}

/// Every command succeeded.
pub open spec fn all_ok(results: Seq<bool>) -> bool {
    forall|i: int| 0 <= i < results.len() ==> #[trigger] results[i]
}

/// A run that was not skipped is executed when every command succeeded and
/// failed otherwise.
pub fn run_status(skipped: bool, command_ok: &Vec<bool>) -> (s: RunStatus)
    ensures
        s == if skipped {
            RunStatus::Skipped
        } else if all_ok(command_ok@) {
            RunStatus::Executed
        } else {
            RunStatus::Failed
        },
{
    if skipped {
        return RunStatus::Skipped;
    }
    let mut i: usize = 0;
    while i < command_ok.len()
        invariant
            i <= command_ok.len(),
            !skipped,
            forall|j: int| 0 <= j < i ==> #[trigger] command_ok@[j],
        decreases command_ok.len() - i,
    {
        if !command_ok[i] {
            proof {
                assert(!command_ok@[i as int]);
                assert(!all_ok(command_ok@));
            }
            return RunStatus::Failed;
        }
        i += 1;
    }
    RunStatus::Executed
}

/// The route-shift stage is executed only when the governor and all three
/// follow-ups succeeded.
pub fn route_shift_status(route_governor_ok: bool, followup_ok: &Vec<bool>) -> (s: RunStatus)
    ensures
        s == if route_governor_ok && followup_ok@.len() == 3 && followup_ok@[0] && followup_ok@[1] && followup_ok@[2] {
            RunStatus::Executed
        } else {
            RunStatus::Failed
        },
{
    if route_governor_ok && followup_ok.len() == 3 && followup_ok[0] && followup_ok[1] && followup_ok[2] {
        RunStatus::Executed
    } else {
        RunStatus::Failed
    }
}

/// How many runs ended with the given status.
pub open spec fn count_status(s: Seq<RunStatus>, st: RunStatus) -> nat
    decreases s.len(),
{
    if s.len() == 0 {
        0
    } else {
        count_status(s.drop_last(), st) + if s.last() == st { 1nat } else { 0nat }
    }
}

/// The executor's totals.
pub struct RecoveryTotals {
    pub executed_total: usize,
    pub skipped_total: usize,
    pub failed_total: usize,
}

/// Totals the run statuses.
pub fn recovery_totals(statuses: &Vec<RunStatus>) -> (t: RecoveryTotals)
    ensures
        t.executed_total == count_status(statuses@, RunStatus::Executed),
        t.skipped_total == count_status(statuses@, RunStatus::Skipped),
        t.failed_total == count_status(statuses@, RunStatus::Failed),
        t.executed_total + t.skipped_total + t.failed_total == statuses@.len(),
{
    let mut e: usize = 0;
    let mut s: usize = 0;
    let mut f: usize = 0;
    let mut i: usize = 0;
    while i < statuses.len()
        invariant
            i <= statuses.len(),
            e == count_status(statuses@.subrange(0, i as int), RunStatus::Executed),
            s == count_status(statuses@.subrange(0, i as int), RunStatus::Skipped),
            f == count_status(statuses@.subrange(0, i as int), RunStatus::Failed),
            e + s + f == i,
        decreases statuses.len() - i,
    {
        match statuses[i] {
            RunStatus::Executed => { e += 1; },
            RunStatus::Skipped => { s += 1; },
            RunStatus::Failed => { f += 1; },
        }
        proof {
            assert(statuses@.subrange(0, i + 1).drop_last() =~= statuses@.subrange(0, i as int));
        }
        i += 1;
    }
    proof {
        assert(statuses@.subrange(0, statuses@.len() as int) =~= statuses@);
    }
    RecoveryTotals { executed_total: e, skipped_total: s, failed_total: f }
}

/// One provider row of the Manwe router's pressure report.
pub struct ProviderPressure {
    pub id: Option<String>,
    pub enabled: Option<bool>,
    pub healthy: Option<bool>,
}

/// The last row among the first `n` that carries the id `name`.
pub open spec fn provider_row(rows: Seq<ProviderPressure>, name: Seq<char>, n: int) -> Option<ProviderPressure>
    decreases n,
{
    if n <= 0 {
        None
    } else if (match rows[n - 1].id {
        Some(id) => id@ == name,
        None => false,
    }) {
        Some(rows[n - 1])
    } else {
        provider_row(rows, name, n - 1)
    }
}

/// The provider is enabled and healthy.
pub open spec fn is_provider_ready(row: Option<ProviderPressure>) -> bool {
    match row {
        Some(r) => r.enabled == Some(true) && r.healthy == Some(true),
        None => false,
    }
}

/// Where a route shift sends inference: the edge backbone when it is
/// ready, otherwise the cloud when the LiteLLM gateway or OpenRouter is
/// ready, otherwise the edge.
pub open spec fn recovery_origin(rows: Seq<ProviderPressure>) -> Seq<char> {
    let n = rows.len() as int;
    if is_provider_ready(provider_row(rows, "edge_backbone"@, n)) {
        "edge"@
    } else if is_provider_ready(provider_row(rows, "litellm_gateway"@, n))
        || is_provider_ready(provider_row(rows, "openrouter"@, n)) {
        "cloud"@
    } else {
        "edge"@
    }
}

fn provider_is_ready(rows: &Vec<ProviderPressure>, name: &str) -> (r: bool)
    ensures
        r == is_provider_ready(provider_row(rows@, name@, rows@.len() as int)),
{
    let mut found: Option<usize> = None;
    let mut i: usize = 0;
    while i < rows.len()
        invariant
            i <= rows.len(),
            match found {
                Some(k) => k < i && provider_row(rows@, name@, i as int) == Some(rows@[k as int]),
                None => provider_row(rows@, name@, i as int) is None,
            },
        decreases rows.len() - i,
    {
        let hit = match &rows[i].id {
            Some(id) => str_eq(id.as_str(), name),
            None => false,
        };
        if hit {
            found = Some(i);
        }
        i += 1;
    }
    match found {
        Some(k) => rows[k].enabled == Some(true) && rows[k].healthy == Some(true),
        None => false,
    }
}

/// Chooses the default route origin for a runtime route shift.
pub fn choose_runtime_recovery_origin(rows: &Vec<ProviderPressure>) -> (r: String)
    ensures
        r@ == recovery_origin(rows@),
{
    if provider_is_ready(rows, "edge_backbone") {
        owned("edge")
    } else if provider_is_ready(rows, "litellm_gateway") || provider_is_ready(rows, "openrouter") {
        owned("cloud")
    } else {
        owned("edge")
    }
}

/// How a governor treated a route.
#[derive(Debug, Clone, Copy, PartialEq, Eq, Structural)]
pub enum GovernorStatus {
    ManualOverrideRespected,
    Applied,
    Unchanged,
}

impl GovernorStatus {
    /// The status as the governor state writes it.
    pub fn label(&self) -> (s: &'static str)
        ensures
            s@ == match *self {
                GovernorStatus::ManualOverrideRespected => "manual_override_respected"@,
                GovernorStatus::Applied => "applied"@,
                GovernorStatus::Unchanged => "unchanged"@,
            },
    {
        match self {
            GovernorStatus::ManualOverrideRespected => "manual_override_respected",
            GovernorStatus::Applied => "applied",
            GovernorStatus::Unchanged => "unchanged",
        }
    }
}

/// The recovery route governor's verdict on the default route origin.
pub struct OriginDecision {
    pub status: GovernorStatus,
    /// The origin is `auto` or the one the governor applied last time.
    pub governor_controlled: bool,
    /// The origin the governor now stands behind.
    pub applied_origin: String,
    /// The origin in force after the decision.
    pub current_origin: String,
}

/// The origin decision owed: an origin set by hand (neither `auto` nor
/// the governor's last) is left alone; otherwise the desired origin is
/// written when it differs.
pub open spec fn origin_decision_of(current: Seq<char>, previous: Seq<char>, desired: Seq<char>, d: OriginDecision) -> bool {
    let controlled = current == "auto"@ || current == previous;
    &&& d.governor_controlled == controlled
    &&& if !controlled && current != desired {
        &&& d.status == GovernorStatus::ManualOverrideRespected
        &&& d.applied_origin@ == previous
        &&& d.current_origin@ == current
    } else if current != desired {
        &&& d.status == GovernorStatus::Applied
        &&& d.applied_origin@ == desired
        &&& d.current_origin@ == desired
    } else {
        &&& d.status == GovernorStatus::Unchanged
        &&& d.applied_origin@ == desired
        &&& d.current_origin@ == current
    }
}

/// Decides the recovery route governor's action on the default origin.
pub fn decide_origin(current: &str, previous: &str, desired: &str) -> (d: OriginDecision)
    ensures
        origin_decision_of(current@, previous@, desired@, d),
{
    let controlled = str_eq(current, "auto") || str_eq(current, previous);
    let differs = !str_eq(current, desired);
    if !controlled && differs {
        OriginDecision {
            status: GovernorStatus::ManualOverrideRespected,
            governor_controlled: controlled,
            applied_origin: owned(previous),
            current_origin: owned(current),
        }
    } else if differs {
        OriginDecision {
            status: GovernorStatus::Applied,
            governor_controlled: controlled,
            applied_origin: owned(desired),
            current_origin: owned(desired),
        }
    } else {
        OriginDecision {
            status: GovernorStatus::Unchanged,
            governor_controlled: controlled,
            applied_origin: owned(desired),
            current_origin: owned(current),
        }
    }
}

/// The origin a route shift wants: the recovery origin when some action is
/// a route shift, `auto` otherwise.
pub fn desired_origin(route_shift_active: bool, rows: &Vec<ProviderPressure>) -> (r: String)
    ensures
        r@ == if route_shift_active { recovery_origin(rows@) } else { "auto"@ },
{
    if route_shift_active {
        choose_runtime_recovery_origin(rows)
    } else {
        owned("auto")
    }
}

/// Law: the governor never overrides a manual choice, and whenever it
/// acts the route ends at the desired origin. If the origin is under
/// manual control and differs from the desired one, it stays as it was;
/// otherwise the origin in force afterwards is the desired one, and so is
/// the origin the governor records as applied.
pub proof fn law_governor_respects_manual_override(
    current: Seq<char>,
    previous: Seq<char>,
    desired: Seq<char>,
    d: OriginDecision,
)
    requires
        origin_decision_of(current, previous, desired, d),
    ensures
        !d.governor_controlled && current != desired ==> d.current_origin@ == current
            && d.status == GovernorStatus::ManualOverrideRespected,
        d.governor_controlled || current == desired ==> d.current_origin@ == desired && d.applied_origin@ == desired,
        d.status == GovernorStatus::Applied <==> (d.governor_controlled && current != desired),
{
}

/// Law (route shift origin): a route shift goes to "edge" whenever the
/// edge backbone is enabled and healthy, to "cloud" when it is not but the
/// LiteLLM gateway or OpenRouter is, and back to "edge" when none is.
/// Deferred retries go ahead only when
/// the guard reports "ok" and there is no local joule pressure.
pub proof fn law_route_shift_origin(rows: Seq<ProviderPressure>, status: Option<String>, joule_pressure: Option<bool>)
    ensures
        recovery_origin(rows) == "edge"@ || recovery_origin(rows) == "cloud"@,
        is_provider_ready(provider_row(rows, "edge_backbone"@, rows.len() as int)) ==> recovery_origin(rows) == "edge"@,
        !is_provider_ready(provider_row(rows, "edge_backbone"@, rows.len() as int))
            && (is_provider_ready(provider_row(rows, "litellm_gateway"@, rows.len() as int))
                || is_provider_ready(provider_row(rows, "openrouter"@, rows.len() as int)))
            ==> recovery_origin(rows) == "cloud"@,
        pressure_is_clear(status, joule_pressure) <==> ((status matches Some(s) && s@ == "ok"@) && joule_pressure != Some(true)),
{
}

/// Law (latest provider row): the row appended last for a provider is the
/// one that decides whether it is ready.
pub proof fn law_latest_provider_row_decides(rows: Seq<ProviderPressure>, name: Seq<char>, row: ProviderPressure)
    requires
        row.id matches Some(id) && id@ == name,
    ensures
        provider_row(rows.push(row), name, rows.len() + 1int) == Some(row),
{
    assert(rows.push(row)[rows.len() as int] == row);
}

} // verus!
