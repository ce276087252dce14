//! The sovereign launch preflight: from governance, budget, pressure and
//! swap signals, decide whether agents may launch, on which lane, and why.

use vstd::prelude::*;
use crate::agents::{agent_list, normalized_agents};
use crate::text::{lower_seq, owned, str_eq, str_eq_ignore_ascii_case};

verus! {

/// Outcome of the preflight.
#[derive(Debug, Clone, Copy, PartialEq, Eq, Structural)]
pub enum PreflightStatus {
    Permitted,
    Degraded,
    Blocked,
}

/// The launch lane the outcome opens.
#[derive(Debug, Clone, Copy, PartialEq, Eq, Structural)]
pub enum LaunchLane {
    FullLocalControlPlane,
    ControlPlaneOnly,
    Blocked,
}

/// Why the preflight blocked or degraded a launch. Indices refer to the
/// pressure guard's violations, in receipt order.
#[derive(Debug, Clone, Copy, PartialEq, Eq, Structural)]
pub enum PreflightReason {
    PressureGuardUnavailable,
    CriticalPressure(usize),
    SwapMissing,
    AutonomyNotReady,
    TriadBelowThreshold,
    LoveEquationBelowThreshold,
    JouleworkBelowThreshold,
    LocalJoulePressure,
    PressureWarning(usize),
}

/// The signals the preflight reads. Threshold comparisons of measured
/// rates arrive already evaluated.
pub struct PreflightSignals {
    /// Status of the pressure guard receipt (`"unknown"` when absent).
    pub pressure_status: String,
    /// Severity of each pressure violation, in receipt order.
    pub violation_severities: Vec<Option<String>>,
    pub enforce_swap: bool,
    /// Number of active swap areas.
    pub swap_entry_count: usize,
    pub autonomy_ready: bool,
    pub triad_below_threshold: bool,
    pub love_equation_below_threshold: bool,
    pub joulework_below_threshold: bool,
    pub local_joule_pressure: bool,
    /// Local joule usage has reached 100 percent of the plan.
    pub local_joule_usage_at_limit: bool,
}

/// The preflight verdict.
pub struct PreflightDecision {
    pub status: PreflightStatus,
    pub lane: LaunchLane,
    pub allowed_agents: Vec<String>,
    pub reasons: Vec<PreflightReason>,
}

/// The violation's severity is `level` (ASCII case ignored).
pub open spec fn severity_is(sev: Option<String>, level: Seq<char>) -> bool {
    match sev {
        Some(s) => lower_seq(s@) == lower_seq(level),
        None => false,
    }
}

/// One reason per violation of the given severity among the first `n`,
/// in order: `CriticalPressure(i)` when `critical`, else `PressureWarning(i)`.
pub open spec fn violation_reasons(sevs: Seq<Option<String>>, critical: bool, n: int) -> Seq<PreflightReason>
    decreases n,
{
    if n <= 0 {
        Seq::empty()
    } else {
        let prev = violation_reasons(sevs, critical, n - 1);
        let i = (n - 1) as usize;
        if critical && severity_is(sevs[n - 1], "critical"@) {
            prev.push(PreflightReason::CriticalPressure(i))
        } else if !critical && severity_is(sevs[n - 1], "warn"@) {
            prev.push(PreflightReason::PressureWarning(i))
        } else {
            prev
        }
    }
}

/// `r` when `cond`, else nothing.
pub open spec fn reason_if(cond: bool, r: PreflightReason) -> Seq<PreflightReason> {
    if cond { seq![r] } else { Seq::empty() }
}

/// Every reason that blocks the launch, in the order they are reported.
pub open spec fn blocking_reasons(s: PreflightSignals) -> Seq<PreflightReason> {
    reason_if(s.pressure_status@ == "error"@, PreflightReason::PressureGuardUnavailable)
        + violation_reasons(s.violation_severities@, true, s.violation_severities@.len() as int)
        + reason_if(s.enforce_swap && s.swap_entry_count == 0, PreflightReason::SwapMissing)
        + reason_if(!s.autonomy_ready, PreflightReason::AutonomyNotReady)
        + reason_if(s.triad_below_threshold, PreflightReason::TriadBelowThreshold)
        + reason_if(s.love_equation_below_threshold, PreflightReason::LoveEquationBelowThreshold)
        + reason_if(s.joulework_below_threshold, PreflightReason::JouleworkBelowThreshold)
}

/// The launch is degraded (when nothing blocks it) under joule pressure or
/// a pressure alert.
pub open spec fn degrading(s: PreflightSignals) -> bool {
    s.local_joule_pressure || s.local_joule_usage_at_limit || s.pressure_status@ == "alert"@
}

/// The reasons reported for a degraded launch.
pub open spec fn degraded_reasons(s: PreflightSignals) -> Seq<PreflightReason> {
    reason_if(s.local_joule_pressure || s.local_joule_usage_at_limit, PreflightReason::LocalJoulePressure)
        + violation_reasons(s.violation_severities@, false, s.violation_severities@.len() as int)
}

/// The verdict for the given signals and agent sets.
pub open spec fn preflight_verdict(
    s: PreflightSignals,
    full_agents: Seq<Seq<char>>,
    degraded_agents: Seq<Seq<char>>,
    d: PreflightDecision,
) -> bool {
    if blocking_reasons(s).len() > 0 {
        &&& d.status == PreflightStatus::Blocked
        &&& d.lane == LaunchLane::Blocked
        &&& d.allowed_agents.deep_view() == Seq::<Seq<char>>::empty()
        &&& d.reasons@ == blocking_reasons(s)
    } else if degrading(s) {
        &&& d.status == PreflightStatus::Degraded
        &&& d.lane == LaunchLane::ControlPlaneOnly
        &&& d.allowed_agents.deep_view() == degraded_agents
        &&& d.reasons@ == degraded_reasons(s)
    } else {
        &&& d.status == PreflightStatus::Permitted
        &&& d.lane == LaunchLane::FullLocalControlPlane
        &&& d.allowed_agents.deep_view() == full_agents
        &&& d.reasons@ == Seq::<PreflightReason>::empty()
    }
}

fn push_violation_reasons(sevs: &Vec<Option<String>>, critical: bool, out: &mut Vec<PreflightReason>)
    ensures
        final(out)@ == old(out)@ + violation_reasons(sevs@, critical, sevs@.len() as int),
{
    let ghost start = out@;
    let mut i: usize = 0;
    while i < sevs.len()
        invariant
            i <= sevs.len(),
            out@ == start + violation_reasons(sevs@, critical, i as int),
        decreases sevs.len() - i,
    {
        let hit = match &sevs[i] {
            Some(s) => str_eq_ignore_ascii_case(s.as_str(), if critical { "critical" } else { "warn" }),
            None => false,
        };
        if hit {
            if critical {
                out.push(PreflightReason::CriticalPressure(i));
            } else {
                out.push(PreflightReason::PressureWarning(i));
            }
        }
        proof {
            assert(start + violation_reasons(sevs@, critical, i + 1) =~= out@);
        }
        i += 1;
    }
}

fn copy_strings(v: &Vec<String>) -> (out: Vec<String>)
    ensures
        out.deep_view() == v.deep_view(),
{
    let mut out: Vec<String> = Vec::new();
    let mut i: usize = 0;
    while i < v.len()
        invariant
            i <= v.len(),
            out.deep_view() == v.deep_view().subrange(0, i as int),
        decreases v.len() - i,
    {
        let s = owned(v[i].as_str());
        let ghost before = out.deep_view();
        out.push(s);
        proof {
            assert(out.deep_view() =~= before.push(s@));
            assert(v.deep_view().subrange(0, i + 1) =~= v.deep_view().subrange(0, i as int).push(v@[i as int]@));
        }
        i += 1;
    }
    proof {
        assert(v.deep_view().subrange(0, v.deep_view().len() as int) == v.deep_view());
    }
    out
}

fn collect_blocking_reasons(s: &PreflightSignals) -> (out: Vec<PreflightReason>)
    ensures
        out@ == blocking_reasons(*s),
{
    let mut blocking: Vec<PreflightReason> = Vec::new();
    if str_eq(s.pressure_status.as_str(), "error") {
        blocking.push(PreflightReason::PressureGuardUnavailable);
    }
    let ghost a = blocking@;
    push_violation_reasons(&s.violation_severities, true, &mut blocking);
    let ghost b = blocking@;
    if s.enforce_swap && s.swap_entry_count == 0 {
        blocking.push(PreflightReason::SwapMissing);
    }
    let ghost c = blocking@;
    if !s.autonomy_ready {
        blocking.push(PreflightReason::AutonomyNotReady);
    }
    let ghost d = blocking@;
    if s.triad_below_threshold {
        blocking.push(PreflightReason::TriadBelowThreshold);
    }
    let ghost e = blocking@;
    if s.love_equation_below_threshold {
        blocking.push(PreflightReason::LoveEquationBelowThreshold);
    }
    let ghost f = blocking@;
    if s.joulework_below_threshold {
        blocking.push(PreflightReason::JouleworkBelowThreshold);
    }
    proof {
        assert(a =~= reason_if(s.pressure_status@ == "error"@, PreflightReason::PressureGuardUnavailable));
        assert(c =~= b + reason_if(s.enforce_swap && s.swap_entry_count == 0, PreflightReason::SwapMissing));
        assert(d =~= c + reason_if(!s.autonomy_ready, PreflightReason::AutonomyNotReady));
        assert(e =~= d + reason_if(s.triad_below_threshold, PreflightReason::TriadBelowThreshold));
        assert(f =~= e + reason_if(s.love_equation_below_threshold, PreflightReason::LoveEquationBelowThreshold));
        assert(blocking@ =~= f + reason_if(s.joulework_below_threshold, PreflightReason::JouleworkBelowThreshold));
        assert(blocking@ =~= blocking_reasons(*s));
    }
    blocking
}

fn collect_degraded_reasons(s: &PreflightSignals) -> (out: Vec<PreflightReason>)
    ensures
        out@ == degraded_reasons(*s),
{
    let mut reasons: Vec<PreflightReason> = Vec::new();
    if s.local_joule_pressure || s.local_joule_usage_at_limit {
        reasons.push(PreflightReason::LocalJoulePressure);
    }
    let ghost a = reasons@;
    push_violation_reasons(&s.violation_severities, false, &mut reasons);
    proof {
        assert(a =~= reason_if(s.local_joule_pressure || s.local_joule_usage_at_limit, PreflightReason::LocalJoulePressure));
    }
    reasons
}

/// Decides the launch: any blocking reason blocks it and clears the
/// allowed agents; otherwise joule pressure or a pressure alert degrade it
/// to the control-plane agents; otherwise every managed agent may launch.
pub fn decide_launch(
    s: &PreflightSignals,
    full_agents: &Vec<String>,
    degraded_agents: &Vec<String>,
) -> (d: PreflightDecision)
    ensures
        preflight_verdict(*s, full_agents.deep_view(), degraded_agents.deep_view(), d),
{
    let blocking = collect_blocking_reasons(s);
    if blocking.len() > 0 {
        let none: Vec<String> = Vec::new();
        proof {
            assert(none.deep_view() =~= Seq::<Seq<char>>::empty());
        }
        return PreflightDecision {
            status: PreflightStatus::Blocked,
            lane: LaunchLane::Blocked,
            allowed_agents: none,
            reasons: blocking,
        };
    }
    if s.local_joule_pressure || s.local_joule_usage_at_limit || str_eq(s.pressure_status.as_str(), "alert") {
        return PreflightDecision {
            status: PreflightStatus::Degraded,
            lane: LaunchLane::ControlPlaneOnly,
            allowed_agents: copy_strings(degraded_agents),
            reasons: collect_degraded_reasons(s),
        };
    }
    PreflightDecision {
        status: PreflightStatus::Permitted,
        lane: LaunchLane::FullLocalControlPlane,
        allowed_agents: copy_strings(full_agents),
        reasons: Vec::new(),
    }
}

/// The agents managed by the local control plane when the topology lists none.
pub open spec fn default_managed_agents() -> Seq<Seq<char>> {
    seq!["prometheus"@, "manwe"@, "hermes"@, "hades"@, "athena"@, "mnemosyne"@]
}

/// The control-plane agents a degraded launch keeps when none are given.
pub open spec fn default_degraded_agents() -> Seq<Seq<char>> {
    seq!["prometheus"@, "manwe"@, "hermes"@]
}

/// The managed agents: those the topology lists, or the default six when
/// it lists none.
pub fn managed_agents_or_default(listed: Option<Vec<String>>) -> (out: Vec<String>)
    ensures
        out.deep_view() == match listed {
            Some(v) => if v@.len() > 0 { v.deep_view() } else { default_managed_agents() },
            None => default_managed_agents(),
        },
{
    match listed {
        Some(v) => {
            if v.len() > 0 {
                return v;
            }
        },
        None => {},
    }
    let out = vec![owned("prometheus"), owned("manwe"), owned("hermes"), owned("hades"), owned("athena"), owned("mnemosyne")];
    proof {
        assert(out.deep_view() =~= default_managed_agents());
    }
    out
}

/// The degraded-lane agents: those named in `raw`, or the default three
/// when it names none.
pub fn degraded_agents_or_default(raw: &str) -> (out: Vec<String>)
    ensures
        out.deep_view() == if agent_list(raw@).len() > 0 { agent_list(raw@) } else { default_degraded_agents() },
{
    let parsed = normalized_agents(raw);
    if parsed.len() > 0 {
        return parsed;
    }
    let out = vec![owned("prometheus"), owned("manwe"), owned("hermes")];
    proof {
        assert(out.deep_view() =~= default_degraded_agents());
    }
    out
}

impl PreflightStatus {
    /// The status as the report writes it.
    pub fn label(&self) -> (s: &'static str)
        ensures
            s@ == match *self {
                PreflightStatus::Permitted => "ok"@,
                PreflightStatus::Degraded => "degraded"@,
                PreflightStatus::Blocked => "block"@,
            },
    {
        match self {
            PreflightStatus::Permitted => "ok",
            PreflightStatus::Degraded => "degraded",
            PreflightStatus::Blocked => "block",
        }
    }

    /// The one-line summary of the verdict.
    pub fn summary_message(&self) -> (s: &'static str)
        ensures
            s@ == match *self {
                PreflightStatus::Permitted => "launch permitted"@,
                PreflightStatus::Degraded => "launch degraded to bounded control-plane lane"@,
                PreflightStatus::Blocked => "launch blocked by sovereign preflight"@,
            },
    {
        match self {
            PreflightStatus::Permitted => "launch permitted",
            PreflightStatus::Degraded => "launch degraded to bounded control-plane lane",
            PreflightStatus::Blocked => "launch blocked by sovereign preflight",
        }
    }
}

impl LaunchLane {
    /// The lane as the report writes it.
    pub fn label(&self) -> (s: &'static str)
        ensures
            s@ == match *self {
                LaunchLane::FullLocalControlPlane => "full_local_control_plane"@,
                LaunchLane::ControlPlaneOnly => "control_plane_only"@,
                LaunchLane::Blocked => "blocked"@,
            },
    {
        match self {
            LaunchLane::FullLocalControlPlane => "full_local_control_plane",
            LaunchLane::ControlPlaneOnly => "control_plane_only",
            LaunchLane::Blocked => "blocked",
        }
    }
}

/// Law: a launch is blocked exactly when some blocking reason holds; a
/// blocked launch allows no agent and reports at least one reason; a launch
/// that is not blocked reports no blocking reason; an unobstructed launch
/// reports nothing and allows every managed agent.
pub proof fn law_block_iff_blocking_reason(
    s: PreflightSignals,
    full_agents: Seq<Seq<char>>,
    degraded_agents: Seq<Seq<char>>,
    d: PreflightDecision,
)
    requires
        preflight_verdict(s, full_agents, degraded_agents, d),
    ensures
        (d.status == PreflightStatus::Blocked) <==> blocking_reasons(s).len() > 0,
        d.status == PreflightStatus::Blocked ==> d.allowed_agents@.len() == 0 && d.reasons@.len() > 0,
        (d.status == PreflightStatus::Blocked) <==> (d.lane == LaunchLane::Blocked),
        d.status == PreflightStatus::Permitted ==> d.reasons@.len() == 0 && d.allowed_agents.deep_view() == full_agents,
        d.status == PreflightStatus::Degraded ==> d.allowed_agents.deep_view() == degraded_agents,
{
    if d.status == PreflightStatus::Blocked {
        assert(d.allowed_agents.deep_view().len() == 0);
    }
}

proof fn lemma_violation_reported(sevs: Seq<Option<String>>, critical: bool, n: int, i: int)
    requires
        0 <= i < n <= sevs.len(),
        (critical && severity_is(sevs[i], "critical"@)) || (!critical && severity_is(sevs[i], "warn"@)),
    ensures
        violation_reasons(sevs, critical, n).contains(
            if critical { PreflightReason::CriticalPressure(i as usize) } else { PreflightReason::PressureWarning(i as usize) }),
    decreases n,
{
    let r = if critical { PreflightReason::CriticalPressure(i as usize) } else { PreflightReason::PressureWarning(i as usize) };
    let prev = violation_reasons(sevs, critical, n - 1);
    if i == n - 1 {
        assert(violation_reasons(sevs, critical, n) == prev.push(r));
        assert(prev.push(r)[prev.len() as int] == r);
    } else {
        lemma_violation_reported(sevs, critical, n - 1, i);
        let k = choose|k: int| 0 <= k < prev.len() && prev[k] == r;
        let cur = violation_reasons(sevs, critical, n);
        if cur != prev {
            assert(cur[k] == prev[k]);
        }
    }
}

proof fn lemma_concat_contains(x: Seq<PreflightReason>, y: Seq<PreflightReason>, e: PreflightReason)
    ensures
        x.contains(e) ==> (x + y).contains(e),
        y.contains(e) ==> (x + y).contains(e),
{
    if x.contains(e) {
        let k = choose|k: int| 0 <= k < x.len() && x[k] == e;
        assert((x + y)[k] == e);
    }
    if y.contains(e) {
        let k = choose|k: int| 0 <= k < y.len() && y[k] == e;
        assert((x + y)[x.len() + k] == e);
    }
}

/// Law (what blocks a launch): a pressure guard in "error", a violation of
/// "critical" severity (in any letter case), a missing swap area while
/// swap is enforced, or an autonomy runtime that is not ready each block
/// the launch.
#[verifier::rlimit(30)]
pub proof fn law_launch_blockers(s: PreflightSignals, i: int)
    ensures
        s.pressure_status@ == "error"@ ==> blocking_reasons(s).contains(PreflightReason::PressureGuardUnavailable),
        0 <= i < s.violation_severities@.len() && severity_is(s.violation_severities@[i], "critical"@)
            ==> blocking_reasons(s).contains(PreflightReason::CriticalPressure(i as usize)),
        s.enforce_swap && s.swap_entry_count == 0 ==> blocking_reasons(s).contains(PreflightReason::SwapMissing),
        !s.autonomy_ready ==> blocking_reasons(s).contains(PreflightReason::AutonomyNotReady),
{
    let sevs = s.violation_severities@;
    let n = sevs.len() as int;
    let a = reason_if(s.pressure_status@ == "error"@, PreflightReason::PressureGuardUnavailable);
    let b = violation_reasons(sevs, true, n);
    let c = reason_if(s.enforce_swap && s.swap_entry_count == 0, PreflightReason::SwapMissing);
    let d = reason_if(!s.autonomy_ready, PreflightReason::AutonomyNotReady);
    let e = reason_if(s.triad_below_threshold, PreflightReason::TriadBelowThreshold);
    let f = reason_if(s.love_equation_below_threshold, PreflightReason::LoveEquationBelowThreshold);
    let g = reason_if(s.joulework_below_threshold, PreflightReason::JouleworkBelowThreshold);
    assert(blocking_reasons(s) == a + b + c + d + e + f + g);
    let r1 = PreflightReason::PressureGuardUnavailable;
    let r2 = PreflightReason::CriticalPressure(i as usize);
    let r3 = PreflightReason::SwapMissing;
    let r4 = PreflightReason::AutonomyNotReady;
    if s.pressure_status@ == "error"@ {
        assert(a[0] == r1);
    }
    if 0 <= i < n && severity_is(sevs[i], "critical"@) {
        lemma_violation_reported(sevs, true, n, i);
    }
    if s.enforce_swap && s.swap_entry_count == 0 {
        assert(c[0] == r3);
    }
    if !s.autonomy_ready {
        assert(d[0] == r4);
    }
    lemma_concat_contains(a, b, r1);
    lemma_concat_contains(a, b, r2);
    lemma_concat_contains(a + b, c, r1);
    lemma_concat_contains(a + b, c, r2);
    lemma_concat_contains(a + b, c, r3);
    lemma_concat_contains(a + b + c, d, r1);
    lemma_concat_contains(a + b + c, d, r2);
    lemma_concat_contains(a + b + c, d, r3);
    lemma_concat_contains(a + b + c, d, r4);
    lemma_concat_contains(a + b + c + d, e, r1);
    lemma_concat_contains(a + b + c + d, e, r2);
    lemma_concat_contains(a + b + c + d, e, r3);
    lemma_concat_contains(a + b + c + d, e, r4);
    lemma_concat_contains(a + b + c + d + e, f, r1);
    lemma_concat_contains(a + b + c + d + e, f, r2);
    lemma_concat_contains(a + b + c + d + e, f, r3);
    lemma_concat_contains(a + b + c + d + e, f, r4);
    lemma_concat_contains(a + b + c + d + e + f, g, r1);
    lemma_concat_contains(a + b + c + d + e + f, g, r2);
    lemma_concat_contains(a + b + c + d + e + f, g, r3);
    lemma_concat_contains(a + b + c + d + e + f, g, r4);
}

/// Law (degraded launches): joule pressure, joule usage at its limit or a
/// pressure guard in "alert" degrade a launch that nothing blocks, and a
/// violation of "warn" severity is then reported as a warning.
pub proof fn law_degraded_launches(s: PreflightSignals, i: int)
    ensures
        degrading(s) <==> (s.local_joule_pressure || s.local_joule_usage_at_limit || s.pressure_status@ == "alert"@),
        0 <= i < s.violation_severities@.len() && severity_is(s.violation_severities@[i], "warn"@)
            ==> degraded_reasons(s).contains(PreflightReason::PressureWarning(i as usize)),
{
    let sevs = s.violation_severities@;
    let n = sevs.len() as int;
    if 0 <= i < n && severity_is(sevs[i], "warn"@) {
        lemma_violation_reported(sevs, false, n, i);
        let h = reason_if(s.local_joule_pressure || s.local_joule_usage_at_limit, PreflightReason::LocalJoulePressure);
        let w = violation_reasons(sevs, false, n);
        let k = choose|k: int| 0 <= k < w.len() && w[k] == PreflightReason::PressureWarning(i as usize);
        assert(degraded_reasons(s) == h + w);
        assert((h + w)[h.len() + k] == w[k]);
    }
}

} // verus!
