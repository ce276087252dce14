//! WARDEN security and monitoring enforcement: the findings raised against
//! the guardhouse, policy authority, permission profiles and governance
//! runtime projections, and the halt that a critical finding calls for.

use vstd::prelude::*;
use crate::text::{contains_seq, occurs_at, str_contains, str_eq};

verus! {

/// How a required state file was found.
pub enum StateFile<T> {
    /// The file could not be read.
    Missing,
    /// The file is not valid JSON.
    Malformed,
    Loaded(T),
}

/// What enforcement reads of the guardhouse projection.
pub struct GuardhouseState {
    /// The text entries of `duties`, when it is an array.
    pub duties: Option<Vec<String>>,
    /// `generated_at_utc` is present as text.
    pub generated_at_present: bool,
    /// `health.fleet_control.connection_cleanup.stale_offline_total`.
    pub stale_offline_total: Option<u64>,
}

/// What enforcement reads of the policy authority.
pub struct PolicyAuthorityState {
    /// `destructive_quorum.policy.enabled`.
    pub quorum_enabled: Option<bool>,
    /// `destructive_quorum.policy.required_approvers`.
    pub required_approvers: Option<u64>,
}

/// One permission scope of a profile.
pub struct ScopeState {
    pub allowed: Option<bool>,
    /// `expires_at_utc` is present as text.
    pub expiry_present: bool,
}

/// One permission profile.
pub struct ProfileState {
    pub name: String,
    /// The text entries of `command_allowlist`, when it is an array.
    pub command_allowlist: Option<Vec<String>>,
    pub network: Option<ScopeState>,
    pub destructive: Option<ScopeState>,
}

/// What enforcement reads of the permission profiles.
pub struct PermissionProfilesState {
    pub active_profile: Option<String>,
    /// The profiles, when `profiles` is an object, in key order.
    pub profiles: Option<Vec<ProfileState>>,
}

/// What enforcement reads of the governance runtime's critical routing.
pub struct GovernanceRuntimeState {
    pub human_required_classes: Option<Vec<String>>,
    pub triad_quorum_classes: Option<Vec<String>>,
}

/// Which required state file a finding is about.
#[derive(Debug, Clone, Copy, PartialEq, Eq, Structural)]
pub enum WardenSource {
    Guardhouse,
    PolicyAuthority,
    PermissionProfiles,
    GovernanceRuntime,
}

/// A finding, with what it points at.
#[derive(Debug, Clone, Copy, PartialEq, Eq, Structural)]
pub enum WardenFinding {
    MissingSecurityState(WardenSource),
    MalformedSecurityState(WardenSource),
    MissingMonitoringDuty,
    MissingSecurityDuty,
    MissingProjectionTimestamp,
    /// The number of stale offline fleet nodes.
    StaleFleetNodes(u64),
    DestructiveQuorumDisabled,
    /// The configured number of approvers.
    DestructiveQuorumTooWeak(u64),
    MissingActivePermissionProfile,
    ActivePermissionProfileMissing,
    /// Profile index and allowlist entry index.
    OverbroadCommandAllowlist(usize, usize),
    /// Profile index; `true` for the destructive scope, `false` for network.
    UnboundedPermissionScope(usize, bool),
    MissingDestructiveDeleteHumanGate,
    MissingProviderRerouteTriadGate,
}

/// How serious a finding is.
#[derive(Debug, Clone, Copy, PartialEq, Eq, Structural)]
pub enum Severity {
    Critical,
    Warning,
}

/// The severity of a finding.
pub open spec fn severity_of(f: WardenFinding) -> Severity {
    match f {
        WardenFinding::MissingProjectionTimestamp => Severity::Warning,
        WardenFinding::StaleFleetNodes(_) => Severity::Warning,
        WardenFinding::UnboundedPermissionScope(_, destructive) => if destructive {
            Severity::Critical
        } else {
            Severity::Warning
        },
        _ => Severity::Critical,
    }
}

impl WardenFinding {
    /// The finding's severity: missing timestamps, stale fleet nodes and
    /// unbounded network scopes are warnings; everything else is critical.
    pub fn severity(&self) -> (s: Severity)
        ensures
            s == severity_of(*self),
    {
        match self {
            WardenFinding::MissingProjectionTimestamp => Severity::Warning,
            WardenFinding::StaleFleetNodes(_) => Severity::Warning,
            WardenFinding::UnboundedPermissionScope(_, destructive) => if *destructive {
                Severity::Critical
            } else {
                Severity::Warning
            },
            _ => Severity::Critical,
        }
    }
}

/// The finding a file's load raises, if it did not load.
pub open spec fn load_findings<T>(f: StateFile<T>, src: WardenSource) -> Seq<WardenFinding> {
    match f {
        StateFile::Missing => seq![WardenFinding::MissingSecurityState(src)],
        StateFile::Malformed => seq![WardenFinding::MalformedSecurityState(src)],
        StateFile::Loaded(_) => Seq::empty(),
    }
}

/// The finding if the condition holds.
pub open spec fn finding_if(cond: bool, f: WardenFinding) -> Seq<WardenFinding> {
    if cond { seq![f] } else { Seq::empty() }
}

/// The list holds the text.
pub open spec fn lists(v: Option<Vec<String>>, t: Seq<char>) -> bool {
    match v {
        Some(items) => items.deep_view().contains(t),
        None => false,
    }
}

/// Findings of the guardhouse inspection.
pub open spec fn guardhouse_findings(g: GuardhouseState) -> Seq<WardenFinding> {
    finding_if(!lists(g.duties, "drift_watch"@), WardenFinding::MissingMonitoringDuty)
        + finding_if(!lists(g.duties, "quarantine_authority"@), WardenFinding::MissingSecurityDuty)
        + finding_if(!g.generated_at_present, WardenFinding::MissingProjectionTimestamp)
        + match g.stale_offline_total {
        Some(n) => finding_if(n > 0, WardenFinding::StaleFleetNodes(n)),
        None => Seq::empty(),
    }
}

/// Findings of the policy authority inspection.
pub open spec fn policy_findings(p: PolicyAuthorityState) -> Seq<WardenFinding> {
    let approvers = match p.required_approvers {
        Some(n) => n,
        None => 0,
    };
    finding_if(p.quorum_enabled != Some(true), WardenFinding::DestructiveQuorumDisabled)
        + finding_if(approvers < 2, WardenFinding::DestructiveQuorumTooWeak(approvers))
}

/// An allowlist entry that grants too much.
pub open spec fn is_overbroad(cmd: Seq<char>) -> bool {
    cmd == "*"@ || contains_seq(cmd, "rm -rf"@)
}

/// Overbroad allowlist findings of profile `pi`, over its first `n` entries.
pub open spec fn allowlist_findings(pi: usize, cmds: Seq<Seq<char>>, n: int) -> Seq<WardenFinding>
    decreases n,
{
    if n <= 0 {
        Seq::empty()
    } else {
        allowlist_findings(pi, cmds, n - 1) + finding_if(is_overbroad(cmds[n - 1]), WardenFinding::OverbroadCommandAllowlist(pi, (n - 1) as usize))
    }
}

/// A scope allowed without an expiry.
pub open spec fn unbounded(s: Option<ScopeState>) -> bool {
    match s {
        Some(st) => st.allowed == Some(true) && !st.expiry_present,
        None => false,
    }
}

/// Findings of one profile.
pub open spec fn profile_findings(pi: usize, p: ProfileState) -> Seq<WardenFinding> {
    (match p.command_allowlist {
        Some(cmds) => allowlist_findings(pi, cmds.deep_view(), cmds@.len() as int),
        None => Seq::empty(),
    }) + finding_if(unbounded(p.network), WardenFinding::UnboundedPermissionScope(pi, false))
        + finding_if(unbounded(p.destructive), WardenFinding::UnboundedPermissionScope(pi, true))
}

/// Findings of the first `n` profiles.
pub open spec fn profiles_findings(ps: Seq<ProfileState>, n: int) -> Seq<WardenFinding>
    decreases n,
{
    if n <= 0 {
        Seq::empty()
    } else {
        profiles_findings(ps, n - 1) + profile_findings((n - 1) as usize, ps[n - 1])
    }
}

/// The profile list names `name`.
pub open spec fn profile_named(ps: Seq<ProfileState>, name: Seq<char>) -> bool {
    exists|i: int| 0 <= i < ps.len() && (#[trigger] ps[i]).name@ == name
}

/// Findings of the permission profiles inspection.
pub open spec fn permission_findings(p: PermissionProfilesState) -> Seq<WardenFinding> {
    finding_if(p.active_profile is None, WardenFinding::MissingActivePermissionProfile)
        + (match (p.active_profile, p.profiles) {
        (Some(a), Some(ps)) => finding_if(!profile_named(ps@, a@), WardenFinding::ActivePermissionProfileMissing),
        _ => Seq::empty(),
    }) + match p.profiles {
        Some(ps) => profiles_findings(ps@, ps@.len() as int),
        None => Seq::empty(),
    }
}

/// Findings of the governance runtime inspection.
pub open spec fn governance_findings(g: GovernanceRuntimeState) -> Seq<WardenFinding> {
    finding_if(!lists(g.human_required_classes, "destructive_delete"@), WardenFinding::MissingDestructiveDeleteHumanGate)
        + finding_if(!lists(g.triad_quorum_classes, "provider_reroute"@), WardenFinding::MissingProviderRerouteTriadGate)
}

/// The inspection findings of a file that loaded.
pub open spec fn inspected<T>(f: StateFile<T>, inspect: spec_fn(T) -> Seq<WardenFinding>) -> Seq<WardenFinding> {
    match f {
        StateFile::Loaded(v) => inspect(v),
        _ => Seq::empty(),
    }
}

/// Every finding, in report order: files that failed to load first, then
/// the inspections of the guardhouse, policy authority, permission profiles
/// and governance runtime.
pub open spec fn warden_findings(
    g: StateFile<GuardhouseState>,
    p: StateFile<PolicyAuthorityState>,
    pp: StateFile<PermissionProfilesState>,
    gr: StateFile<GovernanceRuntimeState>,
) -> Seq<WardenFinding> {
    load_findings(g, WardenSource::Guardhouse) + load_findings(p, WardenSource::PolicyAuthority)
        + load_findings(pp, WardenSource::PermissionProfiles) + load_findings(gr, WardenSource::GovernanceRuntime)
        + inspected(g, |x: GuardhouseState| guardhouse_findings(x))
        + inspected(p, |x: PolicyAuthorityState| policy_findings(x))
        + inspected(pp, |x: PermissionProfilesState| permission_findings(x))
        + inspected(gr, |x: GovernanceRuntimeState| governance_findings(x))
}

fn list_has(v: &Option<Vec<String>>, t: &str) -> (r: bool)
    ensures
        r == lists(*v, t@),
{
    match v {
        Some(items) => {
            let mut i: usize = 0;
            while i < items.len()
                invariant
                    i <= items.len(),
                    *v == Some(*items),
                    forall|j: int| 0 <= j < i ==> items@[j]@ != t@,
                decreases items.len() - i,
            {
                if str_eq(items[i].as_str(), t) {
                    proof {
                        assert(items.deep_view()[i as int] == t@);
                        assert(items.deep_view().contains(t@));
                    }
                    return true;
                }
                i += 1;
            }
            proof {
                let dv = items.deep_view();
                if dv.contains(t@) {
                    let j = choose|j: int| 0 <= j < dv.len() && #[trigger] dv[j] == t@;
                    assert(items@[j]@ == t@);
                }
            }
            false
        },
        None => false,
    }
}

fn push_load<T>(out: &mut Vec<WardenFinding>, f: &StateFile<T>, src: WardenSource)
    ensures
        final(out)@ == old(out)@ + load_findings(*f, src),
{
    match f {
        StateFile::Missing => out.push(WardenFinding::MissingSecurityState(src)),
        StateFile::Malformed => out.push(WardenFinding::MalformedSecurityState(src)),
        StateFile::Loaded(_) => {},
    }
    proof {
        assert(out@ =~= old(out)@ + load_findings(*f, src));
    }
}

fn push_if(out: &mut Vec<WardenFinding>, cond: bool, f: WardenFinding)
    ensures
        final(out)@ == old(out)@ + finding_if(cond, f),
{
    if cond {
        out.push(f);
    }
    proof {
        assert(out@ =~= old(out)@ + finding_if(cond, f));
    }
}

fn push_guardhouse(out: &mut Vec<WardenFinding>, g: &GuardhouseState)
    ensures
        final(out)@ == old(out)@ + guardhouse_findings(*g),
{
    let ghost start = out@;
    push_if(out, !list_has(&g.duties, "drift_watch"), WardenFinding::MissingMonitoringDuty);
    push_if(out, !list_has(&g.duties, "quarantine_authority"), WardenFinding::MissingSecurityDuty);
    push_if(out, !g.generated_at_present, WardenFinding::MissingProjectionTimestamp);
    let ghost mid = out@;
    match g.stale_offline_total {
        Some(n) => push_if(out, n > 0, WardenFinding::StaleFleetNodes(n)),
        None => {},
    }
    proof {
        assert(out@ =~= start + guardhouse_findings(*g));
    }
}

fn push_policy(out: &mut Vec<WardenFinding>, p: &PolicyAuthorityState)
    ensures
        final(out)@ == old(out)@ + policy_findings(*p),
{
    let ghost start = out@;
    push_if(out, p.quorum_enabled != Some(true), WardenFinding::DestructiveQuorumDisabled);
    let approvers = match p.required_approvers {
        Some(n) => n,
        None => 0,
    };
    push_if(out, approvers < 2, WardenFinding::DestructiveQuorumTooWeak(approvers));
    proof {
        assert(out@ =~= start + policy_findings(*p));
    }
}

fn push_profile(out: &mut Vec<WardenFinding>, pi: usize, p: &ProfileState)
    ensures
        final(out)@ == old(out)@ + profile_findings(pi, *p),
{
    let ghost start = out@;
    match &p.command_allowlist {
        Some(cmds) => {
            let mut k: usize = 0;
            while k < cmds.len()
                invariant
                    k <= cmds.len(),
                    out@ == start + allowlist_findings(pi, cmds.deep_view(), k as int),
                decreases cmds.len() - k,
            {
                let c = cmds[k].as_str();
                let broad = str_eq(c, "*") || str_contains(c, "rm -rf");
                proof {
                    assert(cmds.deep_view()[k as int] == cmds@[k as int]@);
                }
                push_if(out, broad, WardenFinding::OverbroadCommandAllowlist(pi, k));
                proof {
                    assert(out@ =~= start + allowlist_findings(pi, cmds.deep_view(), k + 1));
                }
                k += 1;
            }
        },
        None => {},
    }
    let ghost mid = out@;
    let net = match &p.network {
        Some(s) => s.allowed == Some(true) && !s.expiry_present,
        None => false,
    };
    push_if(out, net, WardenFinding::UnboundedPermissionScope(pi, false));
    let des = match &p.destructive {
        Some(s) => s.allowed == Some(true) && !s.expiry_present,
        None => false,
    };
    push_if(out, des, WardenFinding::UnboundedPermissionScope(pi, true));
    proof {
        assert(out@ =~= start + profile_findings(pi, *p));
    }
}

fn has_profile(ps: &Vec<ProfileState>, name: &str) -> (r: bool)
    ensures
        r == profile_named(ps@, name@),
{
    let mut i: usize = 0;
    while i < ps.len()
        invariant
            i <= ps.len(),
            forall|j: int| 0 <= j < i ==> (#[trigger] ps@[j]).name@ != name@,
        decreases ps.len() - i,
    {
        if str_eq(ps[i].name.as_str(), name) {
            return true;
        }
        i += 1;
    }
    false
}

fn push_permissions(out: &mut Vec<WardenFinding>, p: &PermissionProfilesState)
    ensures
        final(out)@ == old(out)@ + permission_findings(*p),
{
    let ghost start = out@;
    push_if(out, p.active_profile.is_none(), WardenFinding::MissingActivePermissionProfile);
    let ghost a = out@;
    match (&p.active_profile, &p.profiles) {
        (Some(name), Some(ps)) => push_if(out, !has_profile(ps, name.as_str()), WardenFinding::ActivePermissionProfileMissing),
        _ => {},
    }
    let ghost b = out@;
    match &p.profiles {
        Some(ps) => {
            let mut i: usize = 0;
            while i < ps.len()
                invariant
                    i <= ps.len(),
                    out@ == b + profiles_findings(ps@, i as int),
                decreases ps.len() - i,
            {
                push_profile(out, i, &ps[i]);
                proof {
                    assert(out@ =~= b + profiles_findings(ps@, i + 1));
                }
                i += 1;
            }
        },
        None => {},
    }
    proof {
        assert(out@ =~= start + permission_findings(*p));
    }
}

fn push_governance(out: &mut Vec<WardenFinding>, g: &GovernanceRuntimeState)
    ensures
        final(out)@ == old(out)@ + governance_findings(*g),
{
    let ghost start = out@;
    push_if(out, !list_has(&g.human_required_classes, "destructive_delete"), WardenFinding::MissingDestructiveDeleteHumanGate);
    push_if(out, !list_has(&g.triad_quorum_classes, "provider_reroute"), WardenFinding::MissingProviderRerouteTriadGate);
    proof {
        assert(out@ =~= start + governance_findings(*g));
    }
}

/// Collects every enforcement finding over the four required projections.
pub fn collect_warden_findings(
    guardhouse: &StateFile<GuardhouseState>,
    policy: &StateFile<PolicyAuthorityState>,
    profiles: &StateFile<PermissionProfilesState>,
    runtime: &StateFile<GovernanceRuntimeState>,
) -> (out: Vec<WardenFinding>)
    ensures
        out@ == warden_findings(*guardhouse, *policy, *profiles, *runtime),
{
    let mut out: Vec<WardenFinding> = Vec::new();
    push_load(&mut out, guardhouse, WardenSource::Guardhouse);
    push_load(&mut out, policy, WardenSource::PolicyAuthority);
    push_load(&mut out, profiles, WardenSource::PermissionProfiles);
    push_load(&mut out, runtime, WardenSource::GovernanceRuntime);
    let ghost loads = out@;
    if let StateFile::Loaded(g) = guardhouse {
        push_guardhouse(&mut out, g);
    }
    let ghost a = out@;
    if let StateFile::Loaded(p) = policy {
        push_policy(&mut out, p);
    }
    let ghost b = out@;
    if let StateFile::Loaded(pp) = profiles {
        push_permissions(&mut out, pp);
    }
    let ghost c = out@;
    if let StateFile::Loaded(gr) = runtime {
        push_governance(&mut out, gr);
    }
    proof {
        assert(a =~= loads + inspected(*guardhouse, |x: GuardhouseState| guardhouse_findings(x)));
        assert(b =~= a + inspected(*policy, |x: PolicyAuthorityState| policy_findings(x)));
        assert(c =~= b + inspected(*profiles, |x: PermissionProfilesState| permission_findings(x)));
        assert(out@ =~= c + inspected(*runtime, |x: GovernanceRuntimeState| governance_findings(x)));
    }
    out
}

/// How many findings have the severity.
pub open spec fn count_severity(f: Seq<WardenFinding>, s: Severity) -> nat
    decreases f.len(),
{
    if f.len() == 0 {
        0
    } else {
        count_severity(f.drop_last(), s) + if severity_of(f.last()) == s { 1nat } else { 0nat }
    }
}

/// The enforcement verdict.
#[derive(Debug, Clone, Copy, PartialEq, Eq, Structural)]
pub enum EnforcementStatus {
    Blocked,
    Review,
    Pass,
}

impl EnforcementStatus {
    /// The status as the report writes it.
    pub fn label(&self) -> (s: &'static str)
        ensures
            s@ == match *self {
                EnforcementStatus::Blocked => "blocked"@,
                EnforcementStatus::Review => "review"@,
                EnforcementStatus::Pass => "pass"@,
            },
    {
        match self {
            EnforcementStatus::Blocked => "blocked",
            EnforcementStatus::Review => "review",
            EnforcementStatus::Pass => "pass",
        }
    }
}

/// The verdict over the findings, and what happens to the halt.
pub struct EnforcementOutcome {
    pub critical_total: usize,
    pub warning_total: usize,
    pub status: EnforcementStatus,
    /// The halt is engaged now (applied run with a critical finding).
    pub halt_applied: bool,
    /// The halt is only planned (dry run with a critical finding).
    pub halt_planned: bool,
}

/// Judges the findings: any critical finding blocks and calls for the
/// halt (engaged only when applying); warnings alone ask for review.
pub fn judge_findings(findings: &Vec<WardenFinding>, apply: bool) -> (o: EnforcementOutcome)
    ensures
        o.critical_total == count_severity(findings@, Severity::Critical),
        o.warning_total == count_severity(findings@, Severity::Warning),
        o.status == if o.critical_total > 0 {
            EnforcementStatus::Blocked
        } else if o.warning_total > 0 {
            EnforcementStatus::Review
        } else {
            EnforcementStatus::Pass
        },
        o.halt_applied == (o.critical_total > 0 && apply),
        o.halt_planned == (o.critical_total > 0 && !apply),
{
    let mut c: usize = 0;
    let mut w: usize = 0;
    let mut i: usize = 0;
    while i < findings.len()
        invariant
            i <= findings.len(),
            c == count_severity(findings@.subrange(0, i as int), Severity::Critical),
            w == count_severity(findings@.subrange(0, i as int), Severity::Warning),
            c + w == i,
        decreases findings.len() - i,
    {
        match findings[i].severity() {
            Severity::Critical => { c += 1; },
            Severity::Warning => { w += 1; },
        }
        proof {
            assert(findings@.subrange(0, i + 1).drop_last() =~= findings@.subrange(0, i as int));
        }
        i += 1;
    }
    proof {
        assert(findings@.subrange(0, findings@.len() as int) =~= findings@);
    }
    let status = if c > 0 {
        EnforcementStatus::Blocked
    } else if w > 0 {
        EnforcementStatus::Review
    } else {
        EnforcementStatus::Pass
    };
    EnforcementOutcome { critical_total: c, warning_total: w, status, halt_applied: c > 0 && apply, halt_planned: c > 0 && !apply }
}

/// Law: a dry run never engages the halt, and the halt is engaged or
/// planned exactly when enforcement is blocked.
pub proof fn law_dry_run_never_halts(findings: Seq<WardenFinding>, apply: bool, o: EnforcementOutcome)
    requires
        o.critical_total == count_severity(findings, Severity::Critical),
        o.warning_total == count_severity(findings, Severity::Warning),
        o.status == if o.critical_total > 0 {
            EnforcementStatus::Blocked
        } else if o.warning_total > 0 {
            EnforcementStatus::Review
        } else {
            EnforcementStatus::Pass
        },
        o.halt_applied == (o.critical_total > 0 && apply),
        o.halt_planned == (o.critical_total > 0 && !apply),
    ensures
        !apply ==> !o.halt_applied,
        (o.halt_applied || o.halt_planned) <==> o.status == EnforcementStatus::Blocked,
{
}

/// Law (destructive quorum): the quorum is reported too weak exactly when
/// fewer than two approvers are required (none counting as zero), and
/// disabled unless it is enabled.
pub proof fn law_destructive_quorum_checks(p: PolicyAuthorityState)
    ensures
        policy_findings(p).contains(WardenFinding::DestructiveQuorumTooWeak(
            if p.required_approvers is Some { p.required_approvers.unwrap() } else { 0 }))
            <==> (if p.required_approvers is Some { p.required_approvers.unwrap() } else { 0 }) < 2,
        policy_findings(p).contains(WardenFinding::DestructiveQuorumDisabled) <==> p.quorum_enabled != Some(true),
{
    let approvers: u64 = if p.required_approvers is Some { p.required_approvers.unwrap() } else { 0 };
    let a = finding_if(p.quorum_enabled != Some(true), WardenFinding::DestructiveQuorumDisabled);
    let b = finding_if(approvers < 2, WardenFinding::DestructiveQuorumTooWeak(approvers));
    assert(policy_findings(p) == a + b);
    if approvers < 2 {
        assert((a + b)[a.len() as int] == WardenFinding::DestructiveQuorumTooWeak(approvers));
    }
    if p.quorum_enabled != Some(true) {
        assert((a + b)[0] == WardenFinding::DestructiveQuorumDisabled);
    }
    if (a + b).contains(WardenFinding::DestructiveQuorumTooWeak(approvers)) {
        let i = choose|i: int| 0 <= i < (a + b).len() && (a + b)[i] == WardenFinding::DestructiveQuorumTooWeak(approvers);
        if i < a.len() {
            assert(a[i] == WardenFinding::DestructiveQuorumDisabled);
        }
    }
    if (a + b).contains(WardenFinding::DestructiveQuorumDisabled) {
        let i = choose|i: int| 0 <= i < (a + b).len() && (a + b)[i] == WardenFinding::DestructiveQuorumDisabled;
        if i >= a.len() {
            assert(b[i - a.len()] == WardenFinding::DestructiveQuorumTooWeak(approvers));
        }
    }
}

/// Law (guardhouse duties): the guardhouse must hold the "drift_watch"
/// and "quarantine_authority" duties, and every stale offline node count
/// above zero is reported.
pub proof fn law_guardhouse_checks(g: GuardhouseState)
    ensures
        guardhouse_findings(g).contains(WardenFinding::MissingMonitoringDuty) <==> !(g.duties matches Some(d)
            && d.deep_view().contains("drift_watch"@)),
        guardhouse_findings(g).contains(WardenFinding::MissingSecurityDuty) <==> !(g.duties matches Some(d)
            && d.deep_view().contains("quarantine_authority"@)),
        g.stale_offline_total is Some && g.stale_offline_total.unwrap() > 0
            ==> guardhouse_findings(g).contains(WardenFinding::StaleFleetNodes(g.stale_offline_total.unwrap())),
{
    let g1 = finding_if(!lists(g.duties, "drift_watch"@), WardenFinding::MissingMonitoringDuty);
    let g2 = finding_if(!lists(g.duties, "quarantine_authority"@), WardenFinding::MissingSecurityDuty);
    let g3 = finding_if(!g.generated_at_present, WardenFinding::MissingProjectionTimestamp);
    let g4 = match g.stale_offline_total {
        Some(n) => finding_if(n > 0, WardenFinding::StaleFleetNodes(n)),
        None => Seq::<WardenFinding>::empty(),
    };
    let all = guardhouse_findings(g);
    assert(all == g1 + g2 + g3 + g4);
    let h = g1 + g2 + g3;
    assert(all == h + g4);
    if !lists(g.duties, "drift_watch"@) {
        assert(all[0] == WardenFinding::MissingMonitoringDuty);
    }
    if !lists(g.duties, "quarantine_authority"@) {
        assert(all[g1.len() as int] == WardenFinding::MissingSecurityDuty);
    }
    if g.stale_offline_total is Some && g.stale_offline_total.unwrap() > 0 {
        assert(all[h.len() as int] == WardenFinding::StaleFleetNodes(g.stale_offline_total.unwrap()));
    }
    if all.contains(WardenFinding::MissingMonitoringDuty) {
        let i = choose|i: int| 0 <= i < all.len() && all[i] == WardenFinding::MissingMonitoringDuty;
        if i >= h.len() {
            assert(all[i] == g4[i - h.len()]);
        } else if i >= g1.len() + g2.len() {
            assert(all[i] == g3[i - g1.len() - g2.len()]);
        } else if i >= g1.len() {
            assert(all[i] == g2[i - g1.len()]);
        }
    }
    if all.contains(WardenFinding::MissingSecurityDuty) {
        let i = choose|i: int| 0 <= i < all.len() && all[i] == WardenFinding::MissingSecurityDuty;
        if i >= h.len() {
            assert(all[i] == g4[i - h.len()]);
        } else if i >= g1.len() + g2.len() {
            assert(all[i] == g3[i - g1.len() - g2.len()]);
        } else if i < g1.len() {
            assert(all[i] == g1[i]);
        }
    }
}

/// Law (overbroad allowlist entries): an entry "*", or one containing
/// "rm -rf", grants too much; an entry with neither "*" nor "rm -rf" in
/// it does not.
pub proof fn law_overbroad_allowlist_entries(cmd: Seq<char>)
    ensures
        cmd == "*"@ || contains_seq(cmd, "rm -rf"@) ==> is_overbroad(cmd),
        !contains_seq(cmd, "*"@) && !contains_seq(cmd, "rm -rf"@) ==> !is_overbroad(cmd),
{
    if cmd == "*"@ {
        assert(occurs_at(cmd, "*"@, 0)) by {
            assert(cmd.subrange(0, cmd.len() as int) =~= cmd);
        }
    }
}

} // verus!
