//! Package enablement: how far each registry tool is from activation, from
//! its policy readiness, provider and environment contracts, and what the
//! package health observation saw.

use vstd::prelude::*;
use crate::text::{chars_to_string, push_str, str_chars, str_eq};

verus! {

/// What the package health export observed of a tool.
pub struct ToolObservation {
    pub binary_path: Option<String>,
    pub version_hint: Option<String>,
    pub observation_status: Option<String>,
}

/// The facts about one registry tool that its integration state rests on.
pub struct ToolFacts {
    /// `policy_readiness` of the tool's latest readiness entry, if any.
    pub policy_readiness: Option<String>,
    pub required_shared_keys: Vec<String>,
    pub required_runtime_keys: Vec<String>,
    /// The Charon provider the tool runs behind, if any.
    pub provider_id: Option<String>,
    pub observation: Option<ToolObservation>,
}

/// How far a tool is from activation.
#[derive(Debug, Clone, Copy, PartialEq, Eq, Structural)]
pub enum IntegrationState {
    ReadyForActivation,
    ConfigurationReady,
    EvidenceReady,
    ObservedOnly,
    PlannedOnly,
}

impl IntegrationState {
    /// The state as the projection writes it.
    pub fn label(&self) -> (s: &'static str)
        ensures
            s@ == match *self {
                IntegrationState::ReadyForActivation => "ready_for_activation"@,
                IntegrationState::ConfigurationReady => "configuration_ready"@,
                IntegrationState::EvidenceReady => "evidence_ready"@,
                IntegrationState::ObservedOnly => "observed_only"@,
                IntegrationState::PlannedOnly => "planned_only"@,
            },
    {
        match self {
            IntegrationState::ReadyForActivation => "ready_for_activation",
            IntegrationState::ConfigurationReady => "configuration_ready",
            IntegrationState::EvidenceReady => "evidence_ready",
            IntegrationState::ObservedOnly => "observed_only",
            IntegrationState::PlannedOnly => "planned_only",
        }
    }
}

/// The assessment of one tool.
pub struct ToolAssessment {
    /// The readiness, `"untracked"` when no entry records one.
    pub policy_readiness: String,
    pub provider_configured: bool,
    pub shared_env_ready: bool,
    pub runtime_env_ready: bool,
    pub executable_visible: bool,
    pub integration_state: IntegrationState,
}

/// Every required key is present.
pub open spec fn keys_present(required: Seq<Seq<char>>, present: Seq<Seq<char>>) -> bool {
    forall|i: int| 0 <= i < required.len() ==> present.contains(#[trigger] required[i])
}

/// The optional text is present and not empty.
pub open spec fn non_empty(v: Option<String>) -> bool {
    match v {
        Some(s) => s@.len() > 0,
        None => false,
    }
}

/// The assessment owed for a tool.
pub open spec fn assessment_of(
    f: ToolFacts,
    provider_ids: Seq<Seq<char>>,
    shared_keys: Seq<Seq<char>>,
    runtime_keys: Seq<Seq<char>>,
    a: ToolAssessment,
) -> bool {
    let readiness = match f.policy_readiness {
        Some(r) => r@,
        None => "untracked"@,
    };
    let provider_configured = match f.provider_id {
        Some(id) => provider_ids.contains(id@),
        None => false,
    };
    let executable_visible = match f.observation {
        Some(o) => non_empty(o.binary_path) || non_empty(o.version_hint),
        None => false,
    };
    let surface_ready = if f.provider_id is Some { provider_configured } else { executable_visible };
    let shared_ready = keys_present(f.required_shared_keys.deep_view(), shared_keys);
    let runtime_ready = keys_present(f.required_runtime_keys.deep_view(), runtime_keys);
    let policy_ready = readiness == "policy_ready"@;
    let observed = match f.observation {
        Some(o) => match o.observation_status {
            Some(st) => st@ == "observed"@,
            None => false,
        },
        None => false,
    };
    &&& a.policy_readiness@ == readiness
    &&& a.provider_configured == provider_configured
    &&& a.executable_visible == executable_visible
    &&& a.shared_env_ready == shared_ready
    &&& a.runtime_env_ready == runtime_ready
    &&& a.integration_state == if policy_ready && surface_ready && shared_ready && runtime_ready {
        IntegrationState::ReadyForActivation
    } else if policy_ready && surface_ready {
        IntegrationState::ConfigurationReady
    } else if policy_ready {
        IntegrationState::EvidenceReady
    } else if observed {
        IntegrationState::ObservedOnly
    } else {
        IntegrationState::PlannedOnly
    }
}

fn contains_text(items: &Vec<String>, t: &str) -> (r: bool)
    ensures
        r == items.deep_view().contains(t@),
{
    let mut i: usize = 0;
    while i < items.len()
        invariant
            i <= items.len(),
            forall|j: int| 0 <= j < i ==> items@[j]@ != t@,
        decreases items.len() - i,
    {
        if str_eq(items[i].as_str(), t) {
            proof {
                assert(items.deep_view()[i as int] == t@);
            }
            return true;
        }
        i += 1;
    }
    proof {
        let dv = items.deep_view();
        if dv.contains(t@) {
            let j = choose|j: int| 0 <= j < dv.len() && #[trigger] dv[j] == t@;
            assert(items@[j]@ == t@);
        }
    }
    false
}

fn all_present(required: &Vec<String>, present: &Vec<String>) -> (r: bool)
    ensures
        r == keys_present(required.deep_view(), present.deep_view()),
{
    let mut i: usize = 0;
    while i < required.len()
        invariant
            i <= required.len(),
            forall|j: int| 0 <= j < i ==> present.deep_view().contains(#[trigger] required.deep_view()[j]),
        decreases required.len() - i,
    {
        if !contains_text(present, required[i].as_str()) {
            proof {
                assert(required.deep_view()[i as int] == required@[i as int]@);
            }
            return false;
        }
        proof {
            assert(required.deep_view()[i as int] == required@[i as int]@);
        }
        i += 1;
    }
    true
}

fn non_empty_text(v: &Option<String>) -> (r: bool)
    ensures
        r == non_empty(*v),
{
    match v {
        Some(s) => str_chars(s.as_str()).len() > 0,
        None => false,
    }
}

/// Assesses one tool: its provider is configured when Charon lists it; its
/// environment is ready when every required key is present; its runtime
/// surface is ready when its provider is configured (or, with no provider,
/// when a binary or version was observed). The integration state then runs
/// from ready for activation down to planned only.
pub fn assess_tool(
    f: &ToolFacts,
    provider_ids: &Vec<String>,
    shared_keys: &Vec<String>,
    runtime_keys: &Vec<String>,
) -> (a: ToolAssessment)
    ensures
        assessment_of(*f, provider_ids.deep_view(), shared_keys.deep_view(), runtime_keys.deep_view(), a),
{
    let mut readiness: Vec<char> = Vec::new();
    match &f.policy_readiness {
        Some(r) => push_str(&mut readiness, r.as_str()),
        None => push_str(&mut readiness, "untracked"),
    }
    let readiness = chars_to_string(readiness.as_slice());
    let provider_configured = match &f.provider_id {
        Some(id) => contains_text(provider_ids, id.as_str()),
        None => false,
    };
    let executable_visible = match &f.observation {
        Some(o) => non_empty_text(&o.binary_path) || non_empty_text(&o.version_hint),
        None => false,
    };
    let surface_ready = if f.provider_id.is_some() { provider_configured } else { executable_visible };
    let shared_ready = all_present(&f.required_shared_keys, shared_keys);
    let runtime_ready = all_present(&f.required_runtime_keys, runtime_keys);
    let policy_ready = str_eq(readiness.as_str(), "policy_ready");
    let observed = match &f.observation {
        Some(o) => match &o.observation_status {
            Some(st) => str_eq(st.as_str(), "observed"),
            None => false,
        },
        None => false,
    };
    let state = if policy_ready && surface_ready && shared_ready && runtime_ready {
        IntegrationState::ReadyForActivation
    } else if policy_ready && surface_ready {
        IntegrationState::ConfigurationReady
    } else if policy_ready {
        IntegrationState::EvidenceReady
    } else if observed {
        IntegrationState::ObservedOnly
    } else {
        IntegrationState::PlannedOnly
    };
    ToolAssessment {
        policy_readiness: readiness,
        provider_configured,
        shared_env_ready: shared_ready,
        runtime_env_ready: runtime_ready,
        executable_visible,
        integration_state: state,
    }
}

/// The GitHub URL of a registry repo, none for an empty repo.
pub open spec fn repo_url_of(repo: Seq<char>) -> Option<Seq<char>> {
    if repo.len() == 0 { None } else { Some("https://github.com/"@ + repo) }
}

/// The GitHub URL of a registry repo (`owner/name`).
pub fn repo_url(repo: &str) -> (r: Option<String>)
    ensures
        match r {
            Some(u) => repo_url_of(repo@) == Some(u@),
            None => repo_url_of(repo@) is None,
        },
{
    if str_chars(repo).len() == 0 {
        None
    } else {
        let mut out: Vec<char> = Vec::new();
        push_str(&mut out, "https://github.com/");
        push_str(&mut out, repo);
        Some(chars_to_string(out.as_slice()))
    }
}

/// Tools whose assessment satisfies a predicate, counted.
pub open spec fn count_tools(rows: Seq<ToolAssessment>, p: spec_fn(ToolAssessment) -> bool) -> nat
    decreases rows.len(),
{
    if rows.len() == 0 {
        0
    } else {
        count_tools(rows.drop_last(), p) + if p(rows.last()) { 1nat } else { 0nat }
    }
}

/// The tool is policy ready.
pub open spec fn is_policy_ready(a: ToolAssessment) -> bool {
    a.policy_readiness@ == "policy_ready"@
}

/// The tool is in the given state.
pub open spec fn in_state(st: IntegrationState) -> spec_fn(ToolAssessment) -> bool {
    |a: ToolAssessment| a.integration_state == st
}

/// Totals over all tools and the activation-gap alert.
pub struct EnablementSummary {
    pub tools_total: usize,
    pub policy_ready_total: usize,
    pub ready_for_activation_total: usize,
    pub configuration_ready_total: usize,
    pub evidence_ready_total: usize,
    pub observed_only_total: usize,
    /// Some policy-ready tool is not ready for activation.
    pub alert_on_activation_gap: bool,
}

/// The summary owed for the assessed tools.
pub open spec fn summary_of(rows: Seq<ToolAssessment>, s: EnablementSummary) -> bool {
    &&& s.tools_total == rows.len()
    &&& s.policy_ready_total == count_tools(rows, |a: ToolAssessment| is_policy_ready(a))
    &&& s.ready_for_activation_total == count_tools(rows, in_state(IntegrationState::ReadyForActivation))
    &&& s.configuration_ready_total == count_tools(rows, in_state(IntegrationState::ConfigurationReady))
    &&& s.evidence_ready_total == count_tools(rows, in_state(IntegrationState::EvidenceReady))
    &&& s.observed_only_total == count_tools(rows, in_state(IntegrationState::ObservedOnly))
    &&& s.alert_on_activation_gap == exists|i: int|
        0 <= i < rows.len() && is_policy_ready(#[trigger] rows[i])
            && rows[i].integration_state != IntegrationState::ReadyForActivation
}

/// Totals the assessed tools by readiness and state, and raises the
/// activation-gap alert when a policy-ready tool is not yet ready for
/// activation.
pub fn summarize_enablement(rows: &Vec<ToolAssessment>) -> (s: EnablementSummary)
    ensures
        summary_of(rows@, s),
{
    let mut policy: usize = 0;
    let mut ready: usize = 0;
    let mut config: usize = 0;
    let mut evidence: usize = 0;
    let mut observed: usize = 0;
    let mut gap = false;
    let mut i: usize = 0;
    while i < rows.len()
        invariant
            i <= rows.len(),
            policy == count_tools(rows@.subrange(0, i as int), |a: ToolAssessment| is_policy_ready(a)),
            ready == count_tools(rows@.subrange(0, i as int), in_state(IntegrationState::ReadyForActivation)),
            config == count_tools(rows@.subrange(0, i as int), in_state(IntegrationState::ConfigurationReady)),
            evidence == count_tools(rows@.subrange(0, i as int), in_state(IntegrationState::EvidenceReady)),
            observed == count_tools(rows@.subrange(0, i as int), in_state(IntegrationState::ObservedOnly)),
            policy <= i && ready <= i && config <= i && evidence <= i && observed <= i,
            gap == exists|k: int|
                0 <= k < i && is_policy_ready(#[trigger] rows@[k])
                    && rows@[k].integration_state != IntegrationState::ReadyForActivation,
        decreases rows.len() - i,
    {
        let r = &rows[i];
        let pr = str_eq(r.policy_readiness.as_str(), "policy_ready");
        if pr {
            policy += 1;
        }
        match r.integration_state {
            IntegrationState::ReadyForActivation => { ready += 1; },
            IntegrationState::ConfigurationReady => { config += 1; },
            IntegrationState::EvidenceReady => { evidence += 1; },
            IntegrationState::ObservedOnly => { observed += 1; },
            IntegrationState::PlannedOnly => {},
        }
        let this_gap = pr && r.integration_state != IntegrationState::ReadyForActivation;
        proof {
            assert(rows@.subrange(0, i + 1).drop_last() =~= rows@.subrange(0, i as int));
            assert(rows@.subrange(0, i + 1).last() == rows@[i as int]);
            if this_gap {
                assert(is_policy_ready(rows@[i as int]));
            }
        }
        gap = gap || this_gap;
        i += 1;
    }
    proof {
        assert(rows@.subrange(0, rows@.len() as int) =~= rows@);
    }
    EnablementSummary {
        tools_total: rows.len(),
        policy_ready_total: policy,
        ready_for_activation_total: ready,
        configuration_ready_total: config,
        evidence_ready_total: evidence,
        observed_only_total: observed,
        alert_on_activation_gap: gap,
    }
}

proof fn lemma_policy_split(rows: Seq<ToolAssessment>)
    requires
        forall|i: int| 0 <= i < rows.len() ==> (is_policy_ready(#[trigger] rows[i]) <==> (
            rows[i].integration_state == IntegrationState::ReadyForActivation
            || rows[i].integration_state == IntegrationState::ConfigurationReady
            || rows[i].integration_state == IntegrationState::EvidenceReady)),
    ensures
        count_tools(rows, |a: ToolAssessment| is_policy_ready(a))
            == count_tools(rows, in_state(IntegrationState::ReadyForActivation))
                + count_tools(rows, in_state(IntegrationState::ConfigurationReady))
                + count_tools(rows, in_state(IntegrationState::EvidenceReady)),
        count_tools(rows, in_state(IntegrationState::ReadyForActivation))
            <= count_tools(rows, |a: ToolAssessment| is_policy_ready(a)),
    decreases rows.len(),
{
    if rows.len() > 0 {
        assert(is_policy_ready(rows[rows.len() - 1]) == is_policy_ready(rows.last()));
        lemma_policy_split(rows.drop_last());
    }
}

/// Law: a tool assessed by `assess_tool` is policy ready exactly when its
/// state is ready for activation, configuration ready or evidence ready; so
/// over such tools the policy-ready total is the sum of those three state
/// totals, and the activation-gap alert is raised exactly when the
/// policy-ready total exceeds the ready-for-activation total.
pub proof fn law_policy_ready_splits_into_states(
    facts: Seq<ToolFacts>,
    provider_ids: Seq<Seq<char>>,
    shared_keys: Seq<Seq<char>>,
    runtime_keys: Seq<Seq<char>>,
    rows: Seq<ToolAssessment>,
    s: EnablementSummary,
)
    requires
        rows.len() == facts.len(),
        forall|i: int| 0 <= i < rows.len() ==> assessment_of(
            #[trigger] facts[i],
            provider_ids,
            shared_keys,
            runtime_keys,
            rows[i],
        ),
        summary_of(rows, s),
    ensures
        s.policy_ready_total == s.ready_for_activation_total + s.configuration_ready_total + s.evidence_ready_total,
        s.alert_on_activation_gap <==> s.policy_ready_total > s.ready_for_activation_total,
{
    assert forall|i: int| 0 <= i < rows.len() implies (is_policy_ready(#[trigger] rows[i]) <==> (
        rows[i].integration_state == IntegrationState::ReadyForActivation
        || rows[i].integration_state == IntegrationState::ConfigurationReady
        || rows[i].integration_state == IntegrationState::EvidenceReady)) by {
        assert(assessment_of(facts[i], provider_ids, shared_keys, runtime_keys, rows[i]));
    }
    lemma_policy_split(rows);
    lemma_gap_count(rows);
}

proof fn lemma_gap_count(rows: Seq<ToolAssessment>)
    requires
        forall|i: int| 0 <= i < rows.len() ==> (is_policy_ready(#[trigger] rows[i]) <==> (
            rows[i].integration_state == IntegrationState::ReadyForActivation
            || rows[i].integration_state == IntegrationState::ConfigurationReady
            || rows[i].integration_state == IntegrationState::EvidenceReady)),
    ensures
        (exists|i: int| 0 <= i < rows.len() && is_policy_ready(#[trigger] rows[i])
            && rows[i].integration_state != IntegrationState::ReadyForActivation)
            <==> count_tools(rows, |a: ToolAssessment| is_policy_ready(a))
                > count_tools(rows, in_state(IntegrationState::ReadyForActivation)),
    decreases rows.len(),
{
    if rows.len() > 0 {
        let init = rows.drop_last();
        assert forall|i: int| 0 <= i < init.len() implies (is_policy_ready(#[trigger] init[i]) <==> (
            init[i].integration_state == IntegrationState::ReadyForActivation
            || init[i].integration_state == IntegrationState::ConfigurationReady
            || init[i].integration_state == IntegrationState::EvidenceReady)) by {
            assert(init[i] == rows[i]);
        }
        lemma_gap_count(init);
        lemma_policy_split(init);
        let last = rows.last();
        assert(last == rows[rows.len() - 1]);
        if exists|i: int| 0 <= i < init.len() && is_policy_ready(#[trigger] init[i])
            && init[i].integration_state != IntegrationState::ReadyForActivation {
            let k = choose|i: int| 0 <= i < init.len() && is_policy_ready(#[trigger] init[i])
                && init[i].integration_state != IntegrationState::ReadyForActivation;
            assert(rows[k] == init[k]);
        }
        if exists|i: int| 0 <= i < rows.len() && is_policy_ready(#[trigger] rows[i])
            && rows[i].integration_state != IntegrationState::ReadyForActivation {
            let k = choose|i: int| 0 <= i < rows.len() && is_policy_ready(#[trigger] rows[i])
                && rows[i].integration_state != IntegrationState::ReadyForActivation;
            if k < init.len() {
                assert(init[k] == rows[k]);
            }
        }
    }
}

/// Law (integration ladder): only a tool whose readiness is
/// "policy_ready" gets past observation; one without a readiness entry is
/// "untracked"; a tool that is not policy ready is observed only when its
/// observation status is "observed", else only planned; a registry repo
/// `owner/name` has the URL "https://github.com/owner/name".
pub proof fn law_integration_ladder(
    f: ToolFacts,
    provider_ids: Seq<Seq<char>>,
    shared_keys: Seq<Seq<char>>,
    runtime_keys: Seq<Seq<char>>,
    a: ToolAssessment,
    repo: Seq<char>,
)
    requires
        assessment_of(f, provider_ids, shared_keys, runtime_keys, a),
    ensures
        (a.integration_state == IntegrationState::ReadyForActivation || a.integration_state == IntegrationState::ConfigurationReady
            || a.integration_state == IntegrationState::EvidenceReady) <==> a.policy_readiness@ == "policy_ready"@,
        f.policy_readiness is None ==> a.policy_readiness@ == "untracked"@,
        a.policy_readiness@ != "policy_ready"@ ==> (a.integration_state == IntegrationState::ObservedOnly <==> (f.observation matches Some(o)
            && (o.observation_status matches Some(st) && st@ == "observed"@))),
        a.integration_state == IntegrationState::ReadyForActivation ==> a.shared_env_ready && a.runtime_env_ready,
        repo.len() > 0 ==> repo_url_of(repo) == Some("https://github.com/"@ + repo),
{
}

} // verus!
