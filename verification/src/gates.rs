//! The Arandur automation gate: every recommendation that names an
//! objective is classified by its approval packet, the effective queue
//! status of its objective and its action class; operators approve or deny
//! objectives through an append-only decision ledger.

use vstd::prelude::*;
use crate::digest_ids::{gate_decision_id, sha1_hex_text};
use crate::queue::QueueRecord;
use crate::text::{owned, str_eq, str_trim, trim_seq};

verus! {

/// One recommendation ledger record, as far as classification reads it.
pub struct GateRecord {
    pub objective_id: Option<String>,
    pub action_class: Option<String>,
    /// `approval_packet.status`, if there is a packet with a status.
    pub approval_status: Option<String>,
    /// `approval_packet.id` (or, when the packet has no `id`,
    /// `approval_packet.approval_id`), when it is text.
    pub approval_packet_id: Option<String>,
}

/// How a candidate is classed.
#[derive(Debug, Clone, Copy, PartialEq, Eq, Structural)]
pub enum GovernanceClass {
    OperatorApproved,
    UnsafeBlocked,
    StaleSupersededRawQueueRecord,
    UnknownActionClass,
    ReviewGatedRecommendation,
    /// The class an operator's denial record carries in the ledger.
    OperatorDenied,
}

/// Why a candidate is blocked.
#[derive(Debug, Clone, Copy, PartialEq, Eq, Structural)]
pub enum BlockedReason {
    OperatorDenied,
    StaleOrSupersededQueueRecord,
    UnsafeActionClass,
    UnknownActionClass,
    OperatorApprovalPacketMissing,
}

impl GovernanceClass {
    /// The class as reports write it.
    pub fn label(&self) -> (s: &'static str)
        ensures
            s@ == match *self {
                GovernanceClass::OperatorApproved => "operator_approved"@,
                GovernanceClass::UnsafeBlocked => "unsafe_blocked"@,
                GovernanceClass::StaleSupersededRawQueueRecord => "stale_superseded_raw_queue_record"@,
                GovernanceClass::UnknownActionClass => "unknown_action_class"@,
                GovernanceClass::ReviewGatedRecommendation => "review_gated_recommendation"@,
                GovernanceClass::OperatorDenied => "operator_denied"@,
            },
    {
        match self {
            GovernanceClass::OperatorApproved => "operator_approved",
            GovernanceClass::UnsafeBlocked => "unsafe_blocked",
            GovernanceClass::StaleSupersededRawQueueRecord => "stale_superseded_raw_queue_record",
            GovernanceClass::UnknownActionClass => "unknown_action_class",
            GovernanceClass::ReviewGatedRecommendation => "review_gated_recommendation",
            GovernanceClass::OperatorDenied => "operator_denied",
        }
    }
}

impl BlockedReason {
    /// The reason code as reports write it.
    pub fn label(&self) -> (s: &'static str)
        ensures
            s@ == match *self {
                BlockedReason::OperatorDenied => "operator_denied"@,
                BlockedReason::StaleOrSupersededQueueRecord => "stale_or_superseded_queue_record"@,
                BlockedReason::UnsafeActionClass => "unsafe_action_class"@,
                BlockedReason::UnknownActionClass => "unknown_action_class"@,
                BlockedReason::OperatorApprovalPacketMissing => "operator_approval_packet_missing"@,
            },
    {
        match self {
            BlockedReason::OperatorDenied => "operator_denied",
            BlockedReason::StaleOrSupersededQueueRecord => "stale_or_superseded_queue_record",
            BlockedReason::UnsafeActionClass => "unsafe_action_class",
            BlockedReason::UnknownActionClass => "unknown_action_class",
            BlockedReason::OperatorApprovalPacketMissing => "operator_approval_packet_missing",
        }
    }
}

/// A classified gate candidate.
pub struct GateCandidate {
    /// Position of the record in the recommendation ledger.
    pub record_index: usize,
    pub objective_id: String,
    /// The action class, `"unknown"` when the record names none.
    pub action_class: String,
    /// The objective's effective status in the task queue, if it is queued.
    pub queue_effective_status: Option<String>,
    pub governance_class: GovernanceClass,
    pub blocked_reason: Option<BlockedReason>,
    /// The approval packet's id, for an approved packet only.
    pub approval_packet_id: Option<String>,
}

/// The optional text as a view.
pub open spec fn opt_text(v: Option<String>) -> Option<Seq<char>> {
    match v {
        Some(s) => Some(s@),
        None => None,
    }
}

/// The status of the last of the first `n` queue records that has the id
/// and a status: the objective's effective queue status.
pub open spec fn queue_status_for(records: Seq<QueueRecord>, id: Seq<char>, n: int) -> Option<Seq<char>>
    decreases n,
{
    if n <= 0 {
        None
    } else if opt_text(records[n - 1].id) == Some(id) && records[n - 1].status is Some {
        opt_text(records[n - 1].status)
    } else {
        queue_status_for(records, id, n - 1)
    }
}

/// Action classes that only append to review-gated surfaces.
pub open spec fn is_safe_action(c: Seq<char>) -> bool {
    c == "recommendation_ledger_append"@ || c == "automation_gate_selection_packet"@ || c == "hades_organization_packet"@
}

/// Action classes never let through without an operator.
pub open spec fn is_unsafe_action(c: Seq<char>) -> bool {
    c == "canonical_queue_write"@ || c == "destructive_apply"@ || c == "service_restart"@
}

/// Queue statuses that make a recommendation stale.
pub open spec fn is_stale_status(s: Option<Seq<char>>) -> bool {
    s == Some("completed"@) || s == Some("cancelled"@) || s == Some("superseded"@)
}

/// The class and blocking reason owed for a record with the given
/// approval status, queue status and action class.
pub open spec fn gate_class(approval: Option<Seq<char>>, queue_status: Option<Seq<char>>, action: Seq<char>) -> (GovernanceClass, Option<BlockedReason>) {
    if approval == Some("approved"@) {
        (GovernanceClass::OperatorApproved, None)
    } else if approval == Some("denied"@) {
        (GovernanceClass::UnsafeBlocked, Some(BlockedReason::OperatorDenied))
    } else if is_stale_status(queue_status) {
        (GovernanceClass::StaleSupersededRawQueueRecord, Some(BlockedReason::StaleOrSupersededQueueRecord))
    } else if is_unsafe_action(action) {
        (GovernanceClass::UnsafeBlocked, Some(BlockedReason::UnsafeActionClass))
    } else if !is_safe_action(action) {
        (GovernanceClass::UnknownActionClass, Some(BlockedReason::UnknownActionClass))
    } else {
        (GovernanceClass::ReviewGatedRecommendation, Some(BlockedReason::OperatorApprovalPacketMissing))
    }
}

/// The candidate owed for record `index`.
pub open spec fn candidate_of(r: GateRecord, index: int, queue: Seq<QueueRecord>, c: GateCandidate) -> bool {
    let oid = match r.objective_id {
        Some(o) => o@,
        None => Seq::empty(),
    };
    let action = match r.action_class {
        Some(a) => a@,
        None => "unknown"@,
    };
    let qs = queue_status_for(queue, oid, queue.len() as int);
    let approval = opt_text(r.approval_status);
    &&& c.record_index == index
    &&& c.objective_id@ == oid
    &&& c.action_class@ == action
    &&& opt_text(c.queue_effective_status) == qs
    &&& (c.governance_class, c.blocked_reason) == gate_class(approval, qs, action)
    &&& opt_text(c.approval_packet_id) == if approval == Some("approved"@) { opt_text(r.approval_packet_id) } else { None }
}

fn opt_copy(v: &Option<String>) -> (r: Option<String>)
    ensures
        opt_text(r) == opt_text(*v),
{
    match v {
        Some(s) => Some(owned(s.as_str())),
        None => None,
    }
}

/// Looks up the effective queue status of an objective.
pub fn effective_queue_status(queue: &Vec<QueueRecord>, id: &str) -> (r: Option<String>)
    ensures
        opt_text(r) == queue_status_for(queue@, id@, queue@.len() as int),
{
    let mut found: Option<usize> = None;
    let mut i: usize = 0;
    while i < queue.len()
        invariant
            i <= queue.len(),
            match found {
                Some(k) => k < i && queue_status_for(queue@, id@, i as int) == opt_text(queue@[k as int].status),
                None => queue_status_for(queue@, id@, i as int) is None,
            },
        decreases queue.len() - i,
    {
        let hit = match &queue[i].id {
            Some(qid) => str_eq(qid.as_str(), id) && queue[i].status.is_some(),
            None => false,
        };
        if hit {
            found = Some(i);
        }
        i += 1;
    }
    match found {
        Some(k) => opt_copy(&queue[k].status),
        None => None,
    }
}

fn opt_is(v: &Option<String>, t: &str) -> (r: bool)
    ensures
        r == (opt_text(*v) == Some(t@)),
{
    match v {
        Some(s) => str_eq(s.as_str(), t),
        None => false,
    }
}

/// Classifies one recommendation: an approval or denial decides; else a
/// completed, cancelled or superseded queue task makes it stale; else its
/// action class decides between unsafe, unknown and review-gated.
pub fn classify_gate_candidate(index: usize, r: &GateRecord, queue: &Vec<QueueRecord>) -> (c: GateCandidate)
    ensures
        candidate_of(*r, index as int, queue@, c),
{
    let oid = match &r.objective_id {
        Some(o) => owned(o.as_str()),
        None => owned(""),
    };
    proof {
        reveal_strlit("");
        if r.objective_id is None {
            assert(oid@ =~= Seq::<char>::empty());
        }
    }
    let action = match &r.action_class {
        Some(a) => owned(a.as_str()),
        None => owned("unknown"),
    };
    let qs = effective_queue_status(queue, oid.as_str());
    let approved = opt_is(&r.approval_status, "approved");
    let denied = opt_is(&r.approval_status, "denied");
    let stale = opt_is(&qs, "completed") || opt_is(&qs, "cancelled") || opt_is(&qs, "superseded");
    let a = action.as_str();
    let unsafe_action = str_eq(a, "canonical_queue_write") || str_eq(a, "destructive_apply") || str_eq(a, "service_restart");
    let safe_action = str_eq(a, "recommendation_ledger_append") || str_eq(a, "automation_gate_selection_packet")
        || str_eq(a, "hades_organization_packet");
    let (class, reason) = if approved {
        (GovernanceClass::OperatorApproved, None)
    } else if denied {
        (GovernanceClass::UnsafeBlocked, Some(BlockedReason::OperatorDenied))
    } else if stale {
        (GovernanceClass::StaleSupersededRawQueueRecord, Some(BlockedReason::StaleOrSupersededQueueRecord))
    } else if unsafe_action {
        (GovernanceClass::UnsafeBlocked, Some(BlockedReason::UnsafeActionClass))
    } else if !safe_action {
        (GovernanceClass::UnknownActionClass, Some(BlockedReason::UnknownActionClass))
    } else {
        (GovernanceClass::ReviewGatedRecommendation, Some(BlockedReason::OperatorApprovalPacketMissing))
    };
    let packet_id = if approved { opt_copy(&r.approval_packet_id) } else { None };
    GateCandidate {
        record_index: index,
        objective_id: oid,
        action_class: action,
        queue_effective_status: qs,
        governance_class: class,
        blocked_reason: reason,
        approval_packet_id: packet_id,
    }
}

/// The positions of the records that name an objective, among the first `n`.
pub open spec fn objective_indices(records: Seq<GateRecord>, n: int) -> Seq<int>
    decreases n,
{
    if n <= 0 {
        Seq::empty()
    } else {
        let prev = objective_indices(records, n - 1);
        if records[n - 1].objective_id is Some { prev.push(n - 1) } else { prev }
    }
}

/// Classifies every recommendation that names an objective, in ledger order.
pub fn gate_candidates(records: &Vec<GateRecord>, queue: &Vec<QueueRecord>) -> (out: Vec<GateCandidate>)
    ensures
        out@.len() == objective_indices(records@, records@.len() as int).len(),
        forall|k: int| 0 <= k < out@.len() ==> candidate_of(
            records@[objective_indices(records@, records@.len() as int)[k]],
            objective_indices(records@, records@.len() as int)[k],
            queue@,
            #[trigger] out@[k],
        ),
{
    let mut out: Vec<GateCandidate> = Vec::new();
    let mut i: usize = 0;
    while i < records.len()
        invariant
            i <= records.len(),
            out@.len() == objective_indices(records@, i as int).len(),
            forall|k: int| 0 <= k < out@.len() ==> candidate_of(
                records@[objective_indices(records@, i as int)[k]],
                objective_indices(records@, i as int)[k],
                queue@,
                #[trigger] out@[k],
            ),
        decreases records.len() - i,
    {
        let ghost prev = objective_indices(records@, i as int);
        proof {
            lemma_objective_indices_bounds(records@, i as int);
        }
        if records[i].objective_id.is_some() {
            let c = classify_gate_candidate(i, &records[i], queue);
            out.push(c);
        }
        proof {
            let cur = objective_indices(records@, i + 1);
            assert forall|k: int| 0 <= k < out@.len() implies candidate_of(
                records@[cur[k]],
                cur[k],
                queue@,
                #[trigger] out@[k],
            ) by {
                if k < prev.len() {
                    assert(cur[k] == prev[k]);
                }
            }
        }
        i += 1;
    }
    out
}

proof fn lemma_objective_indices_bounds(records: Seq<GateRecord>, n: int)
    requires
        0 <= n <= records.len(),
    ensures
        forall|k: int| 0 <= k < objective_indices(records, n).len() ==> 0 <= #[trigger] objective_indices(records, n)[k] < n,
    decreases n,
{
    if n > 0 {
        lemma_objective_indices_bounds(records, n - 1);
        let prev = objective_indices(records, n - 1);
        assert forall|k: int| 0 <= k < objective_indices(records, n).len() implies 0 <= #[trigger] objective_indices(records, n)[k] < n by {
            if k < prev.len() {
                assert(objective_indices(records, n)[k] == prev[k]);
            }
        }
    }
}

/// The first review-gated candidate, if any: the next objective an
/// operator can approve.
pub fn select_next_gate_candidate(candidates: &Vec<GateCandidate>) -> (r: Option<usize>)
    ensures
        match r {
            Some(k) => k < candidates@.len()
                && candidates@[k as int].governance_class == GovernanceClass::ReviewGatedRecommendation
                && forall|j: int| 0 <= j < k ==> (#[trigger] candidates@[j]).governance_class != GovernanceClass::ReviewGatedRecommendation,
            None => forall|j: int| 0 <= j < candidates@.len() ==> (#[trigger] candidates@[j]).governance_class != GovernanceClass::ReviewGatedRecommendation,
        },
{
    let mut i: usize = 0;
    while i < candidates.len()
        invariant
            i <= candidates.len(),
            forall|j: int| 0 <= j < i ==> (#[trigger] candidates@[j]).governance_class != GovernanceClass::ReviewGatedRecommendation,
        decreases candidates.len() - i,
    {
        if candidates[i].governance_class == GovernanceClass::ReviewGatedRecommendation {
            return Some(i);
        }
        i += 1;
    }
    None
}

/// The status of a gate-next report.
pub fn gate_next_status(selected: bool) -> (s: &'static str)
    ensures
        s@ == if selected { "next_review_gated_candidate_selected"@ } else { "no_review_gated_candidate_available"@ },
{
    if selected { "next_review_gated_candidate_selected" } else { "no_review_gated_candidate_available" }
}

/// The number of candidates blocked for the reason.
pub open spec fn reason_count(cs: Seq<GateCandidate>, r: BlockedReason) -> nat
    decreases cs.len(),
{
    if cs.len() == 0 {
        0
    } else {
        reason_count(cs.drop_last(), r) + if cs.last().blocked_reason == Some(r) { 1nat } else { 0nat }
    }
}

/// The number of candidates of the class.
pub open spec fn class_count(cs: Seq<GateCandidate>, c: GovernanceClass) -> nat
    decreases cs.len(),
{
    if cs.len() == 0 {
        0
    } else {
        class_count(cs.drop_last(), c) + if cs.last().governance_class == c { 1nat } else { 0nat }
    }
}

/// How many candidates are blocked for the reason (one group of the
/// blocked-candidates report).
pub fn count_blocked_reason(cs: &Vec<GateCandidate>, r: BlockedReason) -> (n: usize)
    ensures
        n == reason_count(cs@, r),
{
    let mut n: usize = 0;
    let mut i: usize = 0;
    while i < cs.len()
        invariant
            i <= cs.len(),
            n == reason_count(cs@.subrange(0, i as int), r),
            n <= i,
        decreases cs.len() - i,
    {
        proof {
            assert(cs@.subrange(0, i + 1).drop_last() =~= cs@.subrange(0, i as int));
        }
        if cs[i].blocked_reason == Some(r) {
            n += 1;
        }
        i += 1;
    }
    proof {
        assert(cs@.subrange(0, cs@.len() as int) =~= cs@);
    }
    n
}

/// How many candidates are of the class (one group of the blocked-candidates
/// report).
pub fn count_governance_class(cs: &Vec<GateCandidate>, c: GovernanceClass) -> (n: usize)
    ensures
        n == class_count(cs@, c),
{
    let mut n: usize = 0;
    let mut i: usize = 0;
    while i < cs.len()
        invariant
            i <= cs.len(),
            n == class_count(cs@.subrange(0, i as int), c),
            n <= i,
        decreases cs.len() - i,
    {
        proof {
            assert(cs@.subrange(0, i + 1).drop_last() =~= cs@.subrange(0, i as int));
        }
        if cs[i].governance_class == c {
            n += 1;
        }
        i += 1;
    }
    proof {
        assert(cs@.subrange(0, cs@.len() as int) =~= cs@);
    }
    n
}

/// A decision record in the ledger: its objective and its packet status.
pub struct DecisionRecord {
    pub objective_id: Option<String>,
    pub packet_status: Option<String>,
}

/// The ledger already records `decision` for the objective.
pub open spec fn decision_recorded(records: Seq<DecisionRecord>, objective: Seq<char>, decision: Seq<char>) -> bool {
    exists|i: int| 0 <= i < records.len() && opt_text((#[trigger] records[i]).objective_id) == Some(objective)
        && opt_text(records[i].packet_status) == Some(decision)
}

/// Whether the ledger already records `decision` for the objective.
pub fn gate_decision_exists(records: &Vec<DecisionRecord>, objective_id: &str, decision: &str) -> (r: bool)
    ensures
        r == decision_recorded(records@, objective_id@, decision@),
{
    let mut i: usize = 0;
    while i < records.len()
        invariant
            i <= records.len(),
            forall|j: int| 0 <= j < i ==> !(opt_text((#[trigger] records@[j]).objective_id) == Some(objective_id@)
                && opt_text(records@[j].packet_status) == Some(decision@)),
        decreases records.len() - i,
    {
        if opt_is(&records[i].objective_id, objective_id) && opt_is(&records[i].packet_status, decision) {
            return true;
        }
        i += 1;
    }
    false
}

/// An operator's decision on an objective.
#[derive(Debug, Clone, Copy, PartialEq, Eq, Structural)]
pub enum GateDecision {
    Approved,
    Denied,
}

impl GateDecision {
    /// The decision as the ledger writes it.
    pub fn label(&self) -> (s: &'static str)
        ensures
            s@ == match *self {
                GateDecision::Approved => "approved"@,
                GateDecision::Denied => "denied"@,
            },
    {
        match self {
            GateDecision::Approved => "approved",
            GateDecision::Denied => "denied",
        }
    }
}

/// Why a gate decision was refused.
#[derive(Debug, Clone, Copy, PartialEq, Eq, Structural)]
pub enum GateDecisionError {
    /// The objective id is blank.
    ObjectiveRequired,
    /// The justification is blank.
    JustificationRequired,
    /// No gate candidate names the objective.
    UnknownObjective,
}

/// What recording a decision does.
pub enum GateDecisionOutcome {
    /// The same decision is already in the ledger: nothing is appended.
    AlreadyRecorded,
    /// A new decision record is appended, with this approval id and class.
    Record { approval_id: String, governance_class: GovernanceClass },
}

fn has_candidate(candidates: &Vec<GateCandidate>, objective_id: &str) -> (r: bool)
    ensures
        r == exists|i: int| 0 <= i < candidates@.len() && (#[trigger] candidates@[i]).objective_id@ == objective_id@,
{
    let mut i: usize = 0;
    while i < candidates.len()
        invariant
            i <= candidates.len(),
            forall|j: int| 0 <= j < i ==> (#[trigger] candidates@[j]).objective_id@ != objective_id@,
        decreases candidates.len() - i,
    {
        if str_eq(candidates[i].objective_id.as_str(), objective_id) {
            return true;
        }
        i += 1;
    }
    false
}

/// The decision label.
pub open spec fn decision_text(d: GateDecision) -> Seq<char> {
    match d {
        GateDecision::Approved => "approved"@,
        GateDecision::Denied => "denied"@,
    }
}

/// Decides how an operator decision is recorded: blank objective or
/// justification and unknown objectives are refused; a decision already in
/// the ledger is an idempotent no-op; otherwise a record with a
/// deterministic approval id is appended.
pub fn plan_gate_decision(
    objective_id: &str,
    justification: &str,
    decision: GateDecision,
    candidates: &Vec<GateCandidate>,
    ledger: &Vec<DecisionRecord>,
) -> (r: Result<GateDecisionOutcome, GateDecisionError>)
    ensures
        trim_seq(objective_id@).len() == 0 ==> r == Err::<GateDecisionOutcome, GateDecisionError>(GateDecisionError::ObjectiveRequired),
        trim_seq(objective_id@).len() > 0 && trim_seq(justification@).len() == 0
            ==> r == Err::<GateDecisionOutcome, GateDecisionError>(GateDecisionError::JustificationRequired),
        trim_seq(objective_id@).len() > 0 && trim_seq(justification@).len() > 0
            && !(exists|i: int| 0 <= i < candidates@.len() && (#[trigger] candidates@[i]).objective_id@ == objective_id@)
            ==> r == Err::<GateDecisionOutcome, GateDecisionError>(GateDecisionError::UnknownObjective),
        trim_seq(objective_id@).len() > 0 && trim_seq(justification@).len() > 0
            && (exists|i: int| 0 <= i < candidates@.len() && (#[trigger] candidates@[i]).objective_id@ == objective_id@)
            ==> match r {
            Ok(GateDecisionOutcome::AlreadyRecorded) => decision_recorded(ledger@, objective_id@, decision_text(decision)),
            Ok(GateDecisionOutcome::Record { approval_id, governance_class }) => {
                &&& !decision_recorded(ledger@, objective_id@, decision_text(decision))
                &&& approval_id@ == "arandur_gate_"@ + decision_text(decision) + "_"@ + sha1_hex_text(objective_id@).subrange(0, 12)
                &&& governance_class == match decision {
                    GateDecision::Approved => GovernanceClass::OperatorApproved,
                    GateDecision::Denied => GovernanceClass::OperatorDenied,
                }
            },
            Err(_) => false,
        },
{
    if str_trim(objective_id).len() == 0 {
        return Err(GateDecisionError::ObjectiveRequired);
    }
    if str_trim(justification).len() == 0 {
        return Err(GateDecisionError::JustificationRequired);
    }
    if !has_candidate(candidates, objective_id) {
        return Err(GateDecisionError::UnknownObjective);
    }
    let label = decision.label();
    if gate_decision_exists(ledger, objective_id, label) {
        return Ok(GateDecisionOutcome::AlreadyRecorded);
    }
    let id = gate_decision_id(label, objective_id);
    let class = match decision {
        GateDecision::Approved => GovernanceClass::OperatorApproved,
        GateDecision::Denied => GovernanceClass::OperatorDenied,
    };
    Ok(GateDecisionOutcome::Record { approval_id: id, governance_class: class })
}

/// Law (stale recommendations): a recommendation is classified stale
/// exactly when it is neither approved nor denied and its objective's
/// effective queue status is "completed", "cancelled" or "superseded";
/// its action class plays no part, and a stale one is blocked as such.
pub proof fn law_stale_queue_status_makes_recommendation_stale(
    r: GateRecord,
    index: int,
    queue: Seq<QueueRecord>,
    c: GateCandidate,
)
    requires
        candidate_of(r, index, queue, c),
    ensures
        (c.governance_class == GovernanceClass::StaleSupersededRawQueueRecord) <==> (
            opt_text(r.approval_status) != Some("approved"@) && opt_text(r.approval_status) != Some("denied"@)
            && (opt_text(c.queue_effective_status) == Some("completed"@)
                || opt_text(c.queue_effective_status) == Some("cancelled"@)
                || opt_text(c.queue_effective_status) == Some("superseded"@))),
        c.governance_class == GovernanceClass::StaleSupersededRawQueueRecord
            ==> c.blocked_reason == Some(BlockedReason::StaleOrSupersededQueueRecord),
{
}

/// Law (gate classes): an approved recommendation is operator-approved and
/// carries its packet id; a denied one is blocked as denied; otherwise,
/// unless stale, the action class decides: "canonical_queue_write",
/// "destructive_apply" and "service_restart" are blocked as unsafe,
/// "recommendation_ledger_append", "automation_gate_selection_packet" and
/// "hades_organization_packet" are review-gated awaiting an approval
/// packet, and any other class is blocked as unknown.
pub proof fn law_gate_classes(r: GateRecord, index: int, queue: Seq<QueueRecord>, c: GateCandidate)
    requires
        candidate_of(r, index, queue, c),
    ensures
        opt_text(r.approval_status) == Some("approved"@) ==> c.governance_class == GovernanceClass::OperatorApproved
            && c.blocked_reason is None && opt_text(c.approval_packet_id) == opt_text(r.approval_packet_id),
        opt_text(r.approval_status) != Some("approved"@) ==> c.approval_packet_id is None,
        opt_text(r.approval_status) == Some("denied"@) ==> c.governance_class == GovernanceClass::UnsafeBlocked
            && c.blocked_reason == Some(BlockedReason::OperatorDenied),
        opt_text(r.approval_status) != Some("approved"@) && opt_text(r.approval_status) != Some("denied"@)
            && c.governance_class != GovernanceClass::StaleSupersededRawQueueRecord ==> {
            &&& (c.action_class@ == "canonical_queue_write"@ || c.action_class@ == "destructive_apply"@
                || c.action_class@ == "service_restart"@) ==> c.governance_class == GovernanceClass::UnsafeBlocked
                    && c.blocked_reason == Some(BlockedReason::UnsafeActionClass)
            &&& (c.action_class@ == "recommendation_ledger_append"@ || c.action_class@ == "automation_gate_selection_packet"@
                || c.action_class@ == "hades_organization_packet"@) ==> c.governance_class == GovernanceClass::ReviewGatedRecommendation
                    && c.blocked_reason == Some(BlockedReason::OperatorApprovalPacketMissing)
            &&& (c.action_class@ != "canonical_queue_write"@ && c.action_class@ != "destructive_apply"@
                && c.action_class@ != "service_restart"@ && c.action_class@ != "recommendation_ledger_append"@
                && c.action_class@ != "automation_gate_selection_packet"@ && c.action_class@ != "hades_organization_packet"@)
                ==> c.governance_class == GovernanceClass::UnknownActionClass
                    && c.blocked_reason == Some(BlockedReason::UnknownActionClass)
        },
        r.action_class is None ==> c.action_class@ == "unknown"@,
{
    reveal_strlit("approved");
    reveal_strlit("denied");
    reveal_strlit("canonical_queue_write");
    reveal_strlit("destructive_apply");
    reveal_strlit("service_restart");
    reveal_strlit("recommendation_ledger_append");
    reveal_strlit("automation_gate_selection_packet");
    reveal_strlit("hades_organization_packet");
    assert("approved"@.len() != "denied"@.len());
    assert("canonical_queue_write"@.len() == 21 && "destructive_apply"@.len() == 17 && "service_restart"@.len() == 15);
    assert("recommendation_ledger_append"@.len() == 28 && "automation_gate_selection_packet"@.len() == 32);
    assert("hades_organization_packet"@.len() == 25);
}

proof fn lemma_queue_status_prefix(queue: Seq<QueueRecord>, r: QueueRecord, id: Seq<char>, n: int)
    requires
        0 <= n <= queue.len(),
    ensures
        queue_status_for(queue.push(r), id, n) == queue_status_for(queue, id, n),
    decreases n,
{
    if n > 0 {
        assert(queue.push(r)[n - 1] == queue[n - 1]);
        lemma_queue_status_prefix(queue, r, id, n - 1);
    }
}

/// Law (effective queue status): the latest queue record that carries the
/// objective's id and a status decides its status; a record appended for
/// another id, or without a status, leaves it as it was.
pub proof fn law_latest_queue_status_wins(queue: Seq<QueueRecord>, id: Seq<char>, r: QueueRecord)
    ensures
        opt_text(r.id) == Some(id) && r.status is Some
            ==> queue_status_for(queue.push(r), id, queue.len() + 1int) == opt_text(r.status),
        opt_text(r.id) != Some(id) || r.status is None
            ==> queue_status_for(queue.push(r), id, queue.len() + 1int) == queue_status_for(queue, id, queue.len() as int),
{
    assert(queue.push(r)[queue.len() as int] == r);
    lemma_queue_status_prefix(queue, r, id, queue.len() as int);
}

/// Law (decisions are recorded once): once a record of a decision on an
/// objective is appended, the ledger records that decision, so asking for
/// it again appends nothing; "approved" and "denied" are recorded apart.
pub proof fn law_decision_recorded_after_append(
    ledger: Seq<DecisionRecord>,
    rec: DecisionRecord,
    objective: Seq<char>,
    d: GateDecision,
)
    requires
        opt_text(rec.objective_id) == Some(objective),
        opt_text(rec.packet_status) == Some(decision_text(d)),
    ensures
        decision_recorded(ledger.push(rec), objective, decision_text(d)),
        decision_text(GateDecision::Approved) != decision_text(GateDecision::Denied),
        decision_text(GateDecision::Approved) == "approved"@ && decision_text(GateDecision::Denied) == "denied"@,
{
    reveal_strlit("approved");
    reveal_strlit("denied");
    assert("approved"@.len() != "denied"@.len());
    let all = ledger.push(rec);
    assert(all[ledger.len() as int] == rec);
    assert forall|i: int| 0 <= i < ledger.len() implies all[i] == ledger[i] by {}
}

} // verus!
