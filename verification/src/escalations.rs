//! Reconciling the escalation ledger: pending escalations that share a
//! dedupe key are collapsed onto their latest row, and escalations whose
//! condition the current runtime no longer shows are resolved.

use vstd::prelude::*;
use crate::ordering::{lex_lt, lemma_lex_total, lemma_lex_trans, str_lt};
use crate::tally::{KeyCount, occurrences, tally};
use crate::text::{chars_to_string, lower_seq, owned, push_str, starts_with_seq, str_eq,
    str_eq_ignore_ascii_case, str_starts_with};

verus! {

/// The fields of one escalation ledger row that reconciliation reads.
pub struct EscalationRow {
    /// `escalation_id`, when it is a string.
    pub escalation_id: Option<String>,
    /// `status`, when it is a string.
    pub status: Option<String>,
    /// `reason`, when it is a string.
    pub reason: Option<String>,
    /// `command`, when it is a string.
    pub command: Option<String>,
    /// The string under `ts`, or under `ts_utc` when `ts` is absent.
    pub ts: Option<String>,
}

/// The text of an optional string field, empty when absent.
pub open spec fn opt_text(s: Option<String>) -> Seq<char> {
    match s {
        Some(x) => x@,
        None => Seq::empty(),
    }
}

fn opt_str(s: &Option<String>) -> (r: &str)
    ensures
        r@ == opt_text(*s),
{
    match s {
        Some(x) => x.as_str(),
        None => {
            let e = "";
            proof {
                reveal_strlit("");
            }
            e
        },
    }
}

/// The key under which duplicate pending escalations are collapsed: a
/// policy denial by its command, a pressure guard by its reason.
pub open spec fn dedupe_key_of(r: EscalationRow) -> Option<Seq<char>> {
    let reason = opt_text(r.reason);
    if reason == "policy_guard.denied"@ {
        Some(reason + "|"@ + opt_text(r.command))
    } else if starts_with_seq(reason, "core_pressure_guard."@) {
        Some(reason)
    } else {
        None
    }
}

/// The dedupe key of a row.
pub fn dedupe_key(r: &EscalationRow) -> (k: Option<String>)
    ensures
        match k {
            Some(s) => dedupe_key_of(*r) == Some(s@),
            None => dedupe_key_of(*r) is None,
        },
{
    let reason = opt_str(&r.reason);
    if str_eq(reason, "policy_guard.denied") {
        let mut out: Vec<char> = Vec::new();
        push_str(&mut out, reason);
        push_str(&mut out, "|");
        push_str(&mut out, opt_str(&r.command));
        proof {
            assert(out@ =~= opt_text(r.reason) + "|"@ + opt_text(r.command));
        }
        return Some(chars_to_string(out.as_slice()));
    }
    if str_starts_with(reason, "core_pressure_guard.") {
        return Some(owned(reason));
    }
    None
}

/// The observed values and thresholds of the core pressure report that
/// the pressure guards compare; `None` where the report has no integer.
pub struct PressureReport {
    pub total_known_work_items: Option<i64>,
    pub max_total_known_work: Option<i64>,
    pub projects_queue_queued: Option<i64>,
    pub max_projects_queue_queued: Option<i64>,
    pub oversize_files_gte_100mb: Option<i64>,
    pub max_oversize_count: Option<i64>,
    pub disk_used_pct: Option<i64>,
    pub max_disk_used_pct: Option<i64>,
    pub invalid_json_artifacts: Option<i64>,
    pub max_invalid_json: Option<i64>,
}

/// The value, or `d` when absent.
pub open spec fn or_default(o: Option<i64>, d: i64) -> i64 {
    match o {
        Some(v) => v,
        None => d,
    }
}

fn value_or(o: Option<i64>, d: i64) -> (r: i64)
    ensures
        r == or_default(o, d),
{
    match o {
        Some(v) => v,
        None => d,
    }
}

/// Whether the pressure report still shows the condition that a pressure
/// guard reason names; a reason it does not know counts as active.
pub open spec fn pressure_active(reason: Seq<char>, p: PressureReport) -> bool {
    if reason == "core_pressure_guard.total_known_work"@ {
        or_default(p.total_known_work_items, 0) > or_default(p.max_total_known_work, 0)
    } else if reason == "core_pressure_guard.projects_queue_queued"@ {
        or_default(p.projects_queue_queued, 0) > or_default(p.max_projects_queue_queued, 0)
    } else if reason == "core_pressure_guard.oversize_files"@ {
        or_default(p.oversize_files_gte_100mb, 0) > or_default(p.max_oversize_count, 0)
    } else if reason == "core_pressure_guard.disk_used_pct"@ {
        or_default(p.disk_used_pct, 0) >= or_default(p.max_disk_used_pct, 100)
    } else if reason == "core_pressure_guard.invalid_json"@ {
        or_default(p.invalid_json_artifacts, 0) > or_default(p.max_invalid_json, 0)
    } else {
        true
    }
}

/// Whether the pressure condition named by `reason` is still present.
pub fn pressure_reason_active(reason: &str, p: &PressureReport) -> (b: bool)
    ensures
        b == pressure_active(reason@, *p),
{
    if str_eq(reason, "core_pressure_guard.total_known_work") {
        value_or(p.total_known_work_items, 0) > value_or(p.max_total_known_work, 0)
    } else if str_eq(reason, "core_pressure_guard.projects_queue_queued") {
        value_or(p.projects_queue_queued, 0) > value_or(p.max_projects_queue_queued, 0)
    } else if str_eq(reason, "core_pressure_guard.oversize_files") {
        value_or(p.oversize_files_gte_100mb, 0) > value_or(p.max_oversize_count, 0)
    } else if str_eq(reason, "core_pressure_guard.disk_used_pct") {
        value_or(p.disk_used_pct, 0) >= value_or(p.max_disk_used_pct, 100)
    } else if str_eq(reason, "core_pressure_guard.invalid_json") {
        value_or(p.invalid_json_artifacts, 0) > value_or(p.max_invalid_json, 0)
    } else {
        true
    }
}

/// The autonomy mode, `"normal"` when the runtime does not name one.
pub open spec fn mode_or_normal(mode: Option<String>) -> Seq<char> {
    match mode {
        Some(m) => m@,
        None => "normal"@,
    }
}

/// Whether the condition behind an escalation still holds: a policy
/// denial while the autonomy runtime is degraded, a pressure guard while
/// the pressure report shows it; any other escalation stays active.
pub open spec fn still_active(r: EscalationRow, mode: Option<String>, p: PressureReport) -> bool {
    let reason = opt_text(r.reason);
    if reason == "policy_guard.denied"@ {
        lower_seq(mode_or_normal(mode)) == lower_seq("degraded"@)
    } else if starts_with_seq(reason, "core_pressure_guard."@) {
        pressure_active(reason, p)
    } else {
        true
    }
}

/// Whether the escalation's condition still holds.
pub fn escalation_still_active(r: &EscalationRow, mode: &Option<String>, p: &PressureReport) -> (b: bool)
    ensures
        b == still_active(*r, *mode, *p),
{
    let reason = opt_str(&r.reason);
    if str_eq(reason, "policy_guard.denied") {
        let m: &str = match mode {
            Some(m) => m.as_str(),
            None => "normal",
        };
        return str_eq_ignore_ascii_case(m, "degraded");
    }
    if str_starts_with(reason, "core_pressure_guard.") {
        return pressure_reason_active(reason, p);
    }
    true
}


/// The row's escalation id, if it has one.
pub open spec fn id_of(r: EscalationRow) -> Option<Seq<char>> {
    match r.escalation_id {
        Some(x) => Some(x@),
        None => None,
    }
}

/// Row `k` is the latest row of its escalation id: it has an id and no
/// later row carries it.
pub open spec fn is_latest(rows: Seq<EscalationRow>, k: int) -> bool {
    &&& 0 <= k < rows.len()
    &&& id_of(rows[k]) is Some
    &&& forall|j: int| k < j < rows.len() ==> id_of(#[trigger] rows[j]) != id_of(rows[k])
}

/// The row's status is `"pending"`.
pub open spec fn is_pending(r: EscalationRow) -> bool {
    match r.status {
        Some(x) => x@ == "pending"@,
        None => false,
    }
}

/// Row `k` takes part in reconciliation: the latest row of its id,
/// pending, with a dedupe key.
#[verifier::opaque]
pub open spec fn is_candidate(rows: Seq<EscalationRow>, k: int) -> bool {
    is_latest(rows, k) && is_pending(rows[k]) && dedupe_key_of(rows[k]) is Some
}

/// The row's dedupe key, empty when it has none.
#[verifier::opaque]
pub open spec fn key_text(r: EscalationRow) -> Seq<char> {
    match dedupe_key_of(r) {
        Some(k) => k,
        None => Seq::empty(),
    }
}

/// The order of reconciled rows: by dedupe key, then timestamp, then id.
pub open spec fn triple_lt(
    ka: Seq<char>, ta: Seq<char>, ia: Seq<char>,
    kb: Seq<char>, tb: Seq<char>, ib: Seq<char>,
) -> bool {
    lex_lt(ka, kb) || (ka == kb && (lex_lt(ta, tb) || (ta == tb && lex_lt(ia, ib))))
}

/// Row `a` comes before row `b`.
#[verifier::opaque]
pub open spec fn before(rows: Seq<EscalationRow>, a: int, b: int) -> bool {
    triple_lt(
        key_text(rows[a]), opt_text(rows[a].ts), opt_text(rows[a].escalation_id),
        key_text(rows[b]), opt_text(rows[b].ts), opt_text(rows[b].escalation_id),
    )
}

/// Rows `a` and `b` are candidates with the same dedupe key.
pub open spec fn same_group(rows: Seq<EscalationRow>, a: int, b: int) -> bool {
    is_candidate(rows, a) && is_candidate(rows, b) && key_text(rows[a]) == key_text(rows[b])
}

/// Row `k` is the latest of its group: every other row of the group
/// comes before it.
#[verifier::opaque]
pub open spec fn group_latest(rows: Seq<EscalationRow>, k: int) -> bool {
    is_candidate(rows, k) && forall|j: int|
        0 <= j < rows.len() && j != k && #[trigger] same_group(rows, j, k) ==> before(rows, j, k)
}

/// Row `k` is resolved: a candidate, unless it is the latest of its group
/// and its condition still holds.
#[verifier::opaque]
pub open spec fn resolves(rows: Seq<EscalationRow>, mode: Option<String>, p: PressureReport, k: int) -> bool {
    is_candidate(rows, k) && !(group_latest(rows, k) && still_active(rows[k], mode, p))
}

/// Another row of `k`'s group is its latest and still active.
pub open spec fn superseded_by_active(
    rows: Seq<EscalationRow>,
    mode: Option<String>,
    p: PressureReport,
    k: int,
) -> bool {
    exists|m: int|
        0 <= m < rows.len() && m != k && #[trigger] same_group(rows, m, k) && group_latest(rows, m)
            && still_active(rows[m], mode, p)
}

/// Why a row is resolved.
#[derive(Debug, Clone, Copy, PartialEq, Eq, Structural)]
pub enum ResolutionNote {
    /// The condition no longer holds.
    ConditionCleared,
    /// A later escalation with the same key is still active.
    DuplicateOfActive,
}

/// The note owed for row `k`.
#[verifier::opaque]
pub open spec fn note_of(
    rows: Seq<EscalationRow>,
    mode: Option<String>,
    p: PressureReport,
    k: int,
) -> ResolutionNote {
    if superseded_by_active(rows, mode, p, k) {
        ResolutionNote::DuplicateOfActive
    } else {
        ResolutionNote::ConditionCleared
    }
}

/// One row to be marked resolved.
pub struct Resolution {
    /// The index of the row in the ledger.
    pub row: usize,
    pub note: ResolutionNote,
    /// The row's dedupe key.
    pub key: String,
}

impl Resolution {
    /// The note written on the resolving row.
    pub fn note_text(&self) -> (s: String)
        ensures
            s@ == match self.note {
                ResolutionNote::ConditionCleared => "escalation condition cleared by current runtime for key "@ + self.key@,
                ResolutionNote::DuplicateOfActive => "duplicate escalation reconciled by key "@ + self.key@,
            },
    {
        let mut out: Vec<char> = Vec::new();
        match self.note {
            ResolutionNote::ConditionCleared => push_str(&mut out, "escalation condition cleared by current runtime for key "),
            ResolutionNote::DuplicateOfActive => push_str(&mut out, "duplicate escalation reconciled by key "),
        }
        push_str(&mut out, self.key.as_str());
        chars_to_string(out.as_slice())
    }
}

/// Keys of the candidates among the first `n` rows, in ledger order.
pub open spec fn candidate_keys_upto(rows: Seq<EscalationRow>, n: int) -> Seq<Seq<char>>
    decreases n,
{
    if n <= 0 {
        Seq::empty()
    } else {
        let prev = candidate_keys_upto(rows, n - 1);
        if is_candidate(rows, n - 1) { prev.push(key_text(rows[n - 1])) } else { prev }
    }
}

/// Keys of all candidates, in ledger order.
pub open spec fn candidate_keys(rows: Seq<EscalationRow>) -> Seq<Seq<char>> {
    candidate_keys_upto(rows, rows.len() as int)
}

/// The outcome of reconciliation.
pub struct Reconciliation {
    /// The rows to resolve, in order of dedupe key, timestamp and id.
    pub resolved: Vec<Resolution>,
    /// Each dedupe key shared by more than one candidate, with their number.
    pub dedupe_groups: Vec<KeyCount>,
}


proof fn lemma_triple_total(
    ka: Seq<char>, ta: Seq<char>, ia: Seq<char>,
    kb: Seq<char>, tb: Seq<char>, ib: Seq<char>,
)
    ensures
        !triple_lt(ka, ta, ia, ka, ta, ia),
        !(triple_lt(ka, ta, ia, kb, tb, ib) && triple_lt(kb, tb, ib, ka, ta, ia)),
        ia != ib ==> (triple_lt(ka, ta, ia, kb, tb, ib) || triple_lt(kb, tb, ib, ka, ta, ia)),
{
    lemma_lex_total(ka, kb);
    lemma_lex_total(kb, ka);
    lemma_lex_total(ta, tb);
    lemma_lex_total(tb, ta);
    lemma_lex_total(ia, ib);
    lemma_lex_total(ib, ia);
}

proof fn lemma_triple_trans(
    ka: Seq<char>, ta: Seq<char>, ia: Seq<char>,
    kb: Seq<char>, tb: Seq<char>, ib: Seq<char>,
    kc: Seq<char>, tc: Seq<char>, ic: Seq<char>,
)
    requires
        triple_lt(ka, ta, ia, kb, tb, ib),
        triple_lt(kb, tb, ib, kc, tc, ic),
    ensures
        triple_lt(ka, ta, ia, kc, tc, ic),
{
    if lex_lt(ka, kb) && lex_lt(kb, kc) {
        lemma_lex_trans(ka, kb, kc);
    } else if ka == kb && kb == kc {
        if lex_lt(ta, tb) && lex_lt(tb, tc) {
            lemma_lex_trans(ta, tb, tc);
        } else if ta == tb && tb == tc {
            lemma_lex_trans(ia, ib, ic);
        }
    }
}

/// Two different candidates are ordered one way or the other, never both.
proof fn lemma_before_total(rows: Seq<EscalationRow>, a: int, b: int)
    requires
        is_candidate(rows, a),
        is_candidate(rows, b),
        a != b,
    ensures
        before(rows, a, b) || before(rows, b, a),
        !(before(rows, a, b) && before(rows, b, a)),
{
    reveal(before);
    reveal(is_candidate);
    if a < b {
        assert(id_of(rows[b]) != id_of(rows[a]));
    } else {
        assert(id_of(rows[a]) != id_of(rows[b]));
    }
    assert(opt_text(rows[a].escalation_id) != opt_text(rows[b].escalation_id));
    lemma_triple_total(
        key_text(rows[a]), opt_text(rows[a].ts), opt_text(rows[a].escalation_id),
        key_text(rows[b]), opt_text(rows[b].ts), opt_text(rows[b].escalation_id),
    );
}

proof fn lemma_before_trans(rows: Seq<EscalationRow>, a: int, b: int, c: int)
    requires
        before(rows, a, b),
        before(rows, b, c),
    ensures
        before(rows, a, c),
{
    reveal(before);
    lemma_triple_trans(
        key_text(rows[a]), opt_text(rows[a].ts), opt_text(rows[a].escalation_id),
        key_text(rows[b]), opt_text(rows[b].ts), opt_text(rows[b].escalation_id),
        key_text(rows[c]), opt_text(rows[c].ts), opt_text(rows[c].escalation_id),
    );
}

fn same_id(a: &Option<String>, b: &Option<String>) -> (r: bool)
    ensures
        r == (match (a, b) {
            (Some(x), Some(y)) => x@ == y@,
            (None, None) => true,
            _ => false,
        }),
{
    match (a, b) {
        (Some(x), Some(y)) => *x == *y,
        (None, None) => true,
        _ => false,
    }
}

fn latest_at(rows: &Vec<EscalationRow>, k: usize) -> (r: bool)
    requires
        k < rows.len(),
    ensures
        r == is_latest(rows@, k as int),
{
    if rows[k].escalation_id.is_none() {
        return false;
    }
    let mut j: usize = k + 1;
    while j < rows.len()
        invariant
            k < j <= rows.len(),
            rows@[k as int].escalation_id is Some,
            forall|m: int| k < m < j ==> id_of(#[trigger] rows@[m]) != id_of(rows@[k as int]),
        decreases rows.len() - j,
    {
        if same_id(&rows[j].escalation_id, &rows[k].escalation_id) {
            return false;
        }
        j += 1;
    }
    true
}

fn candidate_key_at(rows: &Vec<EscalationRow>, k: usize) -> (r: Option<String>)
    requires
        k < rows.len(),
    ensures
        match r {
            Some(x) => is_candidate(rows@, k as int) && x@ == key_text(rows@[k as int]),
            None => !is_candidate(rows@, k as int),
        },
{
    proof {
        reveal(is_candidate);
        reveal(key_text);
    }
    if !latest_at(rows, k) {
        return None;
    }
    let pending = match &rows[k].status {
        Some(s) => str_eq(s.as_str(), "pending"),
        None => false,
    };
    if !pending {
        return None;
    }
    dedupe_key(&rows[k])
}

fn key_string(r: &EscalationRow) -> (s: String)
    ensures
        s@ == key_text(*r),
{
    proof {
        reveal(key_text);
    }
    match dedupe_key(r) {
        Some(k) => k,
        None => String::new(),
    }
}

fn before_exec(rows: &Vec<EscalationRow>, a: usize, b: usize) -> (r: bool)
    requires
        a < rows.len(),
        b < rows.len(),
    ensures
        r == before(rows@, a as int, b as int),
{
    proof {
        reveal(before);
    }
    let ka = key_string(&rows[a]);
    let kb = key_string(&rows[b]);
    if str_lt(ka.as_str(), kb.as_str()) {
        return true;
    }
    if !str_eq(ka.as_str(), kb.as_str()) {
        return false;
    }
    let ta = opt_str(&rows[a].ts);
    let tb = opt_str(&rows[b].ts);
    if str_lt(ta, tb) {
        return true;
    }
    if !str_eq(ta, tb) {
        return false;
    }
    str_lt(opt_str(&rows[a].escalation_id), opt_str(&rows[b].escalation_id))
}


/// `cand` lists every candidate row once, in ledger order, and `ckey`
/// holds their keys.
#[verifier::opaque]
spec fn cands_ok(rows: Seq<EscalationRow>, cand: Seq<usize>, ckey: Seq<String>) -> bool {
    &&& cand.len() == ckey.len()
    &&& forall|i: int| #![trigger cand[i]] 0 <= i < cand.len() ==> cand[i] < rows.len()
        && is_candidate(rows, cand[i] as int) && ckey[i]@ == key_text(rows[cand[i] as int])
    &&& forall|i: int, j: int| 0 <= i < j < cand.len() ==> cand[i] < cand[j]
    &&& forall|m: int| 0 <= m < rows.len() && is_candidate(rows, m) ==>
        exists|i: int| 0 <= i < cand.len() && #[trigger] cand[i] == m
}

proof fn lemma_cand_at(rows: Seq<EscalationRow>, cand: Seq<usize>, ckey: Seq<String>, i: int)
    requires
        cands_ok(rows, cand, ckey),
        0 <= i < cand.len(),
    ensures
        cand.len() == ckey.len(),
        cand[i] < rows.len(),
        is_candidate(rows, cand[i] as int),
        ckey[i]@ == key_text(rows[cand[i] as int]),
{
    reveal(cands_ok);
}

proof fn lemma_cands_len(rows: Seq<EscalationRow>, cand: Seq<usize>, ckey: Seq<String>)
    requires
        cands_ok(rows, cand, ckey),
    ensures
        cand.len() == ckey.len(),
{
    reveal(cands_ok);
}

proof fn lemma_cand_order(rows: Seq<EscalationRow>, cand: Seq<usize>, ckey: Seq<String>, i: int, j: int)
    requires
        cands_ok(rows, cand, ckey),
        0 <= i < cand.len(),
        0 <= j < cand.len(),
        i != j,
    ensures
        cand[i] != cand[j],
        i < j ==> cand[i] < cand[j],
{
    reveal(cands_ok);
}

proof fn lemma_cand_member(rows: Seq<EscalationRow>, cand: Seq<usize>, ckey: Seq<String>, m: int) -> (i: int)
    requires
        cands_ok(rows, cand, ckey),
        0 <= m < rows.len(),
        is_candidate(rows, m),
    ensures
        0 <= i < cand.len(),
        cand[i] == m,
{
    reveal(cands_ok);
    choose|i: int| 0 <= i < cand.len() && #[trigger] cand[i] == m
}

fn collect_candidates(rows: &Vec<EscalationRow>) -> (r: (Vec<usize>, Vec<String>))
    ensures
        cands_ok(rows@, r.0@, r.1@),
        r.1.deep_view() == candidate_keys(rows@),
{
    let n = rows.len();
    let mut cand: Vec<usize> = Vec::new();
    let mut ckey: Vec<String> = Vec::new();
    let mut k: usize = 0;
    while k < n
        invariant
            k <= n,
            n == rows.len(),
            cand.len() == ckey.len(),
            forall|i: int| #![trigger cand@[i]] 0 <= i < cand.len() ==> cand@[i] < k
                && is_candidate(rows@, cand@[i] as int) && ckey@[i]@ == key_text(rows@[cand@[i] as int]),
            forall|i: int, j: int| 0 <= i < j < cand.len() ==> cand@[i] < cand@[j],
            forall|m: int| 0 <= m < k && is_candidate(rows@, m) ==>
                exists|i: int| 0 <= i < cand.len() && #[trigger] cand@[i] == m,
            ckey.deep_view() == candidate_keys_upto(rows@, k as int),
        decreases n - k,
    {
        match candidate_key_at(rows, k) {
            Some(key) => {
                let ghost old_keys = ckey.deep_view();
                let ghost old_cand = cand@;
                let ghost key_v = key@;
                cand.push(k);
                ckey.push(key);
                proof {
                    assert(ckey.deep_view() =~= old_keys.push(key_v));
                    assert forall|m: int| 0 <= m < k + 1 && is_candidate(rows@, m) implies
                        exists|i: int| 0 <= i < cand.len() && #[trigger] cand@[i] == m by {
                        if m == k {
                            assert(cand@[cand.len() - 1] == m);
                        } else {
                            let i0 = choose|i: int| 0 <= i < old_cand.len() && #[trigger] old_cand[i] == m;
                            assert(cand@[i0] == m);
                        }
                    }
                }
            },
            None => {},
        }
        k += 1;
    }
    proof {
        reveal(cands_ok);
    }
    (cand, ckey)
}

fn is_group_latest(rows: &Vec<EscalationRow>, cand: &Vec<usize>, ckey: &Vec<String>, i: usize) -> (r: bool)
    requires
        cands_ok(rows@, cand@, ckey@),
        i < cand.len(),
    ensures
        r == group_latest(rows@, cand@[i as int] as int),
{
    proof {
        lemma_cand_at(rows@, cand@, ckey@, i as int);
    }
    let c = cand.len();
    let ci = cand[i];
    let mut is_l = true;
    let mut q: usize = 0;
    while q < c
        invariant
            q <= c,
            c == cand.len(),
            c == ckey.len(),
            i < c,
            ci == cand@[i as int],
            cands_ok(rows@, cand@, ckey@),
            is_l == forall|r: int| 0 <= r < q ==> !(r != i && #[trigger] ckey@[r]@ == ckey@[i as int]@
                && before(rows@, ci as int, cand@[r] as int)),
        decreases c - q,
    {
        proof {
            lemma_cand_at(rows@, cand@, ckey@, i as int);
            lemma_cand_at(rows@, cand@, ckey@, q as int);
        }
        if q != i && ckey[q] == ckey[i] && before_exec(rows, ci, cand[q]) {
            is_l = false;
        }
        q += 1;
    }
    proof {
        reveal(group_latest);
        let rs = rows@;
        lemma_cand_at(rs, cand@, ckey@, i as int);
        if is_l {
            assert forall|j: int| 0 <= j < rs.len() && j != ci && #[trigger] same_group(rs, j, ci as int)
                implies before(rs, j, ci as int) by {
                let r = lemma_cand_member(rs, cand@, ckey@, j);
                lemma_cand_at(rs, cand@, ckey@, r);
                assert(r != i);
                assert(!(r != i && ckey@[r]@ == ckey@[i as int]@ && before(rs, ci as int, cand@[r] as int)));
                lemma_before_total(rs, j, ci as int);
            }
        } else {
            let r = choose|r: int| 0 <= r < q && !!(r != i && #[trigger] ckey@[r]@ == ckey@[i as int]@
                && before(rs, ci as int, cand@[r] as int));
            let j = cand@[r] as int;
            lemma_cand_at(rs, cand@, ckey@, r);
            lemma_cand_order(rs, cand@, ckey@, r, i as int);
            assert(same_group(rs, j, ci as int));
            lemma_before_total(rs, j, ci as int);
        }
    }
    is_l
}

/// `latest` and `active` hold, for each candidate, whether it is the latest
/// of its group and whether its condition still holds.
#[verifier::opaque]
spec fn flags_ok(
    rows: Seq<EscalationRow>,
    mode: Option<String>,
    p: PressureReport,
    cand: Seq<usize>,
    latest: Seq<bool>,
    active: Seq<bool>,
) -> bool {
    &&& latest.len() == cand.len()
    &&& active.len() == cand.len()
    &&& forall|q: int| 0 <= q < cand.len() ==> #[trigger] latest[q] == group_latest(rows, cand[q] as int)
    &&& forall|q: int| 0 <= q < cand.len() ==> #[trigger] active[q] == still_active(rows[cand[q] as int], mode, p)
}

proof fn lemma_flags_at(
    rows: Seq<EscalationRow>,
    mode: Option<String>,
    p: PressureReport,
    cand: Seq<usize>,
    latest: Seq<bool>,
    active: Seq<bool>,
    q: int,
)
    requires
        flags_ok(rows, mode, p, cand, latest, active),
        0 <= q < cand.len(),
    ensures
        latest.len() == cand.len(),
        active.len() == cand.len(),
        latest[q] == group_latest(rows, cand[q] as int),
        active[q] == still_active(rows[cand[q] as int], mode, p),
{
    reveal(flags_ok);
}

fn is_superseded(
    rows: &Vec<EscalationRow>,
    mode: &Option<String>,
    p: &PressureReport,
    cand: &Vec<usize>,
    ckey: &Vec<String>,
    latest: &Vec<bool>,
    active: &Vec<bool>,
    i: usize,
) -> (r: bool)
    requires
        cands_ok(rows@, cand@, ckey@),
        flags_ok(rows@, *mode, *p, cand@, latest@, active@),
        i < cand.len(),
    ensures
        r == superseded_by_active(rows@, *mode, *p, cand@[i as int] as int),
{
    proof {
        lemma_cands_len(rows@, cand@, ckey@);
        lemma_flags_at(rows@, *mode, *p, cand@, latest@, active@, i as int);
    }
    let c = cand.len();
    let mut dup = false;
    let mut q: usize = 0;
    while q < c
        invariant
            q <= c,
            c == cand.len(),
            c == ckey.len(),
            c == latest.len(),
            c == active.len(),
            i < c,
            dup == exists|r: int| 0 <= r < q && r != i && #[trigger] ckey@[r]@ == ckey@[i as int]@
                && latest@[r] && active@[r],
        decreases c - q,
    {
        if q != i && ckey[q] == ckey[i] && latest[q] && active[q] {
            dup = true;
        }
        q += 1;
    }
    proof {
        let rs = rows@;
        let ci = cand@[i as int] as int;
        lemma_cand_at(rs, cand@, ckey@, i as int);
        if dup {
            let r = choose|r: int| 0 <= r < q && r != i && #[trigger] ckey@[r]@ == ckey@[i as int]@
                && latest@[r] && active@[r];
            let m = cand@[r] as int;
            lemma_cand_at(rs, cand@, ckey@, r);
            lemma_cand_order(rs, cand@, ckey@, r, i as int);
            lemma_flags_at(rs, *mode, *p, cand@, latest@, active@, r);
            assert(same_group(rs, m, ci));
        } else if superseded_by_active(rs, *mode, *p, ci) {
            let m = choose|m: int| 0 <= m < rs.len() && m != ci && #[trigger] same_group(rs, m, ci)
                && group_latest(rs, m) && still_active(rs[m], *mode, *p);
            let r = lemma_cand_member(rs, cand@, ckey@, m);
            lemma_cand_at(rs, cand@, ckey@, r);
            lemma_flags_at(rs, *mode, *p, cand@, latest@, active@, r);
            assert(ckey@[r]@ == ckey@[i as int]@);
            assert(r != i);
            assert(false);
        }
    }
    dup
}

/// The resolutions are strictly ordered by `before`.
spec fn sorted_rows(rows: Seq<EscalationRow>, s: Seq<Resolution>) -> bool {
    forall|x: int, y: int| 0 <= x < y < s.len() ==>
        before(rows, #[trigger] s[x].row as int, #[trigger] s[y].row as int)
}

fn insert_resolution(rows: &Vec<EscalationRow>, out: &mut Vec<Resolution>, res: Resolution)
    requires
        sorted_rows(rows@, old(out)@),
        res.row < rows.len(),
        is_candidate(rows@, res.row as int),
        forall|x: int| 0 <= x < old(out)@.len() ==> (#[trigger] old(out)@[x]).row < rows.len()
            && is_candidate(rows@, old(out)@[x].row as int) && old(out)@[x].row != res.row,
    ensures
        sorted_rows(rows@, final(out)@),
        exists|pos: int| 0 <= pos <= old(out)@.len() && final(out)@ == old(out)@.insert(pos, res),
{
    let ghost s0 = out@;
    let ghost rs = rows@;
    let mut pos: usize = 0;
    while pos < out.len() && !before_exec(rows, res.row, out[pos].row)
        invariant
            pos <= out.len(),
            out@ == s0,
            sorted_rows(rs, s0),
            rs == rows@,
            res.row < rows.len(),
            is_candidate(rs, res.row as int),
            forall|x: int| 0 <= x < s0.len() ==> (#[trigger] s0[x]).row < rows.len()
                && is_candidate(rs, s0[x].row as int) && s0[x].row != res.row,
            forall|x: int| 0 <= x < pos ==> before(rs, (#[trigger] s0[x]).row as int, res.row as int),
        decreases out.len() - pos,
    {
        proof {
            lemma_before_total(rs, s0[pos as int].row as int, res.row as int);
        }
        pos += 1;
    }
    proof {
        assert forall|x: int| pos <= x < s0.len() implies before(rs, res.row as int, (#[trigger] s0[x]).row as int) by {
            if x > pos {
                assert(before(rs, s0[pos as int].row as int, s0[x].row as int));
                lemma_before_trans(rs, res.row as int, s0[pos as int].row as int, s0[x].row as int);
            }
        }
        let t = s0.insert(pos as int, res);
        assert forall|x: int, y: int| 0 <= x < y < t.len() implies
            before(rs, #[trigger] t[x].row as int, #[trigger] t[y].row as int) by {
            if x < pos && y < pos {
            } else if x < pos && y == pos {
            } else if x < pos && y > pos {
                assert(t[y] == s0[y - 1]);
            } else if x == pos {
                assert(t[y] == s0[y - 1]);
            } else {
                assert(t[x] == s0[x - 1]);
                assert(t[y] == s0[y - 1]);
            }
        }
    }
    out.insert(pos, res);
}

fn dedupe_groups_of(keys: &Vec<String>) -> (groups: Vec<KeyCount>)
    ensures
        forall|x: int| 0 <= x < groups.len() ==> (#[trigger] groups@[x]).count > 1
            && groups@[x].count == occurrences(keys.deep_view(), groups@[x].key@),
        forall|x: int, y: int| 0 <= x < y < groups.len() ==> groups@[x].key@ != groups@[y].key@,
        forall|k: Seq<char>| occurrences(keys.deep_view(), k) > 1 ==>
            exists|x: int| 0 <= x < groups.len() && #[trigger] groups@[x].key@ == k,
{
    let t = tally(keys);
    let ghost kv = keys.deep_view();
    let mut groups: Vec<KeyCount> = Vec::new();
    let mut x: usize = 0;
    while x < t.len()
        invariant
            x <= t.len(),
            kv == keys.deep_view(),
            crate::tally::is_tally_of(kv, t@),
            forall|y: int| 0 <= y < groups.len() ==> (#[trigger] groups@[y]).count > 1
                && groups@[y].count == occurrences(kv, groups@[y].key@),
            forall|y: int| #![trigger groups@[y]] 0 <= y < groups.len() ==>
                exists|z: int| #![trigger t@[z]] 0 <= z < x && t@[z].key@ == groups@[y].key@,
            forall|y1: int, y2: int| 0 <= y1 < y2 < groups.len() ==> groups@[y1].key@ != groups@[y2].key@,
            forall|z: int| 0 <= z < x && (#[trigger] t@[z]).count > 1 ==>
                exists|y: int| 0 <= y < groups.len() && #[trigger] groups@[y].key@ == t@[z].key@,
        decreases t.len() - x,
    {
        if t[x].count > 1 {
            let ghost g0 = groups@;
            let item = KeyCount { key: t[x].key.clone(), count: t[x].count };
            groups.push(item);
            proof {
                assert(groups@[groups.len() - 1].key@ == t@[x as int].key@);
                assert forall|y: int| #![trigger groups@[y]] 0 <= y < groups.len() implies
                    exists|z: int| #![trigger t@[z]] 0 <= z < x + 1 && t@[z].key@ == groups@[y].key@ by {
                    if y < g0.len() {
                        assert(groups@[y] == g0[y]);
                        let z = choose|z: int| #![trigger t@[z]] 0 <= z < x && t@[z].key@ == g0[y].key@;
                        assert(t@[z].key@ == groups@[y].key@);
                    } else {
                        assert(t@[x as int].key@ == groups@[y].key@);
                    }
                }
                assert forall|y1: int, y2: int| 0 <= y1 < y2 < groups.len() implies
                    groups@[y1].key@ != groups@[y2].key@ by {
                    if y2 == groups.len() - 1 {
                        assert(groups@[y1] == g0[y1]);
                        let z = choose|z: int| #![trigger t@[z]] 0 <= z < x && t@[z].key@ == g0[y1].key@;
                        assert(t@[z].key@ != t@[x as int].key@);
                    } else {
                        assert(groups@[y1] == g0[y1]);
                        assert(groups@[y2] == g0[y2]);
                    }
                }
                assert forall|z: int| 0 <= z < x + 1 && (#[trigger] t@[z]).count > 1 implies
                    exists|y: int| 0 <= y < groups.len() && #[trigger] groups@[y].key@ == t@[z].key@ by {
                    if z < x {
                        let y = choose|y: int| 0 <= y < g0.len() && #[trigger] g0[y].key@ == t@[z].key@;
                        assert(groups@[y] == g0[y]);
                    } else {
                        assert(groups@[groups.len() - 1].key@ == t@[z].key@);
                    }
                }
            }
        }
        x += 1;
    }
    proof {
        assert forall|k: Seq<char>| occurrences(kv, k) > 1 implies
            exists|y: int| 0 <= y < groups.len() && #[trigger] groups@[y].key@ == k by {
            crate::tally::lemma_occurrences_bound(kv, k);
            let z = choose|z: int| 0 <= z < t.len() && #[trigger] t@[z].key@ == k;
            assert(t@[z].count == occurrences(kv, t@[z].key@));
        }
    }
    groups
}

/// `resolved` holds, in order, exactly the resolving candidates among the
/// first `i`, each with its note and key.
#[verifier::opaque]
spec fn resolved_ok(
    rows: Seq<EscalationRow>,
    mode: Option<String>,
    p: PressureReport,
    cand: Seq<usize>,
    resolved: Seq<Resolution>,
    i: int,
) -> bool {
    &&& sorted_rows(rows, resolved)
    &&& forall|x: int| 0 <= x < resolved.len() ==> {
        let r = #[trigger] resolved[x];
        &&& r.row < rows.len()
        &&& is_candidate(rows, r.row as int)
        &&& resolves(rows, mode, p, r.row as int)
        &&& r.note == note_of(rows, mode, p, r.row as int)
        &&& r.key@ == key_text(rows[r.row as int])
        &&& (i < cand.len() ==> r.row < cand[i])
    }
    &&& forall|q: int| #![trigger cand[q]] 0 <= q < i && resolves(rows, mode, p, cand[q] as int) ==>
        exists|x: int| 0 <= x < resolved.len() && #[trigger] resolved[x].row == cand[q]
}

fn add_candidate(
    rows: &Vec<EscalationRow>,
    mode: &Option<String>,
    p: &PressureReport,
    cand: &Vec<usize>,
    ckey: &Vec<String>,
    latest: &Vec<bool>,
    active: &Vec<bool>,
    resolved: &mut Vec<Resolution>,
    i: usize,
)
    requires
        i < cand.len(),
        cands_ok(rows@, cand@, ckey@),
        flags_ok(rows@, *mode, *p, cand@, latest@, active@),
        resolved_ok(rows@, *mode, *p, cand@, old(resolved)@, i as int),
    ensures
        resolved_ok(rows@, *mode, *p, cand@, final(resolved)@, i + 1),
{
    proof {
        lemma_cand_at(rows@, cand@, ckey@, i as int);
        lemma_flags_at(rows@, *mode, *p, cand@, latest@, active@, i as int);
        if i + 1 < cand.len() {
            lemma_cand_order(rows@, cand@, ckey@, i as int, i + 1);
        }
    }
    let ci = cand[i];
    let ghost s0 = resolved@;
    if latest[i] && active[i] {
        proof {
            reveal(resolved_ok);
            assert(!resolves(rows@, *mode, *p, ci as int)) by {
                reveal(resolves);
            }
        }
        return;
    }
    let dup = is_superseded(rows, mode, p, cand, ckey, latest, active, i);
    let note = if dup { ResolutionNote::DuplicateOfActive } else { ResolutionNote::ConditionCleared };
    let res = Resolution { row: ci, note, key: ckey[i].clone() };
    proof {
        reveal(resolved_ok);
        assert(resolves(rows@, *mode, *p, ci as int)) by {
            reveal(resolves);
        }
        assert(note == note_of(rows@, *mode, *p, ci as int)) by {
            reveal(note_of);
        }
    }
    insert_resolution(rows, resolved, res);
    proof {
        reveal(resolved_ok);
        let pos = choose|pos: int| 0 <= pos <= s0.len() && resolved@ == s0.insert(pos, res);
        assert forall|x: int| 0 <= x < resolved.len() implies {
            let r = #[trigger] resolved@[x];
            &&& r.row < rows.len()
            &&& is_candidate(rows@, r.row as int)
            &&& resolves(rows@, *mode, *p, r.row as int)
            &&& r.note == note_of(rows@, *mode, *p, r.row as int)
            &&& r.key@ == key_text(rows@[r.row as int])
            &&& (i + 1 < cand.len() ==> r.row < cand@[i + 1])
        } by {
            if x < pos {
                assert(resolved@[x] == s0[x]);
            } else if x > pos {
                assert(resolved@[x] == s0[x - 1]);
            }
        }
        assert forall|q: int| #![trigger cand@[q]] 0 <= q < i + 1 && resolves(rows@, *mode, *p, cand@[q] as int) implies
            exists|x: int| 0 <= x < resolved.len() && #[trigger] resolved@[x].row == cand@[q] by {
            if q < i {
                let x = choose|x: int| 0 <= x < s0.len() && #[trigger] s0[x].row == cand@[q];
                if x < pos {
                    assert(resolved@[x] == s0[x]);
                } else {
                    assert(resolved@[x + 1] == s0[x]);
                }
            } else {
                assert(resolved@[pos].row == cand@[q]);
            }
        }
    }
}

/// Reconciles the escalation ledger. Of each escalation id only its latest
/// row counts; pending rows with a dedupe key are grouped by key, and in
/// each group the latest row (by timestamp, then id) stays open while its
/// condition still holds, its older duplicates being resolved as such;
/// when the latest row's condition has cleared, the whole group is
/// resolved. The resolutions come in order of key, timestamp and id.
pub fn reconcile_escalations(
    rows: &Vec<EscalationRow>,
    mode: &Option<String>,
    p: &PressureReport,
) -> (out: Reconciliation)
    ensures
        forall|x: int| 0 <= x < out.resolved.len() ==> {
            let r = #[trigger] out.resolved@[x];
            &&& r.row < rows.len()
            &&& resolves(rows@, *mode, *p, r.row as int)
            &&& r.note == note_of(rows@, *mode, *p, r.row as int)
            &&& r.key@ == key_text(rows@[r.row as int])
        },
        forall|k: int| 0 <= k < rows.len() && resolves(rows@, *mode, *p, k) ==>
            exists|x: int| 0 <= x < out.resolved.len() && #[trigger] out.resolved@[x].row == k,
        forall|x: int, y: int| 0 <= x < y < out.resolved.len() ==>
            before(rows@, #[trigger] out.resolved@[x].row as int, #[trigger] out.resolved@[y].row as int),
        forall|x: int| 0 <= x < out.dedupe_groups.len() ==> (#[trigger] out.dedupe_groups@[x]).count > 1
            && out.dedupe_groups@[x].count == occurrences(candidate_keys(rows@), out.dedupe_groups@[x].key@),
        forall|x: int, y: int| 0 <= x < y < out.dedupe_groups.len() ==>
            out.dedupe_groups@[x].key@ != out.dedupe_groups@[y].key@,
        forall|k: Seq<char>| occurrences(candidate_keys(rows@), k) > 1 ==>
            exists|x: int| 0 <= x < out.dedupe_groups.len() && #[trigger] out.dedupe_groups@[x].key@ == k,
{
    let (cand, ckey) = collect_candidates(rows);
    let ghost keys = ckey.deep_view();
    let c = cand.len();
    let mut latest: Vec<bool> = Vec::new();
    let mut active: Vec<bool> = Vec::new();
    let mut i: usize = 0;
    while i < c
        invariant
            i <= c,
            c == cand.len(),
            cands_ok(rows@, cand@, ckey@),
            latest.len() == i,
            active.len() == i,
            forall|q: int| 0 <= q < i ==> #[trigger] latest@[q] == group_latest(rows@, cand@[q] as int),
            forall|q: int| 0 <= q < i ==> #[trigger] active@[q] == still_active(rows@[cand@[q] as int], *mode, *p),
        decreases c - i,
    {
        proof {
            lemma_cand_at(rows@, cand@, ckey@, i as int);
        }
        let l = is_group_latest(rows, &cand, &ckey, i);
        let a = escalation_still_active(&rows[cand[i]], mode, p);
        latest.push(l);
        active.push(a);
        i += 1;
    }
    proof {
        reveal(flags_ok);
    }
    let mut resolved: Vec<Resolution> = Vec::new();
    proof {
        reveal(resolved_ok);
    }
    let mut i: usize = 0;
    while i < c
        invariant
            i <= c,
            c == cand.len(),
            cands_ok(rows@, cand@, ckey@),
            flags_ok(rows@, *mode, *p, cand@, latest@, active@),
            resolved_ok(rows@, *mode, *p, cand@, resolved@, i as int),
        decreases c - i,
    {
        add_candidate(rows, mode, p, &cand, &ckey, &latest, &active, &mut resolved, i);
        i += 1;
    }
    proof {
        reveal(resolved_ok);
        let rs = rows@;
        assert forall|k: int| 0 <= k < rs.len() && resolves(rs, *mode, *p, k) implies
            exists|x: int| 0 <= x < resolved.len() && #[trigger] resolved@[x].row == k by {
            assert(is_candidate(rs, k)) by {
                reveal(resolves);
            }
            let q = lemma_cand_member(rs, cand@, ckey@, k);
        }
    }
    let groups = dedupe_groups_of(&ckey);
    proof {
        assert(keys == candidate_keys(rows@));
        assert forall|k: Seq<char>| occurrences(candidate_keys(rows@), k) > 1 implies
            exists|x: int| 0 <= x < groups.len() && #[trigger] groups@[x].key@ == k by {
            assert(occurrences(ckey.deep_view(), k) > 1);
        }
    }
    let out = Reconciliation { resolved, dedupe_groups: groups };
    proof {
        assert forall|k: Seq<char>| occurrences(candidate_keys(rows@), k) > 1 implies
            exists|x: int| 0 <= x < out.dedupe_groups.len() && #[trigger] out.dedupe_groups@[x].key@ == k by {
            let x = choose|x: int| 0 <= x < groups.len() && #[trigger] groups@[x].key@ == k;
            assert(out.dedupe_groups@[x].key@ == k);
        }
    }
    out
}


proof fn lemma_latest_in_prefix(rows: Seq<EscalationRow>, more: Seq<EscalationRow>, k: int)
    requires
        0 <= k < rows.len(),
        is_candidate(rows + more, k),
    ensures
        is_candidate(rows, k),
        forall|j: int| 0 <= j < more.len() ==> id_of(#[trigger] more[j]) != id_of(rows[k]),
{
    reveal(is_candidate);
    let all = rows + more;
    assert(all[k] == rows[k]);
    assert forall|j: int| k < j < rows.len() implies id_of(#[trigger] rows[j]) != id_of(rows[k]) by {
        assert(all[j] == rows[j]);
    }
    assert forall|j: int| 0 <= j < more.len() implies id_of(#[trigger] more[j]) != id_of(rows[k]) by {
        assert(all[rows.len() + j] == more[j]);
    }
}

/// Law (reconciliation is idempotent): once a row that is not pending has
/// been appended under the id of every resolved escalation, reconciling
/// the longer ledger in the same runtime resolves nothing.
pub proof fn law_reconciliation_is_idempotent(
    rows: Seq<EscalationRow>,
    mode: Option<String>,
    p: PressureReport,
    appended: Seq<EscalationRow>,
)
    requires
        forall|j: int| 0 <= j < appended.len() ==> !is_pending(#[trigger] appended[j]),
        forall|k: int| 0 <= k < rows.len() && resolves(rows, mode, p, k) ==>
            exists|j: int| 0 <= j < appended.len() && id_of(#[trigger] appended[j]) == id_of(rows[k]),
    ensures
        forall|k: int| 0 <= k < (rows + appended).len() ==> !resolves(rows + appended, mode, p, k),
{
    let all = rows + appended;
    assert forall|k: int| 0 <= k < all.len() implies !resolves(all, mode, p, k) by {
        reveal(resolves);
        if is_candidate(all, k) {
            if k < rows.len() {
                lemma_latest_in_prefix(rows, appended, k);
                assert(all[k] == rows[k]);
                if resolves(rows, mode, p, k) {
                    let j = choose|j: int| 0 <= j < appended.len() && id_of(#[trigger] appended[j]) == id_of(rows[k]);
                    assert(false);
                }
                assert(group_latest(rows, k) && still_active(rows[k], mode, p));
                assert(group_latest(all, k)) by {
                    reveal(group_latest);
                    assert forall|j: int| 0 <= j < all.len() && j != k && #[trigger] same_group(all, j, k)
                        implies before(all, j, k) by {
                        if j < rows.len() {
                            lemma_latest_in_prefix(rows, appended, j);
                            assert(all[j] == rows[j]);
                            assert(same_group(rows, j, k));
                            if resolves(rows, mode, p, j) {
                                let m = choose|m: int| 0 <= m < appended.len() && id_of(#[trigger] appended[m]) == id_of(rows[j]);
                                assert(false);
                            }
                            assert(group_latest(rows, j));
                            assert(before(rows, j, k));
                            assert(same_group(rows, k, j));
                            assert(before(rows, k, j));
                            lemma_before_total(rows, j, k);
                            assert(false);
                        } else {
                            reveal(is_candidate);
                            assert(all[j] == appended[j - rows.len()]);
                            assert(false);
                        }
                    }
                }
            } else {
                reveal(is_candidate);
                assert(all[k] == appended[k - rows.len()]);
            }
        }
    }
}

/// Law (queue pressure guard): the projects-queue guard is active exactly
/// when the observed queued count exceeds its threshold, a missing value
/// counting as 0; so raising the observed count never clears it.
pub proof fn law_queue_pressure_guard(p: PressureReport, raised: PressureReport)
    requires
        raised.max_projects_queue_queued == p.max_projects_queue_queued,
        or_default(raised.projects_queue_queued, 0) >= or_default(p.projects_queue_queued, 0),
    ensures
        pressure_active("core_pressure_guard.projects_queue_queued"@, p) <==>
            or_default(p.projects_queue_queued, 0) > or_default(p.max_projects_queue_queued, 0),
        pressure_active("core_pressure_guard.projects_queue_queued"@, p)
            ==> pressure_active("core_pressure_guard.projects_queue_queued"@, raised),
{
    reveal_strlit("core_pressure_guard.projects_queue_queued");
    reveal_strlit("core_pressure_guard.total_known_work");
    assert("core_pressure_guard.projects_queue_queued"@.len() != "core_pressure_guard.total_known_work"@.len());
}

/// Law (queue pressure escalations): a pending escalation for the
/// projects-queue guard stays open, when it is the latest of its key,
/// while the queue exceeds its threshold, and is resolved once it does not.
pub proof fn law_queue_pressure_escalation_resolution(
    rows: Seq<EscalationRow>,
    mode: Option<String>,
    p: PressureReport,
    k: int,
)
    requires
        0 <= k < rows.len(),
        opt_text(rows[k].reason) == "core_pressure_guard.projects_queue_queued"@,
    ensures
        still_active(rows[k], mode, p) <==>
            or_default(p.projects_queue_queued, 0) > or_default(p.max_projects_queue_queued, 0),
        group_latest(rows, k) && or_default(p.projects_queue_queued, 0) > or_default(p.max_projects_queue_queued, 0)
            ==> !resolves(rows, mode, p, k),
        is_candidate(rows, k) && or_default(p.projects_queue_queued, 0) <= or_default(p.max_projects_queue_queued, 0)
            ==> resolves(rows, mode, p, k),
        dedupe_key_of(rows[k]) == Some("core_pressure_guard.projects_queue_queued"@),
{
    reveal_strlit("core_pressure_guard.projects_queue_queued");
    reveal_strlit("core_pressure_guard.");
    reveal_strlit("policy_guard.denied");
    reveal_strlit("core_pressure_guard.total_known_work");
    let reason = opt_text(rows[k].reason);
    assert(reason.subrange(0, 20) =~= "core_pressure_guard."@);
    assert(starts_with_seq(reason, "core_pressure_guard."@));
    assert(reason != "policy_guard.denied"@) by {
        assert(reason[0] != "policy_guard.denied"@[0]);
    }
    assert(reason.len() != "core_pressure_guard.total_known_work"@.len());
    reveal(resolves);
}

/// Law (pressure guards): each guard compares the report's observed value
/// with its threshold, a missing value counting as 0 and a missing disk
/// threshold as 100: work items, queued projects, oversize files and
/// invalid JSON artifacts are over when they exceed the threshold, disk
/// use when it reaches it; a guard the report does not know stays active.
pub proof fn law_pressure_guards_compare_with_thresholds(p: PressureReport, reason: Seq<char>)
    ensures
        pressure_active("core_pressure_guard.total_known_work"@, p) <==>
            or_default(p.total_known_work_items, 0) > or_default(p.max_total_known_work, 0),
        pressure_active("core_pressure_guard.projects_queue_queued"@, p) <==>
            or_default(p.projects_queue_queued, 0) > or_default(p.max_projects_queue_queued, 0),
        pressure_active("core_pressure_guard.oversize_files"@, p) <==>
            or_default(p.oversize_files_gte_100mb, 0) > or_default(p.max_oversize_count, 0),
        pressure_active("core_pressure_guard.disk_used_pct"@, p) <==>
            or_default(p.disk_used_pct, 0) >= or_default(p.max_disk_used_pct, 100),
        pressure_active("core_pressure_guard.invalid_json"@, p) <==>
            or_default(p.invalid_json_artifacts, 0) > or_default(p.max_invalid_json, 0),
        reason != "core_pressure_guard.total_known_work"@ && reason != "core_pressure_guard.projects_queue_queued"@
            && reason != "core_pressure_guard.oversize_files"@ && reason != "core_pressure_guard.disk_used_pct"@
            && reason != "core_pressure_guard.invalid_json"@ ==> pressure_active(reason, p),
{
    reveal_strlit("core_pressure_guard.total_known_work");
    reveal_strlit("core_pressure_guard.projects_queue_queued");
    reveal_strlit("core_pressure_guard.oversize_files");
    reveal_strlit("core_pressure_guard.disk_used_pct");
    reveal_strlit("core_pressure_guard.invalid_json");
    let t = "core_pressure_guard.total_known_work"@;
    let q = "core_pressure_guard.projects_queue_queued"@;
    let o = "core_pressure_guard.oversize_files"@;
    let d = "core_pressure_guard.disk_used_pct"@;
    let j = "core_pressure_guard.invalid_json"@;
    assert(t.len() == 36 && q.len() == 41 && o.len() == 34 && d.len() == 33 && j.len() == 32);
}

/// Law (policy denials): an escalation for a policy denial stays active
/// exactly while the autonomy runtime is in degraded mode (in any letter
/// case), and its dedupe key is the reason and the command joined by `|`.
pub proof fn law_policy_denial_active_while_degraded(r: EscalationRow, mode: Option<String>, p: PressureReport)
    requires
        opt_text(r.reason) == "policy_guard.denied"@,
    ensures
        still_active(r, mode, p) <==> lower_seq(mode_or_normal(mode)) == lower_seq("degraded"@),
        dedupe_key_of(r) == Some("policy_guard.denied|"@ + opt_text(r.command)),
{
    reveal_strlit("policy_guard.denied");
    reveal_strlit("|");
    reveal_strlit("policy_guard.denied|");
    assert("policy_guard.denied"@ + "|"@ =~= "policy_guard.denied|"@);
    assert("policy_guard.denied"@ + "|"@ + opt_text(r.command) =~= "policy_guard.denied|"@ + opt_text(r.command));
}

/// Law (what reconciliation touches): only rows whose status is
/// "pending" take part; a row with any other status, or with a reason
/// that is neither a policy denial nor a pressure guard, is never
/// resolved, and the condition of such a reason never clears.
pub proof fn law_only_pending_guarded_rows_reconcile(
    rows: Seq<EscalationRow>,
    mode: Option<String>,
    p: PressureReport,
    k: int,
)
    requires
        0 <= k < rows.len(),
    ensures
        is_pending(rows[k]) <==> (rows[k].status matches Some(s) && s@ == "pending"@),
        !is_pending(rows[k]) ==> !resolves(rows, mode, p, k),
        opt_text(rows[k].reason) != "policy_guard.denied"@ && !starts_with_seq(opt_text(rows[k].reason), "core_pressure_guard."@)
            ==> !resolves(rows, mode, p, k) && still_active(rows[k], mode, p),
{
    reveal(resolves);
    reveal(is_candidate);
}

} // verus!
