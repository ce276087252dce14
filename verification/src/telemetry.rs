//! dManwe telemetry summaries: routing events folded into counters, the
//! busiest counters ranked, the review-gated recommendations, the report
//! window and the summary's idempotency id.

use vstd::prelude::*;
use crate::digest_ids::{sha1_hex, sha1_hex_text};
use crate::ordering::{insert_sorted_unique, lex_lt, str_lt, strictly_sorted};
use crate::text::{
    chars_to_string, lower_seq, owned, push_str, str_chars, str_eq, str_to_ascii_lowercase, str_trim,
    trim_seq, chars_eq,
};

verus! {

/// A counter from text keys to counts.
pub struct Counter {
    pub entries: Vec<(String, u64)>,
}

impl Counter {
    /// The counts by key.
    pub open spec fn view_map(&self) -> Map<Seq<char>, nat> {
        Map::new(
            |k: Seq<char>| exists|i: int| 0 <= i < self.entries@.len() && (#[trigger] self.entries@[i]).0@ == k,
            |k: Seq<char>| {
                let i = choose|i: int| 0 <= i < self.entries@.len() && (#[trigger] self.entries@[i]).0@ == k;
                self.entries@[i].1 as nat
            },
        )
    }

    /// No key occurs twice.
    pub open spec fn wf(&self) -> bool {
        forall|i: int, j: int| 0 <= i < j < self.entries@.len() ==> (#[trigger] self.entries@[i]).0@ != (#[trigger] self.entries@[j]).0@
    }

    /// An empty counter.
    pub fn new() -> (c: Self)
        ensures
            c.wf(),
            c.view_map() == Map::<Seq<char>, nat>::empty(),
    {
        let c = Counter { entries: Vec::new() };
        proof {
            assert(c.view_map() =~= Map::<Seq<char>, nat>::empty());
        }
        c
    }

    /// Adds one to `key`'s count.
    pub fn inc(&mut self, key: &str)
        requires
            old(self).wf(),
            old(self).view_map().dom().contains(key@) ==> old(self).view_map()[key@] < u64::MAX,
        ensures
            final(self).wf(),
            final(self).view_map() == old(self).view_map().insert(
                key@,
                if old(self).view_map().dom().contains(key@) { old(self).view_map()[key@] + 1 } else { 1 },
            ),
    {
        let ghost m0 = self.view_map();
        let mut i: usize = 0;
        while i < self.entries.len()
            invariant
                i <= self.entries.len(),
                self.wf(),
                self.view_map() == m0,
                m0 == old(self).view_map(),
                m0.dom().contains(key@) ==> m0[key@] < u64::MAX,
                forall|j: int| 0 <= j < i ==> (#[trigger] self.entries@[j]).0@ != key@,
            decreases self.entries.len() - i,
        {
            if str_eq(self.entries[i].0.as_str(), key) {
                proof {
                    assert(m0.dom().contains(key@));
                    let c = choose|c: int| 0 <= c < self.entries@.len() && (#[trigger] self.entries@[c]).0@ == key@;
                    assert(c == i);
                    assert(m0[key@] == self.entries@[i as int].1 as nat);
                }
                let n = self.entries[i].1 + 1;
                let k = owned(key);
                let ghost old_entries = self.entries@;
                self.entries.set(i, (k, n));
                proof {
                    assert forall|a: int, b: int| 0 <= a < b < self.entries@.len() implies (#[trigger] self.entries@[a]).0@ != (#[trigger] self.entries@[b]).0@ by {
                        assert(old_entries[a].0@ != old_entries[b].0@);
                    }
                    assert(self.view_map() =~= m0.insert(key@, m0[key@] + 1)) by {
                        assert forall|kk: Seq<char>| #[trigger] self.view_map().dom().contains(kk) <==> m0.insert(key@, m0[key@] + 1).dom().contains(kk) by {
                            if self.view_map().dom().contains(kk) {
                                let c = choose|c: int| 0 <= c < self.entries@.len() && (#[trigger] self.entries@[c]).0@ == kk;
                                if c != i {
                                    assert(old_entries[c].0@ == kk);
                                }
                            }
                            if m0.dom().contains(kk) && kk != key@ {
                                let c = choose|c: int| 0 <= c < old_entries.len() && (#[trigger] old_entries[c]).0@ == kk;
                                assert(self.entries@[c].0@ == kk);
                            }
                            if kk == key@ {
                                assert(self.entries@[i as int].0@ == kk);
                            }
                        }
                        assert forall|kk: Seq<char>| #[trigger] self.view_map().dom().contains(kk) implies self.view_map()[kk] == m0.insert(key@, m0[key@] + 1)[kk] by {
                            let c = choose|c: int| 0 <= c < self.entries@.len() && (#[trigger] self.entries@[c]).0@ == kk;
                            if kk == key@ {
                                assert(c == i);
                            } else {
                                let c0 = choose|c: int| 0 <= c < old_entries.len() && (#[trigger] old_entries[c]).0@ == kk;
                                assert(old_entries[c].0@ == kk);
                                assert(c0 == c);
                            }
                        }
                    }
                }
                return;
            }
            i += 1;
        }
        let ghost old_entries = self.entries@;
        proof {
            assert(!m0.dom().contains(key@));
        }
        self.entries.push((owned(key), 1));
        proof {
            assert forall|a: int, b: int| 0 <= a < b < self.entries@.len() implies (#[trigger] self.entries@[a]).0@ != (#[trigger] self.entries@[b]).0@ by {
                if b < old_entries.len() {
                    assert(old_entries[a].0@ != old_entries[b].0@);
                }
            }
            assert(self.view_map() =~= m0.insert(key@, 1)) by {
                assert forall|kk: Seq<char>| #[trigger] self.view_map().dom().contains(kk) <==> m0.insert(key@, 1).dom().contains(kk) by {
                    if self.view_map().dom().contains(kk) {
                        let c = choose|c: int| 0 <= c < self.entries@.len() && (#[trigger] self.entries@[c]).0@ == kk;
                        if c < old_entries.len() {
                            assert(old_entries[c].0@ == kk);
                        }
                    }
                    if m0.dom().contains(kk) {
                        let c = choose|c: int| 0 <= c < old_entries.len() && (#[trigger] old_entries[c]).0@ == kk;
                        assert(self.entries@[c].0@ == kk);
                    }
                    if kk == key@ {
                        assert(self.entries@[old_entries.len() as int].0@ == kk);
                    }
                }
                assert forall|kk: Seq<char>| #[trigger] self.view_map().dom().contains(kk) implies self.view_map()[kk] == m0.insert(key@, 1)[kk] by {
                    let c = choose|c: int| 0 <= c < self.entries@.len() && (#[trigger] self.entries@[c]).0@ == kk;
                    if kk == key@ {
                        assert(c == old_entries.len());
                    } else {
                        let c0 = choose|c: int| 0 <= c < old_entries.len() && (#[trigger] old_entries[c]).0@ == kk;
                        assert(self.entries@[c0].0@ == kk);
                        assert(c0 == c);
                    }
                }
            }
        }
    }
}

/// One telemetry event, as the summary reads it.
pub struct TelemetryEvent {
    pub ts: Option<String>,
    /// `event`, else `event_type`, else `type`.
    pub event: Option<String>,
    /// The payload's `task_type` (the payload is the event itself when it
    /// has none).
    pub task_type: Option<String>,
    pub provider_id: Option<String>,
    pub model_id: Option<String>,
    /// The payload's `reason`, else its `error`.
    pub reason: Option<String>,
    pub error: Option<String>,
    pub ok: Option<bool>,
    pub action: Option<String>,
}

/// Where an event came from.
#[derive(Debug, Clone, Copy, PartialEq, Eq, Structural)]
pub enum TelemetrySource {
    State,
    Governance,
}

/// The running telemetry summary.
pub struct TelemetrySummary {
    pub first_ts: Option<String>,
    pub last_ts: Option<String>,
    pub state_events_used: u64,
    pub governance_events_used: u64,
    pub route_success_count: u64,
    pub route_failure_count: u64,
    pub event_counts: Counter,
    pub provider_selection_counts: Counter,
    pub model_selection_counts: Counter,
    pub task_type_counts: Counter,
    pub failure_reason_counts: Counter,
    pub provider_failure_counts: Counter,
    pub cooldown_counts: Counter,
    pub echo_gate_action_counts: Counter,
    /// Every provider seen, in increasing order.
    pub observed_providers: Vec<String>,
}

/// The map with `key` counted once more.
pub open spec fn bump(m: Map<Seq<char>, nat>, key: Seq<char>) -> Map<Seq<char>, nat> {
    m.insert(key, if m.dom().contains(key) { m[key] + 1 } else { 1 })
}

/// The map with the key counted once more when present.
pub open spec fn bump_opt(m: Map<Seq<char>, nat>, key: Option<String>) -> Map<Seq<char>, nat> {
    match key {
        Some(k) => bump(m, k@),
        None => m,
    }
}

/// The optional text, or the default.
pub open spec fn text_or(v: Option<String>, d: Seq<char>) -> Seq<char> {
    match v {
        Some(s) => s@,
        None => d,
    }
}

/// All counters are well formed and far from overflowing.
pub open spec fn summary_ok(s: TelemetrySummary) -> bool {
    &&& s.event_counts.wf() && s.provider_selection_counts.wf() && s.model_selection_counts.wf()
    &&& s.task_type_counts.wf() && s.failure_reason_counts.wf() && s.provider_failure_counts.wf()
    &&& s.cooldown_counts.wf() && s.echo_gate_action_counts.wf()
    &&& strictly_sorted(s.observed_providers.deep_view())
}

/// No counter has reached the largest `u64`.
pub open spec fn room_to_count(s: TelemetrySummary) -> bool {
    &&& s.state_events_used < u64::MAX && s.governance_events_used < u64::MAX
    &&& s.route_success_count < u64::MAX && s.route_failure_count < u64::MAX
    &&& forall|k: Seq<char>| #[trigger] s.event_counts.view_map().dom().contains(k) ==> s.event_counts.view_map()[k] < u64::MAX
    &&& forall|k: Seq<char>| #[trigger] s.provider_selection_counts.view_map().dom().contains(k) ==> s.provider_selection_counts.view_map()[k] < u64::MAX
    &&& forall|k: Seq<char>| #[trigger] s.model_selection_counts.view_map().dom().contains(k) ==> s.model_selection_counts.view_map()[k] < u64::MAX
    &&& forall|k: Seq<char>| #[trigger] s.task_type_counts.view_map().dom().contains(k) ==> s.task_type_counts.view_map()[k] < u64::MAX
    &&& forall|k: Seq<char>| #[trigger] s.failure_reason_counts.view_map().dom().contains(k) ==> s.failure_reason_counts.view_map()[k] < u64::MAX
    &&& forall|k: Seq<char>| #[trigger] s.provider_failure_counts.view_map().dom().contains(k) ==> s.provider_failure_counts.view_map()[k] < u64::MAX
    &&& forall|k: Seq<char>| #[trigger] s.cooldown_counts.view_map().dom().contains(k) ==> s.cooldown_counts.view_map()[k] < u64::MAX
    &&& forall|k: Seq<char>| #[trigger] s.echo_gate_action_counts.view_map().dom().contains(k) ==> s.echo_gate_action_counts.view_map()[k] < u64::MAX
}

/// The earliest and latest timestamps after seeing `ts`.
pub open spec fn earliest(cur: Option<String>, ts: Seq<char>) -> Seq<char> {
    match cur {
        Some(t) => if lex_lt(ts, t@) { ts } else { t@ },
        None => ts,
    }
}

/// The latest timestamp after seeing `ts`.
pub open spec fn latest(cur: Option<String>, ts: Seq<char>) -> Seq<char> {
    match cur {
        Some(t) => if lex_lt(t@, ts) { ts } else { t@ },
        None => ts,
    }
}

/// The kinds of routing events the summary tells apart.
#[derive(Debug, Clone, Copy, PartialEq, Eq, Structural)]
pub enum EventKind {
    RouteSelected,
    RouteFailed,
    ProviderResult,
    Cooldown,
    EchoGate,
    Other,
}

/// The kind of an event name.
pub open spec fn kind_of(name: Seq<char>) -> EventKind {
    if name == "route_selected"@ {
        EventKind::RouteSelected
    } else if name == "route_failed"@ {
        EventKind::RouteFailed
    } else if name == "provider_result"@ || name == "model_result"@ {
        EventKind::ProviderResult
    } else if name == "provider_cooldown"@ || name == "route_cooldown_bypass"@ {
        EventKind::Cooldown
    } else if name == "echo_gate"@ {
        EventKind::EchoGate
    } else {
        EventKind::Other
    }
}

/// Classifies an event name.
pub fn event_kind(name: &str) -> (k: EventKind)
    ensures
        k == kind_of(name@),
{
    if str_eq(name, "route_selected") {
        EventKind::RouteSelected
    } else if str_eq(name, "route_failed") {
        EventKind::RouteFailed
    } else if str_eq(name, "provider_result") || str_eq(name, "model_result") {
        EventKind::ProviderResult
    } else if str_eq(name, "provider_cooldown") || str_eq(name, "route_cooldown_bypass") {
        EventKind::Cooldown
    } else if str_eq(name, "echo_gate") {
        EventKind::EchoGate
    } else {
        EventKind::Other
    }
}

/// The summary after observing event `e` from `src` (`n` is the summary
/// after, `o` before).
pub open spec fn observed(o: TelemetrySummary, e: TelemetryEvent, src: TelemetrySource, n: TelemetrySummary) -> bool {
    let name = text_or(e.event, "unknown"@);
    let kind = kind_of(name);
    let selected = kind == EventKind::RouteSelected;
    let failed = kind == EventKind::RouteFailed;
    let result_failed = kind == EventKind::ProviderResult && e.provider_id is Some && e.ok == Some(false);
    let provider_seen = e.provider_id is Some && kind != EventKind::EchoGate && kind != EventKind::Other;
    &&& n.state_events_used == o.state_events_used + if src == TelemetrySource::State { 1int } else { 0 }
    &&& n.governance_events_used == o.governance_events_used + if src == TelemetrySource::Governance { 1int } else { 0 }
    &&& match e.ts {
        Some(ts) => opt_text(n.first_ts) == Some(earliest(o.first_ts, ts@)) && opt_text(n.last_ts) == Some(latest(o.last_ts, ts@)),
        None => opt_text(n.first_ts) == opt_text(o.first_ts) && opt_text(n.last_ts) == opt_text(o.last_ts),
    }
    &&& n.event_counts.view_map() == bump(o.event_counts.view_map(), name)
    &&& n.task_type_counts.view_map() == bump_opt(o.task_type_counts.view_map(), e.task_type)
    &&& n.route_success_count == o.route_success_count + if selected { 1int } else { 0 }
    &&& n.route_failure_count == o.route_failure_count + if failed { 1int } else { 0 }
    &&& n.provider_selection_counts.view_map() == if selected { bump_opt(o.provider_selection_counts.view_map(), e.provider_id) } else { o.provider_selection_counts.view_map() }
    &&& n.model_selection_counts.view_map() == if selected { bump_opt(o.model_selection_counts.view_map(), e.model_id) } else { o.model_selection_counts.view_map() }
    &&& n.provider_failure_counts.view_map() == if failed || result_failed { bump_opt(o.provider_failure_counts.view_map(), e.provider_id) } else { o.provider_failure_counts.view_map() }
    &&& n.failure_reason_counts.view_map() == if failed {
        bump(o.failure_reason_counts.view_map(), text_or(e.reason, "unspecified"@))
    } else if result_failed {
        bump(o.failure_reason_counts.view_map(), text_or(e.error, "provider_result_not_ok"@))
    } else {
        o.failure_reason_counts.view_map()
    }
    &&& n.cooldown_counts.view_map() == if kind == EventKind::Cooldown { bump_opt(o.cooldown_counts.view_map(), e.provider_id) } else { o.cooldown_counts.view_map() }
    &&& n.echo_gate_action_counts.view_map() == if kind == EventKind::EchoGate { bump(o.echo_gate_action_counts.view_map(), text_or(e.action, "unknown"@)) } else { o.echo_gate_action_counts.view_map() }
    &&& n.observed_providers.deep_view().to_set() == if provider_seen {
        o.observed_providers.deep_view().to_set().insert(e.provider_id.unwrap()@)
    } else {
        o.observed_providers.deep_view().to_set()
    }
}

/// The optional text as a view.
pub open spec fn opt_text(v: Option<String>) -> Option<Seq<char>> {
    match v {
        Some(s) => Some(s@),
        None => None,
    }
}

fn copy_opt(v: &Option<String>) -> (r: Option<String>)
    ensures
        opt_text(r) == opt_text(*v),
{
    match v {
        Some(s) => Some(owned(s.as_str())),
        None => None,
    }
}

impl TelemetrySummary {
    /// An empty summary.
    pub fn new() -> (s: Self)
        ensures
            summary_ok(s),
            s.state_events_used == 0 && s.governance_events_used == 0,
            s.route_success_count == 0 && s.route_failure_count == 0,
            s.first_ts is None && s.last_ts is None,
            s.observed_providers@.len() == 0,
            s.event_counts.view_map() == Map::<Seq<char>, nat>::empty(),
    {
        let s = TelemetrySummary {
            first_ts: None,
            last_ts: None,
            state_events_used: 0,
            governance_events_used: 0,
            route_success_count: 0,
            route_failure_count: 0,
            event_counts: Counter::new(),
            provider_selection_counts: Counter::new(),
            model_selection_counts: Counter::new(),
            task_type_counts: Counter::new(),
            failure_reason_counts: Counter::new(),
            provider_failure_counts: Counter::new(),
            cooldown_counts: Counter::new(),
            echo_gate_action_counts: Counter::new(),
            observed_providers: Vec::new(),
        };
        proof {
            assert(s.observed_providers.deep_view() =~= Seq::<Seq<char>>::empty());
        }
        s
    }

    /// Folds one event into the summary: its timestamp widens the observed
    /// period; it is counted by event and task type; route selections and
    /// failures, failed provider results, cooldowns and echo-gate actions
    /// feed their own counters; providers seen are remembered.
    pub fn observe_event(&mut self, e: &TelemetryEvent, src: TelemetrySource)
        requires
            summary_ok(*old(self)),
            room_to_count(*old(self)),
        ensures
            summary_ok(*final(self)),
            observed(*old(self), *e, src, *final(self)),
    {
        match src {
            TelemetrySource::State => { self.state_events_used = self.state_events_used + 1; },
            TelemetrySource::Governance => { self.governance_events_used = self.governance_events_used + 1; },
        }
        note_timestamp(&mut self.first_ts, &mut self.last_ts, &e.ts);
        let name = match &e.event {
            Some(n) => owned(n.as_str()),
            None => owned("unknown"),
        };
        self.event_counts.inc(name.as_str());
        inc_opt(&mut self.task_type_counts, &e.task_type);
        let kind = event_kind(name.as_str());
        match kind {
            EventKind::RouteSelected => {
                self.route_success_count = self.route_success_count + 1;
                inc_opt(&mut self.provider_selection_counts, &e.provider_id);
                inc_opt(&mut self.model_selection_counts, &e.model_id);
            },
            EventKind::RouteFailed => {
                self.route_failure_count = self.route_failure_count + 1;
                inc_opt(&mut self.provider_failure_counts, &e.provider_id);
                inc_or(&mut self.failure_reason_counts, &e.reason, "unspecified");
            },
            EventKind::ProviderResult => {
                if e.provider_id.is_some() && e.ok == Some(false) {
                    inc_opt(&mut self.provider_failure_counts, &e.provider_id);
                    inc_or(&mut self.failure_reason_counts, &e.error, "provider_result_not_ok");
                }
            },
            EventKind::Cooldown => {
                inc_opt(&mut self.cooldown_counts, &e.provider_id);
            },
            EventKind::EchoGate => {
                inc_or(&mut self.echo_gate_action_counts, &e.action, "unknown");
            },
            EventKind::Other => {},
        }
        match kind {
            EventKind::EchoGate | EventKind::Other => {},
            _ => {
                match &e.provider_id {
                    Some(p) => insert_sorted_unique(&mut self.observed_providers, p.as_str()),
                    None => {},
                }
            },
        }
    }
}

fn note_timestamp(first: &mut Option<String>, last: &mut Option<String>, ts: &Option<String>)
    ensures
        match *ts {
            Some(t) => opt_text(*final(first)) == Some(earliest(*old(first), t@)) && opt_text(*final(last)) == Some(latest(*old(last), t@)),
            None => opt_text(*final(first)) == opt_text(*old(first)) && opt_text(*final(last)) == opt_text(*old(last)),
        },
{
    match ts {
        Some(t) => {
            let keep_first = match first {
                Some(f) => !str_lt(t.as_str(), f.as_str()),
                None => false,
            };
            if !keep_first {
                *first = Some(owned(t.as_str()));
            }
            let keep_last = match last {
                Some(l) => !str_lt(l.as_str(), t.as_str()),
                None => false,
            };
            if !keep_last {
                *last = Some(owned(t.as_str()));
            }
        },
        None => {},
    }
}

fn inc_opt(c: &mut Counter, key: &Option<String>)
    requires
        old(c).wf(),
        forall|k: Seq<char>| #[trigger] old(c).view_map().dom().contains(k) ==> old(c).view_map()[k] < u64::MAX,
    ensures
        final(c).wf(),
        final(c).view_map() == bump_opt(old(c).view_map(), *key),
{
    match key {
        Some(k) => c.inc(k.as_str()),
        None => {},
    }
}

fn inc_or(c: &mut Counter, key: &Option<String>, default: &str)
    requires
        old(c).wf(),
        forall|k: Seq<char>| #[trigger] old(c).view_map().dom().contains(k) ==> old(c).view_map()[k] < u64::MAX,
    ensures
        final(c).wf(),
        final(c).view_map() == bump(old(c).view_map(), text_or(*key, default@)),
{
    match key {
        Some(k) => c.inc(k.as_str()),
        None => c.inc(default),
    }
}

/// Entries ranked busiest first, ties by key.
pub open spec fn ranks_before(a: (Seq<char>, nat), b: (Seq<char>, nat)) -> bool {
    a.1 > b.1 || (a.1 == b.1 && lex_lt(a.0, b.0))
}

/// The busiest `limit` entries of a counter, busiest first and ties in key
/// order: `out` holds that many entries of the counter, ranked, and every
/// entry left out ranks after all of them.
pub open spec fn top_entries(entries: Seq<(Seq<char>, nat)>, limit: nat, out: Seq<(Seq<char>, nat)>) -> bool {
    &&& out.len() == if limit <= entries.len() { limit } else { entries.len() }
    &&& forall|i: int, j: int| 0 <= i < j < out.len() ==> ranks_before(#[trigger] out[i], #[trigger] out[j])
    &&& forall|i: int| 0 <= i < out.len() ==> entries.contains(#[trigger] out[i])
    &&& forall|e: (Seq<char>, nat), i: int| #![trigger entries.contains(e), out[i]]
        entries.contains(e) && !out.contains(e) && 0 <= i < out.len() ==> ranks_before(out[i], e)
}

/// The counter's entries as key and count.
pub open spec fn entry_views(c: Counter) -> Seq<(Seq<char>, nat)> {
    c.entries@.map_values(|e: (String, u64)| (e.0@, e.1 as nat))
}

/// A ranked pair view.
pub open spec fn pair_view(e: (String, u64)) -> (Seq<char>, nat) {
    (e.0@, e.1 as nat)
}

proof fn lemma_rank_total(a: (Seq<char>, nat), b: (Seq<char>, nat))
    ensures
        a.0 != b.0 ==> (ranks_before(a, b) || ranks_before(b, a)),
        !(ranks_before(a, b) && ranks_before(b, a)),
        !ranks_before(a, a),
{
    crate::ordering::lemma_lex_total(a.0, b.0);
}

proof fn lemma_rank_trans(a: (Seq<char>, nat), b: (Seq<char>, nat), c: (Seq<char>, nat))
    requires
        ranks_before(a, b),
        ranks_before(b, c),
    ensures
        ranks_before(a, c),
{
    if a.1 == b.1 && b.1 == c.1 {
        crate::ordering::lemma_lex_trans(a.0, b.0, c.0);
    }
}

/// The list is ranked strictly.
pub open spec fn ranked(s: Seq<(Seq<char>, nat)>) -> bool {
    forall|i: int, j: int| 0 <= i < j < s.len() ==> ranks_before(#[trigger] s[i], #[trigger] s[j])
}

fn ranks_before_exec(a: &(String, u64), b: &(String, u64)) -> (r: bool)
    ensures
        r == ranks_before(pair_view(*a), pair_view(*b)),
{
    a.1 > b.1 || (a.1 == b.1 && str_lt(a.0.as_str(), b.0.as_str()))
}

/// The counter's entries ranked busiest first, ties by key.
fn rank_entries(c: &Counter) -> (out: Vec<(String, u64)>)
    requires
        c.wf(),
    ensures
        ranked(out@.map_values(|e: (String, u64)| pair_view(e))),
        out@.map_values(|e: (String, u64)| pair_view(e)).to_set() == entry_views(*c).to_set(),
        out@.len() == c.entries@.len(),
{
    let ghost ev = entry_views(*c);
    let mut out: Vec<(String, u64)> = Vec::new();
    let mut i: usize = 0;
    while i < c.entries.len()
        invariant
            i <= c.entries.len(),
            c.wf(),
            ev == entry_views(*c),
            out@.len() == i,
            ranked(out@.map_values(|e: (String, u64)| pair_view(e))),
            out@.map_values(|e: (String, u64)| pair_view(e)).to_set() == ev.subrange(0, i as int).to_set(),
        decreases c.entries.len() - i,
    {
        let ghost s0 = out@.map_values(|e: (String, u64)| pair_view(e));
        let item = (owned(c.entries[i].0.as_str()), c.entries[i].1);
        let ghost x = pair_view(item);
        proof {
            assert(x == ev[i as int]);
        }
        let mut k: usize = 0;
        while k < out.len() && ranks_before_exec(&out[k], &item)
            invariant
                k <= out@.len(),
                x == pair_view(item),
                s0 == out@.map_values(|e: (String, u64)| pair_view(e)),
                forall|j: int| 0 <= j < k ==> ranks_before(#[trigger] s0[j], x),
            decreases out.len() - k,
        {
            k += 1;
        }
        proof {
            // x's key differs from every key already placed: keys are distinct
            assert forall|j: int| 0 <= j < s0.len() implies (#[trigger] s0[j]).0 != x.0 by {
                assert(s0.to_set().contains(s0[j]));
                assert(ev.subrange(0, i as int).contains(s0[j]));
                let m = choose|m: int| 0 <= m < i && ev.subrange(0, i as int)[m] == s0[j];
                assert(ev[m] == s0[j]);
                assert(c.entries@[m].0@ != c.entries@[i as int].0@);
            }
            assert forall|j: int| k <= j < s0.len() implies ranks_before(x, #[trigger] s0[j]) by {
                lemma_rank_total(x, s0[k as int]);
                if j > k {
                    lemma_rank_trans(x, s0[k as int], s0[j]);
                }
            }
            let t = s0.insert(k as int, x);
            assert forall|a: int, b: int| 0 <= a < b < t.len() implies ranks_before(#[trigger] t[a], #[trigger] t[b]) by {
                if a < k && b < k {
                } else if a < k && b == k {
                } else if a < k {
                    assert(t[b] == s0[b - 1]);
                } else if a == k {
                    assert(t[b] == s0[b - 1]);
                } else {
                    assert(t[a] == s0[a - 1]);
                    assert(t[b] == s0[b - 1]);
                }
            }
            assert(t.to_set() =~= ev.subrange(0, i + 1).to_set()) by {
                let p = ev.subrange(0, i as int);
                let q = ev.subrange(0, i + 1);
                assert(q =~= p.push(x));
                assert forall|y: (Seq<char>, nat)| t.to_set().contains(y) <==> q.to_set().contains(y) by {
                    if t.contains(y) {
                        let j = choose|j: int| 0 <= j < t.len() && t[j] == y;
                        if j < k {
                            assert(s0[j] == y);
                            assert(s0.to_set().contains(y));
                            let m = choose|m: int| 0 <= m < p.len() && p[m] == y;
                            assert(q[m] == y);
                        } else if j > k {
                            assert(s0[j - 1] == y);
                            assert(s0.to_set().contains(y));
                            let m = choose|m: int| 0 <= m < p.len() && p[m] == y;
                            assert(q[m] == y);
                        } else {
                            assert(q[i as int] == y);
                        }
                    }
                    if q.contains(y) {
                        let m = choose|m: int| 0 <= m < q.len() && q[m] == y;
                        if m < i {
                            assert(p[m] == y);
                            assert(p.to_set().contains(y));
                            let j = choose|j: int| 0 <= j < s0.len() && s0[j] == y;
                            if j < k {
                                assert(t[j] == y);
                            } else {
                                assert(t[j + 1] == y);
                            }
                        } else {
                            assert(t[k as int] == y);
                        }
                    }
                }
            }
        }
        out.insert(k, item);
        proof {
            assert(out@.map_values(|e: (String, u64)| pair_view(e)) =~= s0.insert(k as int, x));
        }
        i += 1;
    }
    proof {
        assert(ev.subrange(0, ev.len() as int) =~= ev);
    }
    out
}

/// The busiest `limit` entries of a counter, busiest first, ties by key.
pub fn top_map(c: &Counter, limit: usize) -> (out: Vec<(String, u64)>)
    requires
        c.wf(),
    ensures
        top_entries(entry_views(*c), limit as nat, out@.map_values(|e: (String, u64)| pair_view(e))),
{
    let ranked_all = rank_entries(c);
    let ghost r = ranked_all@.map_values(|e: (String, u64)| pair_view(e));
    let ghost ev = entry_views(*c);
    let lim = if limit <= ranked_all.len() { limit } else { ranked_all.len() };
    let mut out: Vec<(String, u64)> = Vec::new();
    let mut i: usize = 0;
    while i < lim
        invariant
            i <= lim,
            lim <= ranked_all@.len(),
            r == ranked_all@.map_values(|e: (String, u64)| pair_view(e)),
            out@.map_values(|e: (String, u64)| pair_view(e)) == r.subrange(0, i as int),
        decreases lim - i,
    {
        let item = (owned(ranked_all[i].0.as_str()), ranked_all[i].1);
        let ghost before = out@.map_values(|e: (String, u64)| pair_view(e));
        out.push(item);
        proof {
            assert(out@.map_values(|e: (String, u64)| pair_view(e)) =~= before.push(r[i as int]));
            assert(r.subrange(0, i + 1) =~= r.subrange(0, i as int).push(r[i as int]));
        }
        i += 1;
    }
    proof {
        let o = out@.map_values(|e: (String, u64)| pair_view(e));
        assert(o == r.subrange(0, lim as int));
        assert forall|a: int| 0 <= a < o.len() implies ev.contains(#[trigger] o[a]) by {
            assert(r.to_set().contains(r[a]));
        }
        assert forall|e: (Seq<char>, nat), a: int| #![trigger ev.contains(e), o[a]]
            ev.contains(e) && !o.contains(e) && 0 <= a < o.len() implies ranks_before(o[a], e) by {
            assert(ev.to_set().contains(e));
            assert(r.contains(e));
            let j = choose|j: int| 0 <= j < r.len() && r[j] == e;
            if j < lim {
                assert(o[j] == e);
            }
            assert(o[a] == r[a]);
        }
    }
    out
}

/// A recommendation of the telemetry report.
#[derive(Debug, Clone, Copy, PartialEq, Eq, Structural)]
pub enum TelemetryAdvice {
    ReviewFailures,
    CheckCooldowns,
    RepairMalformedLines,
    WidenWindow,
    KeepReviewGated,
}

impl TelemetryAdvice {
    /// The recommendation's text.
    pub fn text(&self) -> (s: &'static str)
        ensures
            s@ == advice_text(*self),
    {
        match self {
            TelemetryAdvice::ReviewFailures => "Review top provider_failure_counts and failure_reason_counts before changing routing weights.",
            TelemetryAdvice::CheckCooldowns => "Providers entering cooldown should be checked for quota, payload compatibility, or local service health drift.",
            TelemetryAdvice::RepairMalformedLines => "Repair or quarantine malformed telemetry lines so long-run reports remain fully parseable.",
            TelemetryAdvice::WidenWindow => "No telemetry events matched this window; widen --since or verify dManwe ledger paths.",
            TelemetryAdvice::KeepReviewGated => "Keep this summary review-gated; do not use it to mutate routing policy without a separate operator-approved change.",
        }
    }
}

/// The text of a recommendation.
pub open spec fn advice_text(a: TelemetryAdvice) -> Seq<char> {
    match a {
        TelemetryAdvice::ReviewFailures => "Review top provider_failure_counts and failure_reason_counts before changing routing weights."@,
        TelemetryAdvice::CheckCooldowns => "Providers entering cooldown should be checked for quota, payload compatibility, or local service health drift."@,
        TelemetryAdvice::RepairMalformedLines => "Repair or quarantine malformed telemetry lines so long-run reports remain fully parseable."@,
        TelemetryAdvice::WidenWindow => "No telemetry events matched this window; widen --since or verify dManwe ledger paths."@,
        TelemetryAdvice::KeepReviewGated => "Keep this summary review-gated; do not use it to mutate routing policy without a separate operator-approved change."@,
    }
}

/// The advice owed: route failures, cooldowns, malformed lines and an
/// empty window each add their own; the review-gate reminder always closes
/// the list.
pub open spec fn advice_for(failures: u64, cooldowns_seen: bool, malformed: nat, events_used: nat) -> Seq<TelemetryAdvice> {
    (if failures > 0 { seq![TelemetryAdvice::ReviewFailures] } else { Seq::empty() })
        + (if cooldowns_seen { seq![TelemetryAdvice::CheckCooldowns] } else { Seq::empty() })
        + (if malformed > 0 { seq![TelemetryAdvice::RepairMalformedLines] } else { Seq::empty() })
        + (if events_used == 0 { seq![TelemetryAdvice::WidenWindow] } else { Seq::empty() })
        + seq![TelemetryAdvice::KeepReviewGated]
}

/// Recommends next steps from the summary and the malformed-line counts.
pub fn build_recommendations(s: &TelemetrySummary, malformed_state: usize, malformed_governance: usize) -> (out: Vec<TelemetryAdvice>)
    ensures
        out@ == advice_for(
            s.route_failure_count,
            s.cooldown_counts.entries@.len() > 0,
            malformed_state as nat + malformed_governance as nat,
            s.state_events_used as nat + s.governance_events_used as nat,
        ),
{
    let mut out: Vec<TelemetryAdvice> = Vec::new();
    if s.route_failure_count > 0 {
        out.push(TelemetryAdvice::ReviewFailures);
    }
    if s.cooldown_counts.entries.len() > 0 {
        out.push(TelemetryAdvice::CheckCooldowns);
    }
    if malformed_state > 0 || malformed_governance > 0 {
        out.push(TelemetryAdvice::RepairMalformedLines);
    }
    if s.state_events_used == 0 && s.governance_events_used == 0 {
        out.push(TelemetryAdvice::WidenWindow);
    }
    out.push(TelemetryAdvice::KeepReviewGated);
    proof {
        assert(out@ =~= advice_for(
            s.route_failure_count,
            s.cooldown_counts.entries@.len() > 0,
            malformed_state as nat + malformed_governance as nat,
            s.state_events_used as nat + s.governance_events_used as nat,
        ));
    }
    out
}

/// The report window asked for with `--since`.
pub enum SinceWindow {
    /// Every event.
    All,
    /// The last so many days.
    Days(i64),
    /// The last so many hours.
    Hours(i64),
    /// Events at or after an RFC 3339 instant, given as text.
    Instant(String),
}

/// The value of an optionally signed run of ASCII digits (`str::parse`
/// for `i64`), if it is one and fits.
pub open spec fn digits_value(s: Seq<char>) -> int
    decreases s.len(),
{
    if s.len() == 0 { 0 } else { digits_value(s.drop_last()) * 10 + (s.last() as int - '0' as int) }
}

/// All characters are ASCII digits.
pub open spec fn all_digits(s: Seq<char>) -> bool {
    forall|i: int| 0 <= i < s.len() ==> '0' <= #[trigger] s[i] && s[i] <= '9'
}

/// The integer `s` spells, if it spells one that fits in `i64`.
pub open spec fn parsed_i64(s: Seq<char>) -> Option<int> {
    let neg = s.len() > 0 && s[0] == '-';
    let signed = s.len() > 0 && (s[0] == '-' || s[0] == '+');
    let body = if signed { s.subrange(1, s.len() as int) } else { s };
    if body.len() == 0 || !all_digits(body) {
        None
    } else {
        let v = if neg { -digits_value(body) } else { digits_value(body) };
        if i64::MIN <= v <= i64::MAX { Some(v) } else { None }
    }
}

/// Parses an `i64` from text (`str::parse::<i64>`).
pub fn parse_i64(s: &Vec<char>) -> (r: Option<i64>)
    ensures
        match r {
            Some(v) => parsed_i64(s@) == Some(v as int),
            None => parsed_i64(s@) is None,
        },
{
    let neg = s.len() > 0 && s[0] == '-';
    let signed = s.len() > 0 && (s[0] == '-' || s[0] == '+');
    let start: usize = if signed { 1 } else { 0 };
    if start >= s.len() {
        proof {
            assert(s@.subrange(start as int, s@.len() as int).len() == 0);
        }
        return None;
    }
    let ghost body = s@.subrange(start as int, s@.len() as int);
    let mut acc: i128 = 0;
    let mut i: usize = start;
    while i < s.len()
        invariant
            start <= i <= s.len(),
            start < s.len(),
            neg == (s@.len() > 0 && s@[0] == '-'),
            signed == (s@.len() > 0 && (s@[0] == '-' || s@[0] == '+')),
            start == (if signed { 1usize } else { 0usize }),
            body == s@.subrange(start as int, s@.len() as int),
            all_digits(s@.subrange(start as int, i as int)),
            acc as int == digits_value(s@.subrange(start as int, i as int)),
            0 <= acc <= 9223372036854775808i128,
        decreases s.len() - i,
    {
        let c = s[i];
        if !('0' <= c && c <= '9') {
            proof {
                assert(!('0' <= body[i - start] && body[i - start] <= '9'));
                assert(!all_digits(body));
                if !signed {
                    assert(body =~= s@);
                }
            }
            return None;
        }
        let d = (c as u32 - '0' as u32) as i128;
        let next = acc * 10 + d;
        proof {
            let sub = s@.subrange(start as int, i + 1);
            assert(sub.drop_last() =~= s@.subrange(start as int, i as int));
            assert(sub.last() == c);
            assert(all_digits(sub));
        }
        if next > 9223372036854775808i128 {
            proof {
                assert(s@.subrange(start as int, i + 1) =~= body.subrange(0, (i + 1 - start) as int));
                lemma_digits_grow(body, (i + 1 - start) as int);
                if !signed {
                    assert(body =~= s@);
                }
            }
            return None;
        }
        acc = next;
        i += 1;
    }
    proof {
        assert(s@.subrange(start as int, i as int) =~= body);
        if !signed {
            assert(body =~= s@);
        }
    }
    if neg {
        let v = -acc;
        if v < -9223372036854775808i128 {
            return None;
        }
        Some(v as i64)
    } else {
        if acc > 9223372036854775807i128 {
            return None;
        }
        Some(acc as i64)
    }
}

proof fn lemma_digits_grow(body: Seq<char>, n: int)
    requires
        0 < n <= body.len(),
        all_digits(body.subrange(0, n)),
    ensures
        all_digits(body) ==> digits_value(body) >= digits_value(body.subrange(0, n)),
    decreases body.len() - n,
{
    if n < body.len() && all_digits(body) {
        assert(all_digits(body.subrange(0, n + 1)));
        lemma_digits_grow(body, n + 1);
        let s = body.subrange(0, n + 1);
        assert(s.drop_last() =~= body.subrange(0, n));
        assert(digits_value(body.subrange(0, n)) >= 0) by {
            lemma_digits_nonneg(body.subrange(0, n));
        }
    } else if n == body.len() {
        assert(body.subrange(0, n) =~= body);
    }
}

proof fn lemma_digits_nonneg(s: Seq<char>)
    requires
        all_digits(s),
    ensures
        digits_value(s) >= 0,
    decreases s.len(),
{
    if s.len() > 0 {
        assert(all_digits(s.drop_last())) by {
            assert forall|i: int| 0 <= i < s.drop_last().len() implies '0' <= #[trigger] s.drop_last()[i] && s.drop_last()[i] <= '9' by {
                assert(s.drop_last()[i] == s[i]);
            }
        }
        lemma_digits_nonneg(s.drop_last());
    }
}

/// The window a `--since` value asks for.
pub open spec fn since_window_of(since: Option<Seq<char>>) -> (int, Seq<char>) {
    // (0: all, 1: days, 2: hours, 3: instant) with the number or the text
    match since {
        None => (0, Seq::empty()),
        Some(raw) => {
            let t = trim_seq(raw);
            if t.len() == 0 || lower_seq(t) == "all"@ {
                (0, Seq::empty())
            } else if t.last() == 'd' && parsed_i64(t.drop_last()) is Some {
                (1, t)
            } else if t.last() == 'h' && parsed_i64(t.drop_last()) is Some {
                (2, t)
            } else {
                (3, t)
            }
        },
    }
}

/// Reads a `--since` value: absent, blank or `all` means every event;
/// `<n>d` and `<n>h` mean the last days or hours; anything else is an
/// RFC 3339 instant.
pub fn parse_since(since: Option<&str>) -> (r: SinceWindow)
    ensures
        match r {
            SinceWindow::All => since_window_of(since_view(since)).0 == 0,
            SinceWindow::Days(n) => since_window_of(since_view(since)).0 == 1
                && parsed_i64(since_window_of(since_view(since)).1.drop_last()) == Some(n as int),
            SinceWindow::Hours(n) => since_window_of(since_view(since)).0 == 2
                && parsed_i64(since_window_of(since_view(since)).1.drop_last()) == Some(n as int),
            SinceWindow::Instant(t) => since_window_of(since_view(since)).0 == 3 && since_window_of(since_view(since)).1 == t@,
        },
{
    let raw = match since {
        Some(r) => r,
        None => return SinceWindow::All,
    };
    let t = str_trim(raw);
    let lower = str_to_ascii_lowercase(chars_to_string(t.as_slice()).as_str());
    if t.len() == 0 || chars_eq(&lower, &str_chars("all")) {
        return SinceWindow::All;
    }
    let mut head: Vec<char> = Vec::new();
    let mut i: usize = 0;
    while i + 1 < t.len()
        invariant
            i + 1 <= t@.len(),
            head@ == t@.subrange(0, i as int),
        decreases t.len() - i,
    {
        head.push(t[i]);
        proof {
            assert(t@.subrange(0, i + 1) =~= t@.subrange(0, i as int).push(t@[i as int]));
        }
        i += 1;
    }
    proof {
        assert(head@ =~= t@.drop_last());
    }
    let last = t[t.len() - 1];
    if last == 'd' {
        match parse_i64(&head) {
            Some(n) => return SinceWindow::Days(n),
            None => {},
        }
    }
    if last == 'h' {
        match parse_i64(&head) {
            Some(n) => return SinceWindow::Hours(n),
            None => {},
        }
    }
    SinceWindow::Instant(chars_to_string(t.as_slice()))
}

/// The optional text as a view.
pub open spec fn since_view(s: Option<&str>) -> Option<Seq<char>> {
    match s {
        Some(x) => Some(x@),
        None => None,
    }
}

/// Writing a summary needs a non-blank justification.
pub fn write_allowed(write: bool, justification: Option<&str>) -> (r: bool)
    ensures
        r == (!write || match justification {
            Some(j) => trim_seq(j@).len() > 0,
            None => false,
        }),
{
    if !write {
        return true;
    }
    match justification {
        Some(j) => str_trim(j).len() > 0,
        None => false,
    }
}

/// The id of a telemetry summary: `manwe_telemetry_` and the hex SHA-1 of
/// its canonical JSON text.
pub fn telemetry_summary_id(canonical_json: &str) -> (s: String)
    ensures
        s@ == "manwe_telemetry_"@ + sha1_hex_text(canonical_json@),
{
    let h = sha1_hex(canonical_json);
    let mut out: Vec<char> = Vec::new();
    push_str(&mut out, "manwe_telemetry_");
    push_str(&mut out, h.as_str());
    chars_to_string(out.as_slice())
}

/// Each used line followed by a newline: the text a source's digest covers.
pub open spec fn digest_input(lines: Seq<Seq<char>>) -> Seq<char>
    decreases lines.len(),
{
    if lines.len() == 0 { Seq::empty() } else { digest_input(lines.drop_last()) + lines.last() + "\n"@ }
}

/// The hex SHA-1 of the lines a source contributed.
pub fn source_digest(lines: &Vec<String>) -> (s: String)
    ensures
        s@ == sha1_hex_text(digest_input(lines.deep_view())),
{
    let mut text: Vec<char> = Vec::new();
    let mut i: usize = 0;
    while i < lines.len()
        invariant
            i <= lines.len(),
            text@ == digest_input(lines.deep_view().subrange(0, i as int)),
        decreases lines.len() - i,
    {
        push_str(&mut text, lines[i].as_str());
        push_str(&mut text, "\n");
        proof {
            let sub = lines.deep_view().subrange(0, i + 1);
            assert(sub.drop_last() =~= lines.deep_view().subrange(0, i as int));
            assert(sub.last() == lines@[i as int]@);
        }
        i += 1;
    }
    proof {
        assert(lines.deep_view().subrange(0, lines.deep_view().len() as int) =~= lines.deep_view());
    }
    sha1_hex(chars_to_string(text.as_slice()).as_str())
}

/// The evidence fingerprint after another source's digest: the digest
/// itself when there is no fingerprint yet, else the hex SHA-1 of the two
/// joined.
pub fn combine_fingerprint(current: &str, digest: &str) -> (s: String)
    ensures
        s@ == if current@.len() == 0 { digest@ } else { sha1_hex_text(current@ + digest@) },
{
    if str_chars(current).len() == 0 {
        return owned(digest);
    }
    let mut joined: Vec<char> = Vec::new();
    push_str(&mut joined, current);
    push_str(&mut joined, digest);
    sha1_hex(chars_to_string(joined.as_slice()).as_str())
}

/// What the report does with one parsed event line.
#[derive(Debug, Clone, Copy, PartialEq, Eq, Structural)]
pub enum LineAdmission {
    /// The event falls before the window; it is passed over.
    Skip,
    /// The per-file limit is reached; reading the file stops.
    Stop,
    /// The event is folded into the summary.
    Use,
}

/// Admits an event line: one timestamped before the window's start is
/// skipped; otherwise, with a non-zero limit that `used` events already
/// reach, reading stops; otherwise the event is used.
pub fn admit_event_line(before_window: bool, limit: usize, used: usize) -> (r: LineAdmission)
    ensures
        r == if before_window {
            LineAdmission::Skip
        } else if limit > 0 && used >= limit {
            LineAdmission::Stop
        } else {
            LineAdmission::Use
        },
{
    if before_window {
        LineAdmission::Skip
    } else if limit > 0 && used >= limit {
        LineAdmission::Stop
    } else {
        LineAdmission::Use
    }
}

/// The instant an RFC 3339 timestamp names, in UTC: whole seconds since
/// the Unix epoch and the nanoseconds past them; `None` when the text is not
/// RFC 3339.
pub uninterp spec fn rfc3339_instant(s: Seq<char>) -> Option<(int, int)>;

/// `chrono::DateTime::parse_from_rfc3339`, then `with_timezone(&Utc)`,
/// `timestamp` and `timestamp_subsec_nanos`. The instant is named, not
/// stated: it depends on the text alone.
#[verifier::external_body]
fn parse_rfc3339_instant(s: &str) -> (r: Option<(i64, u32)>)
    ensures
        match r {
            Some((sec, nanos)) => rfc3339_instant(s@) == Some((sec as int, nanos as int)),
            None => rfc3339_instant(s@) is None,
        },
{
    match chrono::DateTime::parse_from_rfc3339(s) {
        Ok(t) => {
            let u = t.with_timezone(&chrono::Utc);
            Some((u.timestamp(), u.timestamp_subsec_nanos()))
        },
        Err(_) => None,
    }
}

/// The instant an RFC 3339 timestamp names (a `--since` instant or an
/// event's `ts`).
pub fn event_instant(s: &str) -> (r: Option<(i64, u32)>)
    ensures
        match r {
            Some((sec, nanos)) => rfc3339_instant(s@) == Some((sec as int, nanos as int)),
            None => rfc3339_instant(s@) is None,
        },
{
    parse_rfc3339_instant(s)
}

/// One instant is earlier than another.
pub open spec fn instant_before(a: (int, int), b: (int, int)) -> bool {
    a.0 < b.0 || (a.0 == b.0 && a.1 < b.1)
}

/// Whether an event falls before the window: only when there is a cutoff
/// and the event has a timestamp that parses to an earlier instant.
pub open spec fn before_window_of(ts: Option<Seq<char>>, cutoff: Option<(int, int)>) -> bool {
    match (ts, cutoff) {
        (Some(t), Some(c)) => match rfc3339_instant(t) {
            Some(i) => instant_before(i, c),
            None => false,
        },
        _ => false,
    }
}

/// Decides whether an event lies before the report window (its cutoff
/// given as seconds and nanoseconds); an event without a timestamp, or with
/// one that does not parse, is kept.
pub fn event_before_window(ts: &Option<String>, cutoff: Option<(i64, u32)>) -> (b: bool)
    ensures
        b == before_window_of(
            opt_text(*ts),
            match cutoff {
                Some((sec, nanos)) => Some((sec as int, nanos as int)),
                None => None,
            },
        ),
{
    match (ts, cutoff) {
        (Some(t), Some((cs, cn))) => match parse_rfc3339_instant(t.as_str()) {
            Some((es, en)) => es < cs || (es == cs && en < cn),
            None => false,
        },
        _ => false,
    }
}

/// Law (failed provider results): an event named "provider_result" or
/// "model_result" is a provider result; when it names a provider and
/// reports `ok == false`, observing it counts one more failure for that
/// provider and one more for its error ("provider_result_not_ok" when it
/// has none), and the provider is among those observed.
pub proof fn law_failed_provider_result_is_counted(
    o: TelemetrySummary,
    e: TelemetryEvent,
    src: TelemetrySource,
    n: TelemetrySummary,
)
    requires
        observed(o, e, src, n),
        e.event matches Some(name) && (name@ == "provider_result"@ || name@ == "model_result"@),
        e.provider_id is Some,
        e.ok == Some(false),
    ensures
        kind_of(e.event.unwrap()@) == EventKind::ProviderResult,
        n.provider_failure_counts.view_map() == bump(o.provider_failure_counts.view_map(), e.provider_id.unwrap()@),
        n.failure_reason_counts.view_map() == bump(o.failure_reason_counts.view_map(), text_or(e.error, "provider_result_not_ok"@)),
        n.observed_providers.deep_view().to_set().contains(e.provider_id.unwrap()@),
        n.route_failure_count == o.route_failure_count,
        n.route_success_count == o.route_success_count,
{
    reveal_strlit("route_selected");
    reveal_strlit("route_failed");
    reveal_strlit("provider_result");
    reveal_strlit("model_result");
    let name = e.event.unwrap()@;
    assert(name != "route_selected"@) by {
        if name == "provider_result"@ {
            assert(name.len() != "route_selected"@.len());
        } else {
            assert(name[0] != "route_selected"@[0]);
        }
    }
    assert(name != "route_failed"@) by {
        if name == "provider_result"@ {
            assert(name.len() != "route_failed"@.len());
        } else {
            assert(name[0] != "route_failed"@[0]);
        }
    }
    assert(text_or(e.event, "unknown"@) == name);
}

proof fn lemma_event_names_distinct()
    ensures
        "route_selected"@ != "route_failed"@,
        "route_selected"@ != "provider_result"@,
        "route_selected"@ != "model_result"@,
        "route_selected"@ != "provider_cooldown"@,
        "route_selected"@ != "route_cooldown_bypass"@,
        "route_selected"@ != "echo_gate"@,
        "route_failed"@ != "provider_result"@,
        "route_failed"@ != "model_result"@,
        "route_failed"@ != "provider_cooldown"@,
        "route_failed"@ != "route_cooldown_bypass"@,
        "route_failed"@ != "echo_gate"@,
        "provider_result"@ != "provider_cooldown"@,
        "provider_result"@ != "route_cooldown_bypass"@,
        "provider_result"@ != "echo_gate"@,
        "model_result"@ != "provider_cooldown"@,
        "model_result"@ != "route_cooldown_bypass"@,
        "model_result"@ != "echo_gate"@,
        "provider_cooldown"@ != "echo_gate"@,
        "route_cooldown_bypass"@ != "echo_gate"@,
{
    reveal_strlit("route_selected");
    reveal_strlit("route_failed");
    reveal_strlit("provider_result");
    reveal_strlit("model_result");
    reveal_strlit("provider_cooldown");
    reveal_strlit("route_cooldown_bypass");
    reveal_strlit("echo_gate");
    assert("route_selected"@.len() == 14 && "route_failed"@.len() == 12 && "provider_result"@.len() == 15);
    assert("model_result"@.len() == 12 && "provider_cooldown"@.len() == 17);
    assert("route_cooldown_bypass"@.len() == 21 && "echo_gate"@.len() == 9);
    assert("route_failed"@[0] != "model_result"@[0]);
}

/// Law (route selections): observing a "route_selected" event counts one
/// more routing success and one more selection of its provider and model;
/// failures are left as they were.
pub proof fn law_route_selection_is_counted(o: TelemetrySummary, e: TelemetryEvent, src: TelemetrySource, n: TelemetrySummary)
    requires
        observed(o, e, src, n),
        e.event matches Some(name) && name@ == "route_selected"@,
    ensures
        n.route_success_count == o.route_success_count + 1,
        n.route_failure_count == o.route_failure_count,
        n.provider_selection_counts.view_map() == bump_opt(o.provider_selection_counts.view_map(), e.provider_id),
        n.model_selection_counts.view_map() == bump_opt(o.model_selection_counts.view_map(), e.model_id),
        n.provider_failure_counts.view_map() == o.provider_failure_counts.view_map(),
        n.failure_reason_counts.view_map() == o.failure_reason_counts.view_map(),
        n.event_counts.view_map() == bump(o.event_counts.view_map(), "route_selected"@),
{
    assert(text_or(e.event, "unknown"@) == "route_selected"@);
}

/// Law (route failures): observing a "route_failed" event counts one more
/// routing failure, one more failure of its provider and one more for its
/// reason ("unspecified" when it has none).
pub proof fn law_route_failure_is_counted(o: TelemetrySummary, e: TelemetryEvent, src: TelemetrySource, n: TelemetrySummary)
    requires
        observed(o, e, src, n),
        e.event matches Some(name) && name@ == "route_failed"@,
    ensures
        n.route_failure_count == o.route_failure_count + 1,
        n.route_success_count == o.route_success_count,
        n.provider_failure_counts.view_map() == bump_opt(o.provider_failure_counts.view_map(), e.provider_id),
        n.failure_reason_counts.view_map() == bump(o.failure_reason_counts.view_map(), text_or(e.reason, "unspecified"@)),
        n.provider_selection_counts.view_map() == o.provider_selection_counts.view_map(),
{
    lemma_event_names_distinct();
    assert(text_or(e.event, "unknown"@) == "route_failed"@);
}

/// Law (cooldowns and echo gates): "provider_cooldown" and
/// "route_cooldown_bypass" events are counted per provider as cooldowns;
/// "echo_gate" events are counted by action ("unknown" when absent) and
/// name no provider as observed.
pub proof fn law_cooldown_and_echo_gate_events(o: TelemetrySummary, e: TelemetryEvent, src: TelemetrySource, n: TelemetrySummary)
    requires
        observed(o, e, src, n),
        e.event is Some,
    ensures
        (e.event.unwrap()@ == "provider_cooldown"@ || e.event.unwrap()@ == "route_cooldown_bypass"@) ==> {
            &&& n.cooldown_counts.view_map() == bump_opt(o.cooldown_counts.view_map(), e.provider_id)
            &&& n.route_success_count == o.route_success_count
            &&& n.route_failure_count == o.route_failure_count
            &&& n.provider_failure_counts.view_map() == o.provider_failure_counts.view_map()
        },
        e.event.unwrap()@ == "echo_gate"@ ==> {
            &&& n.echo_gate_action_counts.view_map() == bump(o.echo_gate_action_counts.view_map(), text_or(e.action, "unknown"@))
            &&& n.cooldown_counts.view_map() == o.cooldown_counts.view_map()
            &&& n.observed_providers.deep_view().to_set() == o.observed_providers.deep_view().to_set()
        },
{
    lemma_event_names_distinct();
    assert(text_or(e.event, "unknown"@) == e.event.unwrap()@);
}

/// Law (other events): an event whose name is none of the routing events
/// is only counted by name and task type; no routing counter changes and
/// no provider is observed.
pub proof fn law_other_events_only_counted(o: TelemetrySummary, e: TelemetryEvent, src: TelemetrySource, n: TelemetrySummary)
    requires
        observed(o, e, src, n),
        e.event matches Some(name) && name@ != "route_selected"@ && name@ != "route_failed"@
            && name@ != "provider_result"@ && name@ != "model_result"@ && name@ != "provider_cooldown"@
            && name@ != "route_cooldown_bypass"@ && name@ != "echo_gate"@,
    ensures
        n.event_counts.view_map() == bump(o.event_counts.view_map(), e.event.unwrap()@),
        n.route_success_count == o.route_success_count,
        n.route_failure_count == o.route_failure_count,
        n.provider_failure_counts.view_map() == o.provider_failure_counts.view_map(),
        n.failure_reason_counts.view_map() == o.failure_reason_counts.view_map(),
        n.cooldown_counts.view_map() == o.cooldown_counts.view_map(),
        n.echo_gate_action_counts.view_map() == o.echo_gate_action_counts.view_map(),
        n.observed_providers.deep_view().to_set() == o.observed_providers.deep_view().to_set(),
{
    assert(text_or(e.event, "unknown"@) == e.event.unwrap()@);
}

/// Law (telemetry advice): the review-gate reminder always closes the
/// advice; failures are to be reviewed exactly when some route failed,
/// cooldowns checked exactly when any was seen, malformed lines repaired
/// exactly when there are any, and the window widened exactly when no
/// event was used; nothing is advised twice.
pub proof fn law_telemetry_advice(failures: u64, cooldowns_seen: bool, malformed: nat, events_used: nat)
    ensures
        advice_for(failures, cooldowns_seen, malformed, events_used).last() == TelemetryAdvice::KeepReviewGated,
        advice_for(failures, cooldowns_seen, malformed, events_used).contains(TelemetryAdvice::ReviewFailures) <==> failures > 0,
        advice_for(failures, cooldowns_seen, malformed, events_used).contains(TelemetryAdvice::CheckCooldowns) <==> cooldowns_seen,
        advice_for(failures, cooldowns_seen, malformed, events_used).contains(TelemetryAdvice::RepairMalformedLines) <==> malformed > 0,
        advice_for(failures, cooldowns_seen, malformed, events_used).contains(TelemetryAdvice::WidenWindow) <==> events_used == 0,
        forall|i: int, j: int| 0 <= i < j < advice_for(failures, cooldowns_seen, malformed, events_used).len()
            ==> advice_for(failures, cooldowns_seen, malformed, events_used)[i] != advice_for(failures, cooldowns_seen, malformed, events_used)[j],
{
    let a: Seq<TelemetryAdvice> = if failures > 0 { seq![TelemetryAdvice::ReviewFailures] } else { Seq::empty() };
    let b: Seq<TelemetryAdvice> = if cooldowns_seen { seq![TelemetryAdvice::CheckCooldowns] } else { Seq::empty() };
    let c: Seq<TelemetryAdvice> = if malformed > 0 { seq![TelemetryAdvice::RepairMalformedLines] } else { Seq::empty() };
    let d: Seq<TelemetryAdvice> = if events_used == 0 { seq![TelemetryAdvice::WidenWindow] } else { Seq::empty() };
    let e = seq![TelemetryAdvice::KeepReviewGated];
    let all = advice_for(failures, cooldowns_seen, malformed, events_used);
    assert(all == a + b + c + d + e);
    let rank = |x: TelemetryAdvice| match x {
        TelemetryAdvice::ReviewFailures => 0int,
        TelemetryAdvice::CheckCooldowns => 1int,
        TelemetryAdvice::RepairMalformedLines => 2int,
        TelemetryAdvice::WidenWindow => 3int,
        TelemetryAdvice::KeepReviewGated => 4int,
    };
    assert forall|i: int, j: int| 0 <= i < j < all.len() implies rank(all[i]) < rank(all[j]) by {
        let la = a.len() as int;
        let lb = b.len() as int;
        let lc = c.len() as int;
        let ld = d.len() as int;
        assert(all[i] == if i < la { a[i] } else if i < la + lb { b[i - la] } else if i < la + lb + lc { c[i - la - lb] }
            else if i < la + lb + lc + ld { d[i - la - lb - lc] } else { e[i - la - lb - lc - ld] });
        assert(all[j] == if j < la { a[j] } else if j < la + lb { b[j - la] } else if j < la + lb + lc { c[j - la - lb] }
            else if j < la + lb + lc + ld { d[j - la - lb - lc] } else { e[j - la - lb - lc - ld] });
    }
    let xs = seq![TelemetryAdvice::ReviewFailures, TelemetryAdvice::CheckCooldowns, TelemetryAdvice::RepairMalformedLines,
        TelemetryAdvice::WidenWindow];
    assert forall|q: int| 0 <= q < 4 implies (#[trigger] all.contains(xs[q])) == (
        (q == 0 && failures > 0) || (q == 1 && cooldowns_seen) || (q == 2 && malformed > 0) || (q == 3 && events_used == 0)) by {
        let x = xs[q];
        let la = a.len() as int;
        let lb = b.len() as int;
        let lc = c.len() as int;
        let ld = d.len() as int;
        if all.contains(x) {
            let i = choose|i: int| 0 <= i < all.len() && all[i] == x;
            assert(all[i] == if i < la { a[i] } else if i < la + lb { b[i - la] } else if i < la + lb + lc { c[i - la - lb] }
                else if i < la + lb + lc + ld { d[i - la - lb - lc] } else { e[i - la - lb - lc - ld] });
        }
        if q == 0 && failures > 0 {
            assert(all[0] == x);
        }
        if q == 1 && cooldowns_seen {
            assert(all[la] == x);
        }
        if q == 2 && malformed > 0 {
            assert(all[la + lb] == x);
        }
        if q == 3 && events_used == 0 {
            assert(all[la + lb + lc] == x);
        }
    }
    assert(all.contains(xs[0]) == all.contains(TelemetryAdvice::ReviewFailures));
    assert(all.contains(xs[1]) == all.contains(TelemetryAdvice::CheckCooldowns));
    assert(all.contains(xs[2]) == all.contains(TelemetryAdvice::RepairMalformedLines));
    assert(all.contains(xs[3]) == all.contains(TelemetryAdvice::WidenWindow));
}

/// Law (busiest first): in a top list no entry is counted more often than
/// an entry before it, and the first entry is counted at least as often as
/// any entry of the counter.
pub proof fn law_top_list_busiest_first(entries: Seq<(Seq<char>, nat)>, limit: nat, out: Seq<(Seq<char>, nat)>, e: (Seq<char>, nat))
    requires
        top_entries(entries, limit, out),
    ensures
        forall|i: int, j: int| 0 <= i < j < out.len() ==> (#[trigger] out[i]).1 >= (#[trigger] out[j]).1,
        out.len() > 0 && entries.contains(e) ==> out[0].1 >= e.1,
{
    assert forall|i: int, j: int| 0 <= i < j < out.len() implies (#[trigger] out[i]).1 >= (#[trigger] out[j]).1 by {
        assert(ranks_before(out[i], out[j]));
    }
    if out.len() > 0 && entries.contains(e) {
        if out.contains(e) {
            let k = choose|k: int| 0 <= k < out.len() && out[k] == e;
            if k > 0 {
                assert(ranks_before(out[0], out[k]));
            }
        } else {
            assert(ranks_before(out[0], e));
        }
    }
}

/// Law (report windows): no `--since`, a blank one or "all" in any letter
/// case covers every event; a number followed by "d" is that many days,
/// followed by "h" that many hours; any other text is taken as an instant.
pub proof fn law_report_windows(raw: Seq<char>)
    ensures
        since_window_of(None).0 == 0,
        trim_seq(raw).len() == 0 || lower_seq(trim_seq(raw)) == "all"@ ==> since_window_of(Some(raw)).0 == 0,
        ({
            let t = trim_seq(raw);
            t.len() > 0 && lower_seq(t) != "all"@ && t.last() == 'd' && parsed_i64(t.drop_last()) is Some
                ==> since_window_of(Some(raw)) == (1int, t)
        }),
        ({
            let t = trim_seq(raw);
            t.len() > 0 && lower_seq(t) != "all"@ && t.last() == 'h' && parsed_i64(t.drop_last()) is Some
                ==> since_window_of(Some(raw)) == (2int, t)
        }),
        ({
            let t = trim_seq(raw);
            t.len() > 0 && lower_seq(t) != "all"@ && t.last() != 'd' && t.last() != 'h'
                ==> since_window_of(Some(raw)) == (3int, t)
        }),
{
}

} // verus!
