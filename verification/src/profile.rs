//! The operator profile projected into the runtime environment file and
//! the secret-key template (`control sync-profile`).

use vstd::prelude::*;
use crate::text::{
    bool_text, chars_to_string, int_text, join_strings, join_with, owned, push_chars, push_int,
    push_str, replace_all, replace_chars, str_chars,
};

verus! {

/// The profile values the runtime environment is made of. Each field is
/// `None` when the profile does not set it (or sets it with another JSON
/// type). Measured rates arrive already rendered as text.
pub struct OperatorProfile {
    pub task_queue: Option<String>,
    pub project_task_queue: Option<String>,
    pub daily_queue: Option<String>,
    pub warden_queue: Option<String>,
    /// The string entries of `paths.hades_watch_paths`, when it is an array.
    pub hades_watch_paths: Option<Vec<String>>,
    pub privacy_default: Option<String>,
    pub cost_default: Option<String>,
    pub quality_default: Option<String>,
    pub origin_default: Option<String>,
    pub latency_sla_ms: Option<i64>,
    pub hades_queue_days: Option<i64>,
    pub hades_log_days: Option<i64>,
    pub hades_joulework_days: Option<i64>,
    pub hermes_messages_days: Option<i64>,
    pub hermes_queue_days: Option<i64>,
    pub mnemosyne_compact_days: Option<i64>,
    pub max_total_known_work: Option<i64>,
    pub max_projects_queue_queued: Option<i64>,
    pub max_oversize_count: Option<i64>,
    pub max_disk_used_pct: Option<i64>,
    pub max_invalid_json: Option<i64>,
    pub require_coverage_ok: Option<bool>,
    pub lookback_hours: Option<i64>,
    pub handoff_max_p95_ms: Option<i64>,
    pub min_success_rate: Option<String>,
    pub max_defer_rate: Option<String>,
    pub max_duplicate_rate: Option<String>,
    pub max_stuck_intents: Option<i64>,
    pub stuck_minutes: Option<i64>,
    pub min_ack_success_rate: Option<String>,
    pub autonomy_max_p95_latency_ms: Option<i64>,
    pub max_queue_stale_minutes: Option<i64>,
    pub min_safety_score: Option<String>,
    pub require_athena_lookup_before_action: Option<bool>,
    pub max_athena_lookup_age_minutes: Option<i64>,
    /// The string entries of `autonomy.required_live_sockets`.
    pub required_live_sockets: Vec<String>,
    pub max_missing_required_sockets: Option<i64>,
}

/// One `KEY=value` line of a generated environment file.
pub struct EnvEntry {
    pub key: String,
    pub value: String,
}

/// Entries as key/value pairs.
pub open spec fn entry_pairs(v: Seq<EnvEntry>) -> Seq<(Seq<char>, Seq<char>)> {
    v.map_values(|e: EnvEntry| (e.key@, e.value@))
}

/// The text of a string setting, or the default.
pub open spec fn text_or(v: Option<String>, default: Seq<char>) -> Seq<char> {
    match v {
        Some(s) => s@,
        None => default,
    }
}

/// The text of an integer setting, or of the default.
pub open spec fn int_or(v: Option<i64>, default: int) -> Seq<char> {
    match v {
        Some(n) => int_text(n as int),
        None => int_text(default),
    }
}

/// The text of a boolean setting, or of the default.
pub open spec fn bool_or(v: Option<bool>, default: bool) -> Seq<char> {
    match v {
        Some(b) => bool_text(b),
        None => bool_text(default),
    }
}

/// The watch paths joined with `:`; `core:docs:config` when unset.
pub open spec fn watch_paths_text(v: Option<Vec<String>>) -> Seq<char> {
    match v {
        Some(paths) => join_with(paths.deep_view(), ":"@),
        None => "core:docs:config"@,
    }
}

/// The required sockets, `{runtime_dir}` replaced by the runtime
/// directory, joined with `:`.
pub open spec fn sockets_text(sockets: Seq<Seq<char>>, runtime_dir: Seq<char>) -> Seq<char> {
    join_with(sockets.map_values(|s: Seq<char>| replace_all(s, "{runtime_dir}"@, runtime_dir)), ":"@)
}

/// Queue paths and the Hades watch list.
pub open spec fn path_entries(p: OperatorProfile) -> Seq<(Seq<char>, Seq<char>)> {
    seq![
        ("ARDA_TASK_QUEUE_PATH"@, text_or(p.task_queue, "core/projects/tasks/queue.jsonl"@)),
        ("ARDA_PROJECT_TASK_QUEUE_PATH"@, text_or(p.project_task_queue, "core/projects/tasks/queue.jsonl"@)),
        ("ARDA_DAILY_QUEUE_PATH"@, text_or(p.daily_queue, "core/queue/queue.jsonl"@)),
        ("ARDA_WARDEN_QUEUE_PATH"@, text_or(p.warden_queue, "data/warden/informant_queue.jsonl"@)),
        ("ARDA_HADES_WATCH_PATHS"@, watch_paths_text(p.hades_watch_paths)),
    ]
}

/// Routing defaults.
pub open spec fn routing_entries(p: OperatorProfile) -> Seq<(Seq<char>, Seq<char>)> {
    seq![
        ("ARDA_ROUTE_PRIVACY_DEFAULT"@, text_or(p.privacy_default, "public"@)),
        ("ARDA_ROUTE_COST_DEFAULT"@, text_or(p.cost_default, "balanced"@)),
        ("ARDA_ROUTE_QUALITY_DEFAULT"@, text_or(p.quality_default, "balanced"@)),
        ("ARDA_ROUTE_ORIGIN_DEFAULT"@, text_or(p.origin_default, "auto"@)),
    ]
}

/// Retention windows in days.
pub open spec fn retention_entries(p: OperatorProfile) -> Seq<(Seq<char>, Seq<char>)> {
    seq![
        ("ARDA_RETENTION_DAYS_HADES_QUEUE"@, int_or(p.hades_queue_days, 14)),
        ("ARDA_RETENTION_DAYS_HADES_LOG"@, int_or(p.hades_log_days, 30)),
        ("ARDA_RETENTION_DAYS_HADES_JOULEWORK"@, int_or(p.hades_joulework_days, 30)),
        ("ARDA_RETENTION_DAYS_HERMES_MESSAGES"@, int_or(p.hermes_messages_days, 30)),
        ("ARDA_RETENTION_DAYS_HERMES_QUEUE"@, int_or(p.hermes_queue_days, 14)),
        ("ARDA_RETENTION_DAYS_MNEMOSYNE_COMPACT"@, int_or(p.mnemosyne_compact_days, 180)),
    ]
}

/// Pressure limits.
pub open spec fn pressure_entries(p: OperatorProfile) -> Seq<(Seq<char>, Seq<char>)> {
    seq![
        ("ARDA_PRESSURE_MAX_TOTAL_KNOWN_WORK"@, int_or(p.max_total_known_work, 120)),
        ("ARDA_PRESSURE_MAX_PROJECTS_QUEUE_QUEUED"@, int_or(p.max_projects_queue_queued, 20)),
        ("ARDA_PRESSURE_MAX_OVERSIZE_COUNT"@, int_or(p.max_oversize_count, 0)),
        ("ARDA_PRESSURE_MAX_DISK_USED_PCT"@, int_or(p.max_disk_used_pct, 92)),
        ("ARDA_PRESSURE_MAX_INVALID_JSON"@, int_or(p.max_invalid_json, 0)),
        ("ARDA_PRESSURE_REQUIRE_COVERAGE_OK"@, bool_or(p.require_coverage_ok, true)),
    ]
}

/// Handoff limits.
pub open spec fn handoff_entries(p: OperatorProfile) -> Seq<(Seq<char>, Seq<char>)> {
    seq![
        ("ARDA_HANDOFF_LOOKBACK_HOURS"@, int_or(p.lookback_hours, 24)),
        ("ARDA_HANDOFF_MAX_P95_MS"@, int_or(p.handoff_max_p95_ms, 2500)),
        ("ARDA_HANDOFF_MIN_SUCCESS_RATE"@, text_or(p.min_success_rate, "0.95"@)),
        ("ARDA_HANDOFF_MAX_DEFER_RATE"@, text_or(p.max_defer_rate, "0.2"@)),
        ("ARDA_HANDOFF_MAX_DUPLICATE_RATE"@, text_or(p.max_duplicate_rate, "0.25"@)),
        ("ARDA_HANDOFF_MAX_STUCK_INTENTS"@, int_or(p.max_stuck_intents, 5)),
        ("ARDA_HANDOFF_STUCK_MINUTES"@, int_or(p.stuck_minutes, 30)),
    ]
}

/// Autonomy limits and the required live sockets.
pub open spec fn autonomy_entries(p: OperatorProfile, runtime_dir: Seq<char>) -> Seq<(Seq<char>, Seq<char>)> {
    seq![
        ("ARDA_AUTONOMY_MIN_ACK_SUCCESS_RATE"@, text_or(p.min_ack_success_rate, "0.95"@)),
        ("ARDA_AUTONOMY_MAX_P95_LATENCY_MS"@, int_or(p.autonomy_max_p95_latency_ms, 2500)),
        ("ARDA_AUTONOMY_MAX_QUEUE_STALE_MINUTES"@, int_or(p.max_queue_stale_minutes, 30)),
        ("ARDA_AUTONOMY_MIN_SAFETY_SCORE"@, text_or(p.min_safety_score, "0.65"@)),
        ("ARDA_AUTONOMY_REQUIRE_ATHENA_LOOKUP_BEFORE_ACTION"@, bool_or(p.require_athena_lookup_before_action, false)),
        ("ARDA_AUTONOMY_MAX_ATHENA_LOOKUP_AGE_MINUTES"@, int_or(p.max_athena_lookup_age_minutes, 60)),
        ("ARDA_AUTONOMY_REQUIRED_LIVE_SOCKETS"@, sockets_text(p.required_live_sockets.deep_view(), runtime_dir)),
        ("ARDA_AUTONOMY_MAX_MISSING_REQUIRED_SOCKETS"@, int_or(p.max_missing_required_sockets, 0)),
    ]
}

/// Every runtime entry, in file order; the route latency SLA comes last
/// and only when the profile sets it.
pub open spec fn runtime_entries(p: OperatorProfile, runtime_dir: Seq<char>) -> Seq<(Seq<char>, Seq<char>)> {
    path_entries(p) + routing_entries(p) + retention_entries(p) + pressure_entries(p) + handoff_entries(p)
        + autonomy_entries(p, runtime_dir) + match p.latency_sla_ms {
        Some(n) => seq![("ARDA_ROUTE_LATENCY_SLA_MS"@, int_text(n as int))],
        None => Seq::empty(),
    }
}

fn push_entry(out: &mut Vec<EnvEntry>, key: &str, value: Vec<char>)
    ensures
        entry_pairs(final(out)@) == entry_pairs(old(out)@).push((key@, value@)),
{
    let e = EnvEntry { key: owned(key), value: chars_to_string(value.as_slice()) };
    let ghost before = out@;
    out.push(e);
    proof {
        assert(entry_pairs(out@) =~= entry_pairs(before).push((key@, value@)));
    }
}

fn text_value(v: &Option<String>, default: &str) -> (r: Vec<char>)
    ensures
        r@ == text_or(*v, default@),
{
    match v {
        Some(s) => str_chars(s.as_str()),
        None => str_chars(default),
    }
}

fn int_value(v: Option<i64>, default: i64) -> (r: Vec<char>)
    ensures
        r@ == int_or(v, default as int),
{
    let mut out: Vec<char> = Vec::new();
    match v {
        Some(n) => push_int(&mut out, n),
        None => push_int(&mut out, default),
    }
    out
}

fn bool_value(v: Option<bool>, default: bool) -> (r: Vec<char>)
    ensures
        r@ == bool_or(v, default),
{
    let b = match v {
        Some(b) => b,
        None => default,
    };
    if b { str_chars("true") } else { str_chars("false") }
}

fn push_path_entries(out: &mut Vec<EnvEntry>, p: &OperatorProfile)
    ensures
        entry_pairs(final(out)@) == entry_pairs(old(out)@) + path_entries(*p),
{
    let ghost start = entry_pairs(out@);
    push_entry(out, "ARDA_TASK_QUEUE_PATH", text_value(&p.task_queue, "core/projects/tasks/queue.jsonl"));
    push_entry(out, "ARDA_PROJECT_TASK_QUEUE_PATH", text_value(&p.project_task_queue, "core/projects/tasks/queue.jsonl"));
    push_entry(out, "ARDA_DAILY_QUEUE_PATH", text_value(&p.daily_queue, "core/queue/queue.jsonl"));
    push_entry(out, "ARDA_WARDEN_QUEUE_PATH", text_value(&p.warden_queue, "data/warden/informant_queue.jsonl"));
    let watch = match &p.hades_watch_paths {
        Some(paths) => join_strings(paths, ":"),
        None => str_chars("core:docs:config"),
    };
    push_entry(out, "ARDA_HADES_WATCH_PATHS", watch);
    proof {
        assert(entry_pairs(out@) =~= start + path_entries(*p));
    }
}

fn push_routing_entries(out: &mut Vec<EnvEntry>, p: &OperatorProfile)
    ensures
        entry_pairs(final(out)@) == entry_pairs(old(out)@) + routing_entries(*p),
{
    let ghost start = entry_pairs(out@);
    push_entry(out, "ARDA_ROUTE_PRIVACY_DEFAULT", text_value(&p.privacy_default, "public"));
    push_entry(out, "ARDA_ROUTE_COST_DEFAULT", text_value(&p.cost_default, "balanced"));
    push_entry(out, "ARDA_ROUTE_QUALITY_DEFAULT", text_value(&p.quality_default, "balanced"));
    push_entry(out, "ARDA_ROUTE_ORIGIN_DEFAULT", text_value(&p.origin_default, "auto"));
    proof {
        assert(entry_pairs(out@) =~= start + routing_entries(*p));
    }
}

fn push_retention_entries(out: &mut Vec<EnvEntry>, p: &OperatorProfile)
    ensures
        entry_pairs(final(out)@) == entry_pairs(old(out)@) + retention_entries(*p),
{
    let ghost start = entry_pairs(out@);
    push_entry(out, "ARDA_RETENTION_DAYS_HADES_QUEUE", int_value(p.hades_queue_days, 14));
    push_entry(out, "ARDA_RETENTION_DAYS_HADES_LOG", int_value(p.hades_log_days, 30));
    push_entry(out, "ARDA_RETENTION_DAYS_HADES_JOULEWORK", int_value(p.hades_joulework_days, 30));
    push_entry(out, "ARDA_RETENTION_DAYS_HERMES_MESSAGES", int_value(p.hermes_messages_days, 30));
    push_entry(out, "ARDA_RETENTION_DAYS_HERMES_QUEUE", int_value(p.hermes_queue_days, 14));
    push_entry(out, "ARDA_RETENTION_DAYS_MNEMOSYNE_COMPACT", int_value(p.mnemosyne_compact_days, 180));
    proof {
        assert(entry_pairs(out@) =~= start + retention_entries(*p));
    }
}

fn push_pressure_entries(out: &mut Vec<EnvEntry>, p: &OperatorProfile)
    ensures
        entry_pairs(final(out)@) == entry_pairs(old(out)@) + pressure_entries(*p),
{
    let ghost start = entry_pairs(out@);
    push_entry(out, "ARDA_PRESSURE_MAX_TOTAL_KNOWN_WORK", int_value(p.max_total_known_work, 120));
    push_entry(out, "ARDA_PRESSURE_MAX_PROJECTS_QUEUE_QUEUED", int_value(p.max_projects_queue_queued, 20));
    push_entry(out, "ARDA_PRESSURE_MAX_OVERSIZE_COUNT", int_value(p.max_oversize_count, 0));
    push_entry(out, "ARDA_PRESSURE_MAX_DISK_USED_PCT", int_value(p.max_disk_used_pct, 92));
    push_entry(out, "ARDA_PRESSURE_MAX_INVALID_JSON", int_value(p.max_invalid_json, 0));
    push_entry(out, "ARDA_PRESSURE_REQUIRE_COVERAGE_OK", bool_value(p.require_coverage_ok, true));
    proof {
        assert(entry_pairs(out@) =~= start + pressure_entries(*p));
    }
}

fn push_handoff_entries(out: &mut Vec<EnvEntry>, p: &OperatorProfile)
    ensures
        entry_pairs(final(out)@) == entry_pairs(old(out)@) + handoff_entries(*p),
{
    let ghost start = entry_pairs(out@);
    push_entry(out, "ARDA_HANDOFF_LOOKBACK_HOURS", int_value(p.lookback_hours, 24));
    push_entry(out, "ARDA_HANDOFF_MAX_P95_MS", int_value(p.handoff_max_p95_ms, 2500));
    push_entry(out, "ARDA_HANDOFF_MIN_SUCCESS_RATE", text_value(&p.min_success_rate, "0.95"));
    push_entry(out, "ARDA_HANDOFF_MAX_DEFER_RATE", text_value(&p.max_defer_rate, "0.2"));
    push_entry(out, "ARDA_HANDOFF_MAX_DUPLICATE_RATE", text_value(&p.max_duplicate_rate, "0.25"));
    push_entry(out, "ARDA_HANDOFF_MAX_STUCK_INTENTS", int_value(p.max_stuck_intents, 5));
    push_entry(out, "ARDA_HANDOFF_STUCK_MINUTES", int_value(p.stuck_minutes, 30));
    proof {
        assert(entry_pairs(out@) =~= start + handoff_entries(*p));
    }
}

/// Replaces every `{runtime_dir}` in `s` by the runtime directory.
fn substitute_runtime_dir(s: &str, runtime_dir: &str) -> (r: String)
    ensures
        r@ == replace_all(s@, "{runtime_dir}"@, runtime_dir@),
{
    let pat = str_chars("{runtime_dir}");
    proof {
        reveal_strlit("{runtime_dir}");
    }
    let r = replace_chars(&str_chars(s), &pat, &str_chars(runtime_dir));
    chars_to_string(r.as_slice())
}

fn sockets_value(sockets: &Vec<String>, runtime_dir: &str) -> (r: Vec<char>)
    ensures
        r@ == sockets_text(sockets.deep_view(), runtime_dir@),
{
    let mut subst: Vec<String> = Vec::new();
    let mut i: usize = 0;
    while i < sockets.len()
        invariant
            i <= sockets.len(),
            subst.deep_view() == sockets.deep_view().subrange(0, i as int).map_values(
                |s: Seq<char>| replace_all(s, "{runtime_dir}"@, runtime_dir@),
            ),
        decreases sockets.len() - i,
    {
        let t = substitute_runtime_dir(sockets[i].as_str(), runtime_dir);
        let ghost before = subst.deep_view();
        subst.push(t);
        proof {
            assert(subst.deep_view() =~= before.push(t@));
            assert(sockets.deep_view().subrange(0, i + 1).map_values(
                |s: Seq<char>| replace_all(s, "{runtime_dir}"@, runtime_dir@),
            ) =~= sockets.deep_view().subrange(0, i as int).map_values(
                |s: Seq<char>| replace_all(s, "{runtime_dir}"@, runtime_dir@),
            ).push(replace_all(sockets@[i as int]@, "{runtime_dir}"@, runtime_dir@)));
        }
        i += 1;
    }
    proof {
        assert(sockets.deep_view().subrange(0, sockets.deep_view().len() as int) == sockets.deep_view());
    }
    join_strings(&subst, ":")
}

fn push_autonomy_entries(out: &mut Vec<EnvEntry>, p: &OperatorProfile, runtime_dir: &str)
    ensures
        entry_pairs(final(out)@) == entry_pairs(old(out)@) + autonomy_entries(*p, runtime_dir@),
{
    let ghost start = entry_pairs(out@);
    push_entry(out, "ARDA_AUTONOMY_MIN_ACK_SUCCESS_RATE", text_value(&p.min_ack_success_rate, "0.95"));
    push_entry(out, "ARDA_AUTONOMY_MAX_P95_LATENCY_MS", int_value(p.autonomy_max_p95_latency_ms, 2500));
    push_entry(out, "ARDA_AUTONOMY_MAX_QUEUE_STALE_MINUTES", int_value(p.max_queue_stale_minutes, 30));
    push_entry(out, "ARDA_AUTONOMY_MIN_SAFETY_SCORE", text_value(&p.min_safety_score, "0.65"));
    push_entry(out, "ARDA_AUTONOMY_REQUIRE_ATHENA_LOOKUP_BEFORE_ACTION", bool_value(p.require_athena_lookup_before_action, false));
    push_entry(out, "ARDA_AUTONOMY_MAX_ATHENA_LOOKUP_AGE_MINUTES", int_value(p.max_athena_lookup_age_minutes, 60));
    push_entry(out, "ARDA_AUTONOMY_REQUIRED_LIVE_SOCKETS", sockets_value(&p.required_live_sockets, runtime_dir));
    push_entry(out, "ARDA_AUTONOMY_MAX_MISSING_REQUIRED_SOCKETS", int_value(p.max_missing_required_sockets, 0));
    proof {
        assert(entry_pairs(out@) =~= start + autonomy_entries(*p, runtime_dir@));
    }
}

/// The runtime environment entries of an operator profile, in file order,
/// with every default applied.
pub fn build_runtime_entries(p: &OperatorProfile, runtime_dir: &str) -> (out: Vec<EnvEntry>)
    ensures
        entry_pairs(out@) == runtime_entries(*p, runtime_dir@),
{
    let mut out: Vec<EnvEntry> = Vec::new();
    proof {
        assert(entry_pairs(out@) =~= Seq::<(Seq<char>, Seq<char>)>::empty());
    }
    push_path_entries(&mut out, p);
    push_routing_entries(&mut out, p);
    push_retention_entries(&mut out, p);
    push_pressure_entries(&mut out, p);
    push_handoff_entries(&mut out, p);
    push_autonomy_entries(&mut out, p, runtime_dir);
    let ghost before = entry_pairs(out@);
    match p.latency_sla_ms {
        Some(n) => {
            let mut v: Vec<char> = Vec::new();
            push_int(&mut v, n);
            push_entry(&mut out, "ARDA_ROUTE_LATENCY_SLA_MS", v);
        },
        None => {},
    }
    proof {
        assert(entry_pairs(out@) =~= runtime_entries(*p, runtime_dir@));
    }
    out
}

/// `\nKEY=value` for each entry, in order.
pub open spec fn entry_lines(entries: Seq<(Seq<char>, Seq<char>)>) -> Seq<char>
    decreases entries.len(),
{
    if entries.len() == 0 {
        Seq::empty()
    } else {
        entry_lines(entries.drop_last()) + "\n"@ + entries.last().0 + "="@ + entries.last().1
    }
}

/// The runtime environment file: a provenance comment naming the profile,
/// one `KEY=value` line per entry, and a final newline.
pub open spec fn runtime_file_text(label: Seq<char>, entries: Seq<(Seq<char>, Seq<char>)>) -> Seq<char> {
    "# Generated from "@ + label + entry_lines(entries) + "\n"@
}

/// Renders the runtime environment file for the given entries.
pub fn render_runtime_env(profile_label: &str, entries: &Vec<EnvEntry>) -> (s: String)
    ensures
        s@ == runtime_file_text(profile_label@, entry_pairs(entries@)),
{
    let mut out: Vec<char> = Vec::new();
    push_str(&mut out, "# Generated from ");
    push_str(&mut out, profile_label);
    let ghost head = out@;
    let mut i: usize = 0;
    while i < entries.len()
        invariant
            i <= entries.len(),
            out@ == head + entry_lines(entry_pairs(entries@).subrange(0, i as int)),
        decreases entries.len() - i,
    {
        push_str(&mut out, "\n");
        push_str(&mut out, entries[i].key.as_str());
        push_str(&mut out, "=");
        push_str(&mut out, entries[i].value.as_str());
        proof {
            let sub = entry_pairs(entries@).subrange(0, i + 1);
            assert(sub.drop_last() =~= entry_pairs(entries@).subrange(0, i as int));
            assert(sub.last() == (entries@[i as int].key@, entries@[i as int].value@));
        }
        i += 1;
    }
    push_str(&mut out, "\n");
    proof {
        assert(entry_pairs(entries@).subrange(0, entries@.len() as int) =~= entry_pairs(entries@));
    }
    chars_to_string(out.as_slice())
}

/// `\nKEY=` for each secret key, in order.
pub open spec fn secret_lines(keys: Seq<Seq<char>>) -> Seq<char>
    decreases keys.len(),
{
    if keys.len() == 0 {
        Seq::empty()
    } else {
        secret_lines(keys.drop_last()) + "\n"@ + keys.last() + "="@
    }
}

/// The secret-key template: a provenance comment, one empty `KEY=` line
/// per secret key, and a final newline.
pub open spec fn secret_template_text(label: Seq<char>, keys: Seq<Seq<char>>) -> Seq<char> {
    "# Generated template from "@ + label + secret_lines(keys) + "\n"@
}

/// Renders the secret-key template.
pub fn render_secret_template(profile_label: &str, secret_keys: &Vec<String>) -> (s: String)
    ensures
        s@ == secret_template_text(profile_label@, secret_keys.deep_view()),
{
    let mut out: Vec<char> = Vec::new();
    push_str(&mut out, "# Generated template from ");
    push_str(&mut out, profile_label);
    let ghost head = out@;
    let mut i: usize = 0;
    while i < secret_keys.len()
        invariant
            i <= secret_keys.len(),
            out@ == head + secret_lines(secret_keys.deep_view().subrange(0, i as int)),
        decreases secret_keys.len() - i,
    {
        push_str(&mut out, "\n");
        push_str(&mut out, secret_keys[i].as_str());
        push_str(&mut out, "=");
        proof {
            let sub = secret_keys.deep_view().subrange(0, i + 1);
            assert(sub.drop_last() =~= secret_keys.deep_view().subrange(0, i as int));
            assert(sub.last() == secret_keys@[i as int]@);
        }
        i += 1;
    }
    push_str(&mut out, "\n");
    proof {
        assert(secret_keys.deep_view().subrange(0, secret_keys.deep_view().len() as int) =~= secret_keys.deep_view());
    }
    chars_to_string(out.as_slice())
}

/// What to do with the operator's `.env` when the template is applied.
#[derive(Debug, Clone, Copy, PartialEq, Eq, Structural)]
pub enum EnvCopy {
    /// Applying the template was not requested.
    NotRequested,
    /// Copy the template over the target.
    Write,
    /// The target exists and overwriting was not forced.
    KeepExisting,
}

/// Decides whether the template is copied to the operator's `.env`: only
/// when requested, and over an existing file only when forced.
pub fn env_copy_decision(apply_env: bool, force_env: bool, target_exists: bool) -> (r: EnvCopy)
    ensures
        r == if !apply_env {
            EnvCopy::NotRequested
        } else if force_env || !target_exists {
            EnvCopy::Write
        } else {
            EnvCopy::KeepExisting
        },
{
    if !apply_env {
        EnvCopy::NotRequested
    } else if force_env || !target_exists {
        EnvCopy::Write
    } else {
        EnvCopy::KeepExisting
    }
}

} // verus!
