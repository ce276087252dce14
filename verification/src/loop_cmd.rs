//! Rendering for the autonomy-loop driver (`loop tick`, `loop status`).

use vstd::prelude::*;
use crate::text::{decimal, push_decimal, push_str, chars_to_string, starts_with_seq, ends_with_seq,
    str_starts_with, str_ends_with};

verus! {

/// The one-line triad tally printed after a dispatch pass.
pub open spec fn triad_summary_text(
    passes: nat,
    conditionals: nat,
    vetoes: nat,
    blocked: nat,
    unconsulted: nat,
) -> Seq<char> {
    "triad:     "@ + decimal(passes) + " pass, "@ + decimal(conditionals) + " conditional, "@
        + decimal(vetoes) + " VETO recorded, "@ + decimal(blocked) + " blocked by policy, "@
        + decimal(unconsulted) + " unconsulted"@
}

/// Formats the triad tally: passes, conditionals, recorded vetoes,
/// policy blocks and unconsulted tasks.
pub fn format_triad_summary(
    passes: usize,
    conditionals: usize,
    vetoes: usize,
    blocked: usize,
    unconsulted: usize,
) -> (s: String)
    ensures
        s@ == triad_summary_text(
            passes as nat,
            conditionals as nat,
            vetoes as nat,
            blocked as nat,
            unconsulted as nat,
        ),
{
    let mut out: Vec<char> = Vec::new();
    push_str(&mut out, "triad:     ");
    push_decimal(&mut out, passes as u64);
    push_str(&mut out, " pass, ");
    push_decimal(&mut out, conditionals as u64);
    push_str(&mut out, " conditional, ");
    push_decimal(&mut out, vetoes as u64);
    push_str(&mut out, " VETO recorded, ");
    push_decimal(&mut out, blocked as u64);
    push_str(&mut out, " blocked by policy, ");
    push_decimal(&mut out, unconsulted as u64);
    push_str(&mut out, " unconsulted");
    chars_to_string(out.as_slice())
}


/// The planner line of a tick.
pub open spec fn planner_summary_text(
    goals: nat,
    written: nat,
    skipped: nat,
    inactive: nat,
    without_recipe: nat,
    tasks: nat,
    queue: Seq<char>,
) -> Seq<char> {
    "planner:   "@ + decimal(goals) + " goals considered, "@ + decimal(written) + " plans written, "@
        + decimal(skipped) + " skipped (already exist), "@ + decimal(inactive) + " inactive, "@
        + decimal(without_recipe) + " without recipe, "@ + decimal(tasks) + " tasks emitted -> "@ + queue
}

/// Formats the planner line: goals considered, plans written and skipped,
/// inactive goals, goals without a recipe, tasks emitted and the queue.
pub fn format_planner_summary(
    goals: usize,
    written: usize,
    skipped: usize,
    inactive: usize,
    without_recipe: usize,
    tasks: usize,
    queue: &str,
) -> (s: String)
    ensures
        s@ == planner_summary_text(
            goals as nat,
            written as nat,
            skipped as nat,
            inactive as nat,
            without_recipe as nat,
            tasks as nat,
            queue@,
        ),
{
    let mut out: Vec<char> = Vec::new();
    push_str(&mut out, "planner:   ");
    push_decimal(&mut out, goals as u64);
    push_str(&mut out, " goals considered, ");
    push_decimal(&mut out, written as u64);
    push_str(&mut out, " plans written, ");
    push_decimal(&mut out, skipped as u64);
    push_str(&mut out, " skipped (already exist), ");
    push_decimal(&mut out, inactive as u64);
    push_str(&mut out, " inactive, ");
    push_decimal(&mut out, without_recipe as u64);
    push_str(&mut out, " without recipe, ");
    push_decimal(&mut out, tasks as u64);
    push_str(&mut out, " tasks emitted -> ");
    push_str(&mut out, queue);
    chars_to_string(out.as_slice())
}

/// The counts of a dispatch pass that its summary line reports.
pub struct DispatchCounts {
    pub halted: bool,
    pub tasks_seen: usize,
    pub dispatched: usize,
    pub no_route: usize,
    pub already_terminal: usize,
    pub budget_blocked: usize,
    /// The per-tick cap, when the pass reached it.
    pub capped_at: Option<usize>,
}

/// The dispatch line of a tick.
pub open spec fn dispatch_summary_text(d: DispatchCounts) -> Seq<char> {
    if d.halted {
        "dispatch:  HALTED (core/state/HALT present); refused to dispatch new work"@
    } else {
        "dispatch:  "@ + decimal(d.tasks_seen as nat) + " tasks seen, "@ + decimal(d.dispatched as nat)
            + " dispatched, "@ + decimal(d.no_route as nat) + " no-route, "@
            + decimal(d.already_terminal as nat) + " already terminal, "@
            + decimal(d.budget_blocked as nat) + " budget-blocked"@ + match d.capped_at {
                Some(c) => " (CAPPED at "@ + decimal(c as nat) + "/tick)"@,
                None => Seq::empty(),
            }
    }
}

/// Formats the dispatch line: the refusal when the halt file is present,
/// else the pass's counts and, when it hit the cap, the cap.
pub fn format_dispatch_summary(d: &DispatchCounts) -> (s: String)
    ensures
        s@ == dispatch_summary_text(*d),
{
    let mut out: Vec<char> = Vec::new();
    if d.halted {
        push_str(&mut out, "dispatch:  HALTED (core/state/HALT present); refused to dispatch new work");
        proof {
            assert(out@ =~= "dispatch:  HALTED (core/state/HALT present); refused to dispatch new work"@);
        }
        return chars_to_string(out.as_slice());
    }
    push_str(&mut out, "dispatch:  ");
    push_decimal(&mut out, d.tasks_seen as u64);
    push_str(&mut out, " tasks seen, ");
    push_decimal(&mut out, d.dispatched as u64);
    push_str(&mut out, " dispatched, ");
    push_decimal(&mut out, d.no_route as u64);
    push_str(&mut out, " no-route, ");
    push_decimal(&mut out, d.already_terminal as u64);
    push_str(&mut out, " already terminal, ");
    push_decimal(&mut out, d.budget_blocked as u64);
    push_str(&mut out, " budget-blocked");
    let ghost base = out@;
    match d.capped_at {
        Some(c) => {
            push_str(&mut out, " (CAPPED at ");
            push_decimal(&mut out, c as u64);
            push_str(&mut out, "/tick)");
            proof {
                assert(out@ =~= base + (" (CAPPED at "@ + decimal(c as nat) + "/tick)"@));
            }
        },
        None => {
            proof {
                assert(out@ =~= base + Seq::<char>::empty());
            }
        },
    }
    chars_to_string(out.as_slice())
}

/// The market line of a tick.
pub open spec fn market_summary_text(bids: nat, collapses: nat) -> Seq<char> {
    "market:    "@ + decimal(bids) + " bids ledgered, "@ + decimal(collapses) + " market collapses"@
}

/// Formats the market line: bids ledgered and market collapses.
pub fn format_market_summary(bids: usize, collapses: usize) -> (s: String)
    ensures
        s@ == market_summary_text(bids as nat, collapses as nat),
{
    let mut out: Vec<char> = Vec::new();
    push_str(&mut out, "market:    ");
    push_decimal(&mut out, bids as u64);
    push_str(&mut out, " bids ledgered, ");
    push_decimal(&mut out, collapses as u64);
    push_str(&mut out, " market collapses");
    chars_to_string(out.as_slice())
}

/// The reflector line of a tick.
pub open spec fn reflect_summary_text(seen: nat, written: nat, already: nat, unlinked: nat) -> Seq<char> {
    "reflect:   "@ + decimal(seen) + " terminal tasks seen, "@ + decimal(written) + " reflections written, "@
        + decimal(already) + " already reflected, "@ + decimal(unlinked) + " no plan link"@
}

/// Formats the reflector line: terminal tasks seen, reflections written,
/// tasks already reflected and tasks without a plan link.
pub fn format_reflect_summary(seen: usize, written: usize, already: usize, unlinked: usize) -> (s: String)
    ensures
        s@ == reflect_summary_text(seen as nat, written as nat, already as nat, unlinked as nat),
{
    let mut out: Vec<char> = Vec::new();
    push_str(&mut out, "reflect:   ");
    push_decimal(&mut out, seen as u64);
    push_str(&mut out, " terminal tasks seen, ");
    push_decimal(&mut out, written as u64);
    push_str(&mut out, " reflections written, ");
    push_decimal(&mut out, already as u64);
    push_str(&mut out, " already reflected, ");
    push_decimal(&mut out, unlinked as u64);
    push_str(&mut out, " no plan link");
    chars_to_string(out.as_slice())
}

/// The goals line of `loop status`.
pub open spec fn goals_summary_text(total: nat, active: nat) -> Seq<char> {
    "goals:      "@ + decimal(total) + " total, "@ + decimal(active) + " active, "@
        + decimal((total - active) as nat) + " other"@
}

/// Formats the goals line: total, active and other goals.
pub fn format_goals_summary(total: usize, active: usize) -> (s: String)
    requires
        active <= total,
    ensures
        s@ == goals_summary_text(total as nat, active as nat),
{
    let mut out: Vec<char> = Vec::new();
    push_str(&mut out, "goals:      ");
    push_decimal(&mut out, total as u64);
    push_str(&mut out, " total, ");
    push_decimal(&mut out, active as u64);
    push_str(&mut out, " active, ");
    push_decimal(&mut out, (total - active) as u64);
    push_str(&mut out, " other");
    chars_to_string(out.as_slice())
}

/// A plan id belongs to the given day (`YYYYMMDD`): it starts with
/// `plan_` and ends with `_` and the day.
pub open spec fn plan_for_day(id: Seq<char>, day: Seq<char>) -> bool {
    starts_with_seq(id, "plan_"@) && ends_with_seq(id, "_"@ + day)
}

/// Whether the plan id is one of the given day's plans.
pub fn is_plan_for_day(id: &str, day: &str) -> (b: bool)
    ensures
        b == plan_for_day(id@, day@),
{
    let mut suffix: Vec<char> = Vec::new();
    push_str(&mut suffix, "_");
    push_str(&mut suffix, day);
    let suffix = chars_to_string(suffix.as_slice());
    str_starts_with(id, "plan_") && str_ends_with(id, suffix.as_str())
}

/// What seeding does with one seed goal.
#[derive(Debug, Clone, Copy, PartialEq, Eq, Structural)]
pub enum SeedAction {
    /// The goal exists and `--force` was not given.
    Skip,
    /// The goal is new.
    Write,
    /// The goal exists and is overwritten, keeping its creation time.
    Overwrite,
}

/// Decides what seeding does with a goal: an existing goal is kept
/// unless forced, and then overwritten with its creation time kept.
pub fn seed_action(already_present: bool, force: bool) -> (a: SeedAction)
    ensures
        a == if already_present && !force {
            SeedAction::Skip
        } else if already_present {
            SeedAction::Overwrite
        } else {
            SeedAction::Write
        },
{
    if already_present && !force {
        SeedAction::Skip
    } else if already_present {
        SeedAction::Overwrite
    } else {
        SeedAction::Write
    }
}

/// The closing line of goal seeding.
pub open spec fn seed_summary_text(written: nat, skipped: nat) -> Seq<char> {
    "seed-goals: "@ + decimal(written) + " written, "@ + decimal(skipped) + " skipped"@
}

/// Formats the closing line of goal seeding.
pub fn format_seed_summary(written: usize, skipped: usize) -> (s: String)
    ensures
        s@ == seed_summary_text(written as nat, skipped as nat),
{
    let mut out: Vec<char> = Vec::new();
    push_str(&mut out, "seed-goals: ");
    push_decimal(&mut out, written as u64);
    push_str(&mut out, " written, ");
    push_decimal(&mut out, skipped as u64);
    push_str(&mut out, " skipped");
    chars_to_string(out.as_slice())
}

/// The body of the halt file.
pub open spec fn halt_body_text(engaged_at: Seq<char>, reason: Option<Seq<char>>) -> Seq<char> {
    "HALT engaged at "@ + engaged_at + "\nreason: "@ + match reason {
        Some(r) => r,
        None => "(none)"@,
    } + "\n"@
}

/// Renders the halt file: when it was engaged and why.
pub fn halt_body(engaged_at: &str, reason: &Option<String>) -> (s: String)
    ensures
        s@ == halt_body_text(engaged_at@, match reason {
            Some(r) => Some(r@),
            None => None,
        }),
{
    let mut out: Vec<char> = Vec::new();
    push_str(&mut out, "HALT engaged at ");
    push_str(&mut out, engaged_at);
    push_str(&mut out, "\nreason: ");
    match reason {
        Some(r) => push_str(&mut out, r.as_str()),
        None => push_str(&mut out, "(none)"),
    }
    push_str(&mut out, "\n");
    chars_to_string(out.as_slice())
}

/// Law (daily plans): the plan id "plan_<anything>_<day>" belongs to that
/// day, and an id that does not start with "plan_" belongs to none.
pub proof fn law_plan_ids_by_day(middle: Seq<char>, day: Seq<char>, id: Seq<char>)
    ensures
        plan_for_day("plan_"@ + middle + "_"@ + day, day),
        !starts_with_seq(id, "plan_"@) ==> !plan_for_day(id, day),
{
    reveal_strlit("plan_");
    reveal_strlit("_");
    let full = "plan_"@ + middle + "_"@ + day;
    let suffix = "_"@ + day;
    assert(full.subrange(0, 5) =~= "plan_"@);
    assert(full.subrange(full.len() - suffix.len(), full.len() as int) =~= suffix);
}

} // verus!
