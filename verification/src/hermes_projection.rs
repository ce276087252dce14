//! The Hermes command projection: recent communications activity reduced
//! to counts and to the operator hints the dashboard alerts on.

use vstd::prelude::*;
use crate::text::{contains_seq, str_contains, str_eq};

verus! {

/// How many of the values are exactly `t`.
pub open spec fn count_text(values: Seq<Option<String>>, t: Seq<char>) -> nat
    decreases values.len(),
{
    if values.len() == 0 {
        0
    } else {
        count_text(values.drop_last(), t) + match values.last() {
            Some(s) => if s@ == t { 1nat } else { 0nat },
            None => 0nat,
        }
    }
}

/// How many of the flags are explicitly `false`.
pub open spec fn count_false(values: Seq<Option<bool>>) -> nat
    decreases values.len(),
{
    if values.len() == 0 {
        0
    } else {
        count_false(values.drop_last()) + if values.last() == Some(false) { 1nat } else { 0nat }
    }
}

/// Counts the values equal to `t`.
pub fn count_text_equal(values: &Vec<Option<String>>, t: &str) -> (n: usize)
    ensures
        n == count_text(values@, t@),
{
    let mut n: usize = 0;
    let mut i: usize = 0;
    while i < values.len()
        invariant
            i <= values.len(),
            n == count_text(values@.subrange(0, i as int), t@),
            n <= i,
        decreases values.len() - i,
    {
        let hit = match &values[i] {
            Some(s) => str_eq(s.as_str(), t),
            None => false,
        };
        if hit {
            n += 1;
        }
        proof {
            assert(values@.subrange(0, i + 1).drop_last() =~= values@.subrange(0, i as int));
        }
        i += 1;
    }
    proof {
        assert(values@.subrange(0, values@.len() as int) =~= values@);
    }
    n
}

/// Counts the flags that are explicitly `false`.
pub fn count_false_flags(values: &Vec<Option<bool>>) -> (n: usize)
    ensures
        n == count_false(values@),
{
    let mut n: usize = 0;
    let mut i: usize = 0;
    while i < values.len()
        invariant
            i <= values.len(),
            n == count_false(values@.subrange(0, i as int)),
            n <= i,
        decreases values.len() - i,
    {
        if values[i] == Some(false) {
            n += 1;
        }
        proof {
            assert(values@.subrange(0, i + 1).drop_last() =~= values@.subrange(0, i as int));
        }
        i += 1;
    }
    proof {
        assert(values@.subrange(0, values@.len() as int) =~= values@);
    }
    n
}

/// What the projection reads from the Hermes state files.
pub struct HermesSignals {
    /// `event` of each recent reroute metric.
    pub reroute_events: Vec<Option<String>>,
    /// `policy_authorized` of each recent interruption.
    pub interrupt_authorized: Vec<Option<bool>>,
    /// `status` of each recent council session.
    pub council_statuses: Vec<Option<String>>,
    /// `defaults.provider` of the Matrix boardroom contract.
    pub default_provider: Option<String>,
    /// `activation_requirements.federated_rooms_ready` of the contract.
    pub federated_rooms_ready: Option<bool>,
    /// `summary.restart_failed_total` of the fleet recovery state.
    pub restart_failed_total: Option<u64>,
}

/// The boardroom section the dashboard opens on.
#[derive(Debug, Clone, Copy, PartialEq, Eq, Structural)]
pub enum BoardroomSection {
    MatrixBoardrooms,
    CouncilAndInterrupts,
}

impl BoardroomSection {
    /// The section as the projection writes it.
    pub fn label(&self) -> (s: &'static str)
        ensures
            s@ == match *self {
                BoardroomSection::MatrixBoardrooms => "matrix_boardrooms"@,
                BoardroomSection::CouncilAndInterrupts => "council_and_interrupts"@,
            },
    {
        match self {
            BoardroomSection::MatrixBoardrooms => "matrix_boardrooms",
            BoardroomSection::CouncilAndInterrupts => "council_and_interrupts",
        }
    }
}

/// Activity counts and dashboard hints.
pub struct HermesCommandSummary {
    pub deferred_reroutes: usize,
    pub denied_interrupts: usize,
    pub open_councils: usize,
    pub matrix_enabled: bool,
    pub matrix_ready: bool,
    pub boardroom_section: BoardroomSection,
    pub alert_on_matrix_activation_gap: bool,
    pub alert_on_interrupt_denials: bool,
    pub alert_on_reroute_backpressure: bool,
    pub alert_on_fleet_recovery_failure: bool,
}

/// The summary the projection owes for the given signals.
pub open spec fn hermes_summary_of(s: HermesSignals, r: HermesCommandSummary) -> bool {
    let matrix_enabled = match s.default_provider {
        Some(p) => p@ == "matrix"@,
        None => false,
    };
    let matrix_ready = s.federated_rooms_ready == Some(true);
    &&& r.deferred_reroutes == count_text(s.reroute_events@, "deferred"@)
    &&& r.denied_interrupts == count_false(s.interrupt_authorized@)
    &&& r.open_councils == count_text(s.council_statuses@, "open"@)
    &&& r.matrix_enabled == matrix_enabled
    &&& r.matrix_ready == matrix_ready
    &&& r.boardroom_section == if matrix_enabled {
        BoardroomSection::MatrixBoardrooms
    } else {
        BoardroomSection::CouncilAndInterrupts
    }
    &&& r.alert_on_matrix_activation_gap == (matrix_enabled && !matrix_ready)
    &&& r.alert_on_interrupt_denials == (r.denied_interrupts > 0)
    &&& r.alert_on_reroute_backpressure == (r.deferred_reroutes > 0)
    &&& r.alert_on_fleet_recovery_failure == match s.restart_failed_total {
        Some(n) => n > 0,
        None => false,
    }
}

/// Reduces the Hermes signals to counts and hints: deferred reroutes,
/// policy-denied interruptions and open councils are counted; the Matrix
/// boardroom is shown when it is the default provider, with an alert while
/// its federated rooms are not ready.
pub fn summarize_hermes_command(s: &HermesSignals) -> (r: HermesCommandSummary)
    ensures
        hermes_summary_of(*s, r),
{
    let deferred = count_text_equal(&s.reroute_events, "deferred");
    let denied = count_false_flags(&s.interrupt_authorized);
    let open = count_text_equal(&s.council_statuses, "open");
    let matrix_enabled = match &s.default_provider {
        Some(p) => str_eq(p.as_str(), "matrix"),
        None => false,
    };
    let matrix_ready = s.federated_rooms_ready == Some(true);
    let fleet_failed = match s.restart_failed_total {
        Some(n) => n > 0,
        None => false,
    };
    HermesCommandSummary {
        deferred_reroutes: deferred,
        denied_interrupts: denied,
        open_councils: open,
        matrix_enabled,
        matrix_ready,
        boardroom_section: if matrix_enabled {
            BoardroomSection::MatrixBoardrooms
        } else {
            BoardroomSection::CouncilAndInterrupts
        },
        alert_on_matrix_activation_gap: matrix_enabled && !matrix_ready,
        alert_on_interrupt_denials: denied > 0,
        alert_on_reroute_backpressure: deferred > 0,
        alert_on_fleet_recovery_failure: fleet_failed,
    }
}

/// A registry tool belongs to the communications surface when its
/// integration lane mentions communications or Charon.
pub open spec fn is_communications_lane(lane: Option<String>) -> bool {
    match lane {
        Some(l) => contains_seq(l@, "communications"@) || contains_seq(l@, "charon"@),
        None => false,
    }
}

/// The indices, in order, of the tools on the communications surface.
pub open spec fn communications_indices(lanes: Seq<Option<String>>, n: int) -> Seq<usize>
    decreases n,
{
    if n <= 0 {
        Seq::empty()
    } else {
        let prev = communications_indices(lanes, n - 1);
        if is_communications_lane(lanes[n - 1]) { prev.push((n - 1) as usize) } else { prev }
    }
}

/// Picks the registry tools on the communications surface, given each
/// tool's integration lane.
pub fn communications_tool_indices(lanes: &Vec<Option<String>>) -> (out: Vec<usize>)
    ensures
        out@ == communications_indices(lanes@, lanes@.len() as int),
{
    let mut out: Vec<usize> = Vec::new();
    let mut i: usize = 0;
    while i < lanes.len()
        invariant
            i <= lanes.len(),
            out@ == communications_indices(lanes@, i as int),
        decreases lanes.len() - i,
    {
        let hit = match &lanes[i] {
            Some(l) => str_contains(l.as_str(), "communications") || str_contains(l.as_str(), "charon"),
            None => false,
        };
        if hit {
            out.push(i);
        }
        i += 1;
    }
    out
}

proof fn lemma_count_text_positive(values: Seq<Option<String>>, t: Seq<char>)
    ensures
        count_text(values, t) > 0 <==> exists|i: int| 0 <= i < values.len()
            && (#[trigger] values[i] matches Some(x) && x@ == t),
    decreases values.len(),
{
    if values.len() > 0 {
        let prev = values.drop_last();
        lemma_count_text_positive(prev, t);
        if count_text(prev, t) > 0 {
            let i = choose|i: int| 0 <= i < prev.len() && (#[trigger] prev[i] matches Some(x) && x@ == t);
            assert(values[i] == prev[i]);
        }
        if exists|i: int| 0 <= i < values.len() && (#[trigger] values[i] matches Some(x) && x@ == t) {
            let i = choose|i: int| 0 <= i < values.len() && (#[trigger] values[i] matches Some(x) && x@ == t);
            if i < values.len() - 1 {
                assert(prev[i] == values[i]);
            }
        }
    }
}

proof fn lemma_count_false_positive(values: Seq<Option<bool>>)
    ensures
        count_false(values) > 0 <==> exists|i: int| 0 <= i < values.len() && #[trigger] values[i] == Some(false),
    decreases values.len(),
{
    if values.len() > 0 {
        let prev = values.drop_last();
        lemma_count_false_positive(prev);
        if count_false(prev) > 0 {
            let i = choose|i: int| 0 <= i < prev.len() && #[trigger] prev[i] == Some(false);
            assert(values[i] == prev[i]);
        }
        if exists|i: int| 0 <= i < values.len() && #[trigger] values[i] == Some(false) {
            let i = choose|i: int| 0 <= i < values.len() && #[trigger] values[i] == Some(false);
            if i < values.len() - 1 {
                assert(prev[i] == values[i]);
            }
        }
    }
}

/// Law (Hermes alerts): reroute backpressure is flagged exactly when some
/// reroute event is "deferred"; interruption denials exactly when some
/// interruption was not authorized; the Matrix boardroom opens exactly
/// when "matrix" is the default provider, with an activation-gap alert
/// while its federated rooms are not ready; fleet recovery failure exactly
/// when some restart failed; open councils are counted exactly when some
/// council session is "open".
pub proof fn law_hermes_alerts(s: HermesSignals, r: HermesCommandSummary)
    requires
        hermes_summary_of(s, r),
    ensures
        r.alert_on_reroute_backpressure <==> exists|i: int| 0 <= i < s.reroute_events@.len()
            && (#[trigger] s.reroute_events@[i] matches Some(x) && x@ == "deferred"@),
        r.alert_on_interrupt_denials <==> exists|i: int| 0 <= i < s.interrupt_authorized@.len()
            && #[trigger] s.interrupt_authorized@[i] == Some(false),
        (r.boardroom_section == BoardroomSection::MatrixBoardrooms) <==> (s.default_provider matches Some(p) && p@ == "matrix"@),
        r.alert_on_matrix_activation_gap <==> ((s.default_provider matches Some(p) && p@ == "matrix"@)
            && s.federated_rooms_ready != Some(true)),
        r.alert_on_fleet_recovery_failure <==> (s.restart_failed_total matches Some(n) && n > 0),
        r.open_councils > 0 <==> exists|i: int| 0 <= i < s.council_statuses@.len()
            && (#[trigger] s.council_statuses@[i] matches Some(x) && x@ == "open"@),
{
    lemma_count_text_positive(s.council_statuses@, "open"@);
    lemma_count_text_positive(s.reroute_events@, "deferred"@);
    lemma_count_false_positive(s.interrupt_authorized@);
}

} // verus!
